use picol::{PicolParser, PicolType};

fn tokens(script: &str) -> Vec<(PicolType, String)> {
    let text = script.to_string();
    let mut parser = PicolParser::new(&text);
    let mut out = Vec::new();
    loop {
        parser.get_token();
        out.push((parser.typ(), parser.token()));
        if parser.typ() == PicolType::PTEof {
            return out;
        }
        assert!(out.len() <= 2 * script.len() + 2);
    }
}

fn tok(typ: PicolType, text: &str) -> (PicolType, String) {
    (typ, text.to_string())
}

#[test]
fn lexer_empty_input() {
    assert_eq!(tokens(""), vec![tok(PicolType::PTEof, "")]);
}

#[test]
fn lexer_ends_the_last_command() {
    assert_eq!(
        tokens("a"),
        vec![tok(PicolType::PTEsc, "a"), tok(PicolType::PTEol, ""), tok(PicolType::PTEof, "")]
    );
}

#[test]
fn lexer_simple_command() {
    assert_eq!(
        tokens("set x  5\n"),
        vec![
            tok(PicolType::PTEsc, "set"),
            tok(PicolType::PTSep, " "),
            tok(PicolType::PTEsc, "x"),
            tok(PicolType::PTSep, "  "),
            tok(PicolType::PTEsc, "5"),
            tok(PicolType::PTEol, "\n"),
            tok(PicolType::PTEof, ""),
        ]
    );
}

#[test]
fn lexer_terminator_run() {
    assert_eq!(
        tokens("a ;\n ; b"),
        vec![
            tok(PicolType::PTEsc, "a"),
            tok(PicolType::PTSep, " "),
            tok(PicolType::PTEol, ";\n ; "),
            tok(PicolType::PTEsc, "b"),
            tok(PicolType::PTEol, ""),
            tok(PicolType::PTEof, ""),
        ]
    );
}

#[test]
fn lexer_variable_and_command() {
    assert_eq!(
        tokens("a$b_1[c [d] {]}]e"),
        vec![
            tok(PicolType::PTEsc, "a"),
            tok(PicolType::PTVar, "b_1"),
            tok(PicolType::PTCmd, "c [d] {]}"),
            tok(PicolType::PTEsc, "e"),
            tok(PicolType::PTEol, ""),
            tok(PicolType::PTEof, ""),
        ]
    );
}

#[test]
fn lexer_command_escape_protects_bracket() {
    assert_eq!(
        tokens("[a \\] b]"),
        vec![tok(PicolType::PTCmd, "a \\] b"), tok(PicolType::PTEol, ""), tok(PicolType::PTEof, "")]
    );
}

#[test]
fn lexer_lone_dollar() {
    assert_eq!(
        tokens("$ $"),
        vec![
            tok(PicolType::PTStr, "$"),
            tok(PicolType::PTSep, " "),
            tok(PicolType::PTStr, "$"),
            tok(PicolType::PTEol, ""),
            tok(PicolType::PTEof, ""),
        ]
    );
}

#[test]
fn lexer_braces() {
    assert_eq!(
        tokens("{a {b} $c \\} d} x{y}"),
        vec![
            tok(PicolType::PTStr, "a {b} $c \\} d"),
            tok(PicolType::PTSep, " "),
            tok(PicolType::PTEsc, "x{y}"),
            tok(PicolType::PTEol, ""),
            tok(PicolType::PTEof, ""),
        ]
    );
}

#[test]
fn lexer_brace_after_literal_text_opens_again() {
    assert_eq!(
        tokens("{a}{b}"),
        vec![
            tok(PicolType::PTStr, "a"),
            tok(PicolType::PTStr, "b"),
            tok(PicolType::PTEol, ""),
            tok(PicolType::PTEof, ""),
        ]
    );
}

#[test]
fn lexer_quotes() {
    assert_eq!(
        tokens("\"a b\" \"c $d e\""),
        vec![
            tok(PicolType::PTEsc, "a b"),
            tok(PicolType::PTSep, " "),
            tok(PicolType::PTEsc, "c "),
            tok(PicolType::PTVar, "d"),
            tok(PicolType::PTEsc, " e"),
            tok(PicolType::PTEol, ""),
            tok(PicolType::PTEof, ""),
        ]
    );
}

#[test]
fn lexer_comment() {
    assert_eq!(
        tokens("# one\na # two\n#three"),
        vec![
            tok(PicolType::PTEol, "\n"),
            tok(PicolType::PTEsc, "a"),
            tok(PicolType::PTSep, " "),
            tok(PicolType::PTEsc, "#"),
            tok(PicolType::PTSep, " "),
            tok(PicolType::PTEsc, "two"),
            tok(PicolType::PTEol, "\n"),
            tok(PicolType::PTEof, ""),
        ]
    );
}

#[test]
fn lexer_non_ascii_text() {
    assert_eq!(
        tokens("\u{fc}b\u{e9}r $\u{3b1}\u{3b2} {\u{4e2d}}"),
        vec![
            tok(PicolType::PTEsc, "\u{fc}b\u{e9}r"),
            tok(PicolType::PTSep, " "),
            tok(PicolType::PTVar, "\u{3b1}\u{3b2}"),
            tok(PicolType::PTSep, " "),
            tok(PicolType::PTStr, "\u{4e2d}"),
            tok(PicolType::PTEol, ""),
            tok(PicolType::PTEof, ""),
        ]
    );
}

#[test]
fn lexer_single_scanners() {
    let text = "  \t ab".to_string();
    let mut p = PicolParser::new(&text);
    assert_eq!(p.len(), 6);
    p.parse_sep();
    assert_eq!((p.typ(), p.token(), p.len()), (PicolType::PTSep, "  \t ".to_string(), 2));

    let text = " ;\n x".to_string();
    let mut p = PicolParser::new(&text);
    p.parse_eol();
    assert_eq!((p.typ(), p.token(), p.len()), (PicolType::PTEol, " ;\n ".to_string(), 1));

    let text = "[a [b] c] d".to_string();
    let mut p = PicolParser::new(&text);
    p.parse_command();
    assert_eq!((p.typ(), p.token(), p.len()), (PicolType::PTCmd, "a [b] c".to_string(), 2));

    let text = "$name.rest".to_string();
    let mut p = PicolParser::new(&text);
    p.parse_var();
    assert_eq!((p.typ(), p.token(), p.len()), (PicolType::PTVar, "name".to_string(), 5));

    let text = "{a {b}} c".to_string();
    let mut p = PicolParser::new(&text);
    p.parse_brace();
    assert_eq!((p.typ(), p.token(), p.len()), (PicolType::PTStr, "a {b}".to_string(), 2));

    let text = "abc def".to_string();
    let mut p = PicolParser::new(&text);
    p.parse_string();
    assert_eq!((p.typ(), p.token(), p.len()), (PicolType::PTEsc, "abc".to_string(), 4));

    let text = "# c\nx".to_string();
    let mut p = PicolParser::new(&text);
    p.parse_comment();
    assert_eq!(p.len(), 2);
}
