//! The lexer: it cuts a script into tokens one at a time, with no syntax tree in between.
//!
//! What the lexer does is defined by the spec function [`next_token`], a function from the
//! script and the cursor before a token to the cursor after it. [`PicolParser`] is the
//! executable lexer, and each of its methods is proved to compute its spec function.

use vstd::prelude::*;
use vstd::string::*;
use crate::text::{CharClass, run_end, lemma_run_end, scan_run, to_chars};

verus! {

/// The kind of a token.
#[derive(Clone, Copy, Debug, PartialEq, Eq, Structural)]
pub enum PicolType {
    /// A piece of a word, bare or inside double quotes. Backslashes in it are kept as written.
    PTEsc,
    /// Literal text: a braced word, or a `$` that names no variable.
    PTStr,
    /// A script in square brackets, to be evaluated and replaced by its result.
    PTCmd,
    /// The name of a variable, to be replaced by its value.
    PTVar,
    /// Blanks between two words.
    PTSep,
    /// The end of a command.
    PTEol,
    /// The end of the script.
    PTEof,
}

/// The state of the lexer between two tokens.
pub struct Cursor {
    /// Where the next token begins.
    pub pos: int,
    /// Where the text of the last token begins.
    pub start: int,
    /// Where the text of the last token ends (exclusive).
    pub end: int,
    /// The kind of the last token.
    pub typ: PicolType,
    /// Whether the last token left a double-quoted word open.
    pub inside_quotes: bool,
}

impl Cursor {
    /// The cursor before the first token: a script begins where a command may begin.
    pub open spec fn initial() -> Cursor {
        Cursor { pos: 0, start: 0, end: 0, typ: PicolType::PTEol, inside_quotes: false }
    }

    /// The cursor and its last token lie within a text of `len` characters.
    pub open spec fn within(self, len: nat) -> bool {
        0 <= self.start <= self.end <= self.pos <= len
    }

    /// Whether a token that begins here begins a word: the last token ended a command, was a
    /// separator, or was literal text.
    pub open spec fn at_new_word(self) -> bool {
        self.typ == PicolType::PTEol || self.typ == PicolType::PTSep || self.typ
            == PicolType::PTStr
    }

    /// The text of the last token.
    pub open spec fn token(self, text: Seq<char>) -> Seq<char> {
        text.subrange(self.start, self.end)
    }
}

/// A separator: the run of blanks at the cursor.
pub open spec fn sep_token(text: Seq<char>, c: Cursor) -> Cursor {
    let end = run_end(text, c.pos, CharClass::Space);
    Cursor { pos: end, start: c.pos, end, typ: PicolType::PTSep, inside_quotes: c.inside_quotes }
}

/// The end of a command: the run of newlines, `;` and blanks at the cursor.
pub open spec fn eol_token(text: Seq<char>, c: Cursor) -> Cursor {
    let end = run_end(text, c.pos, CharClass::Terminator);
    Cursor { pos: end, start: c.pos, end, typ: PicolType::PTEol, inside_quotes: c.inside_quotes }
}

/// Where the scan of a bracketed script stops, when it stands at `i` with `level` brackets
/// and `blevel` braces open: at the `]` that closes the first bracket, or at the end of the
/// text. Brackets count only outside braces, and a backslash protects the character after it.
pub open spec fn command_end(text: Seq<char>, i: int, level: int, blevel: int) -> int
    decreases text.len() - i,
{
    if 0 <= i < text.len() {
        let c = text[i];
        if c == '[' && blevel == 0 {
            command_end(text, i + 1, level + 1, blevel)
        } else if c == ']' && blevel == 0 {
            if level == 1 {
                i
            } else {
                command_end(text, i + 1, level - 1, blevel)
            }
        } else if c == '{' {
            command_end(text, i + 1, level, blevel + 1)
        } else if c == '}' {
            command_end(text, i + 1, level, blevel - 1)
        } else if c == '\\' && i + 1 < text.len() {
            command_end(text, i + 2, level, blevel)
        } else {
            command_end(text, i + 1, level, blevel)
        }
    } else {
        i
    }
}

/// A command substitution: the cursor stands at `[`; the token is the text up to the matching
/// `]`, which is consumed and left out of the token.
pub open spec fn command_token(text: Seq<char>, c: Cursor) -> Cursor {
    let end = command_end(text, c.pos + 1, 1, 0);
    Cursor {
        pos: if end < text.len() { end + 1 } else { end },
        start: c.pos + 1,
        end,
        typ: PicolType::PTCmd,
        inside_quotes: c.inside_quotes,
    }
}

/// A variable substitution: the cursor stands at `$`; the token is the longest name after it.
/// Where no name follows, the token is the `$` itself, as literal text.
pub open spec fn var_token(text: Seq<char>, c: Cursor) -> Cursor {
    let end = run_end(text, c.pos + 1, CharClass::Name);
    if end == c.pos + 1 {
        Cursor {
            pos: c.pos + 1,
            start: c.pos,
            end: c.pos + 1,
            typ: PicolType::PTStr,
            inside_quotes: c.inside_quotes,
        }
    } else {
        Cursor {
            pos: end,
            start: c.pos + 1,
            end,
            typ: PicolType::PTVar,
            inside_quotes: c.inside_quotes,
        }
    }
}

/// Where the scan of a braced word stops, when it stands at `i` with `level` braces open: at
/// the `}` that closes the first brace, or at the end of the text. A backslash protects the
/// character after it.
pub open spec fn brace_end(text: Seq<char>, i: int, level: int) -> int
    decreases text.len() - i,
{
    if 0 <= i < text.len() {
        let c = text[i];
        if c == '\\' && i + 1 < text.len() {
            brace_end(text, i + 2, level)
        } else if c == '}' {
            if level == 1 {
                i
            } else {
                brace_end(text, i + 1, level - 1)
            }
        } else if c == '{' {
            brace_end(text, i + 1, level + 1)
        } else {
            brace_end(text, i + 1, level)
        }
    } else {
        i
    }
}

/// A braced word: the cursor stands at `{`; the token is the text up to the matching `}`,
/// taken literally. The closing brace is consumed and left out of the token.
pub open spec fn brace_token(text: Seq<char>, c: Cursor) -> Cursor {
    let end = brace_end(text, c.pos + 1, 1);
    Cursor {
        pos: if end < text.len() { end + 1 } else { end },
        start: c.pos + 1,
        end,
        typ: PicolType::PTStr,
        inside_quotes: c.inside_quotes,
    }
}

/// Where the scan of a piece of a word stops, when it stands at `i`: at the end of the text, at
/// `$` or `[`, outside quotes at a blank or a terminator, inside quotes at the closing `"`.
/// A backslash protects the character after it.
pub open spec fn string_end(text: Seq<char>, i: int, quoted: bool) -> int
    decreases text.len() - i,
{
    if 0 <= i < text.len() {
        let c = text[i];
        if c == '\\' {
            if i + 1 < text.len() {
                string_end(text, i + 2, quoted)
            } else {
                string_end(text, i + 1, quoted)
            }
        } else if c == '$' || c == '[' {
            i
        } else if CharClass::Terminator.contains(c) && !quoted {
            i
        } else if c == '"' && quoted {
            i
        } else {
            string_end(text, i + 1, quoted)
        }
    } else {
        i
    }
}

/// A piece of a word. At the beginning of a word, `{` opens a braced word and `"` a quoted
/// one. The token ends where [`string_end`] says; a closing `"` is consumed, left out of the
/// token, and ends the quoted word.
pub open spec fn string_token(text: Seq<char>, c: Cursor) -> Cursor {
    if c.at_new_word() && 0 <= c.pos < text.len() && text[c.pos] == '{' {
        brace_token(text, c)
    } else {
        let opens = c.at_new_word() && 0 <= c.pos < text.len() && text[c.pos] == '"';
        let quoted = c.inside_quotes || opens;
        let start = if opens { c.pos + 1 } else { c.pos };
        let end = string_end(text, start, quoted);
        let closes = quoted && end < text.len() && text[end] == '"';
        Cursor {
            pos: if closes { end + 1 } else { end },
            start,
            end,
            typ: PicolType::PTEsc,
            inside_quotes: quoted && !closes,
        }
    }
}

/// A comment: everything up to the end of the line is skipped, and no token is made.
pub open spec fn skip_comment(text: Seq<char>, c: Cursor) -> Cursor {
    Cursor { pos: run_end(text, c.pos, CharClass::Line), ..c }
}

/// The next token. At the end of the text the lexer first ends the last command, if it is
/// still open, and then reports the end of the script. Elsewhere the character at the
/// cursor decides: a blank or a terminator is part of the word inside quotes and a
/// separator or the end of a command outside; `[` and `$` begin substitutions; `#` begins a
/// comment where a command may begin, after which the lexer starts over; anything else is
/// a piece of a word.
pub open spec fn next_token(text: Seq<char>, c: Cursor) -> Cursor
    decreases text.len() - c.pos,
{
    if 0 <= c.pos < text.len() {
        let ch = text[c.pos];
        if CharClass::Space.contains(ch) {
            if c.inside_quotes {
                string_token(text, c)
            } else {
                sep_token(text, c)
            }
        } else if ch == '\n' || ch == ';' {
            if c.inside_quotes {
                string_token(text, c)
            } else {
                eol_token(text, c)
            }
        } else if ch == '[' {
            command_token(text, c)
        } else if ch == '$' {
            var_token(text, c)
        } else if ch == '#' && c.typ == PicolType::PTEol {
            proof {
                lemma_run_end(text, c.pos + 1, CharClass::Line);
            }
            next_token(text, skip_comment(text, c))
        } else {
            string_token(text, c)
        }
    } else {
        Cursor {
            pos: c.pos,
            start: c.pos,
            end: c.pos,
            typ: if c.typ != PicolType::PTEol && c.typ != PicolType::PTEof {
                PicolType::PTEol
            } else {
                PicolType::PTEof
            },
            inside_quotes: c.inside_quotes,
        }
    }
}

/// The scan of a bracketed script stops within the text.
pub proof fn lemma_command_end(text: Seq<char>, i: int, level: int, blevel: int)
    requires
        0 <= i <= text.len(),
    ensures
        i <= command_end(text, i, level, blevel) <= text.len(),
    decreases text.len() - i,
{
    if i < text.len() {
        let c = text[i];
        if c == '[' && blevel == 0 {
            lemma_command_end(text, i + 1, level + 1, blevel);
        } else if c == ']' && blevel == 0 {
            if level != 1 {
                lemma_command_end(text, i + 1, level - 1, blevel);
            }
        } else if c == '{' {
            lemma_command_end(text, i + 1, level, blevel + 1);
        } else if c == '}' {
            lemma_command_end(text, i + 1, level, blevel - 1);
        } else if c == '\\' && i + 1 < text.len() {
            lemma_command_end(text, i + 2, level, blevel);
        } else {
            lemma_command_end(text, i + 1, level, blevel);
        }
    }
}

/// The scan of a braced word stops within the text.
pub proof fn lemma_brace_end(text: Seq<char>, i: int, level: int)
    requires
        0 <= i <= text.len(),
    ensures
        i <= brace_end(text, i, level) <= text.len(),
    decreases text.len() - i,
{
    if i < text.len() {
        let c = text[i];
        if c == '\\' && i + 1 < text.len() {
            lemma_brace_end(text, i + 2, level);
        } else if c == '}' {
            if level != 1 {
                lemma_brace_end(text, i + 1, level - 1);
            }
        } else if c == '{' {
            lemma_brace_end(text, i + 1, level + 1);
        } else {
            lemma_brace_end(text, i + 1, level);
        }
    }
}

/// The scan of a piece of a word stops within the text, and past a first character that
/// does not stop it.
pub proof fn lemma_string_end(text: Seq<char>, i: int, quoted: bool)
    requires
        0 <= i <= text.len(),
    ensures
        i <= string_end(text, i, quoted) <= text.len(),
    decreases text.len() - i,
{
    if i < text.len() {
        let c = text[i];
        if c == '\\' {
            if i + 1 < text.len() {
                lemma_string_end(text, i + 2, quoted);
            } else {
                lemma_string_end(text, i + 1, quoted);
            }
        } else if c == '$' || c == '[' {
        } else if CharClass::Terminator.contains(c) && !quoted {
        } else if c == '"' && quoted {
        } else {
            lemma_string_end(text, i + 1, quoted);
        }
    }
}

/// Every token lies within the text, and every token but those at the end of the text
/// moves the cursor forward.
pub proof fn lemma_next_token(text: Seq<char>, c: Cursor)
    requires
        0 <= c.pos <= text.len(),
    ensures
        next_token(text, c).within(text.len()),
        c.pos <= next_token(text, c).pos,
        c.pos < text.len() ==> c.pos < next_token(text, c).pos,
        c.pos == text.len() ==> next_token(text, c).pos == c.pos && (next_token(text, c).typ
            == PicolType::PTEol || next_token(text, c).typ == PicolType::PTEof),
        c.pos == text.len() && (c.typ == PicolType::PTEol || c.typ == PicolType::PTEof)
            ==> next_token(text, c).typ == PicolType::PTEof,
    decreases text.len() - c.pos,
{
    if c.pos < text.len() {
        let ch = text[c.pos];
        lemma_run_end(text, c.pos, CharClass::Space);
        lemma_run_end(text, c.pos, CharClass::Terminator);
        lemma_run_end(text, c.pos, CharClass::Line);
        lemma_run_end(text, c.pos + 1, CharClass::Name);
        lemma_command_end(text, c.pos + 1, 1, 0);
        lemma_brace_end(text, c.pos + 1, 1);
        lemma_string_end(text, c.pos, true);
        lemma_string_end(text, c.pos, false);
        lemma_string_end(text, c.pos + 1, true);
        lemma_string_end(text, c.pos + 1, false);
        if c.pos + 2 <= text.len() {
            lemma_string_end(text, c.pos + 2, true);
            lemma_string_end(text, c.pos + 2, false);
        }
        if ch == '#' && c.typ == PicolType::PTEol {
            lemma_run_end(text, c.pos + 1, CharClass::Line);
            lemma_next_token(text, skip_comment(text, c));
        }
    }
}

/// The executable lexer over one script.
pub struct PicolParser<'a> {
    string: &'a str,
    chars: Vec<char>,
    pos: usize,
    start: usize,
    end: usize,
    typ: PicolType,
    inside_quotes: bool,
}

impl<'a> PicolParser<'a> {
    /// The script that the lexer reads.
    pub closed spec fn text(&self) -> Seq<char> {
        self.string@
    }

    /// The state of the lexer.
    pub closed spec fn cursor(&self) -> Cursor {
        Cursor {
            pos: self.pos as int,
            start: self.start as int,
            end: self.end as int,
            typ: self.typ,
            inside_quotes: self.inside_quotes,
        }
    }

    /// The lexer is consistent: its cursor and its last token lie within the script.
    pub closed spec fn wf(&self) -> bool {
        &&& self.chars@ == self.string@
        &&& self.start <= self.end <= self.pos <= self.chars.len()
    }

    /// A consistent lexer has its cursor within the script.
    pub proof fn lemma_wf(&self)
        requires
            self.wf(),
        ensures
            self.cursor().within(self.text().len()),
    {
    }

    /// A lexer at the beginning of `s`.
    pub fn new(s: &'a String) -> (p: PicolParser<'a>)
        ensures
            p.wf(),
            p.text() == s@,
            p.cursor() == Cursor::initial(),
    {
        let string = s.as_str();
        PicolParser {
            string,
            chars: to_chars(string),
            pos: 0,
            start: 0,
            end: 0,
            typ: PicolType::PTEol,
            inside_quotes: false,
        }
    }

    /// The kind of the last token.
    pub fn typ(&self) -> (t: PicolType)
        ensures
            t == self.cursor().typ,
    {
        self.typ
    }

    /// The number of characters that are left to read.
    pub fn len(&self) -> (n: usize)
        requires
            self.wf(),
        ensures
            n == self.text().len() - self.cursor().pos,
    {
        self.chars.len() - self.pos
    }

    /// The text of the last token.
    pub fn token(&self) -> (t: String)
        requires
            self.wf(),
        ensures
            t@ == self.cursor().token(self.text()),
    {
        String::from_str(self.string.substring_char(self.start, self.end))
    }

    /// Reads a separator.
    pub fn parse_sep(&mut self)
        requires
            old(self).wf(),
        ensures
            final(self).wf(),
            final(self).text() == old(self).text(),
            final(self).cursor() == sep_token(old(self).text(), old(self).cursor()),
    {
        let end = scan_run(&self.chars, self.pos, CharClass::Space);
        self.start = self.pos;
        self.pos = end;
        self.end = end;
        self.typ = PicolType::PTSep;
    }

    /// Reads the end of a command.
    pub fn parse_eol(&mut self)
        requires
            old(self).wf(),
        ensures
            final(self).wf(),
            final(self).text() == old(self).text(),
            final(self).cursor() == eol_token(old(self).text(), old(self).cursor()),
    {
        let end = scan_run(&self.chars, self.pos, CharClass::Terminator);
        self.start = self.pos;
        self.pos = end;
        self.end = end;
        self.typ = PicolType::PTEol;
    }

    /// Reads a command substitution; the cursor stands at its `[`.
    pub fn parse_command(&mut self)
        requires
            old(self).wf(),
            old(self).cursor().pos < old(self).text().len(),
        ensures
            final(self).wf(),
            final(self).text() == old(self).text(),
            final(self).cursor() == command_token(old(self).text(), old(self).cursor()),
    {
        let len = self.chars.len();
        let start = self.pos + 1;
        let mut pos: usize = start;
        let mut level: usize = 1;
        let mut blevel: i128 = 0;
        loop
            invariant
                len == self.chars.len(),
                1 <= start <= pos <= len,
                1 <= level <= pos - start + 1,
                -(pos - start) <= blevel <= pos - start,
                command_end(self.chars@, start as int, 1, 0) == command_end(
                    self.chars@,
                    pos as int,
                    level as int,
                    blevel as int,
                ),
            ensures
                command_end(self.chars@, start as int, 1, 0) == pos,
            decreases len - pos,
        {
            if pos >= len {
                break ;
            }
            let c = self.chars[pos];
            if c == '[' && blevel == 0 {
                level += 1;
            } else if c == ']' && blevel == 0 {
                if level == 1 {
                    break ;
                }
                level -= 1;
            } else if c == '{' {
                blevel += 1;
            } else if c == '}' {
                blevel -= 1;
            } else if c == '\\' && pos + 1 < len {
                pos += 1;
            }
            pos += 1;
        }
        self.start = start;
        self.end = pos;
        self.typ = PicolType::PTCmd;
        self.pos = if pos < len { pos + 1 } else { pos };
    }

    /// Reads a variable substitution; the cursor stands at its `$`.
    pub fn parse_var(&mut self)
        requires
            old(self).wf(),
            old(self).cursor().pos < old(self).text().len(),
        ensures
            final(self).wf(),
            final(self).text() == old(self).text(),
            final(self).cursor() == var_token(old(self).text(), old(self).cursor()),
    {
        let start = self.pos + 1;
        let end = scan_run(&self.chars, start, CharClass::Name);
        if end == start {
            self.start = self.pos;
            self.end = start;
            self.pos = start;
            self.typ = PicolType::PTStr;
        } else {
            self.start = start;
            self.end = end;
            self.pos = end;
            self.typ = PicolType::PTVar;
        }
    }

    /// Reads a braced word; the cursor stands at its `{`.
    pub fn parse_brace(&mut self)
        requires
            old(self).wf(),
            old(self).cursor().pos < old(self).text().len(),
        ensures
            final(self).wf(),
            final(self).text() == old(self).text(),
            final(self).cursor() == brace_token(old(self).text(), old(self).cursor()),
    {
        let len = self.chars.len();
        let start = self.pos + 1;
        let mut pos: usize = start;
        let mut level: usize = 1;
        loop
            invariant
                len == self.chars.len(),
                1 <= start <= pos <= len,
                1 <= level <= pos - start + 1,
                brace_end(self.chars@, start as int, 1) == brace_end(
                    self.chars@,
                    pos as int,
                    level as int,
                ),
            ensures
                brace_end(self.chars@, start as int, 1) == pos,
            decreases len - pos,
        {
            if pos >= len {
                break ;
            }
            let c = self.chars[pos];
            if c == '\\' && pos + 1 < len {
                pos += 1;
            } else if c == '}' {
                if level == 1 {
                    break ;
                }
                level -= 1;
            } else if c == '{' {
                level += 1;
            }
            pos += 1;
        }
        self.start = start;
        self.end = pos;
        self.typ = PicolType::PTStr;
        self.pos = if pos < len { pos + 1 } else { pos };
    }

    /// Reads a piece of a word.
    pub fn parse_string(&mut self)
        requires
            old(self).wf(),
        ensures
            final(self).wf(),
            final(self).text() == old(self).text(),
            final(self).cursor() == string_token(old(self).text(), old(self).cursor()),
    {
        let len = self.chars.len();
        let new_word = match self.typ {
            PicolType::PTEol | PicolType::PTSep | PicolType::PTStr => true,
            _ => false,
        };
        let mut pos: usize = self.pos;
        let mut quoted = self.inside_quotes;
        if new_word && pos < len {
            let c = self.chars[pos];
            if c == '{' {
                self.parse_brace();
                return ;
            } else if c == '"' {
                quoted = true;
                pos += 1;
            }
        }
        let start = pos;
        loop
            invariant
                len == self.chars.len(),
                start <= pos <= len,
                string_end(self.chars@, start as int, quoted) == string_end(
                    self.chars@,
                    pos as int,
                    quoted,
                ),
            ensures
                string_end(self.chars@, start as int, quoted) == pos,
            decreases len - pos,
        {
            if pos >= len {
                break ;
            }
            let c = self.chars[pos];
            if c == '\\' {
                if pos + 1 < len {
                    pos += 1;
                }
            } else if c == '$' || c == '[' {
                break ;
            } else if CharClass::Terminator.has(c) && !quoted {
                break ;
            } else if c == '"' && quoted {
                break ;
            }
            pos += 1;
        }
        self.start = start;
        self.end = pos;
        self.typ = PicolType::PTEsc;
        if quoted && pos < len && self.chars[pos] == '"' {
            self.pos = pos + 1;
            self.inside_quotes = false;
        } else {
            self.pos = pos;
            self.inside_quotes = quoted;
        }
    }

    /// Skips a comment.
    pub fn parse_comment(&mut self)
        requires
            old(self).wf(),
        ensures
            final(self).wf(),
            final(self).text() == old(self).text(),
            final(self).cursor() == skip_comment(old(self).text(), old(self).cursor()),
    {
        self.pos = scan_run(&self.chars, self.pos, CharClass::Line);
    }

    /// Reads the next token.
    pub fn get_token(&mut self)
        requires
            old(self).wf(),
        ensures
            final(self).wf(),
            final(self).text() == old(self).text(),
            final(self).cursor() == next_token(old(self).text(), old(self).cursor()),
    {
        let len = self.chars.len();
        loop
            invariant
                self.wf(),
                len == self.chars.len(),
                self.text() == old(self).text(),
                next_token(self.text(), self.cursor()) == next_token(
                    old(self).text(),
                    old(self).cursor(),
                ),
            decreases len - self.pos,
        {
            if self.pos >= len {
                match self.typ {
                    PicolType::PTEol | PicolType::PTEof => {
                        self.typ = PicolType::PTEof;
                    },
                    _ => {
                        self.typ = PicolType::PTEol;
                    },
                }
                self.start = self.pos;
                self.end = self.pos;
                return ;
            }
            let c = self.chars[self.pos];
            if c == ' ' || c == '\t' || c == '\r' {
                if self.inside_quotes {
                    self.parse_string();
                } else {
                    self.parse_sep();
                }
                return ;
            } else if c == '\n' || c == ';' {
                if self.inside_quotes {
                    self.parse_string();
                } else {
                    self.parse_eol();
                }
                return ;
            } else if c == '[' {
                self.parse_command();
                return ;
            } else if c == '$' {
                self.parse_var();
                return ;
            } else if c == '#' && self.typ == PicolType::PTEol {
                proof {
                    lemma_run_end(self.chars@, self.pos as int, CharClass::Line);
                }
                self.parse_comment();
            } else {
                self.parse_string();
                return ;
            }
        }
    }
}

} // verus!
