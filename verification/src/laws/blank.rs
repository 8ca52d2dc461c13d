//! Scripts without words: blanks, ends of commands and comments.

use vstd::prelude::*;
use crate::lexer::{
    Cursor, PicolType, eol_token, lemma_next_token, next_token, sep_token, skip_comment,
};
use crate::semantics::{PicolResult, State, eval_script, eval_tokens, tokens_left};
use crate::text::{CharClass, lemma_run_end, run_end};

verus! {

/// Where the reading of a script without words stands before one of its characters.
pub enum Blank {
    /// At the beginning of the script: a command may begin.
    Start,
    /// After blanks at the beginning of the script: a word is due.
    Blanks,
    /// After the end of a command and the blanks that follow it: a command may begin.
    Terminators,
    /// Inside a comment.
    Comment,
}

/// Whether `text` from `i` on holds nothing but blanks, ends of commands and comments.
/// A comment begins with `#` where a command may begin and ends before the next newline.
pub open spec fn blank_from(text: Seq<char>, i: int, mode: Blank) -> bool
    decreases text.len() - i,
{
    if 0 <= i < text.len() {
        let c = text[i];
        match mode {
            Blank::Comment => blank_from(
                text,
                i + 1,
                if c == '\n' { Blank::Terminators } else { Blank::Comment },
            ),
            Blank::Blanks => if CharClass::Space.contains(c) {
                blank_from(text, i + 1, Blank::Blanks)
            } else {
                (c == '\n' || c == ';') && blank_from(text, i + 1, Blank::Terminators)
            },
            Blank::Start => if CharClass::Space.contains(c) {
                blank_from(text, i + 1, Blank::Blanks)
            } else if c == '#' {
                blank_from(text, i + 1, Blank::Comment)
            } else {
                (c == '\n' || c == ';') && blank_from(text, i + 1, Blank::Terminators)
            },
            Blank::Terminators => if c == '#' {
                blank_from(text, i + 1, Blank::Comment)
            } else {
                CharClass::Terminator.contains(c) && blank_from(text, i + 1, Blank::Terminators)
            },
        }
    } else {
        true
    }
}

/// A script that holds nothing but blanks, ends of commands and comments.
pub open spec fn blank_script(text: Seq<char>) -> bool {
    blank_from(text, 0, Blank::Start)
}

/// What is blank from `i` on is blank from the end of the run of `class` on, in the mode
/// that reads the run.
proof fn lemma_blank_run(text: Seq<char>, i: int, mode: Blank, class: CharClass)
    requires
        0 <= i <= text.len(),
        blank_from(text, i, mode),
        match mode {
            Blank::Blanks => class == CharClass::Space,
            Blank::Terminators => class == CharClass::Terminator,
            Blank::Comment => class == CharClass::Line,
            Blank::Start => false,
        },
    ensures
        blank_from(text, run_end(text, i, class), mode),
    decreases text.len() - i,
{
    if i < text.len() && class.contains(text[i]) {
        lemma_blank_run(text, i + 1, mode, class);
    }
}

/// The rest of a script without words changes nothing and ends well.
proof fn lemma_blank_tokens(st: State, text: Seq<char>, c: Cursor, mode: Blank, depth: nat)
    requires
        0 <= c.pos <= text.len(),
        !c.inside_quotes,
        blank_from(text, c.pos, mode),
        match mode {
            Blank::Start => c.typ == PicolType::PTEol,
            Blank::Terminators => c.typ == PicolType::PTEol && (c.pos < text.len()
                ==> !CharClass::Terminator.contains(text[c.pos])),
            Blank::Blanks => c.typ == PicolType::PTSep && (c.pos < text.len()
                ==> !CharClass::Space.contains(text[c.pos])),
            Blank::Comment => false,
        },
    ensures
        eval_tokens(st, text, c, Seq::empty(), depth) == (st, PicolResult::PicolOk),
    decreases tokens_left(text, c),
{
    lemma_next_token(text, c);
    let n = next_token(text, c);
    if c.pos == text.len() {
        if c.typ == PicolType::PTSep {
            lemma_blank_tokens(st, text, n, Blank::Terminators, depth);
        }
    } else {
        let ch = text[c.pos];
        if CharClass::Space.contains(ch) {
            assert(n == sep_token(text, c));
            lemma_blank_run(text, c.pos + 1, Blank::Blanks, CharClass::Space);
            lemma_run_end(text, c.pos + 1, CharClass::Space);
            lemma_blank_tokens(st, text, n, Blank::Blanks, depth);
        } else if ch == '\n' || ch == ';' {
            assert(n == eol_token(text, c));
            lemma_blank_run(text, c.pos + 1, Blank::Terminators, CharClass::Terminator);
            lemma_run_end(text, c.pos + 1, CharClass::Terminator);
            lemma_blank_tokens(st, text, n, Blank::Terminators, depth);
        } else {
            assert(ch == '#');
            let after = skip_comment(text, c);
            assert(n == next_token(text, after));
            lemma_blank_run(text, c.pos + 1, Blank::Comment, CharClass::Line);
            lemma_run_end(text, c.pos + 1, CharClass::Line);
            if after.pos < text.len() {
                assert(text[after.pos] == '\n');
                assert(n == eol_token(text, after));
                lemma_blank_run(text, after.pos + 1, Blank::Terminators, CharClass::Terminator);
                lemma_run_end(text, after.pos + 1, CharClass::Terminator);
                lemma_blank_tokens(st, text, n, Blank::Terminators, depth);
            }
        }
    }
}

/// A script that holds nothing but blanks, ends of commands and comments ends well, with
/// the empty result, and changes nothing else.
pub proof fn law_blank_script(st: State, script: Seq<char>, depth: nat)
    requires
        blank_script(script),
        depth > 0,
    ensures
        eval_script(st, script, depth) == (
            st.with_result(Seq::empty()),
            PicolResult::PicolOk,
        ),
{
    lemma_blank_tokens(
        st.with_result(Seq::empty()),
        script,
        Cursor::initial(),
        Blank::Start,
        (depth - 1) as nat,
    );
}

} // verus!
