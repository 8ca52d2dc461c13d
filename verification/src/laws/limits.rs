//! The limits on nesting and on the rounds of a loop change nothing but where a script
//! would go beyond them.

use vstd::prelude::*;
use crate::lexer::{Cursor, PicolType, lemma_next_token, next_token};
use crate::semantics::{
    Handler, PicolResult, State, MAX_ITERATIONS, bind_params, dispatch, eval_script,
    eval_tokens, join_word, tokens_left, truth, while_loop,
};
use crate::text::split_words;

verus! {

/// A script that ends without an error at some depth ends in the same way at every greater
/// depth.
proof fn lemma_deeper_script(st: State, script: Seq<char>, depth: nat, deeper: nat)
    requires
        depth <= deeper,
        eval_script(st, script, depth).1 != PicolResult::PicolErr,
    ensures
        eval_script(st, script, deeper) == eval_script(st, script, depth),
    decreases depth, 0nat, 0nat,
{
    lemma_deeper_tokens(
        st.with_result(Seq::empty()),
        script,
        Cursor::initial(),
        Seq::empty(),
        (depth - 1) as nat,
        (deeper - 1) as nat,
    );
}

/// The same of the rest of a script.
proof fn lemma_deeper_tokens(
    st: State,
    text: Seq<char>,
    c: Cursor,
    argv: Seq<Seq<char>>,
    depth: nat,
    deeper: nat,
)
    requires
        depth <= deeper,
        eval_tokens(st, text, c, argv, depth).1 != PicolResult::PicolErr,
    ensures
        eval_tokens(st, text, c, argv, deeper) == eval_tokens(st, text, c, argv, depth),
    decreases depth, 3nat, tokens_left(text, c),
{
    let n = next_token(text, c);
    let token = n.token(text);
    if 0 <= c.pos <= text.len() {
        lemma_next_token(text, c);
    }
    match n.typ {
        PicolType::PTEof => {},
        PicolType::PTVar => {
            if st.vars.contains_key(token) {
                lemma_deeper_tokens(
                    st,
                    text,
                    n,
                    join_word(argv, c.typ, st.vars[token]),
                    depth,
                    deeper,
                );
            }
        },
        PicolType::PTCmd => {
            lemma_deeper_script(st, token, depth, deeper);
            let (st1, status) = eval_script(st, token, depth);
            if status == PicolResult::PicolOk {
                lemma_deeper_tokens(
                    st1,
                    text,
                    n,
                    join_word(argv, c.typ, st1.result),
                    depth,
                    deeper,
                );
            }
        },
        PicolType::PTSep => {
            lemma_deeper_tokens(st, text, n, argv, depth, deeper);
        },
        PicolType::PTEol => {
            if argv.len() > 0 {
                lemma_deeper_dispatch(st, argv, depth, deeper);
                let (st1, status) = dispatch(st, argv, depth);
                if status == PicolResult::PicolOk {
                    lemma_deeper_tokens(st1, text, n, Seq::empty(), depth, deeper);
                }
            } else {
                lemma_deeper_tokens(st, text, n, Seq::empty(), depth, deeper);
            }
        },
        PicolType::PTEsc | PicolType::PTStr => {
            lemma_deeper_tokens(st, text, n, join_word(argv, c.typ, token), depth, deeper);
        },
    }
}

/// The same of a command.
proof fn lemma_deeper_dispatch(st: State, argv: Seq<Seq<char>>, depth: nat, deeper: nat)
    requires
        depth <= deeper,
        dispatch(st, argv, depth).1 != PicolResult::PicolErr,
    ensures
        dispatch(st, argv, deeper) == dispatch(st, argv, depth),
    decreases depth, 2nat, 0nat,
{
    if st.commands.contains_key(argv[0]) {
        match st.commands[argv[0]] {
            Handler::If => {
                if argv.len() == 3 || argv.len() == 5 {
                    lemma_deeper_script(st, argv[1], depth, deeper);
                    let (st1, status) = eval_script(st, argv[1], depth);
                    if status == PicolResult::PicolOk {
                        if st1.result == truth() {
                            lemma_deeper_script(st1, argv[2], depth, deeper);
                        } else if argv.len() == 5 {
                            lemma_deeper_script(st1, argv[4], depth, deeper);
                        }
                    }
                }
            },
            Handler::While => {
                if argv.len() == 3 {
                    lemma_deeper_loop(
                        st,
                        argv[1],
                        argv[2],
                        depth,
                        deeper,
                        MAX_ITERATIONS as nat,
                        MAX_ITERATIONS as nat,
                    );
                }
            },
            Handler::CallProc { params, body } => {
                let names = split_words(params, 0);
                if names.len() == argv.len() - 1 {
                    let callee = State {
                        vars: bind_params(names, argv.skip(1)),
                        callers: st.callers.push(st.vars),
                        ..st
                    };
                    lemma_deeper_script(callee, body, depth, deeper);
                }
            },
            _ => {},
        }
    }
}

/// The same of the loop of `while`, also with more rounds.
proof fn lemma_deeper_loop(
    st: State,
    cond: Seq<char>,
    body: Seq<char>,
    depth: nat,
    deeper: nat,
    budget: nat,
    larger: nat,
)
    requires
        depth <= deeper,
        budget <= larger,
        while_loop(st, cond, body, depth, budget).1 != PicolResult::PicolErr,
    ensures
        while_loop(st, cond, body, deeper, larger) == while_loop(st, cond, body, depth, budget),
    decreases depth, 1nat, budget,
{
    lemma_deeper_script(st, cond, depth, deeper);
    let (st1, status1) = eval_script(st, cond, depth);
    if status1 == PicolResult::PicolOk && st1.result == truth() {
        lemma_deeper_script(st1, body, depth, deeper);
        let (st2, status2) = eval_script(st1, body, depth);
        if status2 == PicolResult::PicolOk || status2 == PicolResult::PicolContinue {
            lemma_deeper_loop(
                st2,
                cond,
                body,
                depth,
                deeper,
                (budget - 1) as nat,
                (larger - 1) as nat,
            );
        }
    }
}

/// The limits on nesting and on the rounds of a loop are guards and nothing more: a script
/// that ends without an error ends in just the same way wherever more levels of nesting are
/// left, and so does a loop that may run more rounds.
pub proof fn law_limits_only_guard(
    st: State,
    script: Seq<char>,
    depth: nat,
    deeper: nat,
)
    requires
        depth <= deeper,
        eval_script(st, script, depth).1 != PicolResult::PicolErr,
    ensures
        eval_script(st, script, deeper) == eval_script(st, script, depth),
{
    lemma_deeper_script(st, script, depth, deeper);
}

/// The same of a loop and its rounds.
pub proof fn law_rounds_only_guard(
    st: State,
    cond: Seq<char>,
    body: Seq<char>,
    depth: nat,
    budget: nat,
    larger: nat,
)
    requires
        budget <= larger,
        while_loop(st, cond, body, depth, budget).1 != PicolResult::PicolErr,
    ensures
        while_loop(st, cond, body, depth, larger) == while_loop(st, cond, body, depth, budget),
{
    lemma_deeper_loop(st, cond, body, depth, depth, budget, larger);
}

} // verus!
