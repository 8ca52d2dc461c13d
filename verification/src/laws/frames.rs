//! Call frames, commands and output: what evaluation never undoes, and what a procedure
//! cannot see.

use vstd::prelude::*;
use crate::lexer::{Cursor, PicolType, lemma_next_token, next_token};
use crate::semantics::{
    Failure, Frame, Handler, PicolResult, State, MAX_ITERATIONS, bind_params, call_proc, cmd_if,
    cmd_math, cmd_proc, cmd_puts, cmd_retcodes, cmd_return, cmd_set, dispatch, eval_script,
    eval_tokens, join_word, tokens_left, truth, while_loop,
};
use crate::text::split_words;

verus! {

/// What no command ever undoes: the frames of the callers are the same, every command is
/// still there and does what it did, and the lines written are still there, in their order.
pub open spec fn extends(before: State, after: State) -> bool {
    &&& after.callers == before.callers
    &&& before.commands.submap_of(after.commands)
    &&& before.output.is_prefix_of(after.output)
}

/// An outcome `out` of a state `st`, and the outcome `other` of the same state with the
/// frames `callers` in place of those of its callers: the status is the same, and so is
/// the state but for those frames; and `out` extends `st`.
pub open spec fn stable(
    st: State,
    callers: Seq<Frame>,
    out: (State, PicolResult),
    other: (State, PicolResult),
) -> bool {
    &&& other.1 == out.1
    &&& other.0 == out.0.with_callers(callers)
    &&& extends(st, out.0)
}

/// `extends` is transitive.
proof fn lemma_extends_trans(a: State, b: State, c: State)
    requires
        extends(a, b),
        extends(b, c),
    ensures
        extends(a, c),
{
    vstd::map_lib::lemma_submap_of_trans(a.commands, b.commands, c.commands);
    assert(a.output =~= c.output.subrange(0, a.output.len() as int)) by {
        assert(a.output =~= b.output.subrange(0, a.output.len() as int));
        assert(b.output =~= c.output.subrange(0, b.output.len() as int));
    }
}

/// The commands that call no script do not look at the frames of the callers and undo
/// nothing.
proof fn lemma_simple_commands(st: State, argv: Seq<Seq<char>>, callers: Seq<Frame>)
    ensures
        stable(st, callers, cmd_math(st, argv), cmd_math(st.with_callers(callers), argv)),
        stable(st, callers, cmd_set(st, argv), cmd_set(st.with_callers(callers), argv)),
        stable(st, callers, cmd_puts(st, argv), cmd_puts(st.with_callers(callers), argv)),
        stable(
            st,
            callers,
            cmd_retcodes(st, argv),
            cmd_retcodes(st.with_callers(callers), argv),
        ),
        stable(st, callers, cmd_proc(st, argv), cmd_proc(st.with_callers(callers), argv)),
        stable(st, callers, cmd_return(st, argv), cmd_return(st.with_callers(callers), argv)),
{
}

/// A script does not look at the frames of the callers and undoes nothing.
pub proof fn lemma_eval_script(st: State, script: Seq<char>, depth: nat, callers: Seq<Frame>)
    ensures
        stable(
            st,
            callers,
            eval_script(st, script, depth),
            eval_script(st.with_callers(callers), script, depth),
        ),
    decreases depth, 0nat, 0nat,
{
    if depth > 0 {
        lemma_eval_tokens(
            st.with_result(Seq::empty()),
            script,
            Cursor::initial(),
            Seq::empty(),
            (depth - 1) as nat,
            callers,
        );
    }
}

/// The rest of a script does not look at the frames of the callers and undoes nothing.
proof fn lemma_eval_tokens(
    st: State,
    text: Seq<char>,
    c: Cursor,
    argv: Seq<Seq<char>>,
    depth: nat,
    callers: Seq<Frame>,
)
    ensures
        stable(
            st,
            callers,
            eval_tokens(st, text, c, argv, depth),
            eval_tokens(st.with_callers(callers), text, c, argv, depth),
        ),
    decreases depth, 3nat, tokens_left(text, c),
{
    let n = next_token(text, c);
    let token = n.token(text);
    if 0 <= c.pos <= text.len() {
        lemma_next_token(text, c);
    }
    match n.typ {
        PicolType::PTEof => {},
        PicolType::PTVar => {
            if st.vars.contains_key(token) {
                lemma_eval_tokens(
                    st,
                    text,
                    n,
                    join_word(argv, c.typ, st.vars[token]),
                    depth,
                    callers,
                );
            }
        },
        PicolType::PTCmd => {
            lemma_eval_script(st, token, depth, callers);
            let (st1, status) = eval_script(st, token, depth);
            if status == PicolResult::PicolOk {
                lemma_eval_tokens(st1, text, n, join_word(argv, c.typ, st1.result), depth, callers);
                lemma_extends_trans(
                    st,
                    st1,
                    eval_tokens(st1, text, n, join_word(argv, c.typ, st1.result), depth).0,
                );
            }
        },
        PicolType::PTSep => {
            lemma_eval_tokens(st, text, n, argv, depth, callers);
        },
        PicolType::PTEol => {
            if argv.len() > 0 {
                lemma_dispatch(st, argv, depth, callers);
                let (st1, status) = dispatch(st, argv, depth);
                if status == PicolResult::PicolOk {
                    lemma_eval_tokens(st1, text, n, Seq::empty(), depth, callers);
                    lemma_extends_trans(
                        st,
                        st1,
                        eval_tokens(st1, text, n, Seq::empty(), depth).0,
                    );
                }
            } else {
                lemma_eval_tokens(st, text, n, Seq::empty(), depth, callers);
            }
        },
        PicolType::PTEsc | PicolType::PTStr => {
            lemma_eval_tokens(st, text, n, join_word(argv, c.typ, token), depth, callers);
        },
    }
}

/// A command does not look at the frames of the callers and undoes nothing.
proof fn lemma_dispatch(st: State, argv: Seq<Seq<char>>, depth: nat, callers: Seq<Frame>)
    ensures
        stable(
            st,
            callers,
            dispatch(st, argv, depth),
            dispatch(st.with_callers(callers), argv, depth),
        ),
    decreases depth, 2nat, 0nat,
{
    lemma_simple_commands(st, argv, callers);
    if st.commands.contains_key(argv[0]) {
        match st.commands[argv[0]] {
            Handler::If => {
                lemma_cmd_if(st, argv, depth, callers);
            },
            Handler::While => {
                if argv.len() == 3 {
                    lemma_while_loop(
                        st,
                        argv[1],
                        argv[2],
                        depth,
                        MAX_ITERATIONS as nat,
                        callers,
                    );
                }
            },
            Handler::CallProc { params, body } => {
                lemma_call_proc(st, argv, params, body, depth, callers);
            },
            _ => {},
        }
    }
}

/// `if` does not look at the frames of the callers and undoes nothing.
proof fn lemma_cmd_if(st: State, argv: Seq<Seq<char>>, depth: nat, callers: Seq<Frame>)
    ensures
        stable(st, callers, cmd_if(st, argv, depth), cmd_if(st.with_callers(callers), argv, depth)),
    decreases depth, 1nat, 0nat,
{
    if argv.len() == 3 || argv.len() == 5 {
        lemma_eval_script(st, argv[1], depth, callers);
        let (st1, status) = eval_script(st, argv[1], depth);
        if status == PicolResult::PicolOk {
            if st1.result == truth() {
                lemma_eval_script(st1, argv[2], depth, callers);
                lemma_extends_trans(st, st1, eval_script(st1, argv[2], depth).0);
            } else if argv.len() == 5 {
                lemma_eval_script(st1, argv[4], depth, callers);
                lemma_extends_trans(st, st1, eval_script(st1, argv[4], depth).0);
            }
        }
    }
}

/// The loop of `while` does not look at the frames of the callers and undoes nothing.
proof fn lemma_while_loop(
    st: State,
    cond: Seq<char>,
    body: Seq<char>,
    depth: nat,
    budget: nat,
    callers: Seq<Frame>,
)
    ensures
        stable(
            st,
            callers,
            while_loop(st, cond, body, depth, budget),
            while_loop(st.with_callers(callers), cond, body, depth, budget),
        ),
    decreases depth, 1nat, budget,
{
    lemma_eval_script(st, cond, depth, callers);
    let (st1, status1) = eval_script(st, cond, depth);
    if status1 == PicolResult::PicolOk && st1.result == truth() && budget > 0 {
        lemma_eval_script(st1, body, depth, callers);
        let (st2, status2) = eval_script(st1, body, depth);
        lemma_extends_trans(st, st1, st2);
        if status2 == PicolResult::PicolOk || status2 == PicolResult::PicolContinue {
            lemma_while_loop(st2, cond, body, depth, (budget - 1) as nat, callers);
            lemma_extends_trans(
                st,
                st2,
                while_loop(st2, cond, body, depth, (budget - 1) as nat).0,
            );
        }
    }
}

/// The call of a procedure does not look at the frames of the callers and undoes nothing.
proof fn lemma_call_proc(
    st: State,
    argv: Seq<Seq<char>>,
    params: Seq<char>,
    body: Seq<char>,
    depth: nat,
    callers: Seq<Frame>,
)
    ensures
        stable(
            st,
            callers,
            call_proc(st, argv, params, body, depth),
            call_proc(st.with_callers(callers), argv, params, body, depth),
        ),
    decreases depth, 1nat, 0nat,
{
    let names = split_words(params, 0);
    if names.len() == argv.len() - 1 {
        let callee = State {
            vars: bind_params(names, argv.skip(1)),
            callers: st.callers.push(st.vars),
            ..st
        };
        lemma_eval_script(callee, body, depth, callers.push(st.vars));
    }
}

/// Evaluating a script leaves the frames of the callers as they are, keeps every command
/// with what it does, and keeps the lines written so far, in their order.
pub proof fn law_eval_extends(st: State, script: Seq<char>, depth: nat)
    ensures
        extends(st, eval_script(st, script, depth).0),
{
    lemma_eval_script(st, script, depth, st.callers);
}

/// The same holds of a single command.
pub proof fn law_dispatch_extends(st: State, argv: Seq<Seq<char>>, depth: nat)
    ensures
        extends(st, dispatch(st, argv, depth).0),
{
    lemma_dispatch(st, argv, depth, st.callers);
}

/// The call of a procedure never ends with the status of `return`: the call is where a
/// `return` arrives.
pub proof fn law_call_absorbs_return(
    st: State,
    argv: Seq<Seq<char>>,
    params: Seq<char>,
    body: Seq<char>,
    depth: nat,
)
    ensures
        call_proc(st, argv, params, body, depth).1 != PicolResult::PicolReturn,
{
}

/// A procedure sees nothing of the frame of its caller: whatever variables the caller
/// holds, the call ends with the same status, result, output and commands, and the caller
/// has its own variables back afterwards.
pub proof fn law_procedure_isolation(
    st: State,
    vars: Frame,
    argv: Seq<Seq<char>>,
    params: Seq<char>,
    body: Seq<char>,
    depth: nat,
)
    ensures
        call_proc(State { vars, ..st }, argv, params, body, depth).1 == call_proc(
            st,
            argv,
            params,
            body,
            depth,
        ).1,
        call_proc(State { vars, ..st }, argv, params, body, depth).0 == (State {
            vars,
            ..call_proc(st, argv, params, body, depth).0
        }),
        call_proc(st, argv, params, body, depth).0.vars == st.vars,
{
    let names = split_words(params, 0);
    if names.len() == argv.len() - 1 {
        let callee = State {
            vars: bind_params(names, argv.skip(1)),
            callers: st.callers.push(st.vars),
            ..st
        };
        lemma_eval_script(callee, body, depth, st.callers.push(vars));
    }
}

/// The frame of a call holds the parameters of the procedure and nothing else.
pub proof fn law_call_frame_holds_parameters(
    names: Seq<Seq<char>>,
    values: Seq<Seq<char>>,
    name: Seq<char>,
)
    requires
        bind_params(names, values).contains_key(name),
    ensures
        names.contains(name),
    decreases names.len(),
{
    if names.len() > 0 && values.len() > 0 {
        if name == names.last() {
            assert(names[names.len() - 1] == name);
        } else {
            law_call_frame_holds_parameters(names.drop_last(), values.drop_last(), name);
            let i = choose|i: int| 0 <= i < names.drop_last().len() && names.drop_last()[i] == name;
            assert(names[i] == name);
        }
    }
}

/// A variable that is not bound in the current frame is unknown, whatever the frames of the
/// callers hold: the script fails when it comes to the token that names it.
pub proof fn law_unknown_variable(
    st: State,
    text: Seq<char>,
    c: Cursor,
    argv: Seq<Seq<char>>,
    depth: nat,
)
    requires
        next_token(text, c).typ == PicolType::PTVar,
        !st.vars.contains_key(next_token(text, c).token(text)),
    ensures
        eval_tokens(st, text, c, argv, depth) == st.fail(
            Failure::UnknownVariable(next_token(text, c).token(text)),
        ),
{
}

} // verus!
