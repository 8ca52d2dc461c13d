//! What a script means: the interpreter as a mathematical function.
//!
//! [`eval_script`] maps the state of an interpreter and a script to the state after the
//! script and a status. The executable interpreter is proved to compute exactly this
//! function, and the laws of the language are proved about it.

use vstd::prelude::*;
use vstd::wrapping::i32_specs;
use crate::lexer::{Cursor, PicolType, next_token, lemma_next_token};
use crate::text::{parse_int, int_to_text, split_words};

verus! {

/// How a command, or a whole script, ended.
#[derive(Clone, Copy, Debug, PartialEq, Eq, Structural)]
pub enum PicolResult {
    /// It ran to its end.
    PicolOk,
    /// It failed; the result of the interpreter holds the message.
    PicolErr,
    /// A `return` is on its way to the procedure that it leaves.
    PicolReturn,
    /// A `break` is on its way to the loop that it leaves.
    PicolBreak,
    /// A `continue` is on its way to the loop that it restarts.
    PicolContinue,
}

/// How many scripts may be nested in one another: a script in brackets, the body of a
/// procedure, and a branch or a body of `if` and `while` each count as one.
pub const MAX_LEVEL: u32 = 256;

/// How often one `while` may run its body.
pub const MAX_ITERATIONS: u64 = 0xffff_ffff_ffff_ffff;

/// What a command does when it is called: one of the built-in commands, or a procedure.
pub enum Handler {
    /// The arithmetic and comparison operators.
    Math,
    /// `set name value`
    SetVar,
    /// `puts text`
    Puts,
    /// `if cond then [else other]`
    If,
    /// `while cond body`
    While,
    /// `break` and `continue`
    RetCodes,
    /// `proc name params body`
    Proc,
    /// `return [value]`
    Return,
    /// A procedure: the names of its parameters, separated by white space, and its body.
    CallProc { params: Seq<char>, body: Seq<char> },
}

/// The variables of one call frame.
pub type Frame = Map<Seq<char>, Seq<char>>;

/// The state of an interpreter.
pub struct State {
    /// The commands, by name.
    pub commands: Map<Seq<char>, Handler>,
    /// The variables of the current call frame.
    pub vars: Frame,
    /// The call frames of the callers, the outermost first.
    pub callers: Seq<Frame>,
    /// The result of the last command, or the message of the error that ended it.
    pub result: Seq<char>,
    /// The lines that `puts` has written, the oldest first.
    pub output: Seq<Seq<char>>,
}

impl State {
    /// The state of a new interpreter: no command, one empty frame.
    pub open spec fn initial() -> State {
        State {
            commands: Map::empty(),
            vars: Map::empty(),
            callers: Seq::empty(),
            result: Seq::empty(),
            output: Seq::empty(),
        }
    }

    /// The same state with other frames for the callers.
    pub open spec fn with_callers(self, callers: Seq<Frame>) -> State {
        State { callers, ..self }
    }

    /// The same state with another result.
    pub open spec fn with_result(self, result: Seq<char>) -> State {
        State { result, ..self }
    }

    /// The outcome of a command that failed: the result holds the message, and nothing
    /// else has changed.
    pub open spec fn fail(self, failure: Failure) -> (State, PicolResult) {
        (self.with_result(failure.message()), PicolResult::PicolErr)
    }
}

/// Why a command failed.
pub enum Failure {
    /// A variable that the current frame does not hold.
    UnknownVariable(Seq<char>),
    /// A command that is not registered.
    UnknownCommand(Seq<char>),
    /// A command called with a wrong number of words.
    WrongArity(Seq<char>),
    /// A division by zero.
    DivisionByZero,
    /// A command registered under a name that is taken.
    DuplicateCommand(Seq<char>),
    /// An operand that is not the decimal form of a 32-bit integer.
    NotAnInteger(Seq<char>),
    /// More scripts nested in one another than [`MAX_LEVEL`].
    RecursionLimitExceeded,
    /// More rounds of one loop than [`MAX_ITERATIONS`].
    IterationLimitExceeded,
}

impl Failure {
    /// The message that the result holds after the failure.
    pub open spec fn message(self) -> Seq<char> {
        match self {
            Failure::UnknownVariable(name) => "Unknown variable "@ + name,
            Failure::UnknownCommand(name) => "Unknown command "@ + name,
            Failure::WrongArity(name) => "Wrong number of arguments for "@ + name,
            Failure::DivisionByZero => "Division by zero"@,
            Failure::DuplicateCommand(name) => "Command "@ + name + " already exists"@,
            Failure::NotAnInteger(text) => "Expected integer but got "@ + text,
            Failure::RecursionLimitExceeded => "Recursion limit exceeded"@,
            Failure::IterationLimitExceeded => "Iteration limit exceeded"@,
        }
    }
}

/// The text that stands for true as the result of a comparison and as a condition.
pub open spec fn truth() -> Seq<char> {
    seq!['1']
}

/// The words of a command after one more token: the text of a token that follows a separator
/// or the end of a command begins a new word; any other is joined to the last word.
pub open spec fn join_word(argv: Seq<Seq<char>>, prev: PicolType, text: Seq<char>) -> Seq<
    Seq<char>,
> {
    if prev == PicolType::PTSep || prev == PicolType::PTEol || argv.len() == 0 {
        argv.push(text)
    } else {
        argv.update(argv.len() - 1, argv.last() + text)
    }
}

/// How far the lexer still is from the end of the script.
pub open spec fn tokens_left(text: Seq<char>, c: Cursor) -> nat {
    let chars = if 0 <= c.pos < text.len() { 2 * (text.len() - c.pos) } else { 0 };
    let open = if c.typ == PicolType::PTEol || c.typ == PicolType::PTEof { 0int } else { 1 };
    (chars + open) as nat
}

/// The quotient of `a` by `b`, rounded toward zero.
pub open spec fn quotient(a: int, b: int) -> int {
    if a >= 0 {
        if b > 0 { a / b } else { -(a / (-b)) }
    } else {
        if b > 0 { -((-a) / b) } else { (-a) / (-b) }
    }
}

/// The value of `a op b` in 32-bit arithmetic that wraps around. Comparisons give 1 and 0.
pub open spec fn math_op(op: Seq<char>, a: i32, b: i32) -> i32 {
    if op == seq!['+'] {
        i32_specs::wrapping_add(a, b)
    } else if op == seq!['-'] {
        i32_specs::wrapping_sub(a, b)
    } else if op == seq!['*'] {
        i32_specs::wrapping_mul(a, b)
    } else if op == seq!['/'] {
        if a == i32::MIN && b == -1 { a } else { quotient(a as int, b as int) as i32 }
    } else if op == seq!['>'] {
        if a > b { 1 } else { 0 }
    } else if op == seq!['<'] {
        if a < b { 1 } else { 0 }
    } else if op == seq!['>', '='] {
        if a >= b { 1 } else { 0 }
    } else if op == seq!['<', '='] {
        if a <= b { 1 } else { 0 }
    } else if op == seq!['=', '='] {
        if a == b { 1 } else { 0 }
    } else if op == seq!['!', '='] {
        if a != b { 1 } else { 0 }
    } else {
        0
    }
}

/// The operators: two integers, and the result is the decimal form of [`math_op`].
pub open spec fn cmd_math(st: State, argv: Seq<Seq<char>>) -> (State, PicolResult) {
    if argv.len() != 3 {
        st.fail(Failure::WrongArity(argv[0]))
    } else {
        match (parse_int(argv[1]), parse_int(argv[2])) {
            (Some(a), Some(b)) => {
                if argv[0] == seq!['/'] && b == 0 {
                    st.fail(Failure::DivisionByZero)
                } else {
                    (
                        st.with_result(int_to_text(math_op(argv[0], a, b) as int)),
                        PicolResult::PicolOk,
                    )
                }
            },
            (Some(_), None) => st.fail(Failure::NotAnInteger(argv[2])),
            (None, _) => st.fail(Failure::NotAnInteger(argv[1])),
        }
    }
}

/// `set name value` binds the variable in the current frame; the value is the result.
pub open spec fn cmd_set(st: State, argv: Seq<Seq<char>>) -> (State, PicolResult) {
    if argv.len() != 3 {
        st.fail(Failure::WrongArity(argv[0]))
    } else {
        (
            State { vars: st.vars.insert(argv[1], argv[2]), result: argv[2], ..st },
            PicolResult::PicolOk,
        )
    }
}

/// `puts text` writes one line and leaves the result as it is.
pub open spec fn cmd_puts(st: State, argv: Seq<Seq<char>>) -> (State, PicolResult) {
    if argv.len() != 2 {
        st.fail(Failure::WrongArity(argv[0]))
    } else {
        (State { output: st.output.push(argv[1]), ..st }, PicolResult::PicolOk)
    }
}

/// `break` and `continue` have no effect but their status.
pub open spec fn cmd_retcodes(st: State, argv: Seq<Seq<char>>) -> (State, PicolResult) {
    if argv.len() != 1 {
        st.fail(Failure::WrongArity(argv[0]))
    } else if argv[0] == "break"@ {
        (st, PicolResult::PicolBreak)
    } else if argv[0] == "continue"@ {
        (st, PicolResult::PicolContinue)
    } else {
        (st, PicolResult::PicolOk)
    }
}

/// Adds a command; a name that is taken is an error and leaves the commands as they are.
pub open spec fn register(st: State, name: Seq<char>, handler: Handler) -> (State, PicolResult) {
    if st.commands.contains_key(name) {
        st.fail(Failure::DuplicateCommand(name))
    } else {
        (State { commands: st.commands.insert(name, handler), ..st }, PicolResult::PicolOk)
    }
}

/// The state after the built-in commands were added, each under its name. A name that is
/// taken keeps the command that it has.
pub open spec fn core_commands(st: State) -> State {
    let st = register(st, "+"@, Handler::Math).0;
    let st = register(st, "-"@, Handler::Math).0;
    let st = register(st, "*"@, Handler::Math).0;
    let st = register(st, "/"@, Handler::Math).0;
    let st = register(st, ">"@, Handler::Math).0;
    let st = register(st, "<"@, Handler::Math).0;
    let st = register(st, ">="@, Handler::Math).0;
    let st = register(st, "<="@, Handler::Math).0;
    let st = register(st, "=="@, Handler::Math).0;
    let st = register(st, "!="@, Handler::Math).0;
    let st = register(st, "set"@, Handler::SetVar).0;
    let st = register(st, "puts"@, Handler::Puts).0;
    let st = register(st, "if"@, Handler::If).0;
    let st = register(st, "while"@, Handler::While).0;
    let st = register(st, "break"@, Handler::RetCodes).0;
    let st = register(st, "continue"@, Handler::RetCodes).0;
    let st = register(st, "proc"@, Handler::Proc).0;
    register(st, "return"@, Handler::Return).0
}

/// `proc name params body` adds a procedure to the commands.
pub open spec fn cmd_proc(st: State, argv: Seq<Seq<char>>) -> (State, PicolResult) {
    if argv.len() != 4 {
        st.fail(Failure::WrongArity(argv[0]))
    } else {
        register(st, argv[1], Handler::CallProc { params: argv[2], body: argv[3] })
    }
}

/// `return [value]` makes the value, or the empty text, the result.
pub open spec fn cmd_return(st: State, argv: Seq<Seq<char>>) -> (State, PicolResult) {
    if argv.len() != 1 && argv.len() != 2 {
        st.fail(Failure::WrongArity(argv[0]))
    } else {
        (
            st.with_result(if argv.len() == 2 { argv[1] } else { Seq::empty() }),
            PicolResult::PicolReturn,
        )
    }
}

/// The frame of a call: each parameter bound to the argument at its position. Of two
/// parameters with one name the later one counts.
pub open spec fn bind_params(names: Seq<Seq<char>>, values: Seq<Seq<char>>) -> Frame
    decreases names.len(),
{
    if names.len() == 0 || values.len() == 0 {
        Map::empty()
    } else {
        bind_params(names.drop_last(), values.drop_last()).insert(names.last(), values.last())
    }
}

/// The meaning of a script: the state after it, and how it ended.
///
/// `depth` is the number of levels of nesting that are left. The result is emptied first. At
/// depth zero the script fails; otherwise its tokens are evaluated from the first one on.
pub open spec fn eval_script(st: State, script: Seq<char>, depth: nat) -> (State, PicolResult)
    decreases depth, 0nat, 0nat,
{
    if depth == 0 {
        st.fail(Failure::RecursionLimitExceeded)
    } else {
        eval_tokens(
            st.with_result(Seq::empty()),
            script,
            Cursor::initial(),
            Seq::empty(),
            (depth - 1) as nat,
        )
    }
}

/// The meaning of the rest of a script, from the cursor `c` on, when `argv` holds the words
/// of the command that is being read.
///
/// A variable is replaced by its value in the current frame, and a script in brackets by its
/// result; if the variable is unknown or the script does not end well, so does the whole.
/// At the end of a command its words are dispatched, and only if the command ends well does
/// the script go on. The script ends well at its end.
pub open spec fn eval_tokens(
    st: State,
    text: Seq<char>,
    c: Cursor,
    argv: Seq<Seq<char>>,
    depth: nat,
) -> (State, PicolResult)
    decreases depth, 3nat, tokens_left(text, c),
{
    let n = next_token(text, c);
    let token = n.token(text);
    proof {
        if 0 <= c.pos <= text.len() {
            lemma_next_token(text, c);
        }
    }
    match n.typ {
        PicolType::PTEof => (st, PicolResult::PicolOk),
        PicolType::PTVar => {
            if st.vars.contains_key(token) {
                eval_tokens(st, text, n, join_word(argv, c.typ, st.vars[token]), depth)
            } else {
                st.fail(Failure::UnknownVariable(token))
            }
        },
        PicolType::PTCmd => {
            let (st1, status) = eval_script(st, token, depth);
            if status == PicolResult::PicolOk {
                eval_tokens(st1, text, n, join_word(argv, c.typ, st1.result), depth)
            } else {
                (st1, status)
            }
        },
        PicolType::PTSep => eval_tokens(st, text, n, argv, depth),
        PicolType::PTEol => {
            if argv.len() > 0 {
                let (st1, status) = dispatch(st, argv, depth);
                if status == PicolResult::PicolOk {
                    eval_tokens(st1, text, n, Seq::empty(), depth)
                } else {
                    (st1, status)
                }
            } else {
                eval_tokens(st, text, n, Seq::empty(), depth)
            }
        },
        PicolType::PTEsc | PicolType::PTStr => eval_tokens(
            st,
            text,
            n,
            join_word(argv, c.typ, token),
            depth,
        ),
    }
}

/// The meaning of one command: its first word names the command, which is called with all
/// the words. A name that is not among the commands is an error.
pub open spec fn dispatch(st: State, argv: Seq<Seq<char>>, depth: nat) -> (State, PicolResult)
    decreases depth, 2nat, 0nat,
{
    if !st.commands.contains_key(argv[0]) {
        st.fail(Failure::UnknownCommand(argv[0]))
    } else {
        match st.commands[argv[0]] {
            Handler::Math => cmd_math(st, argv),
            Handler::SetVar => cmd_set(st, argv),
            Handler::Puts => cmd_puts(st, argv),
            Handler::If => cmd_if(st, argv, depth),
            Handler::While => cmd_while(st, argv, depth),
            Handler::RetCodes => cmd_retcodes(st, argv),
            Handler::Proc => cmd_proc(st, argv),
            Handler::Return => cmd_return(st, argv),
            Handler::CallProc { params, body } => call_proc(st, argv, params, body, depth),
        }
    }
}

/// `if cond then [else other]`: the condition is evaluated; if its result is `1`, the second
/// word is evaluated; if not, the fourth, where there is one. The third word is not looked at.
pub open spec fn cmd_if(st: State, argv: Seq<Seq<char>>, depth: nat) -> (State, PicolResult)
    decreases depth, 1nat, 0nat,
{
    if argv.len() != 3 && argv.len() != 5 {
        st.fail(Failure::WrongArity(argv[0]))
    } else {
        let (st1, status) = eval_script(st, argv[1], depth);
        if status != PicolResult::PicolOk {
            (st1, status)
        } else if st1.result == truth() {
            eval_script(st1, argv[2], depth)
        } else if argv.len() == 5 {
            eval_script(st1, argv[4], depth)
        } else {
            (st1, PicolResult::PicolOk)
        }
    }
}

/// `while cond body`
pub open spec fn cmd_while(st: State, argv: Seq<Seq<char>>, depth: nat) -> (State, PicolResult)
    decreases depth, 1nat, MAX_ITERATIONS + 1,
{
    if argv.len() != 3 {
        st.fail(Failure::WrongArity(argv[0]))
    } else {
        while_loop(st, argv[1], argv[2], depth, MAX_ITERATIONS as nat)
    }
}

/// The loop of `while`, with `budget` rounds left. The condition is evaluated; the loop ends
/// well if its result is not `1`, and as the condition did if that did not end well.
/// Otherwise the body is evaluated: after `break` the loop ends well, after `continue` and
/// after a body that ended well comes the next round, and any other status ends the loop
/// with that status. A loop without a round left fails.
pub open spec fn while_loop(
    st: State,
    cond: Seq<char>,
    body: Seq<char>,
    depth: nat,
    budget: nat,
) -> (State, PicolResult)
    decreases depth, 1nat, budget,
{
    let (st1, status1) = eval_script(st, cond, depth);
    if status1 != PicolResult::PicolOk {
        (st1, status1)
    } else if st1.result != truth() {
        (st1, PicolResult::PicolOk)
    } else if budget == 0 {
        st1.fail(Failure::IterationLimitExceeded)
    } else {
        let (st2, status2) = eval_script(st1, body, depth);
        match status2 {
            PicolResult::PicolBreak => (st2, PicolResult::PicolOk),
            PicolResult::PicolOk | PicolResult::PicolContinue => while_loop(
                st2,
                cond,
                body,
                depth,
                (budget - 1) as nat,
            ),
            _ => (st2, status2),
        }
    }
}

/// The call of a procedure. With as many arguments as parameters, the body is evaluated in a
/// new frame that holds the parameters and nothing else, and `return` ends it well. After
/// the call the frame of the caller is the current one again, as it was.
pub open spec fn call_proc(
    st: State,
    argv: Seq<Seq<char>>,
    params: Seq<char>,
    body: Seq<char>,
    depth: nat,
) -> (State, PicolResult)
    decreases depth, 1nat, 0nat,
{
    let names = split_words(params, 0);
    if names.len() != argv.len() - 1 {
        st.fail(Failure::WrongArity(argv[0]))
    } else {
        let callee = State {
            vars: bind_params(names, argv.skip(1)),
            callers: st.callers.push(st.vars),
            ..st
        };
        let (st1, status) = eval_script(callee, body, depth);
        (
            State { vars: st.vars, callers: st.callers, ..st1 },
            if status == PicolResult::PicolReturn { PicolResult::PicolOk } else { status },
        )
    }
}

} // verus!
