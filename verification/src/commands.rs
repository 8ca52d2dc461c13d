//! The built-in commands, and the call of a procedure.
//!
//! Each command gets the interpreter and the words of its call, the name of the command
//! first, and is proved to compute its part of the semantics.

use vstd::prelude::*;
use vstd::string::*;
use crate::frame::PicolCallFrame;
use crate::interp::{PicolCommandFunc, PicolInterpreter, message};
use crate::semantics::{
    Failure, PicolResult, MAX_ITERATIONS, bind_params, call_proc, cmd_if, cmd_math, cmd_proc,
    cmd_puts, cmd_retcodes, cmd_return, cmd_set, cmd_while, math_op, quotient, while_loop,
};
use crate::text::{int_to_string, is_char, parse_i32, split_whitespace, to_chars};

verus! {

/// Decides whether `op` is the one character `c`.
fn is_op(op: &Vec<char>, c: char) -> (b: bool)
    ensures
        b == (op@ == seq![c]),
{
    let b = op.len() == 1 && op[0] == c;
    proof {
        if b {
            assert(op@ =~= seq![c]);
        } else if op@ == seq![c] {
            assert(seq![c].len() == 1);
            assert(seq![c][0] == c);
        }
    }
    b
}

/// Decides whether `op` is the character `c` followed by `=`.
fn is_op_eq(op: &Vec<char>, c: char) -> (b: bool)
    ensures
        b == (op@ == seq![c, '=']),
{
    let b = op.len() == 2 && op[0] == c && op[1] == '=';
    proof {
        if b {
            assert(op@ =~= seq![c, '=']);
        } else if op@ == seq![c, '='] {
            assert(seq![c, '='].len() == 2);
            assert(seq![c, '='][0] == c);
            assert(seq![c, '='][1] == '=');
        }
    }
    b
}

/// Divides `a` by `b` and rounds toward zero.
fn divide(a: i32, b: i32) -> (q: i32)
    requires
        b != 0,
        !(a == i32::MIN && b == -1),
    ensures
        q == quotient(a as int, b as int),
{
    let x: i64 = if a >= 0 { a as i64 } else { -(a as i64) };
    let y: i64 = if b >= 0 { b as i64 } else { -(b as i64) };
    let z: i64 = x / y;
    assert(0 <= z <= x && (y >= 2 && x > 0 ==> z < x)) by (nonlinear_arith)
        requires
            0 <= x,
            0 < y,
            z == x / y,
    ;
    if (a >= 0) == (b > 0) {
        z as i32
    } else {
        (-z) as i32
    }
}

/// Computes `a op b`; the divisor of `/` is not zero.
fn apply_op(op: &Vec<char>, a: i32, b: i32) -> (value: i32)
    requires
        op@ == seq!['/'] ==> b != 0,
    ensures
        value == math_op(op@, a, b),
{
    if is_op(op, '+') {
        a.wrapping_add(b)
    } else if is_op(op, '-') {
        a.wrapping_sub(b)
    } else if is_op(op, '*') {
        a.wrapping_mul(b)
    } else if is_op(op, '/') {
        if a == i32::MIN && b == -1 {
            a
        } else {
            divide(a, b)
        }
    } else if is_op(op, '>') {
        if a > b { 1 } else { 0 }
    } else if is_op(op, '<') {
        if a < b { 1 } else { 0 }
    } else if is_op_eq(op, '>') {
        if a >= b { 1 } else { 0 }
    } else if is_op_eq(op, '<') {
        if a <= b { 1 } else { 0 }
    } else if is_op_eq(op, '=') {
        if a == b { 1 } else { 0 }
    } else if is_op_eq(op, '!') {
        if a != b { 1 } else { 0 }
    } else {
        0
    }
}

/// Fails with the message that the command `name` got a wrong number of words.
pub fn picol_arrity_error(interpreter: &mut PicolInterpreter, name: &String) -> (status:
    PicolResult)
    requires
        old(interpreter).wf(),
    ensures
        final(interpreter).wf(),
        final(interpreter).depth() == old(interpreter).depth(),
        (final(interpreter)@, status) == old(interpreter)@.fail(Failure::WrongArity(name@)),
{
    let text = message("Wrong number of arguments for ", name);
    interpreter.set_result(&text);
    PicolResult::PicolErr
}

/// The arithmetic and comparison operators.
pub fn picol_cmd_math(interpreter: &mut PicolInterpreter, argv: &Vec<String>) -> (status:
    PicolResult)
    requires
        old(interpreter).wf(),
        argv.len() > 0,
    ensures
        final(interpreter).wf(),
        final(interpreter).depth() == old(interpreter).depth(),
        final(interpreter)@.callers == old(interpreter)@.callers,
        (final(interpreter)@, status) == cmd_math(old(interpreter)@, argv.deep_view()),
{
    if argv.len() != 3 {
        return picol_arrity_error(interpreter, &argv[0]);
    }
    let a = match parse_i32(argv[1].as_str()) {
        Some(a) => a,
        None => {
            let text = message("Expected integer but got ", &argv[1]);
            interpreter.set_result(&text);
            return PicolResult::PicolErr;
        },
    };
    let b = match parse_i32(argv[2].as_str()) {
        Some(b) => b,
        None => {
            let text = message("Expected integer but got ", &argv[2]);
            interpreter.set_result(&text);
            return PicolResult::PicolErr;
        },
    };
    let op = to_chars(argv[0].as_str());
    if is_op(&op, '/') && b == 0 {
        interpreter.set_result(&String::from_str("Division by zero"));
        return PicolResult::PicolErr;
    }
    let value = apply_op(&op, a, b);
    interpreter.set_result(&int_to_string(value));
    PicolResult::PicolOk
}

/// `set name value`
pub fn picol_cmd_set(interpreter: &mut PicolInterpreter, argv: &Vec<String>) -> (status:
    PicolResult)
    requires
        old(interpreter).wf(),
        argv.len() > 0,
    ensures
        final(interpreter).wf(),
        final(interpreter).depth() == old(interpreter).depth(),
        final(interpreter)@.callers == old(interpreter)@.callers,
        (final(interpreter)@, status) == cmd_set(old(interpreter)@, argv.deep_view()),
{
    if argv.len() != 3 {
        return picol_arrity_error(interpreter, &argv[0]);
    }
    interpreter.set_var(&argv[1], &argv[2]);
    interpreter.set_result(&argv[2]);
    PicolResult::PicolOk
}

/// `puts text`
pub fn picol_cmd_puts(interpreter: &mut PicolInterpreter, argv: &Vec<String>) -> (status:
    PicolResult)
    requires
        old(interpreter).wf(),
        argv.len() > 0,
    ensures
        final(interpreter).wf(),
        final(interpreter).depth() == old(interpreter).depth(),
        final(interpreter)@.callers == old(interpreter)@.callers,
        (final(interpreter)@, status) == cmd_puts(old(interpreter)@, argv.deep_view()),
{
    if argv.len() != 2 {
        return picol_arrity_error(interpreter, &argv[0]);
    }
    interpreter.emit(&argv[1]);
    PicolResult::PicolOk
}

/// `if cond then [else other]`
pub fn picol_cmd_if(interpreter: &mut PicolInterpreter, argv: &Vec<String>) -> (status:
    PicolResult)
    requires
        old(interpreter).wf(),
        argv.len() > 0,
    ensures
        final(interpreter).wf(),
        final(interpreter).depth() == old(interpreter).depth(),
        final(interpreter)@.callers == old(interpreter)@.callers,
        (final(interpreter)@, status) == cmd_if(
            old(interpreter)@,
            argv.deep_view(),
            old(interpreter).depth(),
        ),
    decreases old(interpreter).depth(), 1nat, 0nat,
{
    if argv.len() != 3 && argv.len() != 5 {
        return picol_arrity_error(interpreter, &argv[0]);
    }
    let status = interpreter.eval(&argv[1]);
    if status != PicolResult::PicolOk {
        return status;
    }
    if is_char(interpreter.result().as_str(), '1') {
        interpreter.eval(&argv[2])
    } else if argv.len() == 5 {
        interpreter.eval(&argv[4])
    } else {
        PicolResult::PicolOk
    }
}

/// `while cond body`
pub fn picol_cmd_while(interpreter: &mut PicolInterpreter, argv: &Vec<String>) -> (status:
    PicolResult)
    requires
        old(interpreter).wf(),
        argv.len() > 0,
    ensures
        final(interpreter).wf(),
        final(interpreter).depth() == old(interpreter).depth(),
        final(interpreter)@.callers == old(interpreter)@.callers,
        (final(interpreter)@, status) == cmd_while(
            old(interpreter)@,
            argv.deep_view(),
            old(interpreter).depth(),
        ),
    decreases old(interpreter).depth(), 1nat, 1nat,
{
    if argv.len() != 3 {
        return picol_arrity_error(interpreter, &argv[0]);
    }
    picol_while_loop(interpreter, &argv[1], &argv[2], MAX_ITERATIONS)
}

/// The loop of `while`, which may run the body `budget` times.
pub fn picol_while_loop(
    interpreter: &mut PicolInterpreter,
    cond: &String,
    body: &String,
    budget: u64,
) -> (status: PicolResult)
    requires
        old(interpreter).wf(),
    ensures
        final(interpreter).wf(),
        final(interpreter).depth() == old(interpreter).depth(),
        final(interpreter)@.callers == old(interpreter)@.callers,
        (final(interpreter)@, status) == while_loop(
            old(interpreter)@,
            cond@,
            body@,
            old(interpreter).depth(),
            budget as nat,
        ),
    decreases old(interpreter).depth(), 1nat, 0nat,
{
    let mut left: u64 = budget;
    loop
        invariant
            interpreter.wf(),
            interpreter.depth() == old(interpreter).depth(),
            interpreter@.callers == old(interpreter)@.callers,
            while_loop(interpreter@, cond@, body@, interpreter.depth(), left as nat)
                == while_loop(
                old(interpreter)@,
                cond@,
                body@,
                old(interpreter).depth(),
                budget as nat,
            ),
        decreases left,
    {
        let status = interpreter.eval(cond);
        if status != PicolResult::PicolOk {
            return status;
        }
        if !is_char(interpreter.result().as_str(), '1') {
            return PicolResult::PicolOk;
        }
        if left == 0 {
            interpreter.set_result(&String::from_str("Iteration limit exceeded"));
            return PicolResult::PicolErr;
        }
        let status = interpreter.eval(body);
        match status {
            PicolResult::PicolBreak => {
                return PicolResult::PicolOk;
            },
            PicolResult::PicolOk | PicolResult::PicolContinue => {
                left = left - 1;
            },
            _ => {
                return status;
            },
        }
    }
}

/// `break` and `continue`
pub fn picol_cmd_retcodes(interpreter: &mut PicolInterpreter, argv: &Vec<String>) -> (status:
    PicolResult)
    requires
        old(interpreter).wf(),
        argv.len() > 0,
    ensures
        final(interpreter).wf(),
        final(interpreter).depth() == old(interpreter).depth(),
        final(interpreter)@.callers == old(interpreter)@.callers,
        (final(interpreter)@, status) == cmd_retcodes(old(interpreter)@, argv.deep_view()),
{
    if argv.len() != 1 {
        return picol_arrity_error(interpreter, &argv[0]);
    }
    if argv[0] == String::from_str("break") {
        PicolResult::PicolBreak
    } else if argv[0] == String::from_str("continue") {
        PicolResult::PicolContinue
    } else {
        PicolResult::PicolOk
    }
}

/// The call of a procedure with the parameters `params` and the body `body`.
pub fn picol_cmd_call_proc(
    interpreter: &mut PicolInterpreter,
    argv: &Vec<String>,
    params: &String,
    body: &String,
) -> (status: PicolResult)
    requires
        old(interpreter).wf(),
        argv.len() > 0,
    ensures
        final(interpreter).wf(),
        final(interpreter).depth() == old(interpreter).depth(),
        final(interpreter)@.callers == old(interpreter)@.callers,
        (final(interpreter)@, status) == call_proc(
            old(interpreter)@,
            argv.deep_view(),
            params@,
            body@,
            old(interpreter).depth(),
        ),
    decreases old(interpreter).depth(), 1nat, 0nat,
{
    let names = split_whitespace(params.as_str());
    if names.len() != argv.len() - 1 {
        return picol_arrity_error(interpreter, &argv[0]);
    }
    let ghost values = argv.deep_view().skip(1);
    let mut frame = PicolCallFrame::new();
    let mut i: usize = 0;
    while i < names.len()
        invariant
            i <= names.len(),
            names.len() == argv.len() - 1,
            values == argv.deep_view().skip(1),
            frame.wf(),
            frame@ == bind_params(names.deep_view().take(i as int), values.take(i as int)),
        decreases names.len() - i,
    {
        frame.set(&names[i], &argv[i + 1]);
        proof {
            let n = names.deep_view().take(i + 1);
            let v = values.take(i + 1);
            assert(n.drop_last() =~= names.deep_view().take(i as int));
            assert(v.drop_last() =~= values.take(i as int));
            assert(n.last() == names[i as int]@);
            assert(v.last() == argv[i + 1]@);
        }
        i += 1;
    }
    proof {
        assert(names.deep_view().take(names.len() as int) =~= names.deep_view());
        assert(values.take(names.len() as int) =~= values);
    }
    interpreter.push_callframe(frame);
    let status = interpreter.eval(body);
    interpreter.drop_callframe();
    proof {
        let st = old(interpreter)@;
        assert(st.callers.push(st.vars).drop_last() =~= st.callers);
    }
    if status == PicolResult::PicolReturn {
        PicolResult::PicolOk
    } else {
        status
    }
}

/// `proc name params body`
pub fn picol_cmd_proc(interpreter: &mut PicolInterpreter, argv: &Vec<String>) -> (status:
    PicolResult)
    requires
        old(interpreter).wf(),
        argv.len() > 0,
    ensures
        final(interpreter).wf(),
        final(interpreter).depth() == old(interpreter).depth(),
        final(interpreter)@.callers == old(interpreter)@.callers,
        (final(interpreter)@, status) == cmd_proc(old(interpreter)@, argv.deep_view()),
{
    if argv.len() != 4 {
        return picol_arrity_error(interpreter, &argv[0]);
    }
    let func = PicolCommandFunc::CallProc { params: argv[2].clone(), body: argv[3].clone() };
    interpreter.register_command(&argv[1], func)
}

/// `return [value]`
pub fn picol_cmd_return(interpreter: &mut PicolInterpreter, argv: &Vec<String>) -> (status:
    PicolResult)
    requires
        old(interpreter).wf(),
        argv.len() > 0,
    ensures
        final(interpreter).wf(),
        final(interpreter).depth() == old(interpreter).depth(),
        final(interpreter)@.callers == old(interpreter)@.callers,
        (final(interpreter)@, status) == cmd_return(old(interpreter)@, argv.deep_view()),
{
    if argv.len() != 1 && argv.len() != 2 {
        return picol_arrity_error(interpreter, &argv[0]);
    }
    let value = if argv.len() == 2 { argv[1].clone() } else { String::new() };
    interpreter.set_result(&value);
    PicolResult::PicolReturn
}

} // verus!
