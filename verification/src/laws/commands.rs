//! The built-in commands: conditions, loops, the registry and arithmetic.

use vstd::prelude::*;
use crate::semantics::{
    Failure, Handler, PicolResult, State, cmd_if, cmd_math, cmd_proc, cmd_while, core_commands,
    dispatch, eval_script, quotient, register, truth, while_loop,
};
use crate::text::{all_digits, digits_value, int_to_text, nat_to_text, parse_int};

verus! {

/// What a script does never depends on the result that the last command left: the result
/// is emptied before the first token is read.
pub proof fn law_result_is_reset(st: State, result: Seq<char>, script: Seq<char>, depth: nat)
    ensures
        eval_script(st.with_result(result), script, depth) == eval_script(st, script, depth),
{
    assert(st.with_result(result).with_result(Seq::empty()) == st.with_result(Seq::empty()));
}

/// `if` with a condition whose result is not `1`, and without a second branch, evaluates
/// no branch: the state and the result are those that the condition left.
pub proof fn law_if_false(st: State, argv: Seq<Seq<char>>, depth: nat)
    requires
        argv.len() == 3,
        eval_script(st, argv[1], depth).1 == PicolResult::PicolOk,
        eval_script(st, argv[1], depth).0.result != truth(),
    ensures
        cmd_if(st, argv, depth) == (eval_script(st, argv[1], depth).0, PicolResult::PicolOk),
{
}

/// `break` in the body of `while` ends the loop, and the loop ends well, with the state
/// that the body left.
pub proof fn law_while_break(st: State, argv: Seq<Seq<char>>, depth: nat)
    requires
        argv.len() == 3,
        eval_script(st, argv[1], depth).1 == PicolResult::PicolOk,
        eval_script(st, argv[1], depth).0.result == truth(),
        eval_script(eval_script(st, argv[1], depth).0, argv[2], depth).1
            == PicolResult::PicolBreak,
    ensures
        cmd_while(st, argv, depth) == (
            eval_script(eval_script(st, argv[1], depth).0, argv[2], depth).0,
            PicolResult::PicolOk,
        ),
{
}

/// `continue` in the body of `while`, like a body that ends well, leads to the next round.
pub proof fn law_while_continue(
    st: State,
    cond: Seq<char>,
    body: Seq<char>,
    depth: nat,
    budget: nat,
)
    requires
        budget > 0,
        eval_script(st, cond, depth).1 == PicolResult::PicolOk,
        eval_script(st, cond, depth).0.result == truth(),
        eval_script(eval_script(st, cond, depth).0, body, depth).1 == PicolResult::PicolContinue
            || eval_script(eval_script(st, cond, depth).0, body, depth).1 == PicolResult::PicolOk,
    ensures
        while_loop(st, cond, body, depth, budget) == while_loop(
            eval_script(eval_script(st, cond, depth).0, body, depth).0,
            cond,
            body,
            depth,
            (budget - 1) as nat,
        ),
{
}

/// The built-in commands: their names and what they do.
pub open spec fn core_table() -> Map<Seq<char>, Handler> {
    Map::<Seq<char>, Handler>::empty()
        .insert("+"@, Handler::Math)
        .insert("-"@, Handler::Math)
        .insert("*"@, Handler::Math)
        .insert("/"@, Handler::Math)
        .insert(">"@, Handler::Math)
        .insert("<"@, Handler::Math)
        .insert(">="@, Handler::Math)
        .insert("<="@, Handler::Math)
        .insert("=="@, Handler::Math)
        .insert("!="@, Handler::Math)
        .insert("set"@, Handler::SetVar)
        .insert("puts"@, Handler::Puts)
        .insert("if"@, Handler::If)
        .insert("while"@, Handler::While)
        .insert("break"@, Handler::RetCodes)
        .insert("continue"@, Handler::RetCodes)
        .insert("proc"@, Handler::Proc)
        .insert("return"@, Handler::Return)
}

/// One more command: if the commands are those of `table` and, first of all, those of
/// `base`, they are so again with the new command in the table.
proof fn lemma_register(
    base: State,
    st: State,
    table: Map<Seq<char>, Handler>,
    name: Seq<char>,
    handler: Handler,
)
    requires
        st.commands == table.union_prefer_right(base.commands),
        !table.contains_key(name),
    ensures
        register(st, name, handler).0.commands == table.insert(
            name,
            handler,
        ).union_prefer_right(base.commands),
        register(st, name, handler).0.vars == st.vars,
        register(st, name, handler).0.callers == st.callers,
        register(st, name, handler).0.output == st.output,
        !base.commands.contains_key(name) ==> register(st, name, handler).0.result == st.result,
{
    assert(register(st, name, handler).0.commands =~= table.insert(
        name,
        handler,
    ).union_prefer_right(base.commands));
}

/// Adding the built-in commands adds each of them under its name, except where the name
/// is taken: there the command that has the name stays. Nothing but the result changes
/// besides, and the result changes only where a name was taken.
pub proof fn law_core_commands(st: State)
    ensures
        core_commands(st).commands == core_table().union_prefer_right(st.commands),
        core_commands(st).vars == st.vars,
        core_commands(st).callers == st.callers,
        core_commands(st).output == st.output,
        st.commands.dom().disjoint(core_table().dom()) ==> core_commands(st).result == st.result,
{
    let t0 = Map::<Seq<char>, Handler>::empty();
    let s0 = st;
    assert(st.commands =~= t0.union_prefer_right(st.commands));
    reveal_strlit("+");
    assert("+"@.len() == 1 && "+"@[0] == '+');
    lemma_register(st, s0, t0, "+"@, Handler::Math);
    let s1 = register(s0, "+"@, Handler::Math).0;
    let t1 = t0.insert("+"@, Handler::Math);
    reveal_strlit("-");
    assert("-"@.len() == 1 && "-"@[0] == '-');
    lemma_register(st, s1, t1, "-"@, Handler::Math);
    let s2 = register(s1, "-"@, Handler::Math).0;
    let t2 = t1.insert("-"@, Handler::Math);
    reveal_strlit("*");
    assert("*"@.len() == 1 && "*"@[0] == '*');
    lemma_register(st, s2, t2, "*"@, Handler::Math);
    let s3 = register(s2, "*"@, Handler::Math).0;
    let t3 = t2.insert("*"@, Handler::Math);
    reveal_strlit("/");
    assert("/"@.len() == 1 && "/"@[0] == '/');
    lemma_register(st, s3, t3, "/"@, Handler::Math);
    let s4 = register(s3, "/"@, Handler::Math).0;
    let t4 = t3.insert("/"@, Handler::Math);
    reveal_strlit(">");
    assert(">"@.len() == 1 && ">"@[0] == '>');
    lemma_register(st, s4, t4, ">"@, Handler::Math);
    let s5 = register(s4, ">"@, Handler::Math).0;
    let t5 = t4.insert(">"@, Handler::Math);
    reveal_strlit("<");
    assert("<"@.len() == 1 && "<"@[0] == '<');
    lemma_register(st, s5, t5, "<"@, Handler::Math);
    let s6 = register(s5, "<"@, Handler::Math).0;
    let t6 = t5.insert("<"@, Handler::Math);
    reveal_strlit(">=");
    assert(">="@.len() == 2 && ">="@[0] == '>' && ">="@[1] == '=');
    lemma_register(st, s6, t6, ">="@, Handler::Math);
    let s7 = register(s6, ">="@, Handler::Math).0;
    let t7 = t6.insert(">="@, Handler::Math);
    reveal_strlit("<=");
    assert("<="@.len() == 2 && "<="@[0] == '<' && "<="@[1] == '=');
    lemma_register(st, s7, t7, "<="@, Handler::Math);
    let s8 = register(s7, "<="@, Handler::Math).0;
    let t8 = t7.insert("<="@, Handler::Math);
    reveal_strlit("==");
    assert("=="@.len() == 2 && "=="@[0] == '=' && "=="@[1] == '=');
    lemma_register(st, s8, t8, "=="@, Handler::Math);
    let s9 = register(s8, "=="@, Handler::Math).0;
    let t9 = t8.insert("=="@, Handler::Math);
    reveal_strlit("!=");
    assert("!="@.len() == 2 && "!="@[0] == '!' && "!="@[1] == '=');
    lemma_register(st, s9, t9, "!="@, Handler::Math);
    let s10 = register(s9, "!="@, Handler::Math).0;
    let t10 = t9.insert("!="@, Handler::Math);
    reveal_strlit("set");
    assert("set"@.len() == 3 && "set"@[0] == 's' && "set"@[1] == 'e');
    lemma_register(st, s10, t10, "set"@, Handler::SetVar);
    let s11 = register(s10, "set"@, Handler::SetVar).0;
    let t11 = t10.insert("set"@, Handler::SetVar);
    reveal_strlit("puts");
    assert("puts"@.len() == 4 && "puts"@[0] == 'p' && "puts"@[1] == 'u');
    lemma_register(st, s11, t11, "puts"@, Handler::Puts);
    let s12 = register(s11, "puts"@, Handler::Puts).0;
    let t12 = t11.insert("puts"@, Handler::Puts);
    reveal_strlit("if");
    assert("if"@.len() == 2 && "if"@[0] == 'i' && "if"@[1] == 'f');
    lemma_register(st, s12, t12, "if"@, Handler::If);
    let s13 = register(s12, "if"@, Handler::If).0;
    let t13 = t12.insert("if"@, Handler::If);
    reveal_strlit("while");
    assert("while"@.len() == 5 && "while"@[0] == 'w' && "while"@[1] == 'h');
    lemma_register(st, s13, t13, "while"@, Handler::While);
    let s14 = register(s13, "while"@, Handler::While).0;
    let t14 = t13.insert("while"@, Handler::While);
    reveal_strlit("break");
    assert("break"@.len() == 5 && "break"@[0] == 'b' && "break"@[1] == 'r');
    lemma_register(st, s14, t14, "break"@, Handler::RetCodes);
    let s15 = register(s14, "break"@, Handler::RetCodes).0;
    let t15 = t14.insert("break"@, Handler::RetCodes);
    reveal_strlit("continue");
    assert("continue"@.len() == 8 && "continue"@[0] == 'c' && "continue"@[1] == 'o');
    lemma_register(st, s15, t15, "continue"@, Handler::RetCodes);
    let s16 = register(s15, "continue"@, Handler::RetCodes).0;
    let t16 = t15.insert("continue"@, Handler::RetCodes);
    reveal_strlit("proc");
    assert("proc"@.len() == 4 && "proc"@[0] == 'p' && "proc"@[1] == 'r');
    lemma_register(st, s16, t16, "proc"@, Handler::Proc);
    let s17 = register(s16, "proc"@, Handler::Proc).0;
    let t17 = t16.insert("proc"@, Handler::Proc);
    reveal_strlit("return");
    assert("return"@.len() == 6 && "return"@[0] == 'r' && "return"@[1] == 'e');
    lemma_register(st, s17, t17, "return"@, Handler::Return);
    let s18 = register(s17, "return"@, Handler::Return).0;
    let t18 = t17.insert("return"@, Handler::Return);
    assert(core_commands(st) == s18);
    assert(core_table() == t18);
}

/// A command whose name is not registered fails, and the message names it.
pub proof fn law_unknown_command(st: State, argv: Seq<Seq<char>>, depth: nat)
    requires
        !st.commands.contains_key(argv[0]),
    ensures
        dispatch(st, argv, depth) == st.fail(Failure::UnknownCommand(argv[0])),
{
}

/// `proc` with a name that is taken fails and leaves every command as it is; with a new
/// name it adds the procedure and changes no other command.
pub proof fn law_proc_never_redefines(st: State, argv: Seq<Seq<char>>)
    requires
        argv.len() == 4,
    ensures
        st.commands.contains_key(argv[1]) ==> cmd_proc(st, argv) == st.fail(
            Failure::DuplicateCommand(argv[1]),
        ),
        !st.commands.contains_key(argv[1]) ==> cmd_proc(st, argv).1 == PicolResult::PicolOk
            && cmd_proc(st, argv).0.commands == st.commands.insert(
            argv[1],
            Handler::CallProc { params: argv[2], body: argv[3] },
        ),
        st.commands.submap_of(cmd_proc(st, argv).0.commands),
{
}

/// The decimal form of a natural number holds digits only, at least one, and stands for
/// the number.
pub proof fn lemma_nat_to_text(n: nat)
    ensures
        nat_to_text(n).len() > 0,
        all_digits(nat_to_text(n)),
        digits_value(nat_to_text(n)) == n,
    decreases n,
{
    if n < 10 {
        let text = nat_to_text(n);
        assert(text.drop_last() =~= Seq::<char>::empty());
        assert(digits_value(text.drop_last()) == 0);
    } else {
        lemma_nat_to_text(n / 10);
        let text = nat_to_text(n);
        assert(text.drop_last() =~= nat_to_text(n / 10));
    }
}

/// Reading the decimal form of a 32-bit integer gives the integer back: what an operator
/// computes can be an operand again.
pub proof fn law_int_round_trip(v: i32)
    ensures
        parse_int(int_to_text(v as int)) == Some(v),
{
    if v < 0 {
        let n = (-v) as nat;
        lemma_nat_to_text(n);
        let text = int_to_text(v as int);
        assert(text.skip(1) =~= nat_to_text(n));
    } else {
        lemma_nat_to_text(v as nat);
        assert(all_digits(nat_to_text(v as nat)));
        assert(nat_to_text(v as nat)[0] != '-' && nat_to_text(v as nat)[0] != '+');
    }
}

/// Division by zero fails, whatever the dividend is.
pub proof fn law_division_by_zero(st: State, argv: Seq<Seq<char>>)
    requires
        argv.len() == 3,
        argv[0] == seq!['/'],
        parse_int(argv[1]) is Some,
        parse_int(argv[2]) == Some(0i32),
    ensures
        cmd_math(st, argv) == st.fail(Failure::DivisionByZero),
{
}

/// The quotient is rounded toward zero: the remainder is smaller than the divisor in
/// absolute value, and is zero or has the sign of the dividend.
pub proof fn law_quotient_truncates(a: int, b: int)
    requires
        b != 0,
    ensures
        ({
            let r = a - quotient(a, b) * b;
            &&& if b > 0 { -b < r < b } else { b < r < -b }
            &&& a >= 0 ==> r >= 0
            &&& a <= 0 ==> r <= 0
        }),
{
    let m = if a >= 0 { a } else { -a };
    let d = if b > 0 { b } else { -b };
    assert(m == (m / d) * d + m % d && 0 <= m % d < d) by (nonlinear_arith)
        requires
            d > 0,
    ;
    let q = quotient(a, b);
    assert(q * b == if a >= 0 { (m / d) * d } else { -((m / d) * d) }) by (nonlinear_arith)
        requires
            q == if (a >= 0) == (b > 0) { m / d } else { -(m / d) },
            d == if b > 0 { b } else { -b },
    ;
}

} // verus!
