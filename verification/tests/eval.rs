use picol::commands::{
    picol_arrity_error, picol_cmd_call_proc, picol_cmd_if, picol_cmd_math, picol_cmd_proc,
    picol_cmd_puts, picol_cmd_retcodes, picol_cmd_return, picol_cmd_set, picol_cmd_while,
    picol_while_loop,
};
use picol::frame::PicolCallFrame;
use picol::interp::PicolCommandFunc;
use picol::{PicolInterpreter, PicolResult};

fn interp() -> PicolInterpreter {
    let mut i = PicolInterpreter::new();
    i.register_core_commands();
    i
}

fn eval(i: &mut PicolInterpreter, script: &str) -> PicolResult {
    i.eval(&script.to_string())
}

fn var(i: &PicolInterpreter, name: &str) -> Option<String> {
    i.get_var(&name.to_string())
}

#[test]
fn empty_script_is_ok_with_empty_result() {
    let mut i = interp();
    assert_eq!(eval(&mut i, ""), PicolResult::PicolOk);
    assert_eq!(i.result, "");
}

#[test]
fn blank_and_comment_script_is_ok_with_empty_result() {
    let mut i = interp();
    eval(&mut i, "set x 1");
    assert_eq!(i.result, "1");
    let status = eval(&mut i, "\n  \t\r\n# a comment ; with $x [and] {braces}\n;;  \n# another");
    assert_eq!(status, PicolResult::PicolOk);
    assert_eq!(i.result, "");
    assert!(i.output().is_empty());
}

#[test]
fn comment_only_at_command_start() {
    let mut i = interp();
    // After leading blanks the lexer is no longer where a command may begin.
    assert_eq!(eval(&mut i, "  # not a comment"), PicolResult::PicolErr);
    assert_eq!(i.result, "Unknown command #");
    assert_eq!(eval(&mut i, "set x a#b"), PicolResult::PicolOk);
    assert_eq!(i.result, "a#b");
}

#[test]
fn set_and_substitute_variable() {
    let mut i = interp();
    assert_eq!(eval(&mut i, "set x 5; set y $x"), PicolResult::PicolOk);
    assert_eq!(var(&i, "y"), Some("5".to_string()));
    assert_eq!(var(&i, "x"), Some("5".to_string()));
    assert_eq!(i.result, "5");
}

#[test]
fn set_overwrites_a_variable() {
    let mut i = interp();
    assert_eq!(eval(&mut i, "set x 5\nset x 6\nset z $x$x"), PicolResult::PicolOk);
    assert_eq!(var(&i, "x"), Some("6".to_string()));
    assert_eq!(var(&i, "z"), Some("66".to_string()));
    assert_eq!(var(&i, "nope"), None);
}

#[test]
fn nested_command_substitution() {
    let mut i = interp();
    assert_eq!(eval(&mut i, "+ [+ 1 2] 3"), PicolResult::PicolOk);
    assert_eq!(i.result, "6");
    assert_eq!(eval(&mut i, "* [+ 1 [- 10 7]] [/ 9 [+ 1 2]]"), PicolResult::PicolOk);
    assert_eq!(i.result, "12");
}

#[test]
fn word_concatenation() {
    let mut i = interp();
    assert_eq!(eval(&mut i, "set a foo; puts bar$a"), PicolResult::PicolOk);
    assert_eq!(i.output(), &vec!["barfoo".to_string()]);
    assert_eq!(eval(&mut i, "puts x[+ 1 1]y$a{z}"), PicolResult::PicolOk);
    assert_eq!(i.take_output(), vec!["barfoo".to_string(), "x2yfoo{z}".to_string()]);
    assert!(i.output().is_empty());
}

#[test]
fn puts_leaves_the_result() {
    let mut i = interp();
    assert_eq!(eval(&mut i, "puts [+ 1 2]"), PicolResult::PicolOk);
    assert_eq!(i.result, "3");
    assert_eq!(i.take_output(), vec!["3".to_string()]);
}

#[test]
fn if_false_skips_the_branch() {
    let mut i = interp();
    assert_eq!(eval(&mut i, "set x 1; if {== 1 2} {set x 2}"), PicolResult::PicolOk);
    assert_eq!(var(&i, "x"), Some("1".to_string()));
    assert_eq!(i.result, "0");
}

#[test]
fn if_true_runs_the_branch() {
    let mut i = interp();
    assert_eq!(eval(&mut i, "if {== 2 2} {set x yes} else {set x no}"), PicolResult::PicolOk);
    assert_eq!(var(&i, "x"), Some("yes".to_string()));
    assert_eq!(i.result, "yes");
}

#[test]
fn if_else_branch_and_unchecked_else_word() {
    let mut i = interp();
    assert_eq!(eval(&mut i, "if {== 1 2} {set x yes} else {set x no}"), PicolResult::PicolOk);
    assert_eq!(var(&i, "x"), Some("no".to_string()));
    assert_eq!(eval(&mut i, "if {== 1 2} {set x yes} otherwise {set x other}"), PicolResult::PicolOk);
    assert_eq!(var(&i, "x"), Some("other".to_string()));
}

#[test]
fn if_condition_must_be_exactly_one() {
    let mut i = interp();
    assert_eq!(eval(&mut i, "if {+ 1 1} {set x yes} else {set x no}"), PicolResult::PicolOk);
    assert_eq!(var(&i, "x"), Some("no".to_string()));
    assert_eq!(eval(&mut i, "if {set c 01} {set x yes} else {set x no}"), PicolResult::PicolOk);
    assert_eq!(var(&i, "x"), Some("no".to_string()));
}

#[test]
fn if_propagates_the_status_of_the_condition() {
    let mut i = interp();
    assert_eq!(eval(&mut i, "if {nosuch} {set x yes}"), PicolResult::PicolErr);
    assert_eq!(i.result, "Unknown command nosuch");
    assert_eq!(var(&i, "x"), None);
}

#[test]
fn while_counts_to_three() {
    let mut i = interp();
    let status = eval(&mut i, "set i 0; set n 0; while {< $i 3} { set i [+ $i 1]; set n [+ $n 1] }");
    assert_eq!(status, PicolResult::PicolOk);
    assert_eq!(var(&i, "i"), Some("3".to_string()));
    assert_eq!(var(&i, "n"), Some("3".to_string()));
}

#[test]
fn while_runs_until_the_condition_fails() {
    let mut i = interp();
    assert_eq!(eval(&mut i, "set i 0"), PicolResult::PicolOk);
    assert_eq!(eval(&mut i, "while {< $i 3} { set i [+ $i 1] }"), PicolResult::PicolOk);
    assert_eq!(var(&i, "i"), Some("3".to_string()));
}

#[test]
fn break_stops_the_loop_with_ok() {
    let mut i = interp();
    let status = eval(&mut i, "set i 0; while {== 1 1} { set i [+ $i 1]; if {== $i 4} {break} }; set after done");
    assert_eq!(status, PicolResult::PicolOk);
    assert_eq!(var(&i, "i"), Some("4".to_string()));
    assert_eq!(var(&i, "after"), Some("done".to_string()));
}

#[test]
fn continue_starts_the_next_round() {
    let mut i = interp();
    let status = eval(
        &mut i,
        "set i 0; set odd 0; while {< $i 6} { set i [+ $i 1]; if {== [- $i [* [/ $i 2] 2]] 0} {continue}; set odd [+ $odd 1] }",
    );
    assert_eq!(status, PicolResult::PicolOk);
    assert_eq!(var(&i, "i"), Some("6".to_string()));
    assert_eq!(var(&i, "odd"), Some("3".to_string()));
}

#[test]
fn error_in_while_body_ends_the_loop() {
    let mut i = interp();
    let status = eval(&mut i, "set i 0; while {== 1 1} { set i [+ $i 1]; nosuch }");
    assert_eq!(status, PicolResult::PicolErr);
    assert_eq!(i.result, "Unknown command nosuch");
    assert_eq!(var(&i, "i"), Some("1".to_string()));
}

#[test]
fn break_and_continue_outside_a_loop_reach_the_top() {
    let mut i = interp();
    assert_eq!(eval(&mut i, "break"), PicolResult::PicolBreak);
    assert_eq!(eval(&mut i, "continue; set x 1"), PicolResult::PicolContinue);
    assert_eq!(var(&i, "x"), None);
}

#[test]
fn return_at_top_level() {
    let mut i = interp();
    assert_eq!(eval(&mut i, "return 7; set x 1"), PicolResult::PicolReturn);
    assert_eq!(i.result, "7");
    assert_eq!(var(&i, "x"), None);
    assert_eq!(eval(&mut i, "return"), PicolResult::PicolReturn);
    assert_eq!(i.result, "");
}

#[test]
fn unknown_command() {
    let mut i = interp();
    assert_eq!(eval(&mut i, "foo 1 2"), PicolResult::PicolErr);
    assert!(i.result.contains("Unknown command foo"));
    assert_eq!(i.result, "Unknown command foo");
}

#[test]
fn unknown_variable() {
    let mut i = interp();
    assert_eq!(eval(&mut i, "set y $x"), PicolResult::PicolErr);
    assert_eq!(i.result, "Unknown variable x");
    assert_eq!(var(&i, "y"), None);
}

#[test]
fn failed_substitution_aborts_the_command() {
    let mut i = interp();
    assert_eq!(eval(&mut i, "set y [nosuch]; set z 1"), PicolResult::PicolErr);
    assert_eq!(i.result, "Unknown command nosuch");
    assert_eq!(var(&i, "y"), None);
    assert_eq!(var(&i, "z"), None);
}

#[test]
fn duplicate_proc_is_rejected() {
    let mut i = interp();
    assert_eq!(eval(&mut i, "proc p {} {return first}"), PicolResult::PicolOk);
    assert_eq!(eval(&mut i, "proc p {} {return second}"), PicolResult::PicolErr);
    assert_eq!(i.result, "Command p already exists");
    assert_eq!(eval(&mut i, "p"), PicolResult::PicolOk);
    assert_eq!(i.result, "first");
}

#[test]
fn builtins_cannot_be_redefined() {
    let mut i = interp();
    assert_eq!(eval(&mut i, "proc set {a b} {return x}"), PicolResult::PicolErr);
    assert_eq!(i.result, "Command set already exists");
    assert_eq!(eval(&mut i, "set v 3"), PicolResult::PicolOk);
    assert_eq!(i.result, "3");
}

#[test]
fn registering_core_commands_twice_keeps_them() {
    let mut i = interp();
    i.register_core_commands();
    assert_eq!(i.result, "Command return already exists");
    assert_eq!(eval(&mut i, "+ 1 2"), PicolResult::PicolOk);
    assert_eq!(i.result, "3");
}

#[test]
fn new_interpreter_has_no_commands() {
    let mut i = PicolInterpreter::new();
    assert_eq!(i.result, "");
    assert_eq!(eval(&mut i, "set x 1"), PicolResult::PicolErr);
    assert_eq!(i.result, "Unknown command set");
    assert_eq!(eval(&mut i, "   "), PicolResult::PicolOk);
}

#[test]
fn procedure_cannot_read_the_callers_variables() {
    let mut i = interp();
    assert_eq!(eval(&mut i, "set x 1; proc p {} {puts $x}; p"), PicolResult::PicolErr);
    assert_eq!(i.result, "Unknown variable x");
    assert!(i.output().is_empty());
    assert_eq!(var(&i, "x"), Some("1".to_string()));
}

#[test]
fn procedure_does_not_change_the_callers_variables() {
    let mut i = interp();
    let status = eval(&mut i, "set x 1; proc p {y} {set x $y; set z 9; return $x}; p 5");
    assert_eq!(status, PicolResult::PicolOk);
    assert_eq!(i.result, "5");
    assert_eq!(var(&i, "x"), Some("1".to_string()));
    assert_eq!(var(&i, "y"), None);
    assert_eq!(var(&i, "z"), None);
}

#[test]
fn procedure_parameters_are_bound_by_position() {
    let mut i = interp();
    assert_eq!(eval(&mut i, "proc sub {a b} {- $a $b}"), PicolResult::PicolOk);
    assert_eq!(eval(&mut i, "sub 10 3"), PicolResult::PicolOk);
    assert_eq!(i.result, "7");
    assert_eq!(eval(&mut i, "proc pick {a \t\n a} {return $a}; pick 1 2"), PicolResult::PicolOk);
    assert_eq!(i.result, "2");
}

#[test]
fn procedure_arity_is_checked_at_the_call() {
    let mut i = interp();
    assert_eq!(eval(&mut i, "proc sub {a b} {- $a $b}"), PicolResult::PicolOk);
    assert_eq!(eval(&mut i, "sub 1"), PicolResult::PicolErr);
    assert_eq!(i.result, "Wrong number of arguments for sub");
    assert_eq!(eval(&mut i, "sub 1 2 3"), PicolResult::PicolErr);
    assert_eq!(i.result, "Wrong number of arguments for sub");
    // The failed calls left no frame behind.
    assert_eq!(eval(&mut i, "set x 1"), PicolResult::PicolOk);
    assert_eq!(var(&i, "x"), Some("1".to_string()));
}

#[test]
fn return_ends_a_procedure_with_ok() {
    let mut i = interp();
    assert_eq!(eval(&mut i, "proc f {} {return early; set never 1}; f; set after [f]"), PicolResult::PicolOk);
    assert_eq!(var(&i, "after"), Some("early".to_string()));
}

#[test]
fn break_passes_through_a_procedure() {
    let mut i = interp();
    let status = eval(&mut i, "proc stop {} {break}; set i 0; while {== 1 1} {set i [+ $i 1]; stop}");
    assert_eq!(status, PicolResult::PicolOk);
    assert_eq!(var(&i, "i"), Some("1".to_string()));
}

#[test]
fn recursive_procedure() {
    let mut i = interp();
    let script = "proc fact {n} { if {<= $n 1} { return 1 } else { return [* $n [fact [- $n 1]]] } }; fact 10";
    assert_eq!(eval(&mut i, script), PicolResult::PicolOk);
    assert_eq!(i.result, "3628800");
}

#[test]
fn unbounded_recursion_fails_at_the_limit() {
    let mut i = interp();
    assert_eq!(eval(&mut i, "proc f {} {f}; f"), PicolResult::PicolErr);
    assert_eq!(i.result, "Recursion limit exceeded");
    // The interpreter is usable afterwards, at the top level.
    assert_eq!(eval(&mut i, "set x 1"), PicolResult::PicolOk);
    assert_eq!(var(&i, "x"), Some("1".to_string()));
}

#[test]
fn nesting_up_to_the_limit() {
    let mut i = interp();
    let mut script = String::from("+ 1 1");
    for _ in 0..255 {
        script = format!("+ 0 [{}]", script);
    }
    assert_eq!(eval(&mut i, &script), PicolResult::PicolOk);
    assert_eq!(i.result, "2");
    script = format!("+ 0 [{}]", script);
    assert_eq!(eval(&mut i, &script), PicolResult::PicolErr);
    assert_eq!(i.result, "Recursion limit exceeded");
}

#[test]
fn division() {
    let mut i = interp();
    assert_eq!(eval(&mut i, "/ 4 0"), PicolResult::PicolErr);
    assert_eq!(i.result, "Division by zero");
    assert_eq!(eval(&mut i, "/ 7 2"), PicolResult::PicolOk);
    assert_eq!(i.result, "3");
    assert_eq!(eval(&mut i, "/ -7 2"), PicolResult::PicolOk);
    assert_eq!(i.result, "-3");
    assert_eq!(eval(&mut i, "/ 7 -2"), PicolResult::PicolOk);
    assert_eq!(i.result, "-3");
    assert_eq!(eval(&mut i, "/ -7 -2"), PicolResult::PicolOk);
    assert_eq!(i.result, "3");
    assert_eq!(eval(&mut i, "/ 0 5"), PicolResult::PicolOk);
    assert_eq!(i.result, "0");
    assert_eq!(eval(&mut i, "/ -2147483648 -1"), PicolResult::PicolOk);
    assert_eq!(i.result, "-2147483648");
    assert_eq!(eval(&mut i, "/ -2147483648 1"), PicolResult::PicolOk);
    assert_eq!(i.result, "-2147483648");
    assert_eq!(eval(&mut i, "/ -2147483648 2"), PicolResult::PicolOk);
    assert_eq!(i.result, "-1073741824");
}

#[test]
fn arithmetic_operators() {
    let mut i = interp();
    let cases = [
        ("+ 2 3", "5"),
        ("- 2 3", "-1"),
        ("* -4 3", "-12"),
        ("+ +5 -5", "0"),
        ("+ 007 1", "8"),
        ("> 2 1", "1"),
        ("> 1 2", "0"),
        ("< 1 2", "1"),
        ("< 2 1", "0"),
        (">= 2 2", "1"),
        (">= 1 2", "0"),
        ("<= 2 2", "1"),
        ("<= 3 2", "0"),
        ("== 3 3", "1"),
        ("== 3 4", "0"),
        ("!= 3 4", "1"),
        ("!= 3 3", "0"),
    ];
    for (script, expected) in cases {
        assert_eq!(eval(&mut i, script), PicolResult::PicolOk, "{}", script);
        assert_eq!(i.result, expected, "{}", script);
    }
}

#[test]
fn arithmetic_wraps_around() {
    let mut i = interp();
    assert_eq!(eval(&mut i, "+ 2147483647 1"), PicolResult::PicolOk);
    assert_eq!(i.result, "-2147483648");
    assert_eq!(eval(&mut i, "- -2147483648 1"), PicolResult::PicolOk);
    assert_eq!(i.result, "2147483647");
    assert_eq!(eval(&mut i, "* 65536 65536"), PicolResult::PicolOk);
    assert_eq!(i.result, "0");
    assert_eq!(eval(&mut i, "* 2147483647 2147483647"), PicolResult::PicolOk);
    assert_eq!(i.result, "1");
    assert_eq!(eval(&mut i, "* 123456789 987654321"), PicolResult::PicolOk);
    assert_eq!(i.result, 123456789i32.wrapping_mul(987654321).to_string());
}

#[test]
fn operands_must_be_integers() {
    let mut i = interp();
    assert_eq!(eval(&mut i, "+ a 1"), PicolResult::PicolErr);
    assert_eq!(i.result, "Expected integer but got a");
    assert_eq!(eval(&mut i, "+ 1 2x"), PicolResult::PicolErr);
    assert_eq!(i.result, "Expected integer but got 2x");
    assert_eq!(eval(&mut i, "+ {} 1"), PicolResult::PicolErr);
    assert_eq!(i.result, "Expected integer but got ");
    assert_eq!(eval(&mut i, "+ 2147483648 1"), PicolResult::PicolErr);
    assert_eq!(i.result, "Expected integer but got 2147483648");
    assert_eq!(eval(&mut i, "+ 1 -"), PicolResult::PicolErr);
    assert_eq!(i.result, "Expected integer but got -");
    assert_eq!(eval(&mut i, "/ x 0"), PicolResult::PicolErr);
    assert_eq!(i.result, "Expected integer but got x");
}

#[test]
fn wrong_number_of_arguments() {
    let mut i = interp();
    let cases = [
        ("+ 1", "+"),
        ("+ 1 2 3", "+"),
        ("set x", "set"),
        ("set x 1 2", "set"),
        ("puts", "puts"),
        ("puts a b", "puts"),
        ("if {== 1 1}", "if"),
        ("if {== 1 1} {set x 1} else", "if"),
        ("while {== 1 1}", "while"),
        ("break now", "break"),
        ("continue now", "continue"),
        ("proc p {}", "proc"),
        ("return 1 2", "return"),
    ];
    for (script, name) in cases {
        assert_eq!(eval(&mut i, script), PicolResult::PicolErr, "{}", script);
        assert_eq!(i.result, format!("Wrong number of arguments for {}", name), "{}", script);
    }
}

#[test]
fn braces_quote_without_substitution() {
    let mut i = interp();
    assert_eq!(eval(&mut i, "set x {a $b [c] {d e} \\} f}"), PicolResult::PicolOk);
    assert_eq!(i.result, "a $b [c] {d e} \\} f");
}

#[test]
fn double_quotes_keep_blanks_and_substitute() {
    let mut i = interp();
    assert_eq!(eval(&mut i, "set n 3; set x \"a b; $n [+ $n 1]\nc\""), PicolResult::PicolOk);
    assert_eq!(i.result, "a b; 3 4\nc");
}

#[test]
fn dollar_without_a_name_is_literal() {
    let mut i = interp();
    assert_eq!(eval(&mut i, "set x $"), PicolResult::PicolOk);
    assert_eq!(i.result, "$");
    assert_eq!(eval(&mut i, "set x a$ b"), PicolResult::PicolErr);
    assert_eq!(i.result, "Wrong number of arguments for set");
    assert_eq!(eval(&mut i, "set x a$-b"), PicolResult::PicolOk);
    assert_eq!(i.result, "a$-b");
}

#[test]
fn escapes_are_kept_as_written() {
    let mut i = interp();
    assert_eq!(eval(&mut i, "set x a\\ b"), PicolResult::PicolOk);
    assert_eq!(i.result, "a\\ b");
    assert_eq!(eval(&mut i, "set x a\\$b"), PicolResult::PicolOk);
    assert_eq!(i.result, "a\\$b");
    assert_eq!(eval(&mut i, "set x end\\"), PicolResult::PicolOk);
    assert_eq!(i.result, "end\\");
}

#[test]
fn unterminated_constructs_end_with_the_script() {
    let mut i = interp();
    assert_eq!(eval(&mut i, "set x {abc"), PicolResult::PicolOk);
    assert_eq!(i.result, "abc");
    assert_eq!(eval(&mut i, "set x \"abc def"), PicolResult::PicolOk);
    assert_eq!(i.result, "abc def");
    assert_eq!(eval(&mut i, "set x [+ 1 2"), PicolResult::PicolOk);
    assert_eq!(i.result, "3");
    assert_eq!(eval(&mut i, "set x ["), PicolResult::PicolOk);
    assert_eq!(i.result, "");
}

#[test]
fn variable_names_are_alphanumeric_or_underscore() {
    let mut i = interp();
    assert_eq!(eval(&mut i, "set a_1 x; set r $a_1-$a_1"), PicolResult::PicolOk);
    assert_eq!(i.result, "x-x");
    assert_eq!(eval(&mut i, "set \u{e9}t\u{e9} y; set r $\u{e9}t\u{e9}."), PicolResult::PicolOk);
    assert_eq!(i.result, "y.");
}

#[test]
fn separators_do_not_include_newlines() {
    let mut i = interp();
    assert_eq!(eval(&mut i, "set x 1 \n set y 2"), PicolResult::PicolOk);
    assert_eq!(var(&i, "x"), Some("1".to_string()));
    assert_eq!(var(&i, "y"), Some("2".to_string()));
}

#[test]
fn result_is_reset_by_every_eval() {
    let mut i = interp();
    assert_eq!(eval(&mut i, "set x 5"), PicolResult::PicolOk);
    assert_eq!(i.result, "5");
    assert_eq!(eval(&mut i, ""), PicolResult::PicolOk);
    assert_eq!(i.result, "");
}

#[test]
fn set_result_replaces_the_result() {
    let mut i = interp();
    i.set_result(&"hello".to_string());
    assert_eq!(i.result, "hello");
    assert_eq!(i.result(), "hello");
}

#[test]
fn set_var_binds_in_the_current_frame() {
    let mut i = interp();
    i.set_var(&"k".to_string(), &"v".to_string());
    assert_eq!(var(&i, "k"), Some("v".to_string()));
    assert_eq!(eval(&mut i, "set r $k"), PicolResult::PicolOk);
    assert_eq!(i.result, "v");
}

fn words(list: &[&str]) -> Vec<String> {
    list.iter().map(|w| w.to_string()).collect()
}

#[test]
fn dispatch_calls_the_named_command() {
    let mut i = interp();
    assert_eq!(i.dispatch(&words(&["+", "20", "22"])), PicolResult::PicolOk);
    assert_eq!(i.result, "42");
    assert_eq!(i.dispatch(&words(&["nosuch"])), PicolResult::PicolErr);
    assert_eq!(i.result, "Unknown command nosuch");
}

#[test]
fn commands_called_directly() {
    let mut i = interp();
    assert_eq!(picol_cmd_math(&mut i, &words(&["-", "5", "7"])), PicolResult::PicolOk);
    assert_eq!(i.result, "-2");
    assert_eq!(picol_cmd_math(&mut i, &words(&["%", "5", "7"])), PicolResult::PicolOk);
    assert_eq!(i.result, "0");
    assert_eq!(picol_cmd_set(&mut i, &words(&["set", "n", "0"])), PicolResult::PicolOk);
    assert_eq!(var(&i, "n"), Some("0".to_string()));
    assert_eq!(picol_cmd_puts(&mut i, &words(&["puts", "a b"])), PicolResult::PicolOk);
    assert_eq!(i.take_output(), vec!["a b".to_string()]);
    assert_eq!(
        picol_cmd_if(&mut i, &words(&["if", "== $n 0", "set r zero", "else", "set r other"])),
        PicolResult::PicolOk
    );
    assert_eq!(var(&i, "r"), Some("zero".to_string()));
    assert_eq!(
        picol_cmd_while(&mut i, &words(&["while", "< $n 5", "set n [+ $n 1]"])),
        PicolResult::PicolOk
    );
    assert_eq!(var(&i, "n"), Some("5".to_string()));
    assert_eq!(picol_cmd_retcodes(&mut i, &words(&["break"])), PicolResult::PicolBreak);
    assert_eq!(picol_cmd_retcodes(&mut i, &words(&["continue"])), PicolResult::PicolContinue);
    assert_eq!(picol_cmd_retcodes(&mut i, &words(&["other"])), PicolResult::PicolOk);
    assert_eq!(picol_cmd_return(&mut i, &words(&["return", "v"])), PicolResult::PicolReturn);
    assert_eq!(i.result, "v");
    assert_eq!(
        picol_cmd_proc(&mut i, &words(&["proc", "twice", "x", "+ $x $x"])),
        PicolResult::PicolOk
    );
    assert_eq!(eval(&mut i, "twice 21"), PicolResult::PicolOk);
    assert_eq!(i.result, "42");
    let status = picol_cmd_call_proc(
        &mut i,
        &words(&["f", "1", "2"]),
        &"a b".to_string(),
        &"return $b$a$n".to_string(),
    );
    assert_eq!(status, PicolResult::PicolErr);
    assert_eq!(i.result, "Unknown variable n");
    let status = picol_cmd_call_proc(
        &mut i,
        &words(&["f", "1", "2"]),
        &"a b".to_string(),
        &"return $b$a".to_string(),
    );
    assert_eq!(status, PicolResult::PicolOk);
    assert_eq!(i.result, "21");
    assert_eq!(picol_arrity_error(&mut i, &"cmd".to_string()), PicolResult::PicolErr);
    assert_eq!(i.result, "Wrong number of arguments for cmd");
}

#[test]
fn register_command_rejects_a_taken_name() {
    let mut i = interp();
    let name = "add".to_string();
    assert_eq!(i.register_command(&name, PicolCommandFunc::Math), PicolResult::PicolOk);
    assert_eq!(eval(&mut i, "add 1 2"), PicolResult::PicolOk);
    assert_eq!(i.result, "0");
    let body = PicolCommandFunc::CallProc { params: "a b".to_string(), body: "+ $a $b".to_string() };
    assert_eq!(i.register_command(&name, body), PicolResult::PicolErr);
    assert_eq!(i.result, "Command add already exists");
    assert_eq!(eval(&mut i, "add 1 2"), PicolResult::PicolOk);
    assert_eq!(i.result, "0");
}

#[test]
fn call_frames_directly() {
    let mut frame = PicolCallFrame::new();
    assert_eq!(frame.get(&"a".to_string()), None);
    frame.set(&"a".to_string(), &"1".to_string());
    frame.set(&"b".to_string(), &"2".to_string());
    frame.set(&"a".to_string(), &"3".to_string());
    assert_eq!(frame.get(&"a".to_string()), Some("3".to_string()));
    assert_eq!(frame.get(&"b".to_string()), Some("2".to_string()));
    assert_eq!(frame.get(&"c".to_string()), None);
}

#[test]
fn loop_fails_when_its_rounds_are_used_up() {
    let mut i = interp();
    assert_eq!(eval(&mut i, "set n 0"), PicolResult::PicolOk);
    let cond = "== 1 1".to_string();
    let body = "set n [+ $n 1]".to_string();
    assert_eq!(picol_while_loop(&mut i, &cond, &body, 3), PicolResult::PicolErr);
    assert_eq!(i.result, "Iteration limit exceeded");
    assert_eq!(var(&i, "n"), Some("3".to_string()));
}

#[test]
fn loop_within_its_rounds_ends_well() {
    let mut i = interp();
    assert_eq!(eval(&mut i, "set n 0"), PicolResult::PicolOk);
    let cond = "< $n 3".to_string();
    let body = "set n [+ $n 1]".to_string();
    assert_eq!(picol_while_loop(&mut i, &cond, &body, 3), PicolResult::PicolOk);
    assert_eq!(var(&i, "n"), Some("3".to_string()));
    assert_eq!(picol_while_loop(&mut i, &cond, &body, 0), PicolResult::PicolOk);
    assert_eq!(i.result, "0");
}

#[test]
fn frames_are_a_stack() {
    let mut i = interp();
    i.set_var(&"x".to_string(), &"1".to_string());
    i.push_callframe(PicolCallFrame::new());
    assert_eq!(var(&i, "x"), None);
    i.set_var(&"y".to_string(), &"2".to_string());
    let mut inner = PicolCallFrame::new();
    inner.set(&"z".to_string(), &"3".to_string());
    i.push_callframe(inner);
    assert_eq!(var(&i, "y"), None);
    assert_eq!(var(&i, "z"), Some("3".to_string()));
    i.drop_callframe();
    assert_eq!(var(&i, "y"), Some("2".to_string()));
    assert_eq!(var(&i, "z"), None);
    i.drop_callframe();
    assert_eq!(var(&i, "x"), Some("1".to_string()));
    assert_eq!(var(&i, "y"), None);
}

#[test]
fn emit_writes_a_line() {
    let mut i = interp();
    i.emit(&"one".to_string());
    assert_eq!(eval(&mut i, "puts two"), PicolResult::PicolOk);
    assert_eq!(i.output(), &vec!["one".to_string(), "two".to_string()]);
}
