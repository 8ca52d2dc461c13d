//! The interpreter: its state, the registry of commands and the evaluator.
//!
//! Every function here is proved to compute what the semantics says: the state of the
//! interpreter is viewed as a [`State`], and the contracts are equations between the state
//! after a call and a spec function of the state before it.

use vstd::prelude::*;
use vstd::string::*;
use crate::commands::{
    picol_cmd_call_proc, picol_cmd_if, picol_cmd_math, picol_cmd_proc, picol_cmd_puts,
    picol_cmd_retcodes, picol_cmd_return, picol_cmd_set, picol_cmd_while,
};
use crate::frame::PicolCallFrame;
use crate::lexer::{Cursor, PicolParser, PicolType, lemma_next_token};
use crate::semantics::{
    Frame, Handler, PicolResult, State, MAX_LEVEL, core_commands, dispatch, eval_script,
    eval_tokens, join_word, register, tokens_left,
};
use crate::table::{
    distinct_keys, has_key, lemma_table_absent, lemma_table_empty, lemma_table_entry,
    lemma_table_push, table_of,
};

verus! {

/// What a command does when it is called.
pub enum PicolCommandFunc {
    /// The arithmetic and comparison operators.
    Math,
    /// `set name value`
    SetVar,
    /// `puts text`
    Puts,
    /// `if cond then [else other]`
    If,
    /// `while cond body`
    While,
    /// `break` and `continue`
    RetCodes,
    /// `proc name params body`
    Proc,
    /// `return [value]`
    Return,
    /// A procedure: the names of its parameters, separated by white space, and its body.
    CallProc { params: String, body: String },
}

/// A command: its name and what it does.
pub struct PicolCmd {
    name: String,
    command_func: PicolCommandFunc,
}

/// An interpreter: its commands, its call frames, the result of the last command and the
/// lines written so far.
pub struct PicolInterpreter {
    level: u32,
    commands: Vec<PicolCmd>,
    callframe: PicolCallFrame,
    callers: Vec<PicolCallFrame>,
    /// The result of the last command, or the message of the error that ended it.
    pub result: String,
    output: Vec<String>,
}

/// The entries that a vector of commands stands for.
spec fn cmd_entries(cmds: Seq<PicolCmd>) -> Seq<(Seq<char>, Handler)> {
    Seq::new(cmds.len(), |i: int| (cmds[i].name@, cmds[i].command_func@))
}

/// The frames that a vector of call frames stands for.
spec fn frames_view(frames: Seq<PicolCallFrame>) -> Seq<Frame> {
    Seq::new(frames.len(), |i: int| frames[i]@)
}

impl View for PicolCommandFunc {
    type V = Handler;

    open spec fn view(&self) -> Handler {
        match self {
            PicolCommandFunc::Math => Handler::Math,
            PicolCommandFunc::SetVar => Handler::SetVar,
            PicolCommandFunc::Puts => Handler::Puts,
            PicolCommandFunc::If => Handler::If,
            PicolCommandFunc::While => Handler::While,
            PicolCommandFunc::RetCodes => Handler::RetCodes,
            PicolCommandFunc::Proc => Handler::Proc,
            PicolCommandFunc::Return => Handler::Return,
            PicolCommandFunc::CallProc { params, body } => Handler::CallProc {
                params: params@,
                body: body@,
            },
        }
    }
}

impl Clone for PicolCommandFunc {
    fn clone(&self) -> (copy: Self)
        ensures
            copy@ == self@,
    {
        match self {
            PicolCommandFunc::Math => PicolCommandFunc::Math,
            PicolCommandFunc::SetVar => PicolCommandFunc::SetVar,
            PicolCommandFunc::Puts => PicolCommandFunc::Puts,
            PicolCommandFunc::If => PicolCommandFunc::If,
            PicolCommandFunc::While => PicolCommandFunc::While,
            PicolCommandFunc::RetCodes => PicolCommandFunc::RetCodes,
            PicolCommandFunc::Proc => PicolCommandFunc::Proc,
            PicolCommandFunc::Return => PicolCommandFunc::Return,
            PicolCommandFunc::CallProc { params, body } => PicolCommandFunc::CallProc {
                params: params.clone(),
                body: body.clone(),
            },
        }
    }
}

impl PicolCmd {
    /// A command with the given name.
    pub fn new(name: String, command_func: PicolCommandFunc) -> (cmd: PicolCmd)
        ensures
            cmd.name_view() == name@,
            cmd.handler() == command_func@,
    {
        PicolCmd { name, command_func }
    }

    /// The name of the command.
    pub closed spec fn name_view(&self) -> Seq<char> {
        self.name@
    }

    /// What the command does.
    pub closed spec fn handler(&self) -> Handler {
        self.command_func@
    }
}

impl View for PicolInterpreter {
    type V = State;

    closed spec fn view(&self) -> State {
        State {
            commands: table_of(cmd_entries(self.commands@)),
            vars: self.callframe@,
            callers: frames_view(self.callers@),
            result: self.result@,
            output: self.output.deep_view(),
        }
    }
}

/// The text `prefix` followed by `name`.
pub(crate) fn message(prefix: &str, name: &String) -> (text: String)
    ensures
        text@ == prefix@ + name@,
{
    String::from_str(prefix).concat(name.as_str())
}

/// Adds the text of a token to the words of a command.
fn push_token(argv: &mut Vec<String>, prev: PicolType, token: String)
    ensures
        final(argv).deep_view() == join_word(old(argv).deep_view(), prev, token@),
{
    let ghost before = argv.deep_view();
    let new_word = match prev {
        PicolType::PTSep | PicolType::PTEol => true,
        _ => false,
    };
    if new_word || argv.len() == 0 {
        argv.push(token);
        assert(argv.deep_view() =~= before.push(token@));
    } else {
        let last = argv.pop().unwrap();
        let ghost last_view = last@;
        assert(last_view == before.last());
        argv.push(last.concat(token.as_str()));
        assert(argv.deep_view() =~= before.update(before.len() - 1, before.last() + token@));
    }
}

impl PicolInterpreter {
    /// The interpreter is consistent: no command and no variable of a frame is held twice,
    /// and the level of nesting is within its limit.
    pub closed spec fn wf(&self) -> bool {
        &&& self.level <= MAX_LEVEL
        &&& distinct_keys(cmd_entries(self.commands@))
        &&& self.callframe.wf()
        &&& forall|i: int| 0 <= i < self.callers.len() ==> (#[trigger] self.callers[i]).wf()
    }

    /// How many levels of nesting are left.
    pub closed spec fn depth(&self) -> nat {
        (MAX_LEVEL - self.level) as nat
    }

    /// An interpreter without commands, with one empty frame.
    pub fn new() -> (interp: PicolInterpreter)
        ensures
            interp.wf(),
            interp@ == State::initial(),
            interp.depth() == MAX_LEVEL,
    {
        let interp = PicolInterpreter {
            level: 0,
            commands: Vec::new(),
            callframe: PicolCallFrame::new(),
            callers: Vec::new(),
            result: String::new(),
            output: Vec::new(),
        };
        proof {
            lemma_table_empty::<Handler>();
            assert(cmd_entries(interp.commands@) =~= Seq::empty());
            assert(frames_view(interp.callers@) =~= Seq::empty());
            assert(interp.output.deep_view() =~= Seq::empty());
        }
        interp
    }

    /// The result of the last command, or the message of the error that ended it. This is
    /// the public field `result`, read under a contract.
    pub fn result(&self) -> (text: &String)
        ensures
            text@ == self@.result,
    {
        &self.result
    }

    /// Makes `s` the result.
    pub fn set_result(&mut self, s: &String)
        requires
            old(self).wf(),
        ensures
            final(self).wf(),
            final(self).depth() == old(self).depth(),
            final(self)@ == old(self)@.with_result(s@),
    {
        self.result = s.clone();
    }

    /// The value of the variable `name` in the current frame, if it is bound there. The
    /// frames of the callers are not searched.
    pub fn get_var(&self, name: &String) -> (value: Option<String>)
        requires
            self.wf(),
        ensures
            match value {
                Some(v) => self@.vars.contains_key(name@) && self@.vars[name@] == v@,
                None => !self@.vars.contains_key(name@),
            },
    {
        self.callframe.get(name)
    }

    /// Binds the variable `name` to `value` in the current frame.
    pub fn set_var(&mut self, name: &String, value: &String)
        requires
            old(self).wf(),
        ensures
            final(self).wf(),
            final(self).depth() == old(self).depth(),
            final(self)@ == (State { vars: old(self)@.vars.insert(name@, value@), ..old(self)@ }),
    {
        self.callframe.set(name, value);
    }

    /// Where the command `name` is held, if it is.
    fn get_command(&self, name: &String) -> (found: Option<usize>)
        requires
            self.wf(),
        ensures
            match found {
                Some(i) => i < self.commands.len() && self@.commands.contains_key(name@)
                    && self@.commands[name@] == self.commands[i as int].command_func@,
                None => !self@.commands.contains_key(name@),
            },
    {
        let mut i: usize = 0;
        while i < self.commands.len()
            invariant
                self.wf(),
                i <= self.commands.len(),
                forall|j: int| 0 <= j < i ==> !has_key(cmd_entries(self.commands@), j, name@),
            decreases self.commands.len() - i,
        {
            if self.commands[i].name == *name {
                proof {
                    lemma_table_entry(cmd_entries(self.commands@), i as int);
                }
                return Some(i);
            }
            i += 1;
        }
        proof {
            lemma_table_absent(cmd_entries(self.commands@), name@);
        }
        None
    }

    /// Adds the command `name`. A name that is taken is an error, and the commands stay as
    /// they are.
    pub fn register_command(&mut self, name: &String, command_func: PicolCommandFunc) -> (status:
        PicolResult)
        requires
            old(self).wf(),
        ensures
            final(self).wf(),
            final(self).depth() == old(self).depth(),
            (final(self)@, status) == register(old(self)@, name@, command_func@),
    {
        match self.get_command(name) {
            Some(_) => {
                let text = message("Command ", name).concat(" already exists");
                self.set_result(&text);
                PicolResult::PicolErr
            },
            None => {
                let ghost before = cmd_entries(self.commands@);
                self.commands.push(PicolCmd::new(name.clone(), command_func));
                proof {
                    lemma_table_push(before, name@, command_func@);
                    assert(cmd_entries(self.commands@) =~= before.push((name@, command_func@)));
                }
                PicolResult::PicolOk
            },
        }
    }

    /// Evaluates a script: the state afterwards and the status are those that the
    /// semantics gives. The frames of the callers are as they were. A script nested
    /// deeper than [`MAX_LEVEL`] fails.
    pub fn eval(&mut self, t: &String) -> (status: PicolResult)
        requires
            old(self).wf(),
        ensures
            final(self).wf(),
            final(self).depth() == old(self).depth(),
            final(self)@.callers == old(self)@.callers,
            (final(self)@, status) == eval_script(old(self)@, t@, old(self).depth()),
        decreases old(self).depth(), 0nat, 0nat,
    {
        if self.level >= MAX_LEVEL {
            self.set_result(&String::from_str("Recursion limit exceeded"));
            return PicolResult::PicolErr;
        }
        self.result = String::new();
        self.level = self.level + 1;
        let status = self.eval_tokens(t);
        self.level = self.level - 1;
        status
    }

    /// Evaluates the tokens of a script one after the other.
    fn eval_tokens(&mut self, t: &String) -> (status: PicolResult)
        requires
            old(self).wf(),
        ensures
            final(self).wf(),
            final(self).depth() == old(self).depth(),
            final(self)@.callers == old(self)@.callers,
            (final(self)@, status) == eval_tokens(
                old(self)@,
                t@,
                Cursor::initial(),
                Seq::empty(),
                old(self).depth(),
            ),
        decreases old(self).depth(), 3nat, 0nat,
    {
        let mut parser = PicolParser::new(t);
        let mut argv: Vec<String> = Vec::new();
        assert(argv.deep_view() =~= Seq::empty());
        loop
            invariant
                self.wf(),
                parser.wf(),
                parser.text() == t@,
                self.depth() == old(self).depth(),
                self@.callers == old(self)@.callers,
                eval_tokens(self@, t@, parser.cursor(), argv.deep_view(), self.depth())
                    == eval_tokens(
                    old(self)@,
                    t@,
                    Cursor::initial(),
                    Seq::empty(),
                    old(self).depth(),
                ),
            decreases tokens_left(t@, parser.cursor()),
        {
            let prev = parser.typ();
            proof {
                parser.lemma_wf();
                lemma_next_token(t@, parser.cursor());
            }
            parser.get_token();
            match parser.typ() {
                PicolType::PTEof => {
                    return PicolResult::PicolOk;
                },
                PicolType::PTVar => {
                    let token = parser.token();
                    match self.get_var(&token) {
                        Some(value) => {
                            push_token(&mut argv, prev, value);
                        },
                        None => {
                            let text = message("Unknown variable ", &token);
                            self.set_result(&text);
                            return PicolResult::PicolErr;
                        },
                    }
                },
                PicolType::PTCmd => {
                    let token = parser.token();
                    let status = self.eval(&token);
                    if status != PicolResult::PicolOk {
                        return status;
                    }
                    let value = self.result.clone();
                    push_token(&mut argv, prev, value);
                },
                PicolType::PTSep => {},
                PicolType::PTEol => {
                    if argv.len() > 0 {
                        let status = self.dispatch(&argv);
                        if status != PicolResult::PicolOk {
                            return status;
                        }
                    }
                    argv = Vec::new();
                    assert(argv.deep_view() =~= Seq::empty());
                },
                PicolType::PTEsc | PicolType::PTStr => {
                    push_token(&mut argv, prev, parser.token());
                },
            }
        }
    }

    /// Calls the command that the first word names, with all the words.
    pub fn dispatch(&mut self, argv: &Vec<String>) -> (status: PicolResult)
        requires
            old(self).wf(),
            argv.len() > 0,
        ensures
            final(self).wf(),
            final(self).depth() == old(self).depth(),
            final(self)@.callers == old(self)@.callers,
            (final(self)@, status) == dispatch(old(self)@, argv.deep_view(), old(self).depth()),
        decreases old(self).depth(), 2nat, 0nat,
    {
        match self.get_command(&argv[0]) {
            None => {
                let text = message("Unknown command ", &argv[0]);
                self.set_result(&text);
                PicolResult::PicolErr
            },
            Some(i) => {
                let func = self.commands[i].command_func.clone();
                match func {
                    PicolCommandFunc::Math => picol_cmd_math(self, argv),
                    PicolCommandFunc::SetVar => picol_cmd_set(self, argv),
                    PicolCommandFunc::Puts => picol_cmd_puts(self, argv),
                    PicolCommandFunc::If => picol_cmd_if(self, argv),
                    PicolCommandFunc::While => picol_cmd_while(self, argv),
                    PicolCommandFunc::RetCodes => picol_cmd_retcodes(self, argv),
                    PicolCommandFunc::Proc => picol_cmd_proc(self, argv),
                    PicolCommandFunc::Return => picol_cmd_return(self, argv),
                    PicolCommandFunc::CallProc { params, body } => picol_cmd_call_proc(
                        self,
                        argv,
                        &params,
                        &body,
                    ),
                }
            },
        }
    }

    /// Leaves the current frame: the frame of the last caller is the current one again.
    pub fn drop_callframe(&mut self)
        requires
            old(self).wf(),
            old(self)@.callers.len() > 0,
        ensures
            final(self).wf(),
            final(self).depth() == old(self).depth(),
            final(self)@ == (State {
                vars: old(self)@.callers.last(),
                callers: old(self)@.callers.drop_last(),
                ..old(self)@
            }),
    {
        let ghost before = self.callers@;
        let frame = self.callers.pop().unwrap();
        self.callframe = frame;
        proof {
            assert(frames_view(self.callers@) =~= frames_view(before).drop_last());
            assert forall|i: int| 0 <= i < self.callers.len() implies (
            #[trigger] self.callers[i]).wf() by {
                assert(self.callers[i] == before[i]);
            }
            assert(frame == before[before.len() - 1]);
        }
    }

    /// Enters a new frame: the current frame becomes the frame of the last caller.
    pub fn push_callframe(&mut self, frame: PicolCallFrame)
        requires
            old(self).wf(),
            frame.wf(),
        ensures
            final(self).wf(),
            final(self).depth() == old(self).depth(),
            final(self)@ == (State {
                vars: frame@,
                callers: old(self)@.callers.push(old(self)@.vars),
                ..old(self)@
            }),
    {
        let ghost before = self.callers@;
        let mut frame = frame;
        std::mem::swap(&mut self.callframe, &mut frame);
        self.callers.push(frame);
        proof {
            assert(frames_view(self.callers@) =~= frames_view(before).push(frame@));
            assert forall|i: int| 0 <= i < self.callers.len() implies (
            #[trigger] self.callers[i]).wf() by {
                if i < before.len() {
                    assert(self.callers[i] == before[i]);
                }
            }
        }
    }

    /// Adds the built-in commands, each under its name. A name that is taken keeps the
    /// command that it has, and the result then holds the message of the last such clash.
    pub fn register_core_commands(&mut self)
        requires
            old(self).wf(),
        ensures
            final(self).wf(),
            final(self).depth() == old(self).depth(),
            final(self)@ == core_commands(old(self)@),
    {
        self.register_command(&String::from_str("+"), PicolCommandFunc::Math);
        self.register_command(&String::from_str("-"), PicolCommandFunc::Math);
        self.register_command(&String::from_str("*"), PicolCommandFunc::Math);
        self.register_command(&String::from_str("/"), PicolCommandFunc::Math);
        self.register_command(&String::from_str(">"), PicolCommandFunc::Math);
        self.register_command(&String::from_str("<"), PicolCommandFunc::Math);
        self.register_command(&String::from_str(">="), PicolCommandFunc::Math);
        self.register_command(&String::from_str("<="), PicolCommandFunc::Math);
        self.register_command(&String::from_str("=="), PicolCommandFunc::Math);
        self.register_command(&String::from_str("!="), PicolCommandFunc::Math);
        self.register_command(&String::from_str("set"), PicolCommandFunc::SetVar);
        self.register_command(&String::from_str("puts"), PicolCommandFunc::Puts);
        self.register_command(&String::from_str("if"), PicolCommandFunc::If);
        self.register_command(&String::from_str("while"), PicolCommandFunc::While);
        self.register_command(&String::from_str("break"), PicolCommandFunc::RetCodes);
        self.register_command(&String::from_str("continue"), PicolCommandFunc::RetCodes);
        self.register_command(&String::from_str("proc"), PicolCommandFunc::Proc);
        self.register_command(&String::from_str("return"), PicolCommandFunc::Return);
    }

    /// Writes one line.
    pub fn emit(&mut self, line: &String)
        requires
            old(self).wf(),
        ensures
            final(self).wf(),
            final(self).depth() == old(self).depth(),
            final(self)@ == (State { output: old(self)@.output.push(line@), ..old(self)@ }),
    {
        let ghost before = self.output.deep_view();
        self.output.push(line.clone());
        assert(self.output.deep_view() =~= before.push(line@));
    }

    /// The lines that `puts` has written and that were not taken yet, the oldest first.
    pub fn output(&self) -> (lines: &Vec<String>)
        ensures
            lines.deep_view() == self@.output,
    {
        &self.output
    }

    /// Takes the lines that `puts` has written out of the interpreter.
    pub fn take_output(&mut self) -> (lines: Vec<String>)
        requires
            old(self).wf(),
        ensures
            final(self).wf(),
            final(self).depth() == old(self).depth(),
            lines.deep_view() == old(self)@.output,
            final(self)@ == (State { output: Seq::empty(), ..old(self)@ }),
    {
        let mut lines: Vec<String> = Vec::new();
        std::mem::swap(&mut self.output, &mut lines);
        assert(self.output.deep_view() =~= Seq::empty());
        lines
    }
}

} // verus!
