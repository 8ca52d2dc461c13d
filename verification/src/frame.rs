//! Call frames: the variables of one call of a procedure, or of the top level.

use vstd::prelude::*;
use vstd::string::*;
use crate::semantics::Frame;
use crate::table::{
    distinct_keys, has_key, lemma_table_absent, lemma_table_empty, lemma_table_entry,
    lemma_table_push, lemma_table_update, table_of,
};

verus! {

/// A variable: its name and its value. Values are always text.
struct PicolVar {
    name: String,
    value: String,
}

/// A call frame: the variables of one call of a procedure, or of the top level.
pub struct PicolCallFrame {
    vars: Vec<PicolVar>,
}

/// The entries that a vector of variables stands for.
spec fn var_entries(vars: Seq<PicolVar>) -> Seq<(Seq<char>, Seq<char>)> {
    Seq::new(vars.len(), |i: int| (vars[i].name@, vars[i].value@))
}

impl View for PicolCallFrame {
    type V = Frame;

    closed spec fn view(&self) -> Frame {
        table_of(var_entries(self.vars@))
    }
}

impl PicolCallFrame {
    /// No variable is held twice.
    pub closed spec fn wf(&self) -> bool {
        distinct_keys(var_entries(self.vars@))
    }

    /// A frame without variables.
    pub fn new() -> (frame: PicolCallFrame)
        ensures
            frame.wf(),
            frame@ == Map::<Seq<char>, Seq<char>>::empty(),
    {
        let frame = PicolCallFrame { vars: Vec::new() };
        proof {
            lemma_table_empty::<Seq<char>>();
            assert(var_entries(frame.vars@) =~= Seq::empty());
        }
        frame
    }

    /// Where the variable `name` is held, if it is.
    fn find(&self, name: &String) -> (found: Option<usize>)
        ensures
            match found {
                Some(i) => has_key(var_entries(self.vars@), i as int, name@),
                None => forall|i: int| !has_key(var_entries(self.vars@), i, name@),
            },
    {
        let mut i: usize = 0;
        while i < self.vars.len()
            invariant
                i <= self.vars.len(),
                forall|j: int| 0 <= j < i ==> !has_key(var_entries(self.vars@), j, name@),
            decreases self.vars.len() - i,
        {
            if self.vars[i].name == *name {
                return Some(i);
            }
            i += 1;
        }
        None
    }

    /// The value of the variable `name`, if the frame holds it.
    pub fn get(&self, name: &String) -> (value: Option<String>)
        requires
            self.wf(),
        ensures
            match value {
                Some(v) => self@.contains_key(name@) && self@[name@] == v@,
                None => !self@.contains_key(name@),
            },
    {
        match self.find(name) {
            Some(i) => {
                proof {
                    lemma_table_entry(var_entries(self.vars@), i as int);
                }
                Some(self.vars[i].value.clone())
            },
            None => {
                proof {
                    lemma_table_absent(var_entries(self.vars@), name@);
                }
                None
            },
        }
    }

    /// Binds the variable `name` to `value`, whether the frame holds it already or not.
    pub fn set(&mut self, name: &String, value: &String)
        requires
            old(self).wf(),
        ensures
            final(self).wf(),
            final(self)@ == old(self)@.insert(name@, value@),
    {
        let ghost before = var_entries(self.vars@);
        let var = PicolVar { name: name.clone(), value: value.clone() };
        match self.find(name) {
            Some(i) => {
                self.vars.set(i, var);
                proof {
                    lemma_table_update(before, i as int, value@);
                    assert(var_entries(self.vars@) =~= before.update(
                        i as int,
                        (before[i as int].0, value@),
                    ));
                }
            },
            None => {
                self.vars.push(var);
                proof {
                    lemma_table_absent(before, name@);
                    lemma_table_push(before, name@, value@);
                    assert(var_entries(self.vars@) =~= before.push((name@, value@)));
                }
            },
        }
    }
}

} // verus!
