//! Modules: a name, the modules inside it and its functions, each found by
//! its name.

use crate::ast::{Func, Ident};
use crate::span::Span;
use vstd::prelude::*;

verus! {

/// A module. No two of its functions have the same name, and no two of the
/// modules inside it: a name finds at most one of each, whatever the order
/// in which they were added.
#[derive(Debug, PartialEq)]
pub struct Module {
    pub name: Ident,
    pub sub_modules: Vec<Module>,
    pub functions: Vec<Func>,
    pub loc: Span,
}

/// The names of a sequence of functions, one by one.
pub open spec fn function_names(functions: Seq<Func>) -> Seq<Seq<char>> {
    Seq::new(functions.len(), |i: int| functions[i].name.0@)
}

/// The names of a sequence of modules, one by one.
pub open spec fn module_names(modules: Seq<Module>) -> Seq<Seq<char>> {
    Seq::new(modules.len(), |i: int| modules[i].name.0@)
}

impl Module {
    /// Whether the names are unique, here and in every module inside.
    pub open spec fn wf(&self) -> bool
        decreases self,
    {
        &&& function_names(self.functions@).no_duplicates()
        &&& module_names(self.sub_modules@).no_duplicates()
        &&& forall|i: int|
            0 <= i < self.sub_modules@.len() ==> (#[trigger] self.sub_modules[i]).wf()
    }

    /// A name finds one function at most, and one module inside: two of
    /// them with the same name are one and the same.
    pub proof fn lemma_names_are_keys(&self, i: int, j: int)
        requires
            self.wf(),
        ensures
            0 <= i < self.functions@.len() && 0 <= j < self.functions@.len()
                && self.functions@[i].name.0@ == self.functions@[j].name.0@ ==> i == j,
            0 <= i < self.sub_modules@.len() && 0 <= j < self.sub_modules@.len()
                && self.sub_modules@[i].name.0@ == self.sub_modules@[j].name.0@ ==> i == j,
    {
        if 0 <= i < self.functions@.len() && 0 <= j < self.functions@.len() {
            let names = function_names(self.functions@);
            assert(names[i] == self.functions@[i].name.0@);
            assert(names[j] == self.functions@[j].name.0@);
        }
        if 0 <= i < self.sub_modules@.len() && 0 <= j < self.sub_modules@.len() {
            let names = module_names(self.sub_modules@);
            assert(names[i] == self.sub_modules@[i].name.0@);
            assert(names[j] == self.sub_modules@[j].name.0@);
        }
    }

    /// The module `name` at `loc`, with nothing in it.
    pub fn new(name: Ident, loc: Span) -> (module: Module)
        ensures
            module.wf(),
            module.name == name,
            module.loc == loc,
            module.functions@.len() == 0,
            module.sub_modules@.len() == 0,
    {
        Module { name, sub_modules: Vec::new(), functions: Vec::new(), loc }
    }

    /// The function called `name`, if the module has one.
    pub fn function(&self, name: &str) -> (found: Option<&Func>)
        ensures
            match found {
                Some(func) => func.name.0@ == name@ && self.functions@.contains(*func),
                None => !function_names(self.functions@).contains(name@),
            },
    {
        let wanted = String::from_str(name);
        let mut i: usize = 0;
        while i < self.functions.len()
            invariant
                wanted@ == name@,
                i <= self.functions@.len(),
                forall|k: int| 0 <= k < i ==> function_names(self.functions@)[k] != name@,
            decreases self.functions@.len() - i,
        {
            if self.functions[i].name.0 == wanted {
                return Some(&self.functions[i]);
            }
            i += 1;
        }
        None
    }

    /// The module called `name` inside this one, if there is one.
    pub fn sub_module(&self, name: &str) -> (found: Option<&Module>)
        ensures
            match found {
                Some(module) => module.name.0@ == name@ && self.sub_modules@.contains(*module),
                None => !module_names(self.sub_modules@).contains(name@),
            },
    {
        let wanted = String::from_str(name);
        let mut i: usize = 0;
        while i < self.sub_modules.len()
            invariant
                wanted@ == name@,
                i <= self.sub_modules@.len(),
                forall|k: int| 0 <= k < i ==> module_names(self.sub_modules@)[k] != name@,
            decreases self.sub_modules@.len() - i,
        {
            if self.sub_modules[i].name.0 == wanted {
                return Some(&self.sub_modules[i]);
            }
            i += 1;
        }
        None
    }

    /// Adds a function. Where the module has a function of that name
    /// already, nothing changes and the function is handed back.
    pub fn add_function(&mut self, func: Func) -> (res: Result<(), Func>)
        requires
            old(self).wf(),
        ensures
            final(self).wf(),
            final(self).name == old(self).name,
            final(self).loc == old(self).loc,
            final(self).sub_modules == old(self).sub_modules,
            match res {
                Ok(_) => !function_names(old(self).functions@).contains(func.name.0@)
                    && final(self).functions@ == old(self).functions@.push(func),
                Err(back) => back == func && function_names(old(self).functions@).contains(
                    func.name.0@,
                ) && final(self).functions == old(self).functions,
            },
    {
        let present = match self.function(func.name.0.as_str()) {
            Some(held) => {
                proof {
                    let i = choose|i: int|
                        0 <= i < self.functions@.len() && self.functions@[i] == *held;
                    assert(function_names(self.functions@)[i] == func.name.0@);
                }
                true
            },
            None => false,
        };
        if present {
            return Err(func);
        }
        let ghost before = function_names(self.functions@);
        self.functions.push(func);
        proof {
            let after = function_names(self.functions@);
            assert(after =~= before.push(func.name.0@));
            assert forall|i: int, j: int|
                0 <= i < after.len() && 0 <= j < after.len() && i != j implies after[i]
                != after[j] by {
                if i < before.len() && j < before.len() {
                    assert(before[i] != before[j]);
                } else if i < before.len() {
                    assert(before.contains(before[i]));
                } else {
                    assert(before.contains(before[j]));
                }
            }
        }
        Ok(())
    }

    /// Adds a module inside this one. Where the module has a module of that
    /// name inside it already, nothing changes and the module is handed
    /// back.
    pub fn add_module(&mut self, module: Module) -> (res: Result<(), Module>)
        requires
            old(self).wf(),
            module.wf(),
        ensures
            final(self).wf(),
            final(self).name == old(self).name,
            final(self).loc == old(self).loc,
            final(self).functions == old(self).functions,
            match res {
                Ok(_) => !module_names(old(self).sub_modules@).contains(module.name.0@)
                    && final(self).sub_modules@ == old(self).sub_modules@.push(module),
                Err(back) => back == module && module_names(old(self).sub_modules@).contains(
                    module.name.0@,
                ) && final(self).sub_modules == old(self).sub_modules,
            },
    {
        let present = match self.sub_module(module.name.0.as_str()) {
            Some(held) => {
                proof {
                    let i = choose|i: int|
                        0 <= i < self.sub_modules@.len() && self.sub_modules@[i] == *held;
                    assert(module_names(self.sub_modules@)[i] == module.name.0@);
                }
                true
            },
            None => false,
        };
        if present {
            return Err(module);
        }
        let ghost before = module_names(self.sub_modules@);
        let ghost held = self.sub_modules@;
        self.sub_modules.push(module);
        proof {
            let after = module_names(self.sub_modules@);
            assert(after =~= before.push(module.name.0@));
            assert forall|i: int, j: int|
                0 <= i < after.len() && 0 <= j < after.len() && i != j implies after[i]
                != after[j] by {
                if i < before.len() && j < before.len() {
                    assert(before[i] != before[j]);
                } else if i < before.len() {
                    assert(before.contains(before[i]));
                } else {
                    assert(before.contains(before[j]));
                }
            }
            assert forall|i: int| 0 <= i < self.sub_modules@.len() implies (
            #[trigger] self.sub_modules[i]).wf() by {
                if i < held.len() {
                    assert(self.sub_modules[i] == held[i]);
                    assert(old(self).sub_modules[i].wf());
                }
            }
        }
        Ok(())
    }
}

} // verus!
