//! The program registry: a set of loaded modules looked up by name.
//!
//! The registry is the pure part of a program: what module a name resolves
//! to, with a later insertion under a name replacing an earlier one. What
//! a "module" is stays generic; instantiation and execution live with the
//! caller.

use vstd::prelude::*;
use crate::common::str_eq;

verus! {

/// The module a name resolves to in a registry list: the last entry
/// inserted under that name.
pub open spec fn spec_module_of<M>(modules: Seq<(String, M)>, name: Seq<char>) -> Option<M>
    decreases modules.len(),
{
    if modules.len() == 0 {
        None
    } else if modules.last().0@ == name {
        Some(modules.last().1)
    } else {
        spec_module_of(modules.drop_last(), name)
    }
}

/// The shared essence of a program: its loaded modules, by name.
pub struct ProgramInstanceEssence<M> {
    modules: Vec<(String, M)>,
}

impl<M> ProgramInstanceEssence<M> {
    /// The registry entries, for contracts.
    pub closed spec fn spec_modules(&self) -> Seq<(String, M)> {
        self.modules@
    }

    /// New essence holding the given environment module under the name
    /// the imports of loaded modules resolve against.
    pub fn with_env_module(env_module: M) -> (r: Self)
        ensures
            r.spec_modules().len() == 1,
            r.spec_modules()[0].0@ == "env"@,
            r.spec_modules()[0].1 == env_module,
    {
        let mut modules: Vec<(String, M)> = Vec::new();
        modules.push(("env".to_string(), env_module));
        ProgramInstanceEssence { modules }
    }

    /// Insert a module, replacing whatever the name resolved to before.
    pub fn insert(&mut self, name: &str, module: M)
        ensures
            final(self).spec_modules().len() == old(self).spec_modules().len() + 1,
            spec_module_of(final(self).spec_modules(), name@) == Some(module),
            forall|other: Seq<char>|
                other != name@ ==> #[trigger] spec_module_of(final(self).spec_modules(), other)
                    == spec_module_of(old(self).spec_modules(), other),
    {
        let owned = name.to_owned();
        self.modules.push((owned, module));
        proof {
            assert forall|other: Seq<char>|
                other != name@ implies #[trigger] spec_module_of(self.modules@, other)
                == spec_module_of(old(self).spec_modules(), other) by {
                assert(self.modules@.drop_last() =~= old(self).spec_modules());
            }
            assert(self.modules@.drop_last() =~= old(self).spec_modules());
        }
    }

    /// The module a name resolves to, if any.
    pub fn module(&self, name: &str) -> (r: Option<&M>)
        ensures
            match r {
                Some(m) => spec_module_of(self.spec_modules(), name@) == Some(*m),
                None => spec_module_of(self.spec_modules(), name@) is None,
            },
    {
        let mut i = self.modules.len();
        proof {
            assert(self.modules@.take(i as int) =~= self.modules@);
        }
        while i > 0
            invariant
                i <= self.modules@.len(),
                spec_module_of(self.spec_modules(), name@) == spec_module_of(
                    self.modules@.take(i as int),
                    name@,
                ),
            decreases i,
        {
            i = i - 1;
            if str_eq(self.modules[i].0.as_str(), name) {
                proof {
                    assert(self.modules@.take(i + 1).last() == self.modules@[i as int]);
                }
                return Some(&self.modules[i].1);
            }
            proof {
                assert(self.modules@.take(i + 1).last() == self.modules@[i as int]);
                assert(self.modules@.take(i + 1).drop_last() =~= self.modules@.take(i as int));
            }
        }
        None
    }
}

/// A program: its module registry. Loading a module means validating and
/// instantiating it against the registry's environment, which needs the
/// execution engine; the registry itself only keys instances by name.
pub struct ProgramInstance<M> {
    essence: ProgramInstanceEssence<M>,
}

impl<M> ProgramInstance<M> {
    /// The registry entries, for contracts.
    pub closed spec fn spec_modules(&self) -> Seq<(String, M)> {
        self.essence.spec_modules()
    }

    /// New program whose environment is the given module.
    pub fn with_env_module(env_module: M) -> (r: Self)
        ensures
            r.spec_modules().len() == 1,
            r.spec_modules()[0].0@ == "env"@,
            r.spec_modules()[0].1 == env_module,
    {
        ProgramInstance { essence: ProgramInstanceEssence::with_env_module(env_module) }
    }

    /// Insert an already-instantiated module, replacing any module the
    /// name resolved to before.
    pub fn insert_loaded_module(&mut self, name: &str, module: M)
        ensures
            spec_module_of(final(self).spec_modules(), name@) == Some(module),
            forall|other: Seq<char>|
                other != name@ ==> #[trigger] spec_module_of(final(self).spec_modules(), other)
                    == spec_module_of(old(self).spec_modules(), other),
    {
        self.essence.insert(name, module);
    }

    /// The module a name resolves to, if any.
    pub fn module(&self, name: &str) -> (r: Option<&M>)
        ensures
            match r {
                Some(m) => spec_module_of(self.spec_modules(), name@) == Some(*m),
                None => spec_module_of(self.spec_modules(), name@) is None,
            },
    {
        self.essence.module(name)
    }
}

/// New program over the Emscripten-style host environment.
pub fn program_with_emscripten_env(params: &crate::interpreter::env::EmscriptenParams) -> (r:
    Result<ProgramInstance<crate::interpreter::emscripten::EmscriptenEnv>, crate::interpreter::Error>)
    requires
        params.total_stack < params.total_memory,
        params.total_stack % crate::interpreter::memory::LINEAR_MEMORY_PAGE_SIZE == 0,
        params.total_memory % crate::interpreter::memory::LINEAR_MEMORY_PAGE_SIZE == 0,
        params.static_size matches Some(s) ==> s + params.total_stack <= u32::MAX,
        params.static_size is None ==> crate::interpreter::emscripten::DEFAULT_STACK_TOP
            + params.total_stack <= u32::MAX,
    ensures
        r is Ok,
        r matches Ok(p) ==> spec_module_of(p.spec_modules(), "env"@) is Some,
{
    let env = match crate::interpreter::emscripten::env_module(params) {
        Ok(env) => env,
        Err(_) => {
            proof {
                assert(false);
            }
            vstd::pervasive::unreached()
        },
    };
    let program = ProgramInstance::with_env_module(env);
    proof {
        assert(program.spec_modules().last() == program.spec_modules()[0]);
    }
    Ok(program)
}

} // verus!
