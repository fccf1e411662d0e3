//! Host-provided functions exposed to modules: descriptors and the index
//! spaces the native-module adapter assigns them.

use vstd::prelude::*;
use crate::elements::export_entry::Internal;
use crate::elements::types::{FunctionType, ValueType};
use crate::interpreter::Error;
use crate::interpreter::variable::{VariableInstance, VariableType};

verus! {

/// First index the adapter assigns to a native function; indices of the
/// wrapped module always stay below this base.
pub const NATIVE_INDEX_FUNC_MIN: u32 = 10001;

/// First index the adapter assigns to a native global.
pub const NATIVE_INDEX_GLOBAL_MIN: u32 = 20001;

/// Description of one host-provided function: its name, parameter types,
/// and optional result type.
#[derive(Debug, Clone)]
pub enum UserFunctionDescriptor {
    /// A definition with statically known name and parameters.
    Static(&'static str, &'static [ValueType], Option<ValueType>),
    /// A definition built at run time.
    Heap(String, Vec<ValueType>, Option<ValueType>),
}

/// The parameter types a descriptor declares.
pub open spec fn spec_descriptor_params(d: UserFunctionDescriptor) -> Seq<ValueType> {
    match d {
        UserFunctionDescriptor::Static(_, params, _) => params@,
        UserFunctionDescriptor::Heap(_, params, _) => params@,
    }
}

/// The name a descriptor declares.
pub open spec fn spec_descriptor_name(d: UserFunctionDescriptor) -> Seq<char> {
    match d {
        UserFunctionDescriptor::Static(name, _, _) => name@,
        UserFunctionDescriptor::Heap(name, _, _) => name@,
    }
}

/// The result type a descriptor declares.
pub open spec fn spec_descriptor_return(d: UserFunctionDescriptor) -> Option<ValueType> {
    match d {
        UserFunctionDescriptor::Static(_, _, result) => result,
        UserFunctionDescriptor::Heap(_, _, result) => result,
    }
}

impl UserFunctionDescriptor {
    /// New function with statically known parameters.
    pub fn statik(name: &'static str, params: &'static [ValueType], result: Option<ValueType>)
        -> (r: Self)
        ensures
            r == UserFunctionDescriptor::Static(name, params, result),
    {
        UserFunctionDescriptor::Static(name, params, result)
    }

    /// New function with parameters built at run time.
    pub fn heap(name: String, params: Vec<ValueType>, result: Option<ValueType>) -> (r: Self)
        ensures
            r == UserFunctionDescriptor::Heap(name, params, result),
    {
        UserFunctionDescriptor::Heap(name, params, result)
    }

    /// The name of the function.
    pub fn name(&self) -> (r: &str)
        ensures
            r@ == spec_descriptor_name(*self),
    {
        match self {
            UserFunctionDescriptor::Static(name, _, _) => name,
            UserFunctionDescriptor::Heap(name, _, _) => name.as_str(),
        }
    }

    /// The parameter types of the function.
    pub fn params(&self) -> (r: &[ValueType])
        ensures
            r@ == spec_descriptor_params(*self),
    {
        match self {
            UserFunctionDescriptor::Static(_, params, _) => params,
            UserFunctionDescriptor::Heap(_, params, _) => params.as_slice(),
        }
    }

    /// The result type of the function.
    pub fn return_type(&self) -> (r: Option<ValueType>)
        ensures
            r == spec_descriptor_return(*self),
    {
        match self {
            UserFunctionDescriptor::Static(_, _, result) => *result,
            UserFunctionDescriptor::Heap(_, _, result) => *result,
        }
    }
}

/// Whether an index of the combined function space names a native
/// function rather than one of the wrapped module.
pub fn is_native_function_index(index: u32) -> (r: bool)
    ensures
        r == (NATIVE_INDEX_FUNC_MIN <= index < NATIVE_INDEX_GLOBAL_MIN),
{
    index >= NATIVE_INDEX_FUNC_MIN && index < NATIVE_INDEX_GLOBAL_MIN
}

/// The position a native function index has in the descriptor list.
pub fn native_function_offset(index: u32) -> (r: u32)
    requires
        NATIVE_INDEX_FUNC_MIN <= index < NATIVE_INDEX_GLOBAL_MIN,
    ensures
        r == index - NATIVE_INDEX_FUNC_MIN,
{
    index - NATIVE_INDEX_FUNC_MIN
}

/// Whether an index of the combined global space names a native global.
pub fn is_native_global_index(index: u32) -> (r: bool)
    ensures
        r == (index >= NATIVE_INDEX_GLOBAL_MIN),
{
    index >= NATIVE_INDEX_GLOBAL_MIN
}

/// The position a native global index has in the globals list.
pub fn native_global_offset(index: u32) -> (r: u32)
    requires
        index >= NATIVE_INDEX_GLOBAL_MIN,
    ensures
        r == index - NATIVE_INDEX_GLOBAL_MIN,
{
    index - NATIVE_INDEX_GLOBAL_MIN
}


/// What an export lookup asks for: anything under the name, or a function
/// of a given signature, or a global of a given type.
#[derive(Clone, Debug)]
pub enum ExportEntryType {
    /// Any export under the name.
    Any,
    /// A function whose signature structurally equals the given one.
    Function(FunctionType),
    /// A global of the given type.
    Global(VariableType),
}

/// The host-provided elements a native module serves: globals and
/// functions, and whether an executor was supplied to run the functions.
///
/// The executor itself stays with the caller; the adapter only decides
/// when it must run and for which descriptor.
pub struct UserDefinedElements {
    /// The host globals, by name.
    pub globals: Vec<(String, VariableInstance)>,
    /// The host functions.
    pub functions: Vec<UserFunctionDescriptor>,
    /// Whether an executor for the functions was supplied.
    pub has_executor: bool,
}

/// Structural signature equality: the same parameters and the same result,
/// names ignored.
pub open spec fn spec_signature_matches(d: UserFunctionDescriptor, ft: FunctionType) -> bool {
    spec_descriptor_params(d) == ft.params@ && spec_descriptor_return(d) == ft.return_type
}

/// The index of the descriptor a name resolves to: the last one with that
/// name, as in a map filled by enumeration where later entries overwrite
/// earlier ones.
pub open spec fn spec_find_function(fs: Seq<UserFunctionDescriptor>, name: Seq<char>) -> Option<
    int,
>
    decreases fs.len(),
{
    if fs.len() == 0 {
        None
    } else if spec_descriptor_name(fs.last()) == name {
        Some(fs.len() - 1)
    } else {
        spec_find_function(fs.drop_last(), name)
    }
}

/// The index of the global a name resolves to, last one winning.
pub open spec fn spec_find_global(gs: Seq<(String, VariableInstance)>, name: Seq<char>) -> Option<
    int,
>
    decreases gs.len(),
{
    if gs.len() == 0 {
        None
    } else if gs.last().0@ == name {
        Some(gs.len() - 1)
    } else {
        spec_find_global(gs.drop_last(), name)
    }
}

/// The index of the wrapped module's export a name resolves to.
pub open spec fn spec_find_export(es: Seq<(String, Internal)>, name: Seq<char>) -> Option<int>
    decreases es.len(),
{
    if es.len() == 0 {
        None
    } else if es.last().0@ == name {
        Some(es.len() - 1)
    } else {
        spec_find_export(es.drop_last(), name)
    }
}

/// What an export lookup over the adapter returns: the native function or
/// global under the name if its type agrees, else the wrapped module's
/// export under the name, else nothing.
pub open spec fn spec_export_entry(
    functions: Seq<UserFunctionDescriptor>,
    globals: Seq<(String, VariableInstance)>,
    exports: Seq<(String, Internal)>,
    name: Seq<char>,
    required: ExportEntryType,
) -> Result<Internal, Error> {
    let function_hit = match spec_find_function(functions, name) {
        Some(i) => match required {
            ExportEntryType::Any => true,
            ExportEntryType::Function(ft) => spec_signature_matches(functions[i], ft),
            ExportEntryType::Global(_) => false,
        },
        None => false,
    };
    if function_hit {
        Ok(
            Internal::Function(
                (NATIVE_INDEX_FUNC_MIN + spec_find_function(functions, name)->0) as u32,
            ),
        )
    } else {
        let global_hit = match spec_find_global(globals, name) {
            Some(j) => match required {
                ExportEntryType::Any => true,
                ExportEntryType::Global(vt) => globals[j].1.spec_variable_type() == vt,
                ExportEntryType::Function(_) => false,
            },
            None => false,
        };
        if global_hit {
            Ok(
                Internal::Global(
                    (NATIVE_INDEX_GLOBAL_MIN + spec_find_global(globals, name)->0) as u32,
                ),
            )
        } else {
            match spec_find_export(exports, name) {
                Some(k) => Ok(exports[k].1),
                None => Err(Error::ExportNotFound),
            }
        }
    }
}

/// How the adapter resolves an index of the combined space: delegated to
/// the wrapped module, or served by a host item.
pub enum NativeResolution<'a, T> {
    /// The index belongs to the wrapped module.
    Wrapped(u32),
    /// The index names this host item.
    Host(&'a T),
}

/// The native-module adapter: host functions and globals layered over a
/// wrapped module's exports, with the host items living in their own
/// index spaces above the wrapped module's.
pub struct NativeModuleInstance {
    /// The exports of the wrapped module.
    pub env_exports: Vec<(String, Internal)>,
    /// The host functions, answering indices from the function base up.
    pub functions: Vec<UserFunctionDescriptor>,
    /// The host globals, answering indices from the global base up.
    pub globals: Vec<(String, VariableInstance)>,
}

impl NativeModuleInstance {
    /// The host index spaces never overflow the index type.
    pub open spec fn wf(&self) -> bool {
        &&& self.functions@.len() <= NATIVE_INDEX_GLOBAL_MIN - NATIVE_INDEX_FUNC_MIN
        &&& NATIVE_INDEX_GLOBAL_MIN + self.globals@.len() <= u32::MAX + 1
    }

    /// New native module over the wrapped module's exports. Host
    /// functions without an executor to run them are refused.
    pub fn new(env_exports: Vec<(String, Internal)>, elements: UserDefinedElements) -> (r: Result<
        Self,
        Error,
    >)
        requires
            elements.functions@.len() <= NATIVE_INDEX_GLOBAL_MIN - NATIVE_INDEX_FUNC_MIN,
            NATIVE_INDEX_GLOBAL_MIN + elements.globals@.len() <= u32::MAX + 1,
        ensures
            match r {
                Ok(n) => {
                    &&& (elements.functions@.len() > 0 ==> elements.has_executor)
                    &&& n.env_exports == env_exports
                    &&& n.functions == elements.functions
                    &&& n.globals == elements.globals
                    &&& n.wf()
                },
                Err(e) => e == Error::ExecutorMissing && elements.functions@.len() > 0
                    && !elements.has_executor,
            },
    {
        if !elements.functions.is_empty() && !elements.has_executor {
            return Err(Error::ExecutorMissing);
        }
        Ok(
            NativeModuleInstance {
                env_exports,
                functions: elements.functions,
                globals: elements.globals,
            },
        )
    }

    /// The index of the last host function with this name, if any.
    fn find_function(&self, name: &str) -> (r: Option<usize>)
        ensures
            match r {
                Some(i) => i < self.functions@.len() && spec_find_function(
                    self.functions@,
                    name@,
                ) == Some(i as int),
                None => spec_find_function(self.functions@, name@) is None,
            },
    {
        let mut i = self.functions.len();
        proof {
            assert(self.functions@.take(i as int) =~= self.functions@);
        }
        while i > 0
            invariant
                i <= self.functions@.len(),
                spec_find_function(self.functions@, name@) == spec_find_function(
                    self.functions@.take(i as int),
                    name@,
                ),
            decreases i,
        {
            i = i - 1;
            if crate::common::str_eq(self.functions[i].name(), name) {
                proof {
                    assert(self.functions@.take(i + 1).last() == self.functions@[i as int]);
                }
                return Some(i);
            }
            proof {
                assert(self.functions@.take(i + 1).last() == self.functions@[i as int]);
                assert(self.functions@.take(i + 1).drop_last() =~= self.functions@.take(i as int));
            }
        }
        None
    }

    /// The index of the last host global with this name, if any.
    fn find_global(&self, name: &str) -> (r: Option<usize>)
        ensures
            match r {
                Some(j) => j < self.globals@.len() && spec_find_global(self.globals@, name@)
                    == Some(j as int),
                None => spec_find_global(self.globals@, name@) is None,
            },
    {
        let mut i = self.globals.len();
        proof {
            assert(self.globals@.take(i as int) =~= self.globals@);
        }
        while i > 0
            invariant
                i <= self.globals@.len(),
                spec_find_global(self.globals@, name@) == spec_find_global(
                    self.globals@.take(i as int),
                    name@,
                ),
            decreases i,
        {
            i = i - 1;
            if crate::common::str_eq(self.globals[i].0.as_str(), name) {
                proof {
                    assert(self.globals@.take(i + 1).last() == self.globals@[i as int]);
                }
                return Some(i);
            }
            proof {
                assert(self.globals@.take(i + 1).last() == self.globals@[i as int]);
                assert(self.globals@.take(i + 1).drop_last() =~= self.globals@.take(i as int));
            }
        }
        None
    }

    /// The index of the last wrapped export with this name, if any.
    fn find_export(&self, name: &str) -> (r: Option<usize>)
        ensures
            match r {
                Some(k) => k < self.env_exports@.len() && spec_find_export(
                    self.env_exports@,
                    name@,
                ) == Some(k as int),
                None => spec_find_export(self.env_exports@, name@) is None,
            },
    {
        let mut i = self.env_exports.len();
        proof {
            assert(self.env_exports@.take(i as int) =~= self.env_exports@);
        }
        while i > 0
            invariant
                i <= self.env_exports@.len(),
                spec_find_export(self.env_exports@, name@) == spec_find_export(
                    self.env_exports@.take(i as int),
                    name@,
                ),
            decreases i,
        {
            i = i - 1;
            if crate::common::str_eq(self.env_exports[i].0.as_str(), name) {
                proof {
                    assert(self.env_exports@.take(i + 1).last() == self.env_exports@[i as int]);
                }
                return Some(i);
            }
            proof {
                assert(self.env_exports@.take(i + 1).last() == self.env_exports@[i as int]);
                assert(self.env_exports@.take(i + 1).drop_last() =~= self.env_exports@.take(
                    i as int,
                ));
            }
        }
        None
    }

    /// Resolve an export by name: the host function tables come first,
    /// then the host globals, then the wrapped module's exports. A native
    /// candidate of the wrong type falls through rather than erring.
    pub fn export_entry(&self, name: &str, required_type: &ExportEntryType) -> (r: Result<
        Internal,
        Error,
    >)
        requires
            self.wf(),
        ensures
            r == spec_export_entry(
                self.functions@,
                self.globals@,
                self.env_exports@,
                name@,
                *required_type,
            ),
    {
        if let Some(i) = self.find_function(name) {
            let hit = match required_type {
                ExportEntryType::Any => true,
                ExportEntryType::Function(ft) => signature_matches(&self.functions[i], ft),
                ExportEntryType::Global(_) => false,
            };
            if hit {
                return Ok(Internal::Function(NATIVE_INDEX_FUNC_MIN + (i as u32)));
            }
        }
        if let Some(j) = self.find_global(name) {
            let hit = match required_type {
                ExportEntryType::Any => true,
                ExportEntryType::Global(vt) => self.globals[j].1.variable_type() == *vt,
                ExportEntryType::Function(_) => false,
            };
            if hit {
                return Ok(Internal::Global(NATIVE_INDEX_GLOBAL_MIN + (j as u32)));
            }
        }
        match self.find_export(name) {
            Some(k) => Ok(self.env_exports[k].1),
            None => Err(Error::ExportNotFound),
        }
    }

    /// The function an index of the combined space names: delegated below
    /// the native base, a host descriptor within it.
    pub fn function_type(&self, index: u32) -> (r: Result<
        NativeResolution<'_, UserFunctionDescriptor>,
        Error,
    >)
        ensures
            match r {
                Ok(res) => match res {
                    NativeResolution::Wrapped(i) => i == index && !(NATIVE_INDEX_FUNC_MIN <= index
                        < NATIVE_INDEX_GLOBAL_MIN),
                    NativeResolution::Host(d) => {
                        &&& NATIVE_INDEX_FUNC_MIN <= index < NATIVE_INDEX_GLOBAL_MIN
                        &&& index - NATIVE_INDEX_FUNC_MIN < self.functions@.len()
                        &&& *d == self.functions@[index - NATIVE_INDEX_FUNC_MIN]
                    },
                },
                Err(e) => {
                    &&& e == Error::NativeItemMissing
                    &&& NATIVE_INDEX_FUNC_MIN <= index < NATIVE_INDEX_GLOBAL_MIN
                    &&& index - NATIVE_INDEX_FUNC_MIN >= self.functions@.len()
                },
            },
    {
        if !is_native_function_index(index) {
            return Ok(NativeResolution::Wrapped(index));
        }
        let offset = native_function_offset(index);
        if (offset as usize) < self.functions.len() {
            Ok(NativeResolution::Host(&self.functions[offset as usize]))
        } else {
            Err(Error::NativeItemMissing)
        }
    }

    /// Decide an internal call: delegated below the native base, executed
    /// against the named host descriptor within it.
    pub fn call_internal_function(&self, index: u32) -> (r: Result<
        NativeResolution<'_, UserFunctionDescriptor>,
        Error,
    >)
        ensures
            match r {
                Ok(res) => match res {
                    NativeResolution::Wrapped(i) => i == index && !(NATIVE_INDEX_FUNC_MIN <= index
                        < NATIVE_INDEX_GLOBAL_MIN),
                    NativeResolution::Host(d) => {
                        &&& NATIVE_INDEX_FUNC_MIN <= index < NATIVE_INDEX_GLOBAL_MIN
                        &&& index - NATIVE_INDEX_FUNC_MIN < self.functions@.len()
                        &&& *d == self.functions@[index - NATIVE_INDEX_FUNC_MIN]
                    },
                },
                Err(e) => {
                    &&& e == Error::NativeItemMissing
                    &&& NATIVE_INDEX_FUNC_MIN <= index < NATIVE_INDEX_GLOBAL_MIN
                    &&& index - NATIVE_INDEX_FUNC_MIN >= self.functions@.len()
                },
            },
    {
        self.function_type(index)
    }

    /// Resolve a global of the combined space: delegated below the native
    /// base, served from the host globals within it.
    pub fn global(&self, index: u32) -> (r: Result<NativeResolution<'_, VariableInstance>, Error>)
        ensures
            match r {
                Ok(res) => match res {
                    NativeResolution::Wrapped(i) => i == index && index < NATIVE_INDEX_GLOBAL_MIN,
                    NativeResolution::Host(v) => {
                        &&& index >= NATIVE_INDEX_GLOBAL_MIN
                        &&& index - NATIVE_INDEX_GLOBAL_MIN < self.globals@.len()
                        &&& *v == self.globals@[index - NATIVE_INDEX_GLOBAL_MIN].1
                    },
                },
                Err(e) => {
                    &&& e == Error::NativeItemMissing
                    &&& index >= NATIVE_INDEX_GLOBAL_MIN
                    &&& index - NATIVE_INDEX_GLOBAL_MIN >= self.globals@.len()
                },
            },
    {
        if !is_native_global_index(index) {
            return Ok(NativeResolution::Wrapped(index));
        }
        let offset = native_global_offset(index);
        if (offset as usize) < self.globals.len() {
            Ok(NativeResolution::Host(&self.globals[offset as usize].1))
        } else {
            Err(Error::NativeItemMissing)
        }
    }
}

/// Structural signature equality of a host descriptor and a function
/// type: the same parameters and the same result.
pub fn signature_matches(d: &UserFunctionDescriptor, ft: &FunctionType) -> (r: bool)
    ensures
        r == spec_signature_matches(*d, *ft),
{
    let params = d.params();
    if params.len() != ft.params.len() {
        proof {
            assert(spec_descriptor_params(*d) != ft.params@);
        }
        return false;
    }
    let n = params.len();
    let mut i: usize = 0;
    while i < n
        invariant
            i <= n,
            n == params@.len() == ft.params@.len(),
            params@ == spec_descriptor_params(*d),
            forall|j: int| 0 <= j < i ==> params@[j] == ft.params@[j],
        decreases n - i,
    {
        if !(params[i] == ft.params[i]) {
            return false;
        }
        i = i + 1;
    }
    proof {
        assert(params@ =~= ft.params@);
    }
    let ret_matches = match (d.return_type(), ft.return_type) {
        (Some(a), Some(b)) => a == b,
        (None, None) => true,
        _ => false,
    };
    ret_matches
}

/// Create the native module over the wrapped module's exports.
pub fn env_native_module(env_exports: Vec<(String, Internal)>, user_elements: UserDefinedElements)
    -> (r: Result<NativeModuleInstance, Error>)
    requires
        user_elements.functions@.len() <= NATIVE_INDEX_GLOBAL_MIN - NATIVE_INDEX_FUNC_MIN,
        NATIVE_INDEX_GLOBAL_MIN + user_elements.globals@.len() <= u32::MAX + 1,
    ensures
        match r {
            Ok(n) => {
                &&& n.env_exports == env_exports
                &&& n.functions == user_elements.functions
                &&& n.globals == user_elements.globals
                &&& n.wf()
            },
            Err(e) => e == Error::ExecutorMissing && user_elements.functions@.len() > 0
                && !user_elements.has_executor,
        },
{
    NativeModuleInstance::new(env_exports, user_elements)
}

} // verus!
