use vstd::prelude::*;
use crate::object::{ObjId, PyInnerObject, PyObject};

verus! {

/// The native functions that take a receiver and one argument.
#[derive(Clone, Copy, Debug, PartialEq, Eq, Structural)]
pub enum NativeFn {
    /// `len(x)`
    BuiltinLen,
    /// `list.append(x)`
    ListAppend,
}

/// The calling conventions of native functions.
#[derive(Clone, Copy, Debug, PartialEq, Eq, Structural)]
pub enum PyRustFun {
    /// Exactly one positional argument.
    MethO(NativeFn),
}

/// The payload of a native function object.
pub struct PyRustFunObject {
    pub name: String,
    pub ob_self: Option<ObjId>,
    pub rust_fun: PyRustFun,
}

impl PyObject {
    /// The name of a native function.
    pub fn pyrustfun_name(&self) -> (name: String)
        requires
            self.inner is RustFunObj,
        ensures
            name@ == self.inner->RustFunObj_0.name@,
    {
        match &self.inner {
            PyInnerObject::RustFunObj(f) => f.name.clone(),
            _ => vstd::pervasive::unreached(),
        }
    }
}

} // verus!
