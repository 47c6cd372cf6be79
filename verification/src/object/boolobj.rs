use vstd::prelude::*;
use crate::object::{ObjId, PyObject, PY_FALSE, PY_TRUE};

verus! {

impl PyObject {
    /// The object that stands for the truth value `raw_bool`.
    pub open spec fn spec_from_bool(raw_bool: bool) -> ObjId {
        if raw_bool {
            PY_TRUE
        } else {
            PY_FALSE
        }
    }

    /// The `True` object or the `False` object.
    pub fn from_bool(raw_bool: bool) -> (id: ObjId)
        ensures
            id == PyObject::spec_from_bool(raw_bool),
    {
        if raw_bool {
            PY_TRUE
        } else {
            PY_FALSE
        }
    }
}

} // verus!
