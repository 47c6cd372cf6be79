use vstd::prelude::*;
use crate::object::{ObjId, PyObject, PY_NONE_OBJECT};

verus! {

impl PyObject {
    /// The `None` object.
    pub fn none_obj() -> (id: ObjId)
        ensures
            id == PY_NONE_OBJECT,
    {
        PY_NONE_OBJECT
    }
}

} // verus!
