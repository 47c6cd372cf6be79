use vstd::prelude::*;
use crate::object::ObjId;

verus! {

/// The payload of an exception instance: the list of its arguments.
pub struct PyExcObject {
    pub args: ObjId,
}

} // verus!
