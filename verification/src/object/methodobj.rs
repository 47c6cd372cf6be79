use vstd::prelude::*;
use crate::object::{EnvId, ObjId};

verus! {

/// The payload of a bound method: a function's parts and the receiver.
pub struct PyMethodObject {
    pub ob_self: ObjId,
    pub env: EnvId,
    pub codeobj: ObjId,
}

} // verus!
