use vstd::prelude::*;
use vstd::std_specs::hash::DefaultHasherAdditionalSpecFns;
use std::collections::hash_map::DefaultHasher;
use core::hash::Hasher;
use crate::error::{PyErr, PyRes};
use crate::object::{ObjId, PyInnerObject, PyObject, Runtime, PY_LONG_TYPE};

verus! {

/// The payload of an integer object. Booleans are integers of type `bool`.
pub struct PyLongObject {
    pub n: i32,
}

/// The hash of the integer `n`: the hasher is fed the four bytes of `n`,
/// least significant first.
pub open spec fn spec_long_hash(n: i32) -> u64 {
    DefaultHasher::spec_finish(seq![vstd::bytes::spec_u32_to_le_bytes(n as u32)])
}

/// The integer that the object at `id` holds, if it is one.
pub open spec fn spec_long_value(rt: Runtime, id: ObjId) -> Option<i32> {
    match rt.obj(id).inner {
        PyInnerObject::LongObj(l) => Some(l.n),
        _ => None,
    }
}

/// Computes the hash of an integer.
pub fn long_hash(n: i32) -> (h: u64)
    ensures
        h == spec_long_hash(n),
{
    let mut hasher = DefaultHasher::new();
    let bytes = vstd::bytes::u32_to_le_bytes(#[verifier::truncate] (n as u32));
    hasher.write(bytes.as_slice());
    proof {
        assert(hasher@ =~= seq![vstd::bytes::spec_u32_to_le_bytes(n as u32)]);
    }
    hasher.finish()
}

impl PyObject {
    /// Makes a new integer object of type `int`.
    pub fn from_i32(rt: &mut Runtime, raw_i32: i32) -> (id: ObjId)
        requires
            old(rt).wf(),
        ensures
            final(rt).wf(),
            final(rt).extends(*old(rt)),
            final(rt).only_grew(*old(rt)),
            id == old(rt).objects@.len(),
            final(rt).objects@.len() == id + 1,
            final(rt).obj(id).ob_type == PY_LONG_TYPE,
            final(rt).obj(id).ob_dict.is_none(),
            final(rt).obj(id).inner == PyInnerObject::LongObj(PyLongObject { n: raw_i32 }),
    {
        rt.new_object(
            PyObject {
                ob_type: PY_LONG_TYPE,
                ob_dict: None,
                inner: PyInnerObject::LongObj(PyLongObject { n: raw_i32 }),
            },
        )
    }

    /// `lv == rv` on integers: the `True` or `False` object.
    pub fn pylong_eq(rt: &Runtime, lv: ObjId, rv: ObjId) -> (r: PyRes<ObjId>)
        requires
            rt.valid(lv),
            rt.valid(rv),
        ensures
            match (spec_long_value(*rt, lv), spec_long_value(*rt, rv)) {
                (Some(a), Some(b)) => r == Ok::<ObjId, PyErr>(PyObject::spec_from_bool(a == b)),
                _ => r is Err && r->Err_0 is TypeError,
            },
    {
        match (&rt.objects[lv].inner, &rt.objects[rv].inner) {
            (PyInnerObject::LongObj(l), PyInnerObject::LongObj(r)) => Ok(
                PyObject::from_bool(l.n == r.n),
            ),
            _ => Err(PyErr::TypeError("__eq__ expects int objects")),
        }
    }

    /// `lv + rv` on integers, wrapping round at the ends of the 32-bit range:
    /// a new integer object.
    pub fn pylong_add(rt: &mut Runtime, lv: ObjId, rv: ObjId) -> (r: PyRes<ObjId>)
        requires
            old(rt).wf(),
            old(rt).valid(lv),
            old(rt).valid(rv),
        ensures
            final(rt).wf(),
            final(rt).extends(*old(rt)),
            final(rt).only_grew(*old(rt)),
            match (spec_long_value(*old(rt), lv), spec_long_value(*old(rt), rv)) {
                (Some(a), Some(b)) => {
                    &&& r == Ok::<ObjId, PyErr>(old(rt).objects@.len() as usize)
                    &&& final(rt).objects@.len() == old(rt).objects@.len() + 1
                    &&& final(rt).obj(r->Ok_0).ob_type == PY_LONG_TYPE
                    &&& spec_long_value(*final(rt), r->Ok_0) == Some(a.wrapping_add(b))
                },
                _ => r is Err && r->Err_0 is TypeError && final(rt).objects@ == old(rt).objects@,
            },
    {
        let sum = match (&rt.objects[lv].inner, &rt.objects[rv].inner) {
            (PyInnerObject::LongObj(l), PyInnerObject::LongObj(r)) => Some(l.n.wrapping_add(r.n)),
            _ => None,
        };
        match sum {
            Some(n) => Ok(PyObject::from_i32(rt, n)),
            None => Err(PyErr::TypeError("__add__ expects int objects")),
        }
    }

    /// `lv < rv` on integers: the `True` or `False` object.
    pub fn pylong_lt(rt: &Runtime, lv: ObjId, rv: ObjId) -> (r: PyRes<ObjId>)
        requires
            rt.valid(lv),
            rt.valid(rv),
        ensures
            match (spec_long_value(*rt, lv), spec_long_value(*rt, rv)) {
                (Some(a), Some(b)) => r == Ok::<ObjId, PyErr>(PyObject::spec_from_bool(a < b)),
                _ => r is Err && r->Err_0 is TypeError,
            },
    {
        match (&rt.objects[lv].inner, &rt.objects[rv].inner) {
            (PyInnerObject::LongObj(l), PyInnerObject::LongObj(r)) => Ok(
                PyObject::from_bool(l.n < r.n),
            ),
            _ => Err(PyErr::TypeError("__lt__ expects int objects")),
        }
    }

    /// The hash of an integer object.
    pub fn pylong_hash(rt: &Runtime, obj: ObjId) -> (r: PyRes<u64>)
        requires
            rt.valid(obj),
        ensures
            match spec_long_value(*rt, obj) {
                Some(n) => r == Ok::<u64, PyErr>(spec_long_hash(n)),
                None => r is Err && r->Err_0 is TypeError,
            },
    {
        match &rt.objects[obj].inner {
            PyInnerObject::LongObj(l) => Ok(long_hash(l.n)),
            _ => Err(PyErr::TypeError("__hash__ expects int objects")),
        }
    }

    /// The truth value of an integer object: `True` if it is positive.
    pub fn pylong_bool(rt: &Runtime, v: ObjId) -> (r: PyRes<ObjId>)
        requires
            rt.valid(v),
        ensures
            match spec_long_value(*rt, v) {
                Some(n) => r == Ok::<ObjId, PyErr>(PyObject::spec_from_bool(n > 0)),
                None => r is Err && r->Err_0 is TypeError,
            },
    {
        match &rt.objects[v].inner {
            PyInnerObject::LongObj(l) => Ok(PyObject::from_bool(l.n > 0)),
            _ => Err(PyErr::TypeError("__bool__ expects int objects")),
        }
    }
}

} // verus!
