use vstd::prelude::*;
use vstd::std_specs::hash::DefaultHasherAdditionalSpecFns;
use vstd::string::StringExecFns;
use std::collections::hash_map::DefaultHasher;
use core::hash::Hasher;
use crate::error::{PyErr, PyRes};
use crate::object::longobj::spec_long_value;
use crate::object::{ObjId, PyInnerObject, PyObject, Runtime, PY_LONG_TYPE, PY_STRING_TYPE};

verus! {

/// The payload of a string object.
pub struct PyStringObject {
    pub s: String,
}

/// The hash of the text `s`: the hasher is fed the UTF-8 bytes of `s` and then
/// the byte `0xff`.
pub open spec fn spec_str_hash(s: Seq<char>) -> u64 {
    DefaultHasher::spec_finish(seq![vstd::utf8::encode_utf8(s), seq![0xffu8]])
}

/// The text that the object at `id` holds, if it is a string.
pub open spec fn spec_str_value(rt: Runtime, id: ObjId) -> Option<Seq<char>> {
    match rt.obj(id).inner {
        PyInnerObject::StrObj(s) => Some(s.s@),
        _ => None,
    }
}

/// The objects of `rt` from the index `base` on are string objects that
/// hold the texts `names`, one after the other.
pub open spec fn strings_at(rt: Runtime, base: int, names: Seq<Seq<char>>) -> bool {
    forall|j: int|
        0 <= j < names.len() ==> string_is(rt.objects@[base + j], #[trigger] names[j])
}

/// The object `o` is a string object that holds the text `s`.
pub open spec fn string_is(o: PyObject, s: Seq<char>) -> bool {
    o.ob_type == PY_STRING_TYPE && o.inner is StrObj && o.inner->StrObj_0.s@ == s
}

/// The length that `len` reports of the text `s`: the number of its UTF-8
/// bytes, cut to 32 bits.
pub open spec fn spec_str_len(s: Seq<char>) -> i32 {
    (vstd::utf8::encode_utf8(s).len() as usize) as i32
}

/// Computes the hash of a text.
pub fn str_hash(s: &str) -> (h: u64)
    ensures
        h == spec_str_hash(s@),
{
    let mut hasher = DefaultHasher::new();
    hasher.write(s.as_bytes());
    let mut tail: Vec<u8> = Vec::new();
    tail.push(0xffu8);
    hasher.write(tail.as_slice());
    proof {
        assert(tail@ =~= seq![0xffu8]);
        assert(hasher@ =~= seq![vstd::utf8::encode_utf8(s@), seq![0xffu8]]);
    }
    hasher.finish()
}

impl PyObject {
    /// Makes a new string object with the text of `s`.
    pub fn from_str(rt: &mut Runtime, s: &str) -> (id: ObjId)
        requires
            old(rt).wf(),
        ensures
            from_str_post(*old(rt), *final(rt), s@, id),
    {
        PyObject::from_string(rt, String::from_str(s))
    }

    /// Makes a new string object that holds `raw_string`.
    pub fn from_string(rt: &mut Runtime, raw_string: String) -> (id: ObjId)
        requires
            old(rt).wf(),
        ensures
            from_string_post(*old(rt), *final(rt), raw_string, id),
    {
        rt.new_object(
            PyObject {
                ob_type: PY_STRING_TYPE,
                ob_dict: None,
                inner: PyInnerObject::StrObj(PyStringObject { s: raw_string }),
            },
        )
    }
}

/// `lv + rv` on strings: a new string object with the two texts joined.
pub fn pystr_add(rt: &mut Runtime, lv: ObjId, rv: ObjId) -> (r: PyRes<ObjId>)
    requires
        old(rt).wf(),
        old(rt).valid(lv),
        old(rt).valid(rv),
    ensures
        final(rt).wf(),
        final(rt).extends(*old(rt)),
        final(rt).only_grew(*old(rt)),
        match (spec_str_value(*old(rt), lv), spec_str_value(*old(rt), rv)) {
            (Some(a), Some(b)) => {
                &&& r == Ok::<ObjId, PyErr>(old(rt).objects@.len() as usize)
                &&& final(rt).objects@.len() == old(rt).objects@.len() + 1
                &&& final(rt).obj(r->Ok_0).ob_type == PY_STRING_TYPE
                &&& spec_str_value(*final(rt), r->Ok_0) == Some(a + b)
            },
            _ => r is Err && r->Err_0 is TypeError && final(rt).objects@ == old(rt).objects@,
        },
{
    let joined = match (&rt.objects[lv].inner, &rt.objects[rv].inner) {
        (PyInnerObject::StrObj(l), PyInnerObject::StrObj(r)) => {
            let mut s = l.s.clone();
            s.append(r.s.as_str());
            Some(s)
        },
        _ => None,
    };
    match joined {
        Some(s) => Ok(PyObject::from_string(rt, s)),
        None => Err(PyErr::TypeError("__add__ expects str objects")),
    }
}

/// `lv == rv` on strings: the `True` or `False` object.
pub fn pystr_eq(rt: &Runtime, lv: ObjId, rv: ObjId) -> (r: PyRes<ObjId>)
    requires
        rt.valid(lv),
        rt.valid(rv),
    ensures
        match (spec_str_value(*rt, lv), spec_str_value(*rt, rv)) {
            (Some(a), Some(b)) => r == Ok::<ObjId, PyErr>(PyObject::spec_from_bool(a == b)),
            _ => r is Err && r->Err_0 is TypeError,
        },
{
    match (&rt.objects[lv].inner, &rt.objects[rv].inner) {
        (PyInnerObject::StrObj(l), PyInnerObject::StrObj(r)) => Ok(PyObject::from_bool(l.s == r.s)),
        _ => Err(PyErr::TypeError("__eq__ expects str objects")),
    }
}

/// The hash of a string object.
pub fn pystr_hash(rt: &Runtime, obj: ObjId) -> (r: PyRes<u64>)
    requires
        rt.valid(obj),
    ensures
        match spec_str_value(*rt, obj) {
            Some(s) => r == Ok::<u64, PyErr>(spec_str_hash(s)),
            None => r is Err && r->Err_0 is TypeError,
        },
{
    match &rt.objects[obj].inner {
        PyInnerObject::StrObj(s) => Ok(str_hash(s.s.as_str())),
        _ => Err(PyErr::TypeError("__hash__ expects str objects")),
    }
}

/// The length of a string object: a new integer object.
pub fn pystr_len(rt: &mut Runtime, v: ObjId) -> (r: PyRes<ObjId>)
    requires
        old(rt).wf(),
        old(rt).valid(v),
    ensures
        final(rt).wf(),
        final(rt).extends(*old(rt)),
        final(rt).only_grew(*old(rt)),
        match spec_str_value(*old(rt), v) {
            Some(s) => {
                &&& r == Ok::<ObjId, PyErr>(old(rt).objects@.len() as usize)
                &&& final(rt).objects@.len() == old(rt).objects@.len() + 1
                &&& final(rt).obj(r->Ok_0).ob_type == PY_LONG_TYPE
                &&& spec_long_value(*final(rt), r->Ok_0) == Some(spec_str_len(s))
            },
            None => r is Err && r->Err_0 is TypeError && final(rt).objects@ == old(rt).objects@,
        },
{
    let n = match &rt.objects[v].inner {
        PyInnerObject::StrObj(s) => Some(#[verifier::truncate] (s.s.as_str().len() as i32)),
        _ => None,
    };
    match n {
        Some(n) => Ok(PyObject::from_i32(rt, n)),
        None => Err(PyErr::TypeError("__len__ expects str objects")),
    }
}

/// What `from_str` does: the state before the call, and the state and the result
/// after it.
pub open spec fn from_str_post(
    prt: Runtime,
    rt: Runtime,
    s: Seq<char>,
    id: ObjId,
) -> bool {
    &&& rt.wf()
    &&& rt.extends(prt)
    &&& rt.only_grew(prt)
    &&& id == prt.objects.len()
    &&& rt.objects.len() == id + 1
    &&& rt.obj(id).ob_type == PY_STRING_TYPE
    &&& rt.obj(id).ob_dict.is_none()
    &&& spec_str_value(rt, id) == Some(s)
}

/// What `from_string` does: the state before the call, and the state and the result
/// after it.
pub open spec fn from_string_post(
    prt: Runtime,
    rt: Runtime,
    raw_string: String,
    id: ObjId,
) -> bool {
    &&& rt.wf()
    &&& rt.extends(prt)
    &&& rt.only_grew(prt)
    &&& id == prt.objects@.len()
    &&& rt.objects@.len() == id + 1
    &&& rt.obj(id).ob_type == PY_STRING_TYPE
    &&& rt.obj(id).ob_dict.is_none()
    &&& rt.obj(id).inner == PyInnerObject::StrObj(PyStringObject { s: raw_string })
}

} // verus!
