use vstd::prelude::*;
use crate::error::{PyErr, PyRes};
use crate::object::longobj::{spec_long_hash, spec_long_value};
use crate::object::pyhashmap::{spec_get, spec_insert, Entry, PyHashMap};
use crate::object::strobj::{pystr_hash, spec_str_hash, spec_str_value};
use crate::object::typeobj::{default_hash, spec_default_hash, HashFun};
use crate::object::{
    lemma_wf_after_update, ObjId, PyInnerObject, PyObject, Runtime, PY_DICT_TYPE, PY_LONG_TYPE,
};

verus! {

/// The payload of a dictionary object.
pub struct PyDictObject {
    pub dict: PyHashMap,
}

/// The entries of the object at `id`, if it is a dictionary.
pub open spec fn spec_dict_value(rt: Runtime, id: ObjId) -> Option<Seq<Entry>> {
    match rt.obj(id).inner {
        PyInnerObject::DictObj(d) => Some(d.dict@),
        _ => None,
    }
}

/// The hash under which the object at `key` is filed, as the `hash` slot of
/// its type computes it; `None` where the type has no such slot or the slot
/// does not take the object.
pub open spec fn spec_key_hash(rt: Runtime, key: ObjId) -> Option<u64> {
    match rt.tp(rt.obj(key).ob_type).tp_hash {
        Some(HashFun::DefaultHash) => Some(spec_default_hash(key)),
        Some(HashFun::LongHash) => match spec_long_value(rt, key) {
            Some(n) => Some(spec_long_hash(n)),
            None => None,
        },
        Some(HashFun::StrHash) => match spec_str_value(rt, key) {
            Some(s) => Some(spec_str_hash(s)),
            None => None,
        },
        None => None,
    }
}

/// The hash of the object at `key`, through the `hash` slot of its type.
pub fn pyobj_hash(rt: &Runtime, key: ObjId) -> (r: PyRes<u64>)
    requires
        rt.wf(),
        rt.valid(key),
    ensures
        match spec_key_hash(*rt, key) {
            Some(h) => r == Ok::<u64, PyErr>(h),
            None => r is Err && r->Err_0 is TypeError,
        },
{
    match rt.typeobj_of(key).tp_hash {
        Some(HashFun::DefaultHash) => Ok(default_hash(key)),
        Some(HashFun::LongHash) => PyObject::pylong_hash(rt, key),
        Some(HashFun::StrHash) => pystr_hash(rt, key),
        None => Err(PyErr::TypeError("unhashable dict key")),
    }
}

impl PyObject {
    /// Makes a new, empty dictionary object.
    pub fn pydict_new(rt: &mut Runtime) -> (id: ObjId)
        requires
            old(rt).wf(),
        ensures
            pydict_new_post(*old(rt), *final(rt), id),
    {
        rt.new_object(
            PyObject {
                ob_type: PY_DICT_TYPE,
                ob_dict: None,
                inner: PyInnerObject::DictObj(PyDictObject { dict: PyHashMap::new() }),
            },
        )
    }

    /// The number of entries of a dictionary: a new integer object.
    pub fn pydict_len(rt: &mut Runtime, v: ObjId) -> (r: PyRes<ObjId>)
        requires
            old(rt).wf(),
            old(rt).valid(v),
        ensures
            final(rt).wf(),
            final(rt).extends(*old(rt)),
            final(rt).only_grew(*old(rt)),
            match spec_dict_value(*old(rt), v) {
                Some(entries) => {
                    &&& r == Ok::<ObjId, PyErr>(old(rt).objects@.len() as usize)
                    &&& final(rt).objects@.len() == old(rt).objects@.len() + 1
                    &&& final(rt).obj(r->Ok_0).ob_type == PY_LONG_TYPE
                    &&& spec_long_value(*final(rt), r->Ok_0) == Some(entries.len() as i32)
                },
                None => r is Err && r->Err_0 is TypeError && final(rt).objects@ == old(rt).objects@,
            },
    {
        let n = match &rt.objects[v].inner {
            PyInnerObject::DictObj(d) => Some(#[verifier::truncate] (d.dict.len() as i32)),
            _ => None,
        };
        match n {
            Some(n) => Ok(PyObject::from_i32(rt, n)),
            None => Err(PyErr::TypeError("dict object expected")),
        }
    }

    /// Whether the object's type is `dict`.
    pub fn pydict_check(&self) -> (r: bool)
        ensures
            r == (self.ob_type == PY_DICT_TYPE),
    {
        self.ob_type == PY_DICT_TYPE
    }

    /// The value filed in the dictionary `slf` under the hash of `key`.
    pub fn pydict_lookup(rt: &Runtime, slf: ObjId, key: ObjId) -> (r: PyRes<Option<ObjId>>)
        requires
            rt.wf(),
            rt.valid(slf),
            rt.valid(key),
        ensures
            match (spec_key_hash(*rt, key), spec_dict_value(*rt, slf)) {
                (Some(h), Some(entries)) => r == Ok::<Option<ObjId>, PyErr>(spec_get(entries, h)),
                _ => r is Err && r->Err_0 is TypeError,
            },
            r matches Ok(Some(v)) ==> rt.valid(v),
    {
        let hash = match pyobj_hash(rt, key) {
            Ok(h) => h,
            Err(e) => {
                return Err(e);
            },
        };
        match &rt.objects[slf].inner {
            PyInnerObject::DictObj(d) => {
                let r = d.dict.get(hash);
                proof {
                    rt.lemma_obj(slf);
                    crate::object::pyhashmap::lemma_first_index(d.dict@, hash);
                }
                Ok(r)
            },
            _ => Err(PyErr::TypeError("__getitem__ expects dict object")),
        }
    }

    /// Files `value` in the dictionary `slf` under the hash of `key`.
    pub fn pydict_update(rt: &mut Runtime, slf: ObjId, key: ObjId, value: ObjId) -> (r: PyRes<()>)
        requires
            old(rt).wf(),
            old(rt).valid(slf),
            old(rt).valid(key),
            old(rt).valid(value),
        ensures
            pydict_update_post(*old(rt), *final(rt), slf, key, value, r),
    {
        let ghost prev = *rt;
        let hash = match pyobj_hash(rt, key) {
            Ok(h) => h,
            Err(e) => {
                return Err(e);
            },
        };
        let done = match &mut rt.objects[slf].inner {
            PyInnerObject::DictObj(d) => {
                d.dict.insert(hash, key, value);
                true
            },
            _ => false,
        };
        proof {
            prev.lemma_obj(slf);
            if done {
                let old_entries = prev.dict_entries(slf);
                let new_entries = rt.dict_entries(slf);
                crate::object::pyhashmap::lemma_first_index(old_entries, hash);
                let p = crate::object::pyhashmap::first_index(old_entries, hash);
                assert forall|j: int| 0 <= j < new_entries.len() implies crate::object::id_ok(
                    rt.objects@,
                    (#[trigger] new_entries[j]).1,
                ) && crate::object::id_ok(rt.objects@, new_entries[j].2) by {
                    if j != p {
                        assert(new_entries[j] == old_entries[j]);
                    }
                }
            } else {
                assert(rt.objects@ =~= prev.objects@);
            }
            lemma_wf_after_update(prev, *rt, slf);
        }
        if done {
            Ok(())
        } else {
            Err(PyErr::TypeError("__setitem__ expects dict object"))
        }
    }
}

/// What `pydict_update` does: the state before the call, and the state and the result
/// after it.
pub open spec fn pydict_update_post(
    prt: Runtime,
    rt: Runtime,
    slf: ObjId,
    key: ObjId,
    value: ObjId,
    r: PyRes<()>,
) -> bool {
    &&& rt.wf()
    &&& rt.extends(prt)
    &&& rt.same_except(prt, slf)
    &&& match (spec_key_hash(prt, key), spec_dict_value(prt, slf)) {
            (Some(h), Some(entries)) => {
                &&& r is Ok
                &&& spec_dict_value(rt, slf) == Some(spec_insert(entries, h, key, value))
            },
            _ => r is Err && r->Err_0 is TypeError && rt.objects@ == prt.objects@,
        }
}

/// What `pydict_new` does: the state before the call, and the state and the result
/// after it.
pub open spec fn pydict_new_post(
    prt: Runtime,
    rt: Runtime,
    id: ObjId,
) -> bool {
    &&& rt.wf()
    &&& rt.extends(prt)
    &&& rt.only_grew(prt)
    &&& id == prt.objects@.len()
    &&& rt.objects@.len() == id + 1
    &&& rt.obj(id).ob_type == PY_DICT_TYPE
    &&& rt.obj(id).ob_dict.is_none()
    &&& spec_dict_value(rt, id) == Some(Seq::<Entry>::empty())
}

} // verus!
