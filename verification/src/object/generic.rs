use vstd::prelude::*;
use crate::error::{PyErr, PyRes};
use crate::object::attr::{spec_type_getattro, type_getattro, type_lookup};
use crate::object::dictobj::{pyobj_hash, spec_dict_value, spec_key_hash};
use crate::object::longobj::spec_long_value;
use crate::object::methodobj::PyMethodObject;
use crate::object::pyhashmap::{spec_get, spec_insert};
use crate::object::rustfunobj::PyRustFunObject;
use crate::object::strobj::spec_str_value;
use crate::object::{
    ObjId, PyInnerObject, PyObject, Runtime, PY_BASEEXC_TYPE, PY_METHOD_TYPE, PY_RUSTFUN_TYPE,
    PY_TYPE_TYPE,
};

verus! {

/// The integer that an integer object holds.
pub fn pyobj_to_i32(rt: &Runtime, v: ObjId) -> (r: PyRes<i32>)
    requires
        rt.valid(v),
    ensures
        match spec_long_value(*rt, v) {
            Some(n) => r == Ok::<i32, PyErr>(n),
            None => r is Err && r->Err_0 is TypeError,
        },
{
    match &rt.objects[v].inner {
        PyInnerObject::LongObj(obj) => Ok(obj.n),
        _ => Err(PyErr::TypeError("int object expected")),
    }
}

/// A copy of the text that a string object holds.
pub fn pyobj_to_string(rt: &Runtime, v: ObjId) -> (r: PyRes<String>)
    requires
        rt.valid(v),
    ensures
        match spec_str_value(*rt, v) {
            Some(s) => r is Ok && r->Ok_0@ == s,
            None => r is Err && r->Err_0 is TypeError,
        },
{
    match &rt.objects[v].inner {
        PyInnerObject::StrObj(obj) => Ok(obj.s.clone()),
        _ => Err(PyErr::TypeError("str object expected")),
    }
}

/// The method resolution order of the type `t` holds `typ`.
pub open spec fn spec_mro_has(rt: Runtime, t: ObjId, typ: ObjId) -> bool {
    rt.tp(t).tp_mro matches Some(m) && m@.contains(typ)
}

/// `v` is a type whose method resolution order holds `typ`.
pub open spec fn spec_issubclass(rt: Runtime, v: ObjId, typ: ObjId) -> bool {
    rt.obj(v).ob_type == PY_TYPE_TYPE && rt.obj(v).inner is TypeObj && spec_mro_has(rt, v, typ)
}

/// The method resolution order of the type of `v` holds `typ`.
pub open spec fn spec_isinstance(rt: Runtime, v: ObjId, typ: ObjId) -> bool {
    spec_mro_has(rt, rt.obj(v).ob_type, typ)
}

/// Whether the method resolution order of the type `t` holds `typ`.
pub fn mro_has(rt: &Runtime, t: ObjId, typ: ObjId) -> (r: bool)
    requires
        rt.is_type(t),
    ensures
        r == spec_mro_has(*rt, t, typ),
{
    match &rt.typeobj(t).tp_mro {
        Some(mro) => {
            let mut i: usize = 0;
            while i < mro.len()
                invariant
                    i <= mro@.len(),
                    rt.tp(t).tp_mro == Some(*mro),
                    forall|j: int| 0 <= j < i ==> mro@[j] != typ,
                decreases mro@.len() - i,
            {
                if mro[i] == typ {
                    assert(mro@[i as int] == typ);
                    return true;
                }
                i = i + 1;
            }
            false
        },
        None => false,
    }
}

/// Whether `v` is a type that has `typ` among its ancestors, itself included.
pub fn pyobj_issubclass(rt: &Runtime, v: ObjId, typ: ObjId) -> (r: bool)
    requires
        rt.valid(v),
    ensures
        r == spec_issubclass(*rt, v, typ),
{
    if !rt.objects[v].pytype_check() {
        return false;
    }
    match &rt.objects[v].inner {
        PyInnerObject::TypeObj(_) => mro_has(rt, v, typ),
        _ => false,
    }
}

/// Whether the type of `v` has `typ` among its ancestors, itself included.
pub fn pyobj_isinstance(rt: &Runtime, v: ObjId, typ: ObjId) -> (r: bool)
    requires
        rt.wf(),
        rt.valid(v),
    ensures
        r == spec_isinstance(*rt, v, typ),
{
    let t = rt.type_of(v);
    mro_has(rt, t, typ)
}

impl PyObject {
    /// Whether `slf` is a type that descends from the base exception.
    pub fn pyexc_is_exc_subclass(rt: &Runtime, slf: ObjId) -> (r: bool)
        requires
            rt.valid(slf),
        ensures
            r == spec_issubclass(*rt, slf, PY_BASEEXC_TYPE),
    {
        pyobj_issubclass(rt, slf, PY_BASEEXC_TYPE)
    }

    /// Whether the type of `slf` descends from the base exception.
    pub fn pyexc_is_exc_instance(rt: &Runtime, slf: ObjId) -> (r: bool)
        requires
            rt.wf(),
            rt.valid(slf),
        ensures
            r == spec_isinstance(*rt, slf, PY_BASEEXC_TYPE),
    {
        pyobj_isinstance(rt, slf, PY_BASEEXC_TYPE)
    }
}

/// Binds `value` to the receiver `slf`: a function becomes a new bound
/// method, a native function a new native function with `slf` as its
/// receiver; anything else is returned as it is.
pub fn bind_self(rt: &mut Runtime, value: ObjId, slf: ObjId) -> (r: ObjId)
    requires
        old(rt).wf(),
        old(rt).valid(value),
        old(rt).valid(slf),
    ensures
        bind_self_post(*old(rt), *final(rt), value, slf, r),
{
    proof {
        rt.lemma_obj(value);
        crate::object::lemma_extends_refl(*rt);
    }
    let bound = match &rt.objects[value].inner {
        PyInnerObject::FunObj(fun) => Some(
            PyObject {
                ob_type: PY_METHOD_TYPE,
                ob_dict: None,
                inner: PyInnerObject::MethodObj(
                    PyMethodObject { ob_self: slf, env: fun.env, codeobj: fun.codeobj },
                ),
            },
        ),
        PyInnerObject::RustFunObj(obj) => Some(
            PyObject {
                ob_type: PY_RUSTFUN_TYPE,
                ob_dict: None,
                inner: PyInnerObject::RustFunObj(
                    PyRustFunObject {
                        name: obj.name.clone(),
                        ob_self: Some(slf),
                        rust_fun: obj.rust_fun,
                    },
                ),
            },
        ),
        _ => None,
    };
    match bound {
        Some(obj) => rt.new_object(obj),
        None => value,
    }
}

/// What the generic attribute read finds for the hash `h` before binding:
/// the entry of the instance dictionary, if the object has one that files
/// something under `h`, and else what the attribute read on the object's
/// type finds. The flag says whether the entry came from the instance
/// dictionary.
pub open spec fn spec_generic_find(rt: Runtime, value: ObjId, h: u64) -> Option<(ObjId, bool)> {
    let own = match rt.obj(value).ob_dict {
        Some(d) => spec_get(rt.dict_entries(d), h),
        None => None,
    };
    match own {
        Some(v) => Some((v, true)),
        None => match spec_type_getattro(rt, rt.obj(value).ob_type, h) {
            Some(v) => Some((v, false)),
            None => None,
        },
    }
}

/// Generic attribute read. An entry of the object's instance dictionary is
/// returned as it is. An entry found along the method resolution order of
/// the object's type is bound to the object, unless the object is a type.
/// An attribute that is found nowhere is an error.
pub fn pyobj_generic_get_attro(rt: &mut Runtime, value: ObjId, key: ObjId) -> (r: PyRes<
    Option<ObjId>,
>)
    requires
        old(rt).wf(),
        old(rt).valid(value),
        old(rt).valid(key),
    ensures
        pyobj_generic_get_attro_post(*old(rt), *final(rt), value, key, r),
{
    proof {
        rt.lemma_obj(value);
        crate::object::lemma_extends_refl(*rt);
    }
    let hash = match pyobj_hash(rt, key) {
        Ok(h) => h,
        Err(e) => {
            return Err(e);
        },
    };
    match rt.objects[value].ob_dict {
        Some(d) => {
            let found = crate::object::ready::dict_lookup_hash(rt, d, hash);
            if found.is_some() {
                return Ok(found);
            }
        },
        None => {},
    }
    let t = rt.type_of(value);
    match type_lookup(rt, t, hash) {
        Some(v) => {
            let is_type = match &rt.objects[value].inner {
                PyInnerObject::TypeObj(_) => true,
                _ => false,
            };
            if is_type {
                Ok(Some(v))
            } else {
                Ok(Some(bind_self(rt, v, value)))
            }
        },
        None => Err(PyErr::AttributeError("failed to find attribute")),
    }
}

/// Generic attribute write: files `rvalue` under `key` in the instance
/// dictionary of `value`. An object without an instance dictionary takes no
/// attributes.
pub fn pyobj_generic_set_attro(rt: &mut Runtime, value: ObjId, key: ObjId, rvalue: ObjId) -> (r:
    PyRes<()>)
    requires
        old(rt).wf(),
        old(rt).valid(value),
        old(rt).valid(key),
        old(rt).valid(rvalue),
    ensures
        pyobj_generic_set_attro_post(*old(rt), *final(rt), value, key, rvalue, r),
{
    proof {
        rt.lemma_obj(value);
        crate::object::lemma_extends_refl(*rt);
    }
    match rt.objects[value].ob_dict {
        Some(d) => PyObject::pydict_update(rt, d, key, rvalue),
        None => Err(PyErr::AttributeError("object has no attribute dictionary")),
    }
}

/// What `pyobj_generic_get_attro` does: the state before the call, and the state and the result
/// after it.
pub open spec fn pyobj_generic_get_attro_post(
    prt: Runtime,
    rt: Runtime,
    value: ObjId,
    key: ObjId,
    r: PyRes< Option<ObjId>, >,
) -> bool {
    &&& rt.wf()
    &&& rt.extends(prt)
    &&& rt.only_grew(prt)
    &&& match spec_key_hash(prt, key) {
            None => r is Err && r->Err_0 is TypeError && rt.objects@ == prt.objects@,
            Some(h) => match spec_generic_find(prt, value, h) {
                None => r is Err && r->Err_0 is AttributeError && rt.objects@ == prt.objects@,
                Some((v, own)) => {
                    &&& r is Ok
                    &&& r->Ok_0 is Some
                    &&& rt.valid(r->Ok_0->Some_0)
                    &&& if own || prt.obj(value).inner is TypeObj || !(prt.obj(v).inner
                        is FunObj || prt.obj(v).inner is RustFunObj) {
                        r->Ok_0 == Some(v) && rt.objects@ == prt.objects@
                    } else {
                        &&& r->Ok_0 == Some(prt.objects@.len() as usize)
                        &&& rt.objects@.len() == prt.objects@.len() + 1
                        &&& match prt.obj(v).inner {
                            PyInnerObject::FunObj(f) => rt.obj(r->Ok_0->Some_0).inner
                                == PyInnerObject::MethodObj(
                                PyMethodObject { ob_self: value, env: f.env, codeobj: f.codeobj },
                            ),
                            _ => rt.obj(r->Ok_0->Some_0).inner matches PyInnerObject::RustFunObj(
                                g,
                            ) && g.ob_self == Some(value),
                        }
                    }
                },
            },
        }
}

/// What `pyobj_generic_set_attro` does: the state before the call, and the state and the result
/// after it.
pub open spec fn pyobj_generic_set_attro_post(
    prt: Runtime,
    rt: Runtime,
    value: ObjId,
    key: ObjId,
    rvalue: ObjId,
    r: PyRes<()>,
) -> bool {
    &&& rt.wf()
    &&& rt.extends(prt)
    &&& match prt.obj(value).ob_dict {
            Some(d) => {
                &&& rt.same_except(prt, d)
                &&& match spec_key_hash(prt, key) {
                    Some(h) => r is Ok && spec_dict_value(rt, d) == Some(
                        spec_insert(prt.dict_entries(d), h, key, rvalue),
                    ),
                    None => r is Err && r->Err_0 is TypeError && rt.objects@ == prt.objects@,
                }
            },
            None => r is Err && r->Err_0 is AttributeError && rt == prt,
        }
}

/// What `bind_self` does: the state before the call, and the state and the result
/// after it.
pub open spec fn bind_self_post(
    prt: Runtime,
    rt: Runtime,
    value: ObjId,
    slf: ObjId,
    r: ObjId,
) -> bool {
    &&& rt.wf()
    &&& rt.extends(prt)
    &&& rt.only_grew(prt)
    &&& rt.valid(r)
    &&& match prt.obj(value).inner {
            PyInnerObject::FunObj(f) => {
                &&& r == prt.objects@.len()
                &&& rt.objects@.len() == r + 1
                &&& rt.obj(r).ob_type == PY_METHOD_TYPE
                &&& rt.obj(r).ob_dict.is_none()
                &&& rt.obj(r).inner == PyInnerObject::MethodObj(
                    PyMethodObject { ob_self: slf, env: f.env, codeobj: f.codeobj },
                )
            },
            PyInnerObject::RustFunObj(f) => {
                &&& r == prt.objects@.len()
                &&& rt.objects@.len() == r + 1
                &&& rt.obj(r).ob_type == PY_RUSTFUN_TYPE
                &&& rt.obj(r).ob_dict.is_none()
                &&& rt.obj(r).inner matches PyInnerObject::RustFunObj(g)
                &&& g.name@ == f.name@
                &&& g.ob_self == Some(slf)
                &&& g.rust_fun == f.rust_fun
            },
            _ => r == value && rt.objects@ == prt.objects@,
        }
}

} // verus!
