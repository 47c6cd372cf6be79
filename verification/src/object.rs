use vstd::prelude::*;
use crate::env::Env;

pub mod pyhashmap;
pub mod typeobj;
pub mod dictobj;
pub mod listobj;
pub mod longobj;
pub mod strobj;
pub mod codeobj;
pub mod funobj;
pub mod methodobj;
pub mod rustfunobj;
pub mod excobj;
pub mod boolobj;
pub mod noneobj;
pub mod mro;
pub mod ready;
pub mod attr;
pub mod generic;
pub mod call;

use crate::object::codeobj::PyCodeObject;
use crate::object::dictobj::PyDictObject;
use crate::object::excobj::PyExcObject;
use crate::object::funobj::PyFunObject;
use crate::object::listobj::{PyListIterObject, PyListObject};
use crate::object::longobj::PyLongObject;
use crate::object::methodobj::PyMethodObject;
use crate::object::rustfunobj::PyRustFunObject;
use crate::object::strobj::PyStringObject;
use crate::object::typeobj::{
    binary_target, unary_target, vararg_target, HashFun, PyTypeObject,
};

verus! {

/// The index of an object in a runtime's arena.
pub type ObjId = usize;

/// The index of an environment frame in a runtime's arena.
pub type EnvId = usize;

/// The root of the class hierarchy, `object`.
pub const PY_BASEOBJ_TYPE: usize = 0;
/// The type of types, `type`.
pub const PY_TYPE_TYPE: usize = 1;
pub const PY_LONG_TYPE: usize = 2;
pub const PY_BOOL_TYPE: usize = 3;
pub const PY_STRING_TYPE: usize = 4;
pub const PY_NONE_TYPE: usize = 5;
pub const PY_LIST_TYPE: usize = 6;
pub const PY_LISTITER_TYPE: usize = 7;
pub const PY_DICT_TYPE: usize = 8;
pub const PY_CODE_TYPE: usize = 9;
pub const PY_FUN_TYPE: usize = 10;
pub const PY_METHOD_TYPE: usize = 11;
pub const PY_RUSTFUN_TYPE: usize = 12;
pub const PY_BASEEXC_TYPE: usize = 13;
pub const PY_EXC_TYPE: usize = 14;
pub const PY_TYPEERROR_TYPE: usize = 15;
pub const PY_ATTRIBUTEERROR_TYPE: usize = 16;
pub const PY_INDEXERROR_TYPE: usize = 17;
pub const PY_STOPITERATION_TYPE: usize = 18;
/// The one `None` object.
pub const PY_NONE_OBJECT: usize = 19;
/// The one `True` object.
pub const PY_TRUE: usize = 20;
/// The one `False` object.
pub const PY_FALSE: usize = 21;
/// The native method `list.append`.
pub const PY_LIST_APPEND: usize = 22;
/// The native function `len`.
pub const PY_BUILTIN_LEN: usize = 23;
/// The number of objects that every runtime starts with.
pub const PY_STATIC_COUNT: usize = 24;

/// The payload of an object, by case.
pub enum PyInnerObject {
    CodeObj(PyCodeObject),
    DictObj(PyDictObject),
    ExcObj(PyExcObject),
    FunObj(PyFunObject),
    InstObj,
    ListObj(PyListObject),
    ListIterObj(PyListIterObject),
    LongObj(PyLongObject),
    MethodObj(PyMethodObject),
    NoneObj,
    RustFunObj(PyRustFunObject),
    StrObj(PyStringObject),
    TypeObj(PyTypeObject),
}

/// A value: its type, its instance dictionary if it has one, and its payload.
pub struct PyObject {
    pub ob_type: ObjId,
    pub ob_dict: Option<ObjId>,
    pub inner: PyInnerObject,
}

/// The state of one interpreter: the arena of objects, the arena of
/// environment frames, the exception indicator and the number of steps that
/// may still be taken.
pub struct Runtime {
    pub objects: Vec<PyObject>,
    pub envs: Vec<Env>,
    pub exc: Option<ObjId>,
    pub fuel: u64,
}

pub open spec fn id_ok(objs: Seq<PyObject>, id: ObjId) -> bool {
    id < objs.len()
}

pub open spec fn type_at(objs: Seq<PyObject>, id: ObjId) -> bool {
    id < objs.len() && objs[id as int].inner is TypeObj
}

pub open spec fn dict_at(objs: Seq<PyObject>, id: ObjId) -> bool {
    id < objs.len() && objs[id as int].inner is DictObj
}

pub open spec fn list_at(objs: Seq<PyObject>, id: ObjId) -> bool {
    id < objs.len() && objs[id as int].inner is ListObj
}

pub open spec fn code_at(objs: Seq<PyObject>, id: ObjId) -> bool {
    id < objs.len() && objs[id as int].inner is CodeObj
}

pub open spec fn rustfun_at(objs: Seq<PyObject>, id: ObjId) -> bool {
    id < objs.len() && objs[id as int].inner is RustFunObj
}

pub open spec fn opt_id_ok(objs: Seq<PyObject>, id: Option<ObjId>) -> bool {
    id matches Some(i) ==> id_ok(objs, i)
}

/// Every index in `ids` names an object.
pub open spec fn ids_ok(objs: Seq<PyObject>, ids: Seq<ObjId>) -> bool {
    forall|j: int| 0 <= j < ids.len() ==> id_ok(objs, #[trigger] ids[j])
}

/// What holds of the type descriptor `t` at index `i`: its links name objects
/// of the right cases, its bases come before it and its subclasses after it.
pub open spec fn type_ok(objs: Seq<PyObject>, i: int, t: PyTypeObject) -> bool {
    &&& t.tp_base matches Some(b) ==> type_at(objs, b) && b < i
    &&& opt_id_ok(objs, unary_target(t.tp_bool))
    &&& opt_id_ok(objs, unary_target(t.tp_len))
    &&& opt_id_ok(objs, binary_target(t.tp_fun_eq))
    &&& opt_id_ok(objs, binary_target(t.tp_fun_add))
    &&& opt_id_ok(objs, binary_target(t.tp_fun_lt))
    &&& opt_id_ok(objs, vararg_target(t.tp_call))
    &&& opt_id_ok(objs, vararg_target(t.tp_new))
    &&& opt_id_ok(objs, vararg_target(t.tp_init))
    &&& t.tp_methods matches Some(ms) ==> forall|j: int|
        0 <= j < ms@.len() ==> rustfun_at(objs, #[trigger] ms@[j])
    &&& t.tp_dict matches Some(d) ==> dict_at(objs, d)
    &&& t.tp_bases matches Some(bs) ==> forall|j: int|
        0 <= j < bs@.len() ==> type_at(objs, #[trigger] bs@[j]) && bs@[j] < i
    &&& t.tp_mro matches Some(m) ==> forall|j: int|
        0 <= j < m@.len() ==> type_at(objs, #[trigger] m@[j]) && m@[j] <= i
    &&& t.tp_subclasses matches Some(ss) ==> forall|j: int|
        0 <= j < ss@.len() ==> type_at(objs, #[trigger] ss@[j]) && ss@[j] > i
}

/// What holds of the payload `inner`, held at index `i`, in an arena of
/// objects `objs` and `nenv` frames.
pub open spec fn inner_ok(objs: Seq<PyObject>, nenv: nat, i: int, inner: PyInnerObject) -> bool {
    match inner {
        PyInnerObject::CodeObj(_) => true,
        PyInnerObject::DictObj(d) => forall|j: int|
            0 <= j < d.dict.table@.len() ==> id_ok(objs, (#[trigger] d.dict.table@[j]).1) && id_ok(
                objs,
                d.dict.table@[j].2,
            ),
        PyInnerObject::ExcObj(e) => list_at(objs, e.args),
        PyInnerObject::FunObj(f) => f.env < nenv && code_at(objs, f.codeobj),
        PyInnerObject::InstObj => true,
        PyInnerObject::ListObj(l) => ids_ok(objs, l.list@),
        PyInnerObject::ListIterObj(it) => list_at(objs, it.it_seq),
        PyInnerObject::LongObj(_) => true,
        PyInnerObject::MethodObj(m) => id_ok(objs, m.ob_self) && m.env < nenv && code_at(
            objs,
            m.codeobj,
        ),
        PyInnerObject::NoneObj => true,
        PyInnerObject::RustFunObj(r) => opt_id_ok(objs, r.ob_self),
        PyInnerObject::StrObj(_) => true,
        PyInnerObject::TypeObj(t) => type_ok(objs, i, t),
    }
}

/// What holds of the object `o`, held at index `i`.
pub open spec fn obj_ok(objs: Seq<PyObject>, nenv: nat, i: int, o: PyObject) -> bool {
    &&& type_at(objs, o.ob_type)
    &&& o.ob_dict matches Some(d) ==> dict_at(objs, d)
    &&& inner_ok(objs, nenv, i, o.inner)
}

/// What holds of the object at index `i` of `objs`.
pub open spec fn obj_ok_at(objs: Seq<PyObject>, nenv: nat, i: int) -> bool {
    obj_ok(objs, nenv, i, objs[i])
}

/// No name is bound twice in `map`.
pub open spec fn keys_unique(map: Seq<(String, ObjId)>) -> bool {
    forall|j: int, k: int|
        0 <= j < map.len() && 0 <= k < map.len() && j != k ==> (#[trigger] map[j]).0@ != (
        #[trigger] map[k]).0@
}

/// What holds of the frame `env`, held at index `e`.
pub open spec fn env_ok(nobj: nat, e: int, env: Env) -> bool {
    &&& env.parent matches Some(p) ==> p < e
    &&& forall|j: int| 0 <= j < env.map@.len() ==> (#[trigger] env.map@[j]).1 < nobj
    &&& keys_unique(env.map@)
}

/// The fixed objects are where every runtime has them.
pub open spec fn statics_ok(objs: Seq<PyObject>) -> bool {
    &&& objs.len() >= PY_STATIC_COUNT
    &&& forall|t: int| 0 <= t <= PY_STOPITERATION_TYPE ==> (#[trigger] objs[t]).inner is TypeObj
    &&& objs[PY_NONE_OBJECT as int].inner is NoneObj
    &&& objs[PY_TRUE as int].inner matches PyInnerObject::LongObj(t) && t.n == 1
    &&& objs[PY_TRUE as int].ob_type == PY_BOOL_TYPE
    &&& objs[PY_FALSE as int].inner matches PyInnerObject::LongObj(f) && f.n == 0
    &&& objs[PY_FALSE as int].ob_type == PY_BOOL_TYPE
    &&& objs[PY_LIST_APPEND as int].inner is RustFunObj
    &&& objs[PY_BUILTIN_LEN as int].inner is RustFunObj
    &&& objs[PY_LONG_TYPE as int].inner->TypeObj_0.tp_hash == Some(HashFun::LongHash)
    &&& objs[PY_STRING_TYPE as int].inner->TypeObj_0.tp_hash == Some(HashFun::StrHash)
}

/// The object `b` is a later state of the object `a`: same type, same instance
/// dictionary, same case, and the same payload where the case is immutable. A
/// type keeps its `hash` slot once it has one.
pub open spec fn same_object(a: PyObject, b: PyObject) -> bool {
    &&& a.ob_type == b.ob_type
    &&& a.ob_dict == b.ob_dict
    &&& match a.inner {
        PyInnerObject::DictObj(_) => b.inner is DictObj,
        PyInnerObject::ListObj(_) => b.inner is ListObj,
        PyInnerObject::ListIterObj(x) => b.inner matches PyInnerObject::ListIterObj(y) && x.it_seq
            == y.it_seq,
        PyInnerObject::TypeObj(x) => b.inner matches PyInnerObject::TypeObj(y) && (x.tp_hash
            is Some ==> y.tp_hash == x.tp_hash),
        _ => b.inner == a.inner,
    }
}

/// The arena `b` is a later state of the arena `a`: nothing was removed and
/// nothing changed its case.
pub open spec fn objs_extend(a: Seq<PyObject>, b: Seq<PyObject>) -> bool {
    &&& a.len() <= b.len()
    &&& forall|i: int| 0 <= i < a.len() ==> same_object(a[i], #[trigger] b[i])
}

/// The frames `b` are a later state of the frames `a`.
pub open spec fn envs_extend(a: Seq<Env>, b: Seq<Env>) -> bool {
    &&& a.len() <= b.len()
    &&& forall|e: int| 0 <= e < a.len() ==> a[e].parent == (#[trigger] b[e]).parent
}

impl Runtime {
    /// `id` names an object of this runtime.
    pub open spec fn valid(&self, id: ObjId) -> bool {
        id_ok(self.objects@, id)
    }

    /// `e` names a frame of this runtime.
    pub open spec fn valid_env(&self, e: EnvId) -> bool {
        e < self.envs@.len()
    }

    /// Every index in `ids` names an object of this runtime.
    pub open spec fn all_valid(&self, ids: Seq<ObjId>) -> bool {
        ids_ok(self.objects@, ids)
    }

    pub open spec fn is_type(&self, id: ObjId) -> bool {
        type_at(self.objects@, id)
    }

    pub open spec fn is_dict(&self, id: ObjId) -> bool {
        dict_at(self.objects@, id)
    }

    pub open spec fn is_list(&self, id: ObjId) -> bool {
        list_at(self.objects@, id)
    }

    pub open spec fn is_code(&self, id: ObjId) -> bool {
        code_at(self.objects@, id)
    }

    /// The object at `id`.
    pub open spec fn obj(&self, id: ObjId) -> PyObject {
        self.objects@[id as int]
    }

    /// The type descriptor at `id`.
    pub open spec fn tp(&self, id: ObjId) -> PyTypeObject {
        self.objects@[id as int].inner->TypeObj_0
    }

    /// The items of the list at `id`.
    pub open spec fn list_items(&self, id: ObjId) -> Seq<ObjId> {
        self.objects@[id as int].inner->ListObj_0.list@
    }

    /// The entries of the dictionary at `id`.
    pub open spec fn dict_entries(&self, id: ObjId) -> Seq<pyhashmap::Entry> {
        self.objects@[id as int].inner->DictObj_0.dict@
    }

    /// The runtime is well formed: every link of every object and frame names
    /// something of the right case, and the fixed objects are in place.
    pub open spec fn wf(&self) -> bool {
        &&& statics_ok(self.objects@)
        &&& forall|i: int|
            0 <= i < self.objects@.len() ==> #[trigger] obj_ok_at(
                self.objects@,
                self.envs@.len(),
                i,
            )
        &&& forall|e: int|
            0 <= e < self.envs@.len() ==> env_ok(self.objects@.len(), e, #[trigger] self.envs@[e])
        &&& opt_id_ok(self.objects@, self.exc)
    }

    /// `self` is a later state of `prev`: objects and frames were added or
    /// updated in place, none changed its case, and no fuel was gained.
    pub open spec fn extends(&self, prev: Runtime) -> bool {
        &&& objs_extend(prev.objects@, self.objects@)
        &&& envs_extend(prev.envs@, self.envs@)
        &&& self.fuel <= prev.fuel
    }
}

impl Runtime {
    /// `self` differs from `prev` at most in the payload of the object `id`.
    pub open spec fn same_except(&self, prev: Runtime, id: ObjId) -> bool {
        &&& self.objects@.len() == prev.objects@.len()
        &&& forall|i: int|
            0 <= i < prev.objects@.len() && i != id ==> #[trigger] self.objects@[i]
                == prev.objects@[i]
        &&& self.envs == prev.envs
        &&& self.exc == prev.exc
        &&& self.fuel == prev.fuel
    }

    /// `self` is `prev` with new objects behind the old ones, which are unchanged.
    pub open spec fn only_grew(&self, prev: Runtime) -> bool {
        &&& prev.objects@.len() <= self.objects@.len()
        &&& forall|i: int|
            0 <= i < prev.objects@.len() ==> #[trigger] self.objects@[i] == prev.objects@[i]
        &&& self.envs == prev.envs
        &&& self.exc == prev.exc
        &&& self.fuel == prev.fuel
    }

    /// Puts `obj` into the arena and returns its index.
    pub fn new_object(&mut self, obj: PyObject) -> (id: ObjId)
        requires
            old(self).wf(),
            obj_ok(old(self).objects@, old(self).envs@.len(), old(self).objects@.len() as int, obj),
        ensures
            final(self).wf(),
            final(self).extends(*old(self)),
            final(self).only_grew(*old(self)),
            id == old(self).objects@.len(),
            final(self).objects@ == old(self).objects@.push(obj),
    {
        let id = self.objects.len();
        self.objects.push(obj);
        proof {
            let a = old(self).objects@;
            let b = self.objects@;
            let n = self.envs@.len();
            assert(objs_extend(a, b));
            assert forall|i: int| 0 <= i < b.len() implies #[trigger] obj_ok_at(b, n, i) by {
                if i < a.len() {
                    assert(b[i] == a[i]);
                    assert(obj_ok_at(a, n, i));
                    lemma_obj_ok_later(a, b, n, n, i, a[i]);
                } else {
                    lemma_obj_ok_later(a, b, n, n, i, obj);
                }
            }
            assert forall|t: int| 0 <= t <= PY_STOPITERATION_TYPE implies (
            #[trigger] b[t]).inner is TypeObj by {
                assert(b[t] == a[t]);
            }
        }
        id
    }
}

/// A runtime that differs from a well-formed one in one object, which kept its
/// case and is well formed itself, is well formed, and a later state of it.
pub proof fn lemma_wf_after_update(prev: Runtime, cur: Runtime, id: ObjId)
    requires
        prev.wf(),
        prev.valid(id),
        cur.same_except(prev, id),
        same_object(prev.obj(id), cur.obj(id)),
        obj_ok(cur.objects@, cur.envs@.len(), id as int, cur.obj(id)),
    ensures
        cur.wf(),
        cur.extends(prev),
{
    let a = prev.objects@;
    let b = cur.objects@;
    let n = cur.envs@.len();
    assert forall|i: int| 0 <= i < a.len() implies same_object(a[i], #[trigger] b[i]) by {
        if i != id {
            assert(b[i] == a[i]);
        }
    }
    assert(objs_extend(a, b));
    assert forall|i: int| 0 <= i < b.len() implies #[trigger] obj_ok_at(b, n, i) by {
        if i != id {
            assert(b[i] == a[i]);
            assert(obj_ok_at(a, n, i));
            lemma_obj_ok_later(a, b, n, n, i, a[i]);
        }
    }
    assert forall|t: int| 0 <= t <= PY_STOPITERATION_TYPE implies (#[trigger] b[t]).inner is TypeObj by {
        assert(same_object(a[t], b[t]));
    }
    assert(same_object(a[PY_NONE_OBJECT as int], b[PY_NONE_OBJECT as int]));
    assert(same_object(a[PY_TRUE as int], b[PY_TRUE as int]));
    assert(same_object(a[PY_FALSE as int], b[PY_FALSE as int]));
    assert(same_object(a[PY_LIST_APPEND as int], b[PY_LIST_APPEND as int]));
    assert(same_object(a[PY_BUILTIN_LEN as int], b[PY_BUILTIN_LEN as int]));
    assert forall|e: int| 0 <= e < cur.envs@.len() implies env_ok(
        b.len(),
        e,
        #[trigger] cur.envs@[e],
    ) by {
        assert(cur.envs@[e] == prev.envs@[e]);
    }
}

impl Runtime {
    /// In a well-formed runtime every object is well formed.
    pub proof fn lemma_obj(&self, id: ObjId)
        requires
            self.wf(),
            self.valid(id),
        ensures
            obj_ok(self.objects@, self.envs@.len(), id as int, self.obj(id)),
            self.is_type(self.obj(id).ob_type),
    {
        assert(obj_ok_at(self.objects@, self.envs@.len(), id as int));
    }

    /// The object at `id`.
    pub fn get(&self, id: ObjId) -> (o: &PyObject)
        requires
            self.valid(id),
        ensures
            *o == self.obj(id),
    {
        &self.objects[id]
    }

    /// The type of the object at `id`.
    pub fn type_of(&self, id: ObjId) -> (t: ObjId)
        requires
            self.wf(),
            self.valid(id),
        ensures
            t == self.obj(id).ob_type,
            self.is_type(t),
    {
        proof {
            self.lemma_obj(id);
        }
        self.objects[id].ob_type
    }

    /// The type descriptor at `t`.
    pub fn typeobj(&self, t: ObjId) -> (tp: &PyTypeObject)
        requires
            self.is_type(t),
        ensures
            *tp == self.tp(t),
    {
        self.objects[t].pytype_typeobj_borrow()
    }

    /// The type descriptor of the type of the object at `id`.
    pub fn typeobj_of(&self, id: ObjId) -> (tp: &PyTypeObject)
        requires
            self.wf(),
            self.valid(id),
        ensures
            *tp == self.tp(self.obj(id).ob_type),
            self.is_type(self.obj(id).ob_type),
    {
        let t = self.type_of(id);
        self.typeobj(t)
    }
}

impl PyObject {
    /// The type of the object.
    pub fn ob_type(&self) -> (t: ObjId)
        ensures
            t == self.ob_type,
    {
        self.ob_type
    }
}

impl Runtime {
    /// Uses up one step of the budget. Returns `false`, and leaves the
    /// runtime as it is, where the budget is used up.
    pub fn burn(&mut self) -> (ok: bool)
        requires
            old(self).wf(),
        ensures
            final(self).wf(),
            final(self).extends(*old(self)),
            ok == (old(self).fuel > 0),
            final(self).fuel == if ok {
                (old(self).fuel - 1) as u64
            } else {
                old(self).fuel
            },
            final(self).objects == old(self).objects,
            final(self).envs == old(self).envs,
            final(self).exc == old(self).exc,
    {
        if self.fuel == 0 {
            proof {
                lemma_extends_refl(*self);
            }
            return false;
        }
        self.fuel = self.fuel - 1;
        proof {
            assert forall|i: int| 0 <= i < self.objects@.len() implies #[trigger] obj_ok_at(
                self.objects@,
                self.envs@.len(),
                i,
            ) by {
                assert(obj_ok_at(old(self).objects@, old(self).envs@.len(), i));
            }
            lemma_extends_refl(*old(self));
        }
        true
    }

    /// A later state of a runtime holds every object that the runtime holds.
    pub proof fn lemma_valid_later(&self, prev: Runtime, ids: Seq<ObjId>)
        requires
            self.extends(prev),
            prev.all_valid(ids),
        ensures
            self.all_valid(ids),
    {
    }
}

/// What holds of the result `r` of an operation that may have run code, in
/// the runtime `cur` that it left: a value is an object of the runtime; with
/// the error `Raised` the exception indicator holds an exception; and no
/// error stands for a built-in exception that has still to be made.
pub open spec fn settled(cur: Runtime, r: Result<ObjId, crate::error::PyErr>) -> bool {
    match r {
        Ok(v) => cur.valid(v),
        Err(e) => (e is Raised ==> cur.exc is Some) && (e is Raised || e.spec_is_fatal()),
    }
}

/// What holds of the result `r` of an operation that may fail with a
/// built-in exception that has still to be made: with the error `Raised`
/// the exception indicator holds an exception.
pub open spec fn raised_ok<T>(cur: Runtime, r: Result<T, crate::error::PyErr>) -> bool {
    r matches Err(e) ==> (e is Raised ==> cur.exc is Some)
}

/// `extends` is reflexive.
pub proof fn lemma_extends_refl(a: Runtime)
    ensures
        a.extends(a),
{
}

/// `extends` is transitive.
pub proof fn lemma_extends_trans(a: Runtime, b: Runtime, c: Runtime)
    requires
        b.extends(a),
        c.extends(b),
    ensures
        c.extends(a),
{
    assert forall|i: int| 0 <= i < a.objects@.len() implies same_object(
        a.objects@[i],
        #[trigger] c.objects@[i],
    ) by {
        assert(same_object(a.objects@[i], b.objects@[i]));
        assert(same_object(b.objects@[i], c.objects@[i]));
    }
    assert forall|e: int| 0 <= e < a.envs@.len() implies a.envs@[e].parent == (
    #[trigger] c.envs@[e]).parent by {
        assert(a.envs@[e].parent == b.envs@[e].parent);
    }
}

/// An object that is well formed in an arena stays so in a later state of the
/// arena.
pub proof fn lemma_obj_ok_later(
    a: Seq<PyObject>,
    b: Seq<PyObject>,
    na: nat,
    nb: nat,
    i: int,
    o: PyObject,
)
    requires
        obj_ok(a, na, i, o),
        objs_extend(a, b),
        na <= nb,
    ensures
        obj_ok(b, nb, i, o),
{
    assert forall|id: ObjId| id_ok(a, id) implies id_ok(b, id) by {}
    assert forall|id: ObjId| type_at(a, id) implies type_at(b, id) by {
        assert(same_object(a[id as int], b[id as int]));
    }
    assert forall|id: ObjId| dict_at(a, id) implies dict_at(b, id) by {
        assert(same_object(a[id as int], b[id as int]));
    }
    assert forall|id: ObjId| list_at(a, id) implies list_at(b, id) by {
        assert(same_object(a[id as int], b[id as int]));
    }
    assert forall|id: ObjId| code_at(a, id) implies code_at(b, id) by {
        assert(same_object(a[id as int], b[id as int]));
    }
    assert forall|id: ObjId| rustfun_at(a, id) implies rustfun_at(b, id) by {
        assert(same_object(a[id as int], b[id as int]));
    }
}

} // verus!
