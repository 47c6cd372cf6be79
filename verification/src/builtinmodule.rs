use vstd::prelude::*;
use vstd::string::StringExecFns;
use crate::env::{spec_bind, Env};
use crate::error::{PyErr, PyRes};
use crate::object::longobj::PyLongObject;
use crate::object::ready::{
    grew_except, is_ready, lemma_ready_again, lemma_ready_frame, lemma_readied_is_ready,
    lemma_same_views_trans, pytype_ready, readied, same_view_at, same_views,
};
use crate::object::rustfunobj::{NativeFn, PyRustFun, PyRustFunObject};
use crate::object::typeobj::{
    binary_target, unary_target, vararg_target, HashFun, PyTypeObject, TypeView,
};
use crate::object::{
    lemma_extends_refl, lemma_extends_trans, obj_ok_at, EnvId, ObjId, PyInnerObject, PyObject,
    Runtime, PY_ATTRIBUTEERROR_TYPE, PY_BASEEXC_TYPE, PY_BASEOBJ_TYPE, PY_BOOL_TYPE,
    PY_BUILTIN_LEN, PY_CODE_TYPE, PY_DICT_TYPE, PY_EXC_TYPE, PY_FALSE, PY_FUN_TYPE,
    PY_INDEXERROR_TYPE, PY_LISTITER_TYPE, PY_LIST_APPEND, PY_LIST_TYPE, PY_LONG_TYPE,
    PY_METHOD_TYPE, PY_NONE_OBJECT, PY_NONE_TYPE, PY_RUSTFUN_TYPE, PY_STATIC_COUNT,
    PY_STOPITERATION_TYPE, PY_STRING_TYPE, PY_TRUE, PY_TYPEERROR_TYPE, PY_TYPE_TYPE,
};

verus! {

/// What holds of the type descriptor `t` that a new runtime has at index `k`:
/// it has no dictionary, bases, order or subclasses yet; none of its slots
/// calls an object; its base comes before it; and its native methods are
/// those of `list`.
pub open spec fn static_type_ok(k: int, t: PyTypeObject) -> bool {
    &&& t.tp_base matches Some(b) ==> b < k
    &&& t.tp_methods matches Some(ms) ==> ms@.len() == 0 || ms@ == seq![PY_LIST_APPEND]
    &&& t.tp_dict is None
    &&& t.tp_bases is None
    &&& t.tp_mro is None
    &&& t.tp_subclasses is None
    &&& unary_target(t.tp_bool) is None
    &&& unary_target(t.tp_len) is None
    &&& binary_target(t.tp_fun_eq) is None
    &&& binary_target(t.tp_fun_add) is None
    &&& binary_target(t.tp_fun_lt) is None
    &&& vararg_target(t.tp_call) is None
    &&& vararg_target(t.tp_new) is None
    &&& vararg_target(t.tp_init) is None
    &&& k == PY_LONG_TYPE ==> t.tp_hash == Some(HashFun::LongHash)
    &&& k == PY_STRING_TYPE ==> t.tp_hash == Some(HashFun::StrHash)
    &&& t@ == static_view(k)
}

/// The fields of the type descriptor that a new runtime has at index `k`,
/// before any type is ready.
pub open spec fn static_view(k: int) -> TypeView {
    if k == PY_BASEOBJ_TYPE {
        PyTypeObject::spec_new_baseobj()
    } else if k == PY_TYPE_TYPE {
        PyTypeObject::spec_new_type()
    } else if k == PY_LONG_TYPE {
        PyTypeObject::spec_new_int()
    } else if k == PY_BOOL_TYPE {
        PyTypeObject::spec_new_bool()
    } else if k == PY_STRING_TYPE {
        PyTypeObject::spec_new_str()
    } else if k == PY_NONE_TYPE {
        PyTypeObject::spec_new_none()
    } else if k == PY_LIST_TYPE {
        PyTypeObject::spec_new_list()
    } else if k == PY_LISTITER_TYPE {
        PyTypeObject::spec_new_listiter()
    } else if k == PY_DICT_TYPE {
        PyTypeObject::spec_new_dict()
    } else if k == PY_CODE_TYPE {
        PyTypeObject::spec_new_code()
    } else if k == PY_FUN_TYPE {
        PyTypeObject::spec_new_function()
    } else if k == PY_METHOD_TYPE {
        PyTypeObject::spec_new_method()
    } else if k == PY_RUSTFUN_TYPE {
        PyTypeObject::spec_new_rustfun()
    } else if k == PY_BASEEXC_TYPE {
        PyTypeObject::spec_new_baseexc()
    } else if k == PY_EXC_TYPE {
        PyTypeObject::spec_new_exception("Exception"@, PY_BASEEXC_TYPE)
    } else if k == PY_TYPEERROR_TYPE {
        PyTypeObject::spec_new_exception("TypeError"@, PY_EXC_TYPE)
    } else if k == PY_ATTRIBUTEERROR_TYPE {
        PyTypeObject::spec_new_exception("AttributeError"@, PY_EXC_TYPE)
    } else if k == PY_INDEXERROR_TYPE {
        PyTypeObject::spec_new_exception("IndexError"@, PY_EXC_TYPE)
    } else {
        PyTypeObject::spec_new_exception("StopIteration"@, PY_EXC_TYPE)
    }
}

/// What holds of the object `o` that a new runtime has at index `k`.
pub open spec fn static_ok(k: int, o: PyObject) -> bool {
    &&& o.ob_dict is None
    &&& if k <= PY_STOPITERATION_TYPE {
        o.ob_type == PY_TYPE_TYPE && o.inner is TypeObj && static_type_ok(k, o.inner->TypeObj_0)
    } else if k == PY_NONE_OBJECT {
        o.ob_type == PY_NONE_TYPE && o.inner is NoneObj
    } else if k == PY_TRUE {
        o.ob_type == PY_BOOL_TYPE && o.inner is LongObj && o.inner->LongObj_0.n == 1
    } else if k == PY_FALSE {
        o.ob_type == PY_BOOL_TYPE && o.inner is LongObj && o.inner->LongObj_0.n == 0
    } else {
        &&& o.ob_type == PY_RUSTFUN_TYPE
        &&& o.inner is RustFunObj
        &&& o.inner->RustFunObj_0.ob_self is None
        &&& o.inner->RustFunObj_0.name@ == if k == PY_LIST_APPEND {
            "append"@
        } else {
            "len"@
        }
        &&& o.inner->RustFunObj_0.rust_fun == PyRustFun::MethO(
            if k == PY_LIST_APPEND {
                NativeFn::ListAppend
            } else {
                NativeFn::BuiltinLen
            },
        )
    }
}

/// The type descriptor with which a new runtime starts at index `k`.
fn static_type(k: usize) -> (t: PyTypeObject)
    requires
        k <= PY_STOPITERATION_TYPE,
    ensures
        static_type_ok(k as int, t),
{
    if k == PY_BASEOBJ_TYPE {
        PyTypeObject::new_baseobj()
    } else if k == PY_TYPE_TYPE {
        PyTypeObject::new_type()
    } else if k == PY_LONG_TYPE {
        PyTypeObject::new_int()
    } else if k == PY_BOOL_TYPE {
        PyTypeObject::new_bool()
    } else if k == PY_STRING_TYPE {
        PyTypeObject::new_str()
    } else if k == PY_NONE_TYPE {
        PyTypeObject::new_none()
    } else if k == PY_LIST_TYPE {
        PyTypeObject::new_list()
    } else if k == PY_LISTITER_TYPE {
        PyTypeObject::new_listiter()
    } else if k == PY_DICT_TYPE {
        PyTypeObject::new_dict()
    } else if k == PY_CODE_TYPE {
        PyTypeObject::new_code()
    } else if k == PY_FUN_TYPE {
        PyTypeObject::new_function()
    } else if k == PY_METHOD_TYPE {
        PyTypeObject::new_method()
    } else if k == PY_RUSTFUN_TYPE {
        PyTypeObject::new_rustfun()
    } else if k == PY_BASEEXC_TYPE {
        PyTypeObject::new_baseexc()
    } else if k == PY_EXC_TYPE {
        PyTypeObject::new_exception("Exception", PY_BASEEXC_TYPE)
    } else if k == PY_TYPEERROR_TYPE {
        PyTypeObject::new_exception("TypeError", PY_EXC_TYPE)
    } else if k == PY_ATTRIBUTEERROR_TYPE {
        PyTypeObject::new_exception("AttributeError", PY_EXC_TYPE)
    } else if k == PY_INDEXERROR_TYPE {
        PyTypeObject::new_exception("IndexError", PY_EXC_TYPE)
    } else {
        PyTypeObject::new_exception("StopIteration", PY_EXC_TYPE)
    }
}

/// The object with which a new runtime starts at index `k`.
fn static_object(k: usize) -> (o: PyObject)
    requires
        k < PY_STATIC_COUNT,
    ensures
        static_ok(k as int, o),
{
    if k <= PY_STOPITERATION_TYPE {
        PyObject {
            ob_type: PY_TYPE_TYPE,
            ob_dict: None,
            inner: PyInnerObject::TypeObj(static_type(k)),
        }
    } else if k == PY_NONE_OBJECT {
        PyObject { ob_type: PY_NONE_TYPE, ob_dict: None, inner: PyInnerObject::NoneObj }
    } else if k == PY_TRUE {
        PyObject {
            ob_type: PY_BOOL_TYPE,
            ob_dict: None,
            inner: PyInnerObject::LongObj(PyLongObject { n: 1 }),
        }
    } else if k == PY_FALSE {
        PyObject {
            ob_type: PY_BOOL_TYPE,
            ob_dict: None,
            inner: PyInnerObject::LongObj(PyLongObject { n: 0 }),
        }
    } else if k == PY_LIST_APPEND {
        PyObject {
            ob_type: PY_RUSTFUN_TYPE,
            ob_dict: None,
            inner: PyInnerObject::RustFunObj(
                PyRustFunObject {
                    name: String::from_str("append"),
                    ob_self: None,
                    rust_fun: PyRustFun::MethO(NativeFn::ListAppend),
                },
            ),
        }
    } else {
        PyObject {
            ob_type: PY_RUSTFUN_TYPE,
            ob_dict: None,
            inner: PyInnerObject::RustFunObj(
                PyRustFunObject {
                    name: String::from_str("len"),
                    ob_self: None,
                    rust_fun: PyRustFun::MethO(NativeFn::BuiltinLen),
                },
            ),
        }
    }
}

/// A runtime that holds the fixed objects as they are made, and nothing
/// else, is well formed.
proof fn lemma_statics_wf(rt: Runtime)
    requires
        rt.objects@.len() == PY_STATIC_COUNT,
        forall|k: int| 0 <= k < PY_STATIC_COUNT ==> static_ok(k, #[trigger] rt.objects@[k]),
        rt.envs@.len() == 0,
        rt.exc is None,
    ensures
        rt.wf(),
{
    let objs = rt.objects@;
    assert forall|t: int| 0 <= t <= PY_STOPITERATION_TYPE implies (#[trigger] objs[t]).inner
        is TypeObj by {
        assert(static_ok(t, objs[t]));
    }
    assert(static_ok(PY_NONE_OBJECT as int, objs[PY_NONE_OBJECT as int]));
    assert(static_ok(PY_TRUE as int, objs[PY_TRUE as int]));
    assert(static_ok(PY_FALSE as int, objs[PY_FALSE as int]));
    assert(static_ok(PY_LIST_APPEND as int, objs[PY_LIST_APPEND as int]));
    assert(static_ok(PY_BUILTIN_LEN as int, objs[PY_BUILTIN_LEN as int]));
    assert(static_ok(PY_LONG_TYPE as int, objs[PY_LONG_TYPE as int]));
    assert(static_ok(PY_STRING_TYPE as int, objs[PY_STRING_TYPE as int]));
    assert forall|i: int| 0 <= i < objs.len() implies #[trigger] obj_ok_at(objs, 0, i) by {
        assert(static_ok(i, objs[i]));
        assert(static_ok(objs[i].ob_type as int, objs[objs[i].ob_type as int]));
        if i <= PY_STOPITERATION_TYPE {
            let t = objs[i].inner->TypeObj_0;
            match t.tp_base {
                Some(b) => {
                    assert(static_ok(b as int, objs[b as int]));
                },
                None => {},
            }
            match t.tp_methods {
                Some(ms) => {
                    assert forall|j: int| 0 <= j < ms@.len() implies crate::object::rustfun_at(
                        objs,
                        #[trigger] ms@[j],
                    ) by {
                        assert(ms@[j] == PY_LIST_APPEND);
                    }
                },
                None => {},
            }
        }
    }
}

/// The state `states[t + 1]` is the state `states[t]` after the readiness
/// of the type `t`.
pub open spec fn ready_step(states: Seq<Runtime>, t: int) -> bool {
    exists|r: PyRes<()>| #[trigger]
        crate::object::ready::pytype_ready_post(states[t], states[t + 1], t as usize, r)
}

/// The states are those that a runtime goes through when the fixed types
/// are readied one after the other, in the order of their indices.
pub open spec fn readied_in_turn(states: Seq<Runtime>) -> bool {
    forall|t: int| 0 <= t < states.len() - 1 ==> #[trigger] ready_step(states, t)
}

impl Runtime {
    /// The runtime holds the fixed objects as they are before any type is
    /// ready, and nothing else; it has the budget `fuel`.
    pub open spec fn bare(&self, fuel: u64) -> bool {
        &&& self.objects@.len() == PY_STATIC_COUNT
        &&& forall|j: int| 0 <= j < PY_STATIC_COUNT ==> static_ok(j, #[trigger] self.objects@[j])
        &&& self.envs@.len() == 0
        &&& self.exc is None
        &&& self.fuel == fuel
    }

    /// The runtime is one with which a program starts: a bare runtime with
    /// the budget `fuel`, after each of the fixed types was readied.
    pub open spec fn started(&self, fuel: u64) -> bool {
        exists|states: Seq<Runtime>| #[trigger]
            readied_in_turn(states) && states.len() == PY_STOPITERATION_TYPE + 2
                && states[0].bare(fuel) && states.last() == *self
    }

    /// A new runtime, with the budget `fuel`: it holds the fixed objects, all
    /// of whose types are ready, no frame and no exception.
    pub fn new(fuel: u64) -> (rt: Runtime)
        ensures
            rt.wf(),
            rt.exc is None,
            rt.envs@.len() == 0,
            rt.fuel == fuel,
            rt.started(fuel),
    {
        let mut rt = Runtime { objects: Vec::new(), envs: Vec::new(), exc: None, fuel: fuel };
        let mut k: usize = 0;
        while k < PY_STATIC_COUNT
            invariant
                k <= PY_STATIC_COUNT,
                rt.objects@.len() == k,
                forall|j: int| 0 <= j < k ==> static_ok(j, #[trigger] rt.objects@[j]),
                rt.envs@.len() == 0,
                rt.exc is None,
                rt.fuel == fuel,
            decreases PY_STATIC_COUNT - k,
        {
            rt.objects.push(static_object(k));
            k = k + 1;
        }
        proof {
            lemma_statics_wf(rt);
        }
        let ghost mut states: Seq<Runtime> = seq![rt];
        let mut t: usize = 0;
        while t <= PY_STOPITERATION_TYPE
            invariant
                t <= PY_STOPITERATION_TYPE + 1,
                rt.wf(),
                rt.envs@.len() == 0,
                rt.exc is None,
                rt.fuel == fuel,
                states.len() == t + 1,
                states[0].bare(fuel),
                states.last() == rt,
                readied_in_turn(states),
            decreases PY_STOPITERATION_TYPE + 1 - t,
        {
            let ghost before = rt;
            let r = pytype_ready(&mut rt, t);
            proof {
                let longer = states.push(rt);
                assert forall|k: int| 0 <= k < longer.len() - 1 implies #[trigger] ready_step(
                    longer,
                    k,
                ) by {
                    if k < t {
                        assert(ready_step(states, k));
                        assert(longer[k] == states[k]);
                        assert(longer[k + 1] == states[k + 1]);
                    } else {
                        assert(longer[k] == before);
                        assert(crate::object::ready::pytype_ready_post(
                            longer[k],
                            longer[k + 1],
                            k as usize,
                            r,
                        ));
                    }
                }
                states = longer;
            }
            t = t + 1;
        }
        rt
    }
}

/// The names that every program finds bound, and what they are bound to.
pub open spec fn spec_builtins() -> Seq<(Seq<char>, ObjId)> {
    seq![
        ("len"@, PY_BUILTIN_LEN),
        ("type"@, PY_TYPE_TYPE),
        ("int"@, PY_LONG_TYPE),
        ("bool"@, PY_BOOL_TYPE),
        ("Exception"@, PY_EXC_TYPE),
    ]
}

/// The bindings `b` after the first `n` of the built-in names were bound.
pub open spec fn spec_bind_builtins(b: crate::env::Bindings, n: nat) -> crate::env::Bindings
    decreases n,
{
    if n == 0 {
        b
    } else {
        spec_bind(
            spec_bind_builtins(b, (n - 1) as nat),
            spec_builtins()[n - 1].0,
            spec_builtins()[n - 1].1,
        )
    }
}

/// `cur` is `prev` after the built-in names were bound in the frame `env`.
pub open spec fn builtins_bound(prev: Runtime, cur: Runtime, env: EnvId) -> bool {
    &&& cur.objects == prev.objects
    &&& cur.exc == prev.exc
    &&& cur.fuel == prev.fuel
    &&& cur.envs@.len() == prev.envs@.len()
    &&& forall|i: int|
        0 <= i < prev.envs@.len() && i != env ==> #[trigger] cur.envs@[i] == prev.envs@[i]
    &&& cur.envs@[env as int].parent == prev.envs@[env as int].parent
    &&& cur.envs@[env as int].bindings() == spec_bind_builtins(prev.envs@[env as int].bindings(), 5)
}

/// `cur` is `prev` after the readiness of the type `t`, which changed no
/// other object of `prev`.
pub open spec fn type_readied(prev: Runtime, cur: Runtime, t: ObjId) -> bool {
    &&& cur.extends(prev)
    &&& grew_except(prev, cur, t)
    &&& readied(prev, cur, t)
}

/// `cur` is `prev` after the built-ins were loaded into the frame `env`:
/// the names were bound, which gave the state `e`, and then the types
/// `bool`, `list` and `Exception` were readied one after the other, which
/// gave the states `m1`, `m2` and `cur`.
pub open spec fn loaded_via(
    prev: Runtime,
    e: Runtime,
    m1: Runtime,
    m2: Runtime,
    cur: Runtime,
    env: EnvId,
) -> bool {
    &&& builtins_bound(prev, e, env)
    &&& e.wf()
    &&& m1.wf()
    &&& m2.wf()
    &&& cur.wf()
    &&& type_readied(e, m1, PY_BOOL_TYPE)
    &&& type_readied(m1, m2, PY_LIST_TYPE)
    &&& type_readied(m2, cur, PY_EXC_TYPE)
}

/// `cur` is `prev` after the built-ins were loaded into the frame `env`.
pub open spec fn builtins_loaded(prev: Runtime, cur: Runtime, env: EnvId) -> bool {
    exists|e: Runtime, m1: Runtime, m2: Runtime| #[trigger] loaded_via(prev, e, m1, m2, cur, env)
}

/// Binds the built-in names `len`, `type`, `int`, `bool` and `Exception` in
/// the frame `env`, and readies the types `bool`, `list` and `Exception`.
pub fn load_builtins(rt: &mut Runtime, env: EnvId) -> (r: PyRes<()>)
    requires
        old(rt).wf(),
        old(rt).valid_env(env),
    ensures
        load_builtins_post(*old(rt), *final(rt), env, r),
{
    let ghost b0 = rt.envs@[env as int].bindings();
    proof {
        reveal_with_fuel(spec_bind_builtins, 6);
        assert(rt.valid(PY_BUILTIN_LEN) && rt.valid(PY_TYPE_TYPE) && rt.valid(PY_LONG_TYPE)
            && rt.valid(PY_BOOL_TYPE) && rt.valid(PY_EXC_TYPE));
    }
    Env::update(rt, env, String::from_str("len"), PY_BUILTIN_LEN);
    let ghost r1 = *rt;
    Env::update(rt, env, String::from_str("type"), PY_TYPE_TYPE);
    let ghost r2 = *rt;
    Env::update(rt, env, String::from_str("int"), PY_LONG_TYPE);
    let ghost r3 = *rt;
    Env::update(rt, env, String::from_str("bool"), PY_BOOL_TYPE);
    let ghost r4 = *rt;
    Env::update(rt, env, String::from_str("Exception"), PY_EXC_TYPE);
    let ghost r5 = *rt;
    proof {
        lemma_extends_trans(*old(rt), r1, r2);
        lemma_extends_trans(*old(rt), r2, r3);
        lemma_extends_trans(*old(rt), r3, r4);
        lemma_extends_trans(*old(rt), r4, r5);
        assert forall|i: int|
            0 <= i < old(rt).envs@.len() && i != env implies #[trigger] r5.envs@[i] == old(rt).envs@[i] by {
            assert(r5.envs@[i] == r4.envs@[i]);
            assert(r4.envs@[i] == r3.envs@[i]);
            assert(r3.envs@[i] == r2.envs@[i]);
            assert(r2.envs@[i] == r1.envs@[i]);
        }
        assert(builtins_bound(*old(rt), r5, env));
    }
    let res1 = pytype_ready(rt, PY_BOOL_TYPE);
    let ghost r6 = *rt;
    proof {
        lemma_extends_trans(*old(rt), r5, r6);
    }
    match res1 {
        Ok(()) => {},
        Err(e) => {
            proof {
                assert(loading(*old(rt), r5, r6, r6, res1, res1, *rt, env, res1));
            }
            return Err(e);
        },
    }
    let res2 = pytype_ready(rt, PY_LIST_TYPE);
    let ghost r7 = *rt;
    proof {
        lemma_extends_trans(*old(rt), r6, r7);
    }
    match res2 {
        Ok(()) => {},
        Err(e) => {
            proof {
                assert(loading(*old(rt), r5, r6, r7, res1, res2, *rt, env, res2));
            }
            return Err(e);
        },
    }
    let res3 = pytype_ready(rt, PY_EXC_TYPE);
    proof {
        lemma_extends_trans(*old(rt), r7, *rt);
        assert(loading(*old(rt), r5, r6, r7, res1, res2, *rt, env, res3));
        if res3 is Ok {
            assert(loaded_via(*old(rt), r5, r6, r7, *rt, env));
        }
    }
    res3
}

/// The built-in names are pairwise different.
pub proof fn lemma_builtin_names()
    ensures
        "len"@ != "type"@,
        "len"@ != "int"@,
        "len"@ != "bool"@,
        "len"@ != "Exception"@,
        "type"@ != "int"@,
        "type"@ != "bool"@,
        "type"@ != "Exception"@,
        "int"@ != "bool"@,
        "int"@ != "Exception"@,
        "bool"@ != "Exception"@,
{
    reveal_strlit("len");
    reveal_strlit("type");
    reveal_strlit("int");
    reveal_strlit("bool");
    reveal_strlit("Exception");
    assert("len"@.len() == 3);
    assert("type"@.len() == 4);
    assert("int"@.len() == 3);
    assert("bool"@.len() == 4);
    assert("Exception"@.len() == 9);
    assert("len"@[0] == 'l');
    assert("int"@[0] == 'i');
    assert("type"@[0] == 't');
    assert("bool"@[0] == 'b');
}

/// Binding a name to what it is bound to already changes nothing.
pub proof fn lemma_bind_same(b: crate::env::Bindings, key: Seq<char>, val: ObjId)
    requires
        crate::env::spec_local(b, key) == Some(val),
    ensures
        spec_bind(b, key, val) == b,
{
    crate::env::lemma_index(b, key);
    let i = crate::env::spec_index(b, key);
    assert(b.update(i, (key, val)) =~= b);
}

/// After the built-in names were bound, each of them reads as its object.
pub proof fn lemma_builtins_bound(b: crate::env::Bindings, k: int)
    requires
        0 <= k < 5,
    ensures
        crate::env::spec_local(spec_bind_builtins(b, 5), spec_builtins()[k].0) == Some(
            spec_builtins()[k].1,
        ),
{
    reveal_with_fuel(spec_bind_builtins, 6);
    lemma_builtin_names();
    let names = spec_builtins();
    let b1 = spec_bind_builtins(b, 1);
    let b2 = spec_bind_builtins(b, 2);
    let b3 = spec_bind_builtins(b, 3);
    let b4 = spec_bind_builtins(b, 4);
    crate::env::lemma_bind_local(b, names[0].0, names[0].1, names[k].0);
    crate::env::lemma_bind_local(b1, names[1].0, names[1].1, names[k].0);
    crate::env::lemma_bind_local(b2, names[2].0, names[2].1, names[k].0);
    crate::env::lemma_bind_local(b3, names[3].0, names[3].1, names[k].0);
    crate::env::lemma_bind_local(b4, names[4].0, names[4].1, names[k].0);
}

/// Binding the built-in names a second time changes nothing.
pub proof fn lemma_bind_builtins_twice(b: crate::env::Bindings)
    ensures
        spec_bind_builtins(spec_bind_builtins(b, 5), 5) == spec_bind_builtins(b, 5),
{
    reveal_with_fuel(spec_bind_builtins, 6);
    let c = spec_bind_builtins(b, 5);
    let names = spec_builtins();
    lemma_builtins_bound(b, 0);
    lemma_builtins_bound(b, 1);
    lemma_builtins_bound(b, 2);
    lemma_builtins_bound(b, 3);
    lemma_builtins_bound(b, 4);
    lemma_bind_same(c, names[0].0, names[0].1);
    lemma_bind_same(c, names[1].0, names[1].1);
    lemma_bind_same(c, names[2].0, names[2].1);
    lemma_bind_same(c, names[3].0, names[3].1);
    lemma_bind_same(c, names[4].0, names[4].1);
}

/// Readying a type above a ready type leaves the ready type ready.
pub proof fn lemma_ready_kept(a: Runtime, b: Runtime, t: ObjId, u: ObjId)
    requires
        a.wf(),
        is_ready(a, t),
        a.is_type(u),
        t < u,
        grew_except(a, b, u),
    ensures
        is_ready(b, t),
{
    assert forall|x: ObjId|
        x < a.objects@.len() && (x <= t || a.obj(x).inner is DictObj) implies #[trigger] same_view_at(
        a,
        b,
        x,
    ) by {
        assert(b.objects@[x as int] == a.objects@[x as int]);
    }
    lemma_ready_frame(a, b, t);
}

/// Readying a ready type leaves every object with the fields it has.
pub proof fn lemma_ready_again_views(a: Runtime, b: Runtime, t: ObjId)
    requires
        a.wf(),
        a.is_type(t),
        is_ready(a, t),
        type_readied(a, b, t),
    ensures
        same_views(a, b),
        b.objects@.len() == a.objects@.len(),
        b.envs == a.envs,
        b.exc == a.exc,
        b.fuel == a.fuel,
{
    lemma_ready_again(a, b, t);
    assert forall|x: ObjId| x < a.objects@.len() implies #[trigger] same_view_at(a, b, x) by {
        if x != t {
            assert(b.objects@[x as int] == a.objects@[x as int]);
        } else {
            assert(crate::object::same_object(a.objects@[t as int], b.objects@[t as int]));
        }
    }
}

/// A ready type is ready in every runtime whose objects have the same fields.
pub proof fn lemma_ready_same_views(a: Runtime, b: Runtime, t: ObjId)
    requires
        a.wf(),
        is_ready(a, t),
        same_views(a, b),
    ensures
        is_ready(b, t),
{
    assert forall|x: ObjId|
        x < a.objects@.len() && (x <= t || a.obj(x).inner is DictObj) implies #[trigger] same_view_at(
        a,
        b,
        x,
    ) by {}
    lemma_ready_frame(a, b, t);
}

/// After the built-ins were loaded, the types `bool`, `list` and
/// `Exception` are ready.
pub proof fn lemma_loaded_ready(prev: Runtime, cur: Runtime, env: EnvId)
    requires
        prev.wf(),
        builtins_loaded(prev, cur, env),
    ensures
        cur.wf(),
        is_ready(cur, PY_BOOL_TYPE),
        is_ready(cur, PY_LIST_TYPE),
        is_ready(cur, PY_EXC_TYPE),
{
    let (e, m1, m2) = choose|e: Runtime, m1: Runtime, m2: Runtime| #[trigger]
        loaded_via(prev, e, m1, m2, cur, env);
    assert(e.is_type(PY_BOOL_TYPE) && e.is_type(PY_LIST_TYPE) && e.is_type(PY_EXC_TYPE));
    assert(crate::object::same_object(
        e.objects@[PY_LIST_TYPE as int],
        m1.objects@[PY_LIST_TYPE as int],
    ));
    assert(crate::object::same_object(
        e.objects@[PY_EXC_TYPE as int],
        m1.objects@[PY_EXC_TYPE as int],
    ));
    assert(crate::object::same_object(
        m1.objects@[PY_EXC_TYPE as int],
        m2.objects@[PY_EXC_TYPE as int],
    ));
    lemma_readied_is_ready(e, m1, PY_BOOL_TYPE);
    lemma_ready_kept(m1, m2, PY_BOOL_TYPE, PY_LIST_TYPE);
    lemma_ready_kept(m2, cur, PY_BOOL_TYPE, PY_EXC_TYPE);
    lemma_readied_is_ready(m1, m2, PY_LIST_TYPE);
    lemma_ready_kept(m2, cur, PY_LIST_TYPE, PY_EXC_TYPE);
    lemma_readied_is_ready(m2, cur, PY_EXC_TYPE);
}

/// Builtins idempotence. Loading the built-ins a second time into the same
/// frame changes nothing that can be observed: every object has the fields
/// it had, no object was made, every frame has the bindings it had, and the
/// exception indicator and the budget are as they were.
pub proof fn lemma_load_builtins_twice(a: Runtime, b: Runtime, c: Runtime, env: EnvId)
    requires
        a.wf(),
        a.valid_env(env),
        builtins_loaded(a, b, env),
        builtins_loaded(b, c, env),
    ensures
        same_views(b, c),
        c.objects@.len() == b.objects@.len(),
        c.exc == b.exc,
        c.fuel == b.fuel,
        c.envs@.len() == b.envs@.len(),
        forall|i: int|
            0 <= i < b.envs@.len() ==> (#[trigger] c.envs@[i]).bindings() == b.envs@[i].bindings()
                && c.envs@[i].parent == b.envs@[i].parent,
{
    lemma_loaded_ready(a, b, env);
    let (e0, x1, x2) = choose|e: Runtime, m1: Runtime, m2: Runtime| #[trigger]
        loaded_via(a, e, m1, m2, b, env);
    let (e, m1, m2) = choose|e: Runtime, m1: Runtime, m2: Runtime| #[trigger]
        loaded_via(b, e, m1, m2, c, env);
    // The frames: the names are bound to what they were bound to.
    assert(b.envs == x2.envs && x2.envs == x1.envs && x1.envs == e0.envs);
    assert(b.envs@[env as int].bindings() == spec_bind_builtins(a.envs@[env as int].bindings(), 5));
    lemma_bind_builtins_twice(a.envs@[env as int].bindings());
    assert(c.envs == m2.envs && m2.envs == m1.envs && m1.envs == e.envs);
    // The objects: each of the three types is ready when it is readied.
    assert(same_views(b, e)) by {
        assert forall|x: ObjId| x < b.objects@.len() implies #[trigger] same_view_at(b, e, x) by {}
    }
    assert(b.is_type(PY_BOOL_TYPE) && b.is_type(PY_LIST_TYPE) && b.is_type(PY_EXC_TYPE));
    lemma_ready_same_views(b, e, PY_BOOL_TYPE);
    lemma_ready_again_views(e, m1, PY_BOOL_TYPE);
    lemma_same_views_trans(b, e, m1);
    lemma_ready_same_views(b, m1, PY_LIST_TYPE);
    assert(same_view_at(e, m1, PY_LIST_TYPE));
    lemma_ready_again_views(m1, m2, PY_LIST_TYPE);
    lemma_same_views_trans(b, m1, m2);
    lemma_ready_same_views(b, m2, PY_EXC_TYPE);
    assert(same_view_at(e, m1, PY_EXC_TYPE));
    assert(same_view_at(m1, m2, PY_EXC_TYPE));
    lemma_ready_again_views(m2, c, PY_EXC_TYPE);
    lemma_same_views_trans(b, m2, c);
    assert forall|i: int| 0 <= i < b.envs@.len() implies (#[trigger] c.envs@[i]).bindings()
        == b.envs@[i].bindings() && c.envs@[i].parent == b.envs@[i].parent by {
        if i != env {
            assert(e.envs@[i] == b.envs@[i]);
        }
    }
}

/// What `load_builtins` does: the state before the call, and the state and the result
/// after it.
pub open spec fn load_builtins_post(
    prt: Runtime,
    rt: Runtime,
    env: EnvId,
    r: PyRes<()>,
) -> bool {
    &&& rt.wf()
    &&& rt.extends(prt)
    &&& rt.exc == prt.exc
    &&& rt.fuel == prt.fuel
    &&& rt.envs@.len() == prt.envs@.len()
    &&& forall|i: int|
        0 <= i < prt.envs@.len() && i != env ==> #[trigger] rt.envs@[i] == prt.envs@[i]
    &&& rt.envs@[env as int].parent == prt.envs@[env as int].parent
    &&& rt.envs@[env as int].bindings() == spec_bind_builtins(
            prt.envs@[env as int].bindings(),
            5,
        )
    &&& r is Ok ==> builtins_loaded(prt, rt, env)
    &&& r matches Err(e) ==> e is MroConflict
    &&& exists|e: Runtime, m1: Runtime, m2: Runtime, r1: PyRes<()>, r2: PyRes<()>| #[trigger]
        loading(prt, e, m1, m2, r1, r2, rt, env, r)
}

/// The steps of loading the built-ins into the frame `env`, from `prev`:
/// the names are bound, which gives the state `e`; then the types `bool`,
/// `list` and `Exception` are readied one after the other, which gives the
/// results `r1`, `r2` and `r` and the states `m1`, `m2` and `cur`. The
/// first readiness that fails ends the loading.
pub open spec fn loading(
    prev: Runtime,
    e: Runtime,
    m1: Runtime,
    m2: Runtime,
    r1: PyRes<()>,
    r2: PyRes<()>,
    cur: Runtime,
    env: EnvId,
    r: PyRes<()>,
) -> bool {
    &&& builtins_bound(prev, e, env)
    &&& crate::object::ready::pytype_ready_post(e, m1, PY_BOOL_TYPE, r1)
    &&& if r1 is Err {
        cur == m1 && r == r1
    } else {
        &&& crate::object::ready::pytype_ready_post(m1, m2, PY_LIST_TYPE, r2)
        &&& if r2 is Err {
            cur == m2 && r == r2
        } else {
            crate::object::ready::pytype_ready_post(m2, cur, PY_EXC_TYPE, r)
        }
    }
}

} // verus!
