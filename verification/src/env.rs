use vstd::prelude::*;
use crate::error::{PyErr, PyRes};
use crate::object::dictobj::spec_dict_value;
use crate::object::pyhashmap::{spec_insert, Entry};
use crate::object::strobj::spec_str_hash;
use crate::object::{
    env_ok, envs_extend, keys_unique, obj_ok_at, EnvId, ObjId, PyObject, Runtime,
};
use crate::syntax::Id;

verus! {

/// One frame of name bindings, with a link to the enclosing frame.
///
/// The bindings are kept in the order in which their names were first bound,
/// and no name is bound twice.
pub struct Env {
    pub parent: Option<EnvId>,
    pub map: Vec<(Id, ObjId)>,
}

/// The bindings of a frame as plain values: name and object, in order.
pub type Bindings = Seq<(Seq<char>, ObjId)>;

/// The bindings that `map` holds.
pub open spec fn bindings_of(map: Seq<(String, ObjId)>) -> Bindings {
    Seq::new(map.len(), |j: int| (map[j].0@, map[j].1))
}

/// The index of the first binding of `key` in `b`, or `b.len()` if there is none.
pub open spec fn spec_index(b: Bindings, key: Seq<char>) -> int
    decreases b.len(),
{
    if b.len() == 0 {
        0
    } else if b[0].0 == key {
        0
    } else {
        1 + spec_index(b.drop_first(), key)
    }
}

/// What the frame with bindings `b` binds `key` to.
pub open spec fn spec_local(b: Bindings, key: Seq<char>) -> Option<ObjId> {
    let i = spec_index(b, key);
    if i < b.len() {
        Some(b[i].1)
    } else {
        None
    }
}

/// The bindings `b` after `key` was bound to `val`: the binding of `key` is
/// replaced where there is one, and added at the end where there is none.
pub open spec fn spec_bind(b: Bindings, key: Seq<char>, val: ObjId) -> Bindings {
    let i = spec_index(b, key);
    if i < b.len() {
        b.update(i, (key, val))
    } else {
        b.push((key, val))
    }
}

/// The bindings made of the first `n` pairs of `keys` and `vals`, bound in order.
pub open spec fn spec_bind_all(keys: Seq<Seq<char>>, vals: Seq<ObjId>, n: nat) -> Bindings
    decreases n,
{
    if n == 0 {
        Seq::empty()
    } else {
        spec_bind(spec_bind_all(keys, vals, (n - 1) as nat), keys[n - 1], vals[n - 1])
    }
}

/// What a read of `key` finds from frame `e`: the binding of the nearest frame
/// on the way to the root that binds `key`.
pub open spec fn spec_get(envs: Seq<Env>, e: int, key: Seq<char>) -> Option<ObjId>
    decreases e,
{
    if e < 0 || e >= envs.len() {
        None
    } else {
        match spec_local(bindings_of(envs[e].map@), key) {
            Some(v) => Some(v),
            None => match envs[e].parent {
                Some(p) => if p < e {
                    spec_get(envs, p as int, key)
                } else {
                    None
                },
                None => None,
            },
        }
    }
}

/// The dictionary entries that stand for the first `n` of the bindings `b`,
/// when the string object made for the `j`-th name has index `base + j`.
pub open spec fn spec_bindings_dict(b: Bindings, base: int, n: nat) -> Seq<Entry>
    decreases n,
{
    if n == 0 {
        Seq::empty()
    } else {
        spec_insert(
            spec_bindings_dict(b, base, (n - 1) as nat),
            spec_str_hash(b[n - 1].0),
            (base + n - 1) as usize,
            b[n - 1].1,
        )
    }
}

/// `spec_index` is within bounds, points at a binding of the key if there is
/// one, and no earlier binding is of the key.
pub proof fn lemma_index(b: Bindings, key: Seq<char>)
    ensures
        0 <= spec_index(b, key) <= b.len(),
        spec_index(b, key) < b.len() ==> b[spec_index(b, key)].0 == key,
        forall|j: int| 0 <= j < spec_index(b, key) ==> (#[trigger] b[j]).0 != key,
    decreases b.len(),
{
    if b.len() != 0 && b[0].0 != key {
        let t = b.drop_first();
        lemma_index(t, key);
        assert forall|j: int| 0 <= j < spec_index(b, key) implies (#[trigger] b[j]).0 != key by {
            if j > 0 {
                assert(t[j - 1] == b[j]);
            }
        }
    }
}

/// An index before which no binding is of the key, and which either ends the
/// bindings or is of the key, is the first index.
pub proof fn lemma_index_is(b: Bindings, key: Seq<char>, i: int)
    requires
        0 <= i <= b.len(),
        forall|j: int| 0 <= j < i ==> (#[trigger] b[j]).0 != key,
        i < b.len() ==> b[i].0 == key,
    ensures
        spec_index(b, key) == i,
{
    lemma_index(b, key);
    let f = spec_index(b, key);
    if f < i {
        assert(b[f].0 != key);
    } else if f > i {
        assert(b[i].0 == key);
    }
}

/// What binding a name does to later reads of the same frame: the name reads
/// as the new value, and every other name reads as before.
pub proof fn lemma_bind_local(b: Bindings, key: Seq<char>, val: ObjId, other: Seq<char>)
    ensures
        spec_local(spec_bind(b, key, val), key) == Some(val),
        other != key ==> spec_local(spec_bind(b, key, val), other) == spec_local(b, other),
{
    lemma_index(b, key);
    let i = spec_index(b, key);
    let t = spec_bind(b, key, val);
    assert forall|j: int| 0 <= j < i implies (#[trigger] t[j]).0 != key by {
        assert(t[j] == b[j]);
    }
    lemma_index_is(t, key, i);
    if other != key {
        lemma_index(b, other);
        let o = spec_index(b, other);
        assert forall|j: int| 0 <= j < o implies (#[trigger] t[j]).0 != other by {
            if j != i {
                assert(t[j] == b[j]);
            }
        }
        if o < b.len() {
            assert(o != i);
            assert(t[o] == b[o]);
            lemma_index_is(t, other, o);
        } else {
            assert forall|j: int| 0 <= j < t.len() implies (#[trigger] t[j]).0 != other by {
                if j != i && j < b.len() {
                    assert(t[j] == b[j]);
                }
            }
            lemma_index_is(t, other, t.len() as int);
        }
    }
}

/// Shadowing. When a name is bound in a frame `child`, a read of that name
/// from `child` finds the new value, and a read of any name from a frame
/// that was made before `child`, such as each of its ancestors, finds what it
/// found before.
pub proof fn lemma_shadowing(
    before: Seq<Env>,
    after: Seq<Env>,
    child: int,
    key: Seq<char>,
    val: ObjId,
    e: int,
    name: Seq<char>,
)
    requires
        0 <= child < before.len(),
        after.len() == before.len(),
        forall|i: int| 0 <= i < before.len() && i != child ==> #[trigger] after[i] == before[i],
        after[child].parent == before[child].parent,
        bindings_of(after[child].map@) == spec_bind(bindings_of(before[child].map@), key, val),
        0 <= e < child,
    ensures
        spec_get(after, child, key) == Some(val),
        spec_get(after, e, name) == spec_get(before, e, name),
    decreases e,
{
    lemma_bind_local(bindings_of(before[child].map@), key, val, key);
    assert(after[e] == before[e]);
    match before[e].parent {
        Some(p) => {
            if p < e {
                lemma_shadowing(before, after, child, key, val, p as int, name);
            }
        },
        None => {},
    }
}

/// Every value of `after` is `val` or a value of `before`.
pub open spec fn values_below(
    after: Seq<(String, ObjId)>,
    val: ObjId,
    before: Seq<(String, ObjId)>,
) -> bool {
    forall|j: int|
        0 <= j < after.len() ==> (#[trigger] after[j]).1 == val || exists|k: int|
            0 <= k < before.len() && (#[trigger] before[k]).1 == after[j].1
}

impl Env {
    /// The bindings of the frame, in order.
    pub open spec fn bindings(&self) -> Bindings {
        bindings_of(self.map@)
    }

    /// The index of the binding of `key`, or the number of bindings.
    pub fn find(&self, key: &Id) -> (i: usize)
        ensures
            i == spec_index(self.bindings(), key@),
            i <= self.map@.len(),
    {
        let mut i: usize = 0;
        while i < self.map.len() && !(self.map[i].0 == *key)
            invariant
                i <= self.map@.len(),
                forall|j: int| 0 <= j < i ==> (#[trigger] self.bindings()[j]).0 != key@,
            decreases self.map@.len() - i,
        {
            i = i + 1;
        }
        proof {
            lemma_index_is(self.bindings(), key@, i as int);
        }
        i
    }

    /// Makes a new root frame without bindings.
    pub fn new(rt: &mut Runtime) -> (e: EnvId)
        requires
            old(rt).wf(),
        ensures
            final(rt).wf(),
            final(rt).extends(*old(rt)),
            final(rt).objects == old(rt).objects,
            final(rt).exc == old(rt).exc,
            final(rt).fuel == old(rt).fuel,
            e == old(rt).envs@.len(),
            final(rt).envs@.len() == e + 1,
            forall|i: int| 0 <= i < e ==> #[trigger] final(rt).envs@[i] == old(rt).envs@[i],
            final(rt).envs@[e as int].parent.is_none(),
            final(rt).envs@[e as int].bindings() == Seq::<(Seq<char>, ObjId)>::empty(),
    {
        let env = Env { parent: None, map: Vec::new() };
        proof {
            assert(env.bindings() =~= Seq::<(Seq<char>, ObjId)>::empty());
        }
        push_env(rt, env)
    }

    /// Makes a new frame under `parent` that binds each of `keys` to the value
    /// at the same position of `vals`.
    pub fn new_child(rt: &mut Runtime, parent: EnvId, keys: &Vec<Id>, vals: &Vec<ObjId>) -> (e:
        EnvId)
        requires
            old(rt).wf(),
            old(rt).valid_env(parent),
            keys@.len() == vals@.len(),
            old(rt).all_valid(vals@),
        ensures
            new_child_post(*old(rt), *final(rt), parent, keys@, vals@, e),
    {
        let mut env = Env { parent: Some(parent), map: Vec::new() };
        let ghost ks = Seq::new(keys@.len(), |j: int| keys@[j]@);
        let mut i: usize = 0;
        proof {
            assert(env.bindings() =~= spec_bind_all(ks, vals@, 0));
        }
        while i < keys.len()
            invariant
                i <= keys@.len(),
                keys@.len() == vals@.len(),
                ks == Seq::new(keys@.len(), |j: int| keys@[j]@),
                env.parent == Some(parent),
                env.bindings() == spec_bind_all(ks, vals@, i as nat),
                keys_unique(env.map@),
                forall|j: int| 0 <= j < env.map@.len() ==> (#[trigger] env.map@[j]).1 < rt.objects@.len(),
                rt.all_valid(vals@),
            decreases keys@.len() - i,
        {
            assert(rt.valid(vals@[i as int]));
            env.bind(keys[i].clone(), vals[i]);
            i = i + 1;
        }
        push_env(rt, env)
    }

    /// Binds `key` to `val` in this frame.
    pub fn bind(&mut self, key: Id, val: ObjId)
        requires
            keys_unique(old(self).map@),
        ensures
            final(self).parent == old(self).parent,
            final(self).bindings() == spec_bind(old(self).bindings(), key@, val),
            keys_unique(final(self).map@),
            values_below(final(self).map@, val, old(self).map@),
    {
        let i = self.find(&key);
        let ghost old_map = self.map@;
        proof {
            lemma_index(self.bindings(), key@);
        }
        if i < self.map.len() {
            self.map[i] = (key, val);
            proof {
                assert(self.bindings() =~= spec_bind(old(self).bindings(), key@, val));
                assert forall|j: int| 0 <= j < self.map@.len() implies (#[trigger] self.map@[j]).1
                    == val || exists|k: int|
                    0 <= k < old_map.len() && (#[trigger] old_map[k]).1 == self.map@[j].1 by {
                    if j != i {
                        assert(old_map[j].1 == self.map@[j].1);
                    }
                }
                assert forall|j: int, k: int|
                    0 <= j < self.map@.len() && 0 <= k < self.map@.len() && j != k implies (
                #[trigger] self.map@[j]).0@ != (#[trigger] self.map@[k]).0@ by {
                    assert(old_map[j].0@ != old_map[k].0@);
                    assert(old(self).bindings()[i as int].0 == key@);
                }
            }
        } else {
            self.map.push((key, val));
            proof {
                assert(self.bindings() =~= spec_bind(old(self).bindings(), key@, val));
                assert forall|j: int| 0 <= j < self.map@.len() implies (#[trigger] self.map@[j]).1
                    == val || exists|k: int|
                    0 <= k < old_map.len() && (#[trigger] old_map[k]).1 == self.map@[j].1 by {
                    if j < old_map.len() {
                        assert(old_map[j].1 == self.map@[j].1);
                    }
                }
                assert forall|j: int, k: int|
                    0 <= j < self.map@.len() && 0 <= k < self.map@.len() && j != k implies (
                #[trigger] self.map@[j]).0@ != (#[trigger] self.map@[k]).0@ by {
                    if j < old_map.len() && k < old_map.len() {
                        assert(old_map[j].0@ != old_map[k].0@);
                    } else if j < old_map.len() {
                        assert(old(self).bindings()[j].0 != key@);
                    } else {
                        assert(old(self).bindings()[k].0 != key@);
                    }
                }
            }
        }
    }

    /// Reads `key` from frame `env`: the binding of the nearest frame on the
    /// way to the root that binds it. A name that no such frame binds is an
    /// error.
    pub fn get(rt: &Runtime, env: EnvId, key: &Id) -> (r: PyRes<ObjId>)
        requires
            rt.wf(),
            rt.valid_env(env),
        ensures
            match spec_get(rt.envs@, env as int, key@) {
                Some(v) => r == Ok::<ObjId, PyErr>(v) && rt.valid(v),
                None => r is Err && r->Err_0 is NameError,
            },
    {
        let mut e = env;
        loop
            invariant
                rt.wf(),
                e < rt.envs@.len(),
                spec_get(rt.envs@, env as int, key@) == spec_get(rt.envs@, e as int, key@),
            decreases e,
        {
            let frame = &rt.envs[e];
            let i = frame.find(key);
            proof {
                assert(env_ok(rt.objects@.len(), e as int, rt.envs@[e as int]));
            }
            if i < frame.map.len() {
                proof {
                    assert(frame.bindings()[i as int].1 == frame.map@[i as int].1);
                }
                return Ok(frame.map[i].1);
            }
            match frame.parent {
                Some(p) => {
                    e = p;
                },
                None => {
                    return Err(PyErr::NameError);
                },
            }
        }
    }

    /// Binds `key` to `val` in frame `env`, whether or not the frame or one of
    /// its ancestors binds `key` already.
    pub fn update(rt: &mut Runtime, env: EnvId, key: Id, val: ObjId)
        requires
            old(rt).wf(),
            old(rt).valid_env(env),
            old(rt).valid(val),
        ensures
            update_post(*old(rt), *final(rt), env, key, val),
    {
        proof {
            assert(env_ok(rt.objects@.len(), env as int, rt.envs@[env as int]));
        }
        let ghost n = rt.objects@.len();
        rt.envs[env].bind(key, val);
        proof {
            lemma_bind_local(old(rt).envs@[env as int].bindings(), key@, val, key@);
            assert forall|e: int| 0 <= e < rt.envs@.len() implies env_ok(
                rt.objects@.len(),
                e,
                #[trigger] rt.envs@[e],
            ) by {
                if e != env {
                    assert(rt.envs@[e] == old(rt).envs@[e]);
                    assert(env_ok(n, e, old(rt).envs@[e]));
                }
            }
            assert forall|e: int| 0 <= e < old(rt).envs@.len() implies old(rt).envs@[e].parent == (
            #[trigger] rt.envs@[e]).parent by {
                if e != env {
                    assert(rt.envs@[e] == old(rt).envs@[e]);
                }
            }
            assert forall|i: int| 0 <= i < rt.objects@.len() implies #[trigger] obj_ok_at(
                rt.objects@,
                rt.envs@.len(),
                i,
            ) by {
                assert(obj_ok_at(old(rt).objects@, old(rt).envs@.len(), i));
            }
        }
    }

    /// Makes a new dictionary object out of the bindings of frame `env`: one
    /// entry for each name, in the order of the bindings, filed under a new
    /// string object that holds the name.
    pub fn dictobj(rt: &mut Runtime, env: EnvId) -> (d: ObjId)
        requires
            old(rt).wf(),
            old(rt).valid_env(env),
        ensures
            dictobj_post(*old(rt), *final(rt), env, d),
    {
        let d = PyObject::pydict_new(rt);
        let ghost b = old(rt).envs@[env as int].bindings();
        let n = rt.envs[env].map.len();
        let mut i: usize = 0;
        proof {
            crate::object::lemma_extends_refl(*old(rt));
        }
        while i < n
            invariant
                i <= n,
                n == old(rt).envs@[env as int].map@.len(),
                rt.wf(),
                rt.extends(*old(rt)),
                rt.envs == old(rt).envs,
                rt.exc == old(rt).exc,
                rt.fuel == old(rt).fuel,
                env < rt.envs@.len(),
                b == old(rt).envs@[env as int].bindings(),
                d == old(rt).objects@.len(),
                rt.objects@.len() == d + 1 + i,
                forall|k: int| 0 <= k < d ==> #[trigger] rt.objects@[k] == old(rt).objects@[k],
                rt.is_dict(d),
                rt.obj(d).ob_type == crate::object::PY_DICT_TYPE,
                spec_dict_value(*rt, d) == Some(spec_bindings_dict(b, d + 1, i as nat)),
                b.len() == n,
                crate::object::strobj::strings_at(*rt, d + 1, spec_names(b).take(i as int)),
            decreases n - i,
        {
            let ghost before = *rt;
            let name = rt.envs[env].map[i].0.clone();
            let value = rt.envs[env].map[i].1;
            proof {
                assert(env_ok(rt.objects@.len(), env as int, rt.envs@[env as int]));
                assert(b[i as int] == (name@, value));
            }
            let key = PyObject::from_string(rt, name);
            let ghost mid = *rt;
            proof {
                assert(mid.obj(key).ob_type == crate::object::PY_STRING_TYPE);
                assert(mid.objects@[crate::object::PY_STRING_TYPE as int] == before.objects@[crate::object::PY_STRING_TYPE as int]);
                assert(mid.objects@[d as int] == before.objects@[d as int]);
            }
            let res = PyObject::pydict_update(rt, d, key, value);
            proof {
                assert(res is Ok);
                crate::object::lemma_extends_trans(*old(rt), before, mid);
                crate::object::lemma_extends_trans(*old(rt), mid, *rt);
                assert forall|k: int| 0 <= k < d implies #[trigger] rt.objects@[k] == old(rt).objects@[k] by {
                    assert(rt.objects@[k] == mid.objects@[k]);
                    assert(mid.objects@[k] == before.objects@[k]);
                }
            }
            i = i + 1;
            proof {
                let names = spec_names(b).take(i as int);
                assert forall|j: int| 0 <= j < names.len() implies crate::object::strobj::string_is(
                    rt.objects@[d + 1 + j],
                    #[trigger] names[j],
                ) by {
                    assert(rt.objects@[d + 1 + j] == mid.objects@[d + 1 + j]);
                    if j < i - 1 {
                        assert(mid.objects@[d + 1 + j] == before.objects@[d + 1 + j]);
                        assert(spec_names(b).take(i - 1)[j] == names[j]);
                    }
                }
            }
        }
        proof {
            assert(spec_names(b).take(n as int) =~= spec_names(b));
        }
        d
    }
}

/// Puts the frame `env` into the arena and returns its index.
fn push_env(rt: &mut Runtime, env: Env) -> (e: EnvId)
    requires
        old(rt).wf(),
        env_ok(old(rt).objects@.len(), old(rt).envs@.len() as int, env),
    ensures
        final(rt).wf(),
        final(rt).extends(*old(rt)),
        final(rt).objects == old(rt).objects,
        final(rt).exc == old(rt).exc,
        final(rt).fuel == old(rt).fuel,
        e == old(rt).envs@.len(),
        final(rt).envs@ == old(rt).envs@.push(env),
{
    let e = rt.envs.len();
    rt.envs.push(env);
    proof {
        let a = old(rt).objects@;
        assert(crate::object::objs_extend(a, a));
        assert forall|i: int| 0 <= i < a.len() implies #[trigger] obj_ok_at(
            rt.objects@,
            rt.envs@.len(),
            i,
        ) by {
            assert(obj_ok_at(a, old(rt).envs@.len(), i));
            crate::object::lemma_obj_ok_later(
                a,
                a,
                old(rt).envs@.len(),
                rt.envs@.len(),
                i,
                a[i],
            );
        }
        assert forall|k: int| 0 <= k < rt.envs@.len() implies env_ok(
            rt.objects@.len(),
            k,
            #[trigger] rt.envs@[k],
        ) by {
            if k < e {
                assert(rt.envs@[k] == old(rt).envs@[k]);
            }
        }
        assert(envs_extend(old(rt).envs@, rt.envs@));
    }
    e
}

/// What `new_child` does: the state before the call, and the state and the result
/// after it.
pub open spec fn new_child_post(
    prt: Runtime,
    rt: Runtime,
    parent: EnvId,
    keys: Seq<Id>,
    vals: Seq<ObjId>,
    e: EnvId,
) -> bool {
    &&& rt.wf()
    &&& rt.extends(prt)
    &&& rt.objects == prt.objects
    &&& rt.exc == prt.exc
    &&& rt.fuel == prt.fuel
    &&& e == prt.envs@.len()
    &&& rt.envs@.len() == e + 1
    &&& forall|i: int| 0 <= i < e ==> #[trigger] rt.envs@[i] == prt.envs@[i]
    &&& rt.envs@[e as int].parent == Some(parent)
    &&& rt.envs@[e as int].bindings() == spec_bind_all(
            Seq::new(keys.len(), |j: int| keys[j]@),
            vals,
            keys.len(),
        )
}

/// What `dictobj` does: the state before the call, and the state and the result
/// after it.
pub open spec fn dictobj_post(
    prt: Runtime,
    rt: Runtime,
    env: EnvId,
    d: ObjId,
) -> bool {
    &&& rt.wf()
    &&& rt.extends(prt)
    &&& rt.only_grew(prt)
    &&& d == prt.objects@.len()
    &&& rt.is_dict(d)
    &&& rt.obj(d).ob_type == crate::object::PY_DICT_TYPE
    &&& rt.objects@.len() == d + 1 + prt.envs@[env as int].map@.len()
    &&& spec_dict_value(rt, d) == Some(
            spec_bindings_dict(
                prt.envs@[env as int].bindings(),
                d + 1,
                prt.envs@[env as int].map@.len(),
            ),
        )
    &&& crate::object::strobj::strings_at(rt, d + 1, spec_names(prt.envs@[env as int].bindings()))
}

/// The names of the bindings `b`, in their order.
pub open spec fn spec_names(b: Bindings) -> Seq<Seq<char>> {
    Seq::new(b.len(), |j: int| b[j].0)
}

/// What `update` does: the state before the call, and the state and the result
/// after it.
pub open spec fn update_post(
    prt: Runtime,
    rt: Runtime,
    env: EnvId,
    key: Id,
    val: ObjId,
) -> bool {
    &&& rt.wf()
    &&& rt.extends(prt)
    &&& rt.objects == prt.objects
    &&& rt.exc == prt.exc
    &&& rt.fuel == prt.fuel
    &&& rt.envs@.len() == prt.envs@.len()
    &&& forall|i: int|
        0 <= i < prt.envs@.len() && i != env ==> #[trigger] rt.envs@[i] == prt.envs@[i]
    &&& rt.envs@[env as int].parent == prt.envs@[env as int].parent
    &&& rt.envs@[env as int].bindings() == spec_bind(
            prt.envs@[env as int].bindings(),
            key@,
            val,
        )
    &&& spec_get(rt.envs@, env as int, key@) == Some(val)
}

} // verus!
