use vstd::prelude::*;
use vstd::string::StringExecFns;
use crate::error::{PyErr, PyRes};
use crate::object::dictobj::{pyobj_hash, spec_dict_value, spec_key_hash};
use crate::object::pyhashmap::{spec_get, spec_insert};
use crate::object::generic::pyobj_to_string;
use crate::object::strobj::{spec_str_hash, spec_str_value, str_hash};
use crate::object::typeobj::{
    clone_ids, lemma_type_update, slots_ok, BinaryOp, PyTypeObject, Slots, UnaryOp, VarArgFun,
};
use crate::object::{
    lemma_extends_refl, lemma_extends_trans, ObjId, PyInnerObject, PyObject, Runtime,
};

verus! {

/// The first entry filed under `hash` in the dictionaries of the types
/// `mro`, from position `from` on.
pub open spec fn spec_mro_lookup(rt: Runtime, mro: Seq<ObjId>, hash: u64, from: int) -> Option<
    ObjId,
>
    decreases mro.len() - from,
{
    if from < 0 || from >= mro.len() {
        None
    } else {
        let found = match rt.tp(mro[from]).tp_dict {
            Some(d) => spec_get(rt.dict_entries(d), hash),
            None => None,
        };
        match found {
            Some(v) => Some(v),
            None => spec_mro_lookup(rt, mro, hash, from + 1),
        }
    }
}

/// What an attribute read on the type `value` finds under `hash`: the first
/// entry along the type's method resolution order, or, where the type has no
/// such order, the entry of its own dictionary.
pub open spec fn spec_type_getattro(rt: Runtime, value: ObjId, hash: u64) -> Option<ObjId> {
    match rt.tp(value).tp_mro {
        Some(m) => spec_mro_lookup(rt, m@, hash, 0),
        None => match rt.tp(value).tp_dict {
            Some(d) => spec_get(rt.dict_entries(d), hash),
            None => None,
        },
    }
}

/// The entry filed under `hash` in the attribute dictionary of the type `t`.
pub fn type_dict_get(rt: &Runtime, t: ObjId, hash: u64) -> (r: Option<ObjId>)
    requires
        rt.wf(),
        rt.is_type(t),
    ensures
        r == match rt.tp(t).tp_dict {
            Some(d) => spec_get(rt.dict_entries(d), hash),
            None => None,
        },
        r matches Some(v) ==> rt.valid(v),
{
    proof {
        rt.lemma_obj(t);
    }
    match rt.objects[t].pytype_tp_dict() {
        Some(d) => {
            match &rt.objects[d].inner {
                PyInnerObject::DictObj(dd) => {
                    let r = dd.dict.get(hash);
                    proof {
                        rt.lemma_obj(d);
                        crate::object::pyhashmap::lemma_first_index(dd.dict@, hash);
                    }
                    r
                },
                _ => vstd::pervasive::unreached(),
            }
        },
        None => None,
    }
}

/// Attribute read on a type, by the hash of the name.
pub fn type_lookup(rt: &Runtime, value: ObjId, hash: u64) -> (r: Option<ObjId>)
    requires
        rt.wf(),
        rt.is_type(value),
    ensures
        r == spec_type_getattro(*rt, value, hash),
        r matches Some(v) ==> rt.valid(v),
{
    proof {
        rt.lemma_obj(value);
    }
    match &rt.typeobj(value).tp_mro {
        Some(mro) => {
            let mut i: usize = 0;
            while i < mro.len()
                invariant
                    i <= mro@.len(),
                    rt.wf(),
                    rt.tp(value).tp_mro == Some(*mro),
                    forall|j: int| 0 <= j < mro@.len() ==> rt.is_type(#[trigger] mro@[j]),
                    spec_mro_lookup(*rt, mro@, hash, 0) == spec_mro_lookup(
                        *rt,
                        mro@,
                        hash,
                        i as int,
                    ),
                decreases mro@.len() - i,
            {
                assert(rt.is_type(mro@[i as int]));
                let found = type_dict_get(rt, mro[i], hash);
                if found.is_some() {
                    return found;
                }
                i = i + 1;
            }
            None
        },
        None => type_dict_get(rt, value, hash),
    }
}

/// Attribute read on the type `value`: the first entry filed under the hash
/// of `key` along the type's method resolution order.
pub fn type_getattro(rt: &Runtime, value: ObjId, key: ObjId) -> (r: PyRes<Option<ObjId>>)
    requires
        rt.wf(),
        rt.is_type(value),
        rt.valid(key),
    ensures
        match spec_key_hash(*rt, key) {
            Some(h) => r == Ok::<Option<ObjId>, PyErr>(spec_type_getattro(*rt, value, h)),
            None => r is Err && r->Err_0 is TypeError,
        },
        r matches Ok(Some(v)) ==> rt.valid(v),
{
    let hash = match pyobj_hash(rt, key) {
        Ok(h) => h,
        Err(e) => {
            return Err(e);
        },
    };
    Ok(type_lookup(rt, value, hash))
}

/// The slots `s` with the slot that the name `key` stands for set to call
/// `f`; `s` itself where `key` is no recognized name.
pub open spec fn spec_set_slot(s: Slots, key: Seq<char>, f: ObjId) -> Slots {
    if key == "__add__"@ {
        Slots { tp_fun_add: Some(BinaryOp::Wrapped(f)), ..s }
    } else if key == "__bool__"@ {
        Slots { tp_bool: Some(UnaryOp::Wrapped(f)), ..s }
    } else if key == "__lt__"@ {
        Slots { tp_fun_lt: Some(BinaryOp::Wrapped(f)), ..s }
    } else if key == "__eq__"@ {
        Slots { tp_fun_eq: Some(BinaryOp::Wrapped(f)), ..s }
    } else if key == "__len__"@ {
        Slots { tp_len: Some(UnaryOp::Wrapped(f)), ..s }
    } else if key == "__init__"@ {
        Slots { tp_init: Some(VarArgFun::Wrapped(f)), ..s }
    } else if key == "__new__"@ {
        Slots { tp_new: Some(VarArgFun::Wrapped(f)), ..s }
    } else {
        s
    }
}

/// Whether `a` and `b` hold the same text.
pub fn str_is(a: &str, b: &str) -> (r: bool)
    ensures
        r == (a@ == b@),
{
    let x = String::from_str(a);
    let y = String::from_str(b);
    x == y
}

/// Sets the slot that the name `key` stands for to call `f`.
pub fn set_slot(s: Slots, key: &str, f: ObjId) -> (r: Slots)
    ensures
        r == spec_set_slot(s, key@, f),
{
    let mut r = s;
    if str_is(key, "__add__") {
        r.tp_fun_add = Some(BinaryOp::Wrapped(f));
    } else if str_is(key, "__bool__") {
        r.tp_bool = Some(UnaryOp::Wrapped(f));
    } else if str_is(key, "__lt__") {
        r.tp_fun_lt = Some(BinaryOp::Wrapped(f));
    } else if str_is(key, "__eq__") {
        r.tp_fun_eq = Some(BinaryOp::Wrapped(f));
    } else if str_is(key, "__len__") {
        r.tp_len = Some(UnaryOp::Wrapped(f));
    } else if str_is(key, "__init__") {
        r.tp_init = Some(VarArgFun::Wrapped(f));
    } else if str_is(key, "__new__") {
        r.tp_new = Some(VarArgFun::Wrapped(f));
    }
    r
}

/// The dictionary of the type `cls` files nothing under `hash`.
pub open spec fn lacks_key(rt: Runtime, cls: ObjId, hash: u64) -> bool {
    match rt.tp(cls).tp_dict {
        Some(d) => spec_get(rt.dict_entries(d), hash) is None,
        None => true,
    }
}

/// A slot update at the type `from` reaches the type `to`: `to` is `from`,
/// or a recorded subclass of `from` whose own dictionary files nothing under
/// `hash`, or is reached from such a subclass.
pub open spec fn reaches(rt: Runtime, from: ObjId, to: ObjId, hash: u64) -> bool
    decreases rt.objects@.len() - from,
{
    from == to || (rt.is_type(from) && rt.tp(from).tp_subclasses is Some && exists|j: int|
        #![trigger rt.tp(from).tp_subclasses->Some_0@[j]]
        0 <= j < rt.tp(from).tp_subclasses->Some_0@.len() && from < rt.tp(
            from,
        ).tp_subclasses->Some_0@[j] < rt.objects@.len() && rt.is_type(
            rt.tp(from).tp_subclasses->Some_0@[j],
        ) && lacks_key(rt, rt.tp(from).tp_subclasses->Some_0@[j], hash) && reaches(
            rt,
            rt.tp(from).tp_subclasses->Some_0@[j],
            to,
            hash,
        ))
}

/// A slot update at the type `from` reaches the type `to` through the `j`-th
/// recorded subclass of `from`.
pub open spec fn reaches_via(rt: Runtime, from: ObjId, j: int, to: ObjId, hash: u64) -> bool {
    let ss = rt.tp(from).tp_subclasses->Some_0@;
    let sub = ss[j];
    &&& rt.is_type(from)
    &&& rt.tp(from).tp_subclasses is Some
    &&& 0 <= j < ss.len()
    &&& from < sub < rt.objects@.len()
    &&& rt.is_type(sub)
    &&& lacks_key(rt, sub, hash)
    &&& reaches(rt, sub, to, hash)
}

/// A slot update reaches a type other than the one it starts at through one
/// of the recorded subclasses, and only so.
pub proof fn lemma_reaches(rt: Runtime, from: ObjId, to: ObjId, hash: u64)
    ensures
        reaches(rt, from, to, hash) <==> (from == to || exists|j: int|
            reaches_via(rt, from, j, to, hash)),
{
    if reaches(rt, from, to, hash) && from != to {
        let j = choose|j: int|
            #![trigger rt.tp(from).tp_subclasses->Some_0@[j]]
            0 <= j < rt.tp(from).tp_subclasses->Some_0@.len() && from < rt.tp(
                from,
            ).tp_subclasses->Some_0@[j] < rt.objects@.len() && rt.is_type(
                rt.tp(from).tp_subclasses->Some_0@[j],
            ) && lacks_key(rt, rt.tp(from).tp_subclasses->Some_0@[j], hash) && reaches(
                rt,
                rt.tp(from).tp_subclasses->Some_0@[j],
                to,
                hash,
            );
        assert(reaches_via(rt, from, j, to, hash));
    }
    if exists|j: int| reaches_via(rt, from, j, to, hash) {
        let j = choose|j: int| reaches_via(rt, from, j, to, hash);
        let sub = rt.tp(from).tp_subclasses->Some_0@[j];
        assert(reaches(rt, sub, to, hash));
    }
}

/// The type at `x` is in `cur` what it is in `prev`, but that the slot that
/// the name `key` stands for calls `f`.
pub open spec fn slot_set_at(prev: Runtime, cur: Runtime, x: ObjId, key: Seq<char>, f: ObjId) -> bool {
    &&& cur.obj(x).ob_type == prev.obj(x).ob_type
    &&& cur.obj(x).ob_dict == prev.obj(x).ob_dict
    &&& cur.obj(x).inner is TypeObj
    &&& cur.tp(x).spec_slots() == spec_set_slot(prev.tp(x).spec_slots(), key, f)
    &&& cur.tp(x).same_but_slots(prev.tp(x))
}

/// The object at `x` is in `cur` what it is in `prev`, or a type that differs
/// in its inheritable slots only.
pub open spec fn same_or_slots(prev: Runtime, cur: Runtime, x: ObjId) -> bool {
    cur.obj(x) == prev.obj(x) || {
        &&& cur.obj(x).ob_type == prev.obj(x).ob_type
        &&& cur.obj(x).ob_dict == prev.obj(x).ob_dict
        &&& prev.obj(x).inner is TypeObj
        &&& cur.obj(x).inner is TypeObj
        &&& cur.tp(x).same_but_slots(prev.tp(x))
    }
}

/// `cur` differs from `prev` in inheritable slots of types only.
pub open spec fn slot_frame(prev: Runtime, cur: Runtime) -> bool {
    &&& cur.objects@.len() == prev.objects@.len()
    &&& forall|x: ObjId| x < prev.objects@.len() ==> #[trigger] same_or_slots(prev, cur, x)
}

/// `cur` is `prev` after a slot update at the type `value`: every type that
/// the update reaches has the slot that `key` stands for calling `f`, and
/// nothing else has changed.
pub open spec fn slot_updated(prev: Runtime, cur: Runtime, value: ObjId, key: Seq<char>, f: ObjId) -> bool {
    &&& cur.objects@.len() == prev.objects@.len()
    &&& cur.envs == prev.envs
    &&& cur.exc == prev.exc
    &&& cur.fuel == prev.fuel
    &&& forall|x: ObjId|
        x < prev.objects@.len() ==> if reaches(prev, value, x, spec_str_hash(key)) {
            slot_set_at(prev, cur, x, key, f)
        } else {
            #[trigger] cur.obj(x) == prev.obj(x)
        }
}

/// A slot update at `from` reaches `x` through one of the first `i` recorded
/// subclasses of `from`.
pub open spec fn reached_by_first(rt: Runtime, from: ObjId, i: int, x: ObjId, hash: u64) -> bool {
    exists|j: int| 0 <= j < i && reaches_via(rt, from, j, x, hash)
}

/// `cur` is `prev` after the slot update that a dictionary write at `value`
/// starts has gone through the first `i` recorded subclasses of `value`.
pub open spec fn subclasses_updated(
    prev: Runtime,
    cur: Runtime,
    value: ObjId,
    i: int,
    key: Seq<char>,
    f: ObjId,
) -> bool {
    &&& cur.objects@.len() == prev.objects@.len()
    &&& cur.envs == prev.envs
    &&& cur.exc == prev.exc
    &&& cur.fuel == prev.fuel
    &&& forall|x: ObjId|
        x < prev.objects@.len() ==> if reached_by_first(prev, value, i, x, spec_str_hash(key)) {
            slot_set_at(prev, cur, x, key, f)
        } else {
            #[trigger] cur.obj(x) == prev.obj(x)
        }
}

/// A slot update reaches only types at or behind the type it starts at.
pub proof fn lemma_reaches_later(rt: Runtime, from: ObjId, to: ObjId, hash: u64)
    requires
        reaches(rt, from, to, hash),
    ensures
        from <= to,
        from != to ==> to < rt.objects@.len() && rt.is_type(to),
    decreases rt.objects@.len() - from,
{
    lemma_reaches(rt, from, to, hash);
    if from != to {
        let j = choose|j: int| reaches_via(rt, from, j, to, hash);
        let sub = rt.tp(from).tp_subclasses->Some_0@[j];
        lemma_reaches_later(rt, sub, to, hash);
    }
}

/// What a slot update reaches does not depend on the slots of types.
pub proof fn lemma_reaches_frame(a: Runtime, b: Runtime, from: ObjId, to: ObjId, hash: u64)
    requires
        a.wf(),
        slot_frame(a, b),
        reaches(a, from, to, hash),
    ensures
        reaches(b, from, to, hash),
    decreases a.objects@.len() - from,
{
    lemma_reaches(a, from, to, hash);
    lemma_reaches(b, from, to, hash);
    if from != to {
        let ss = a.tp(from).tp_subclasses->Some_0@;
        let j = choose|j: int| reaches_via(a, from, j, to, hash);
        let sub = ss[j];
        assert(same_or_slots(a, b, from));
        assert(same_or_slots(a, b, sub));
        lemma_reaches_frame(a, b, sub, to, hash);
        a.lemma_obj(sub);
        match a.tp(sub).tp_dict {
            Some(d) => {
                assert(same_or_slots(a, b, d));
            },
            None => {},
        }
        assert(reaches_via(b, from, j, to, hash));
    }
}

/// Setting a slot twice is setting it once.
pub proof fn lemma_set_slot_twice(s: Slots, key: Seq<char>, f: ObjId)
    ensures
        spec_set_slot(spec_set_slot(s, key, f), key, f) == spec_set_slot(s, key, f),
{
}

/// Reinstalls the slot that the name `key` stands for on the type `value`,
/// to call `rvalue`, and then on every recorded subclass whose own dictionary
/// does not define `key`, and so on down the subclasses.
pub fn update_slot(rt: &mut Runtime, value: ObjId, key: &str, rvalue: ObjId)
    requires
        old(rt).wf(),
        old(rt).is_type(value),
        old(rt).valid(rvalue),
    ensures
        update_slot_post(*old(rt), *final(rt), value, key@, rvalue),
    decreases old(rt).objects@.len() - value, 1nat,
{
    let ghost s0 = *rt;
    let ghost h = spec_str_hash(key@);
    proof {
        s0.lemma_obj(value);
    }
    let s = set_slot(rt.typeobj(value).slots(), key, rvalue);
    rt.set_slots(value, s);
    let ghost s1 = *rt;
    proof {
        assert forall|x: ObjId| x < s0.objects@.len() implies #[trigger] same_or_slots(
            s0,
            s1,
            x,
        ) by {
            if x != value {
                assert(s1.objects@[x as int] == s0.objects@[x as int]);
            }
        }
    }
    update_slot_subclasses(rt, value, key, rvalue);
    proof {
        lemma_extends_trans(s0, s1, *rt);
        let n = match s1.tp(value).tp_subclasses {
            Some(ss) => ss@.len() as int,
            None => 0int,
        };
        assert forall|x: ObjId| x < s0.objects@.len() implies #[trigger] same_or_slots(
            s0,
            *rt,
            x,
        ) by {
            assert(same_or_slots(s0, s1, x));
            assert(same_or_slots(s1, *rt, x));
        }
        assert forall|x: ObjId| x < s0.objects@.len() implies if reaches(s0, value, x, h) {
            slot_set_at(s0, *rt, x, key@, rvalue)
        } else {
            #[trigger] rt.obj(x) == s0.obj(x)
        } by {
            let via1 = reached_by_first(s1, value, n, x, h);
            if via1 {
                let j = choose|j: int| 0 <= j < n && reaches_via(s1, value, j, x, h);
                let sub = s1.tp(value).tp_subclasses->Some_0@[j];
                lemma_reaches_later(s1, sub, x, h);
                assert(reaches(s1, value, x, h));
                lemma_reaches_frame_back(s0, s1, value, x, h);
                assert(s1.objects@[x as int] == s0.objects@[x as int]);
            } else {
                assert(rt.obj(x) == s1.obj(x));
                if reaches(s0, value, x, h) {
                    lemma_reaches_frame(s0, s1, value, x, h);
                    if x != value {
                        lemma_reaches(s1, value, x, h);
                        let j = choose|j: int| reaches_via(s1, value, j, x, h);
                        assert(0 <= j < n && reaches_via(s1, value, j, x, h));
                        assert(false);
                    }
                } else {
                    if x == value {
                        assert(reaches(s0, value, x, h));
                    }
                    assert(s1.objects@[x as int] == s0.objects@[x as int]);
                }
            }
        }
    }
}

/// What a slot update reaches did not depend on the slots of types, seen
/// from the later runtime.
pub proof fn lemma_reaches_frame_back(a: Runtime, b: Runtime, from: ObjId, to: ObjId, hash: u64)
    requires
        a.wf(),
        slot_frame(a, b),
        reaches(b, from, to, hash),
    ensures
        reaches(a, from, to, hash),
    decreases a.objects@.len() - from,
{
    lemma_reaches(a, from, to, hash);
    lemma_reaches(b, from, to, hash);
    if from != to {
        let ss = b.tp(from).tp_subclasses->Some_0@;
        let j = choose|j: int| reaches_via(b, from, j, to, hash);
        let sub = ss[j];
        assert(same_or_slots(a, b, from));
        assert(same_or_slots(a, b, sub));
        lemma_reaches_frame_back(a, b, sub, to, hash);
        a.lemma_obj(sub);
        match a.tp(sub).tp_dict {
            Some(d) => {
                assert(same_or_slots(a, b, d));
            },
            None => {},
        }
        assert(reaches_via(a, from, j, to, hash));
    }
}

/// Carries a slot update at the type `value` on to its recorded subclasses:
/// each subclass whose own dictionary does not define `key` gets the slot,
/// and hands it on in the same way.
pub fn update_slot_subclasses(rt: &mut Runtime, value: ObjId, key: &str, rvalue: ObjId)
    requires
        old(rt).wf(),
        old(rt).is_type(value),
        old(rt).valid(rvalue),
    ensures
        final(rt).wf(),
        final(rt).extends(*old(rt)),
        slot_frame(*old(rt), *final(rt)),
        subclasses_updated(
            *old(rt),
            *final(rt),
            value,
            match old(rt).tp(value).tp_subclasses {
                Some(ss) => ss@.len() as int,
                None => 0int,
            },
            key@,
            rvalue,
        ),
    decreases old(rt).objects@.len() - value, 0nat,
{
    let ghost prev = *rt;
    let ghost h = spec_str_hash(key@);
    proof {
        prev.lemma_obj(value);
        lemma_extends_refl(prev);
        assert forall|x: ObjId| x < prev.objects@.len() implies #[trigger] same_or_slots(
            prev,
            prev,
            x,
        ) by {}
    }
    let subs = match &rt.typeobj(value).tp_subclasses {
        Some(ss) => clone_ids(ss),
        None => {
            return ;
        },
    };
    let hash = str_hash(key);
    let mut i: usize = 0;
    while i < subs.len()
        invariant
            i <= subs@.len(),
            prev == *old(rt),
            prev.wf(),
            prev.is_type(value),
            prev.valid(rvalue),
            prev.tp(value).tp_subclasses is Some,
            subs@ == prev.tp(value).tp_subclasses->Some_0@,
            forall|j: int|
                0 <= j < subs@.len() ==> prev.is_type(#[trigger] subs@[j]) && subs@[j] > value,
            h == spec_str_hash(key@),
            hash == h,
            rt.wf(),
            rt.extends(prev),
            slot_frame(prev, *rt),
            subclasses_updated(prev, *rt, value, i as int, key@, rvalue),
        decreases subs@.len() - i,
    {
        let sub = subs[i];
        let ghost before = *rt;
        proof {
            assert(prev.is_type(subs@[i as int]));
            assert(same_or_slots(prev, before, sub));
            prev.lemma_obj(sub);
            match prev.tp(sub).tp_dict {
                Some(d) => {
                    assert(same_or_slots(prev, before, d));
                },
                None => {},
            }
        }
        let lacks = type_dict_get(rt, sub, hash).is_none();
        assert(lacks == lacks_key(prev, sub, h));
        if lacks {
            update_slot(rt, sub, key, rvalue);
        }
        proof {
            lemma_extends_trans(prev, before, *rt);
            assert forall|x: ObjId| x < prev.objects@.len() implies #[trigger] same_or_slots(
                prev,
                *rt,
                x,
            ) by {
                assert(same_or_slots(prev, before, x));
                if lacks {
                    assert(same_or_slots(before, *rt, x));
                }
            }
            assert forall|x: ObjId| x < prev.objects@.len() implies if reached_by_first(
                prev,
                value,
                i + 1,
                x,
                h,
            ) {
                slot_set_at(prev, *rt, x, key@, rvalue)
            } else {
                #[trigger] rt.obj(x) == prev.obj(x)
            } by {
                let earlier = reached_by_first(prev, value, i as int, x, h);
                let now = reaches_via(prev, value, i as int, x, h);
                if reached_by_first(prev, value, i + 1, x, h) {
                    let j = choose|j: int| 0 <= j < i + 1 && reaches_via(prev, value, j, x, h);
                    if j < i {
                        assert(earlier);
                    } else {
                        assert(now);
                    }
                } else {
                    if earlier {
                        let j = choose|j: int| 0 <= j < i && reaches_via(prev, value, j, x, h);
                        assert(reaches_via(prev, value, j, x, h));
                    }
                    assert(!earlier);
                    assert(!now);
                }
                if now {
                    assert(lacks);
                    lemma_reaches_frame(prev, before, sub, x, h);
                    lemma_set_slot_twice(prev.tp(x).spec_slots(), key@, rvalue);
                } else if lacks {
                    if reaches(before, sub, x, h) {
                        lemma_reaches_frame_back(prev, before, sub, x, h);
                        assert(reaches_via(prev, value, i as int, x, h));
                    }
                    assert(rt.obj(x) == before.obj(x));
                }
                if earlier {
                    assert(slot_set_at(prev, before, x, key@, rvalue));
                } else {
                    assert(before.obj(x) == prev.obj(x));
                }
            }
        }
        i = i + 1;
    }
}

/// Attribute write on a type: files `rvalue` under `key` in the type's
/// dictionary, and then, `key` being a string, reinstalls the slot that the
/// name stands for on the type and on the subclasses that a slot update
/// reaches. A type without a dictionary, a key that cannot be hashed and a
/// key that is no string are errors; in the last case the dictionary has the
/// entry all the same.
pub fn type_setattro(rt: &mut Runtime, value: ObjId, key: ObjId, rvalue: ObjId) -> (r: PyRes<()>)
    requires
        old(rt).wf(),
        old(rt).is_type(value),
        old(rt).valid(key),
        old(rt).valid(rvalue),
    ensures
        type_setattro_post(*old(rt), *final(rt), value, key, rvalue, r),
{
    proof {
        rt.lemma_obj(value);
        lemma_extends_refl(*rt);
    }
    let d = match rt.objects[value].pytype_tp_dict() {
        Some(d) => d,
        None => {
            return Err(PyErr::TypeError("type has no dictionary"));
        },
    };
    match PyObject::pydict_update(rt, d, key, rvalue) {
        Ok(()) => {},
        Err(e) => {
            return Err(e);
        },
    }
    let ghost mid = *rt;
    let name = match pyobj_to_string(rt, key) {
        Ok(s) => s,
        Err(e) => {
            proof {
                assert(mid.objects@[key as int] == old(rt).objects@[key as int] || key == d);
            }
            return Err(e);
        },
    };
    proof {
        assert(mid.objects@[key as int] == old(rt).objects@[key as int] || key == d);
    }
    update_slot(rt, value, name.as_str(), rvalue);
    proof {
        lemma_extends_trans(*old(rt), mid, *rt);
    }
    Ok(())
}

/// Dict write, slot sync. After a slot update at the type `value` for a
/// recognized name, the slot of `value`, and of every type that the update
/// reaches, calls the new entry.
pub proof fn lemma_slot_calls_entry(
    prev: Runtime,
    cur: Runtime,
    value: ObjId,
    key: Seq<char>,
    f: ObjId,
    x: ObjId,
)
    requires
        prev.valid(value),
        x < prev.objects@.len(),
        slot_updated(prev, cur, value, key, f),
        reaches(prev, value, x, spec_str_hash(key)),
    ensures
        key == "__add__"@ ==> cur.tp(x).tp_fun_add == Some(BinaryOp::Wrapped(f)),
        key == "__bool__"@ ==> cur.tp(x).tp_bool == Some(UnaryOp::Wrapped(f)),
        key == "__lt__"@ ==> cur.tp(x).tp_fun_lt == Some(BinaryOp::Wrapped(f)),
        key == "__eq__"@ ==> cur.tp(x).tp_fun_eq == Some(BinaryOp::Wrapped(f)),
        key == "__len__"@ ==> cur.tp(x).tp_len == Some(UnaryOp::Wrapped(f)),
        key == "__init__"@ ==> cur.tp(x).tp_init == Some(VarArgFun::Wrapped(f)),
        key == "__new__"@ ==> cur.tp(x).tp_new == Some(VarArgFun::Wrapped(f)),
        reaches(prev, value, value, spec_str_hash(key)),
{
    reveal_strlit("__add__");
    reveal_strlit("__bool__");
    reveal_strlit("__lt__");
    reveal_strlit("__eq__");
    reveal_strlit("__len__");
    reveal_strlit("__init__");
    reveal_strlit("__new__");
    assert(slot_set_at(prev, cur, x, key, f));
    let s = prev.tp(x).spec_slots();
    let r = spec_set_slot(s, key, f);
    assert(cur.tp(x).spec_slots() == r);
    if key == "__bool__"@ {
        assert("__bool__"@.len() == 8);
        assert("__add__"@.len() == 7);
    }
    if key == "__lt__"@ {
        assert("__lt__"@.len() == 6);
        assert("__add__"@.len() == 7);
        assert("__bool__"@.len() == 8);
    }
    if key == "__eq__"@ {
        assert("__eq__"@[2] == 'e');
        assert("__lt__"@[2] == 'l');
        assert("__add__"@.len() == 7);
        assert("__bool__"@.len() == 8);
    }
    if key == "__len__"@ {
        assert("__len__"@[2] == 'l');
        assert("__add__"@[2] == 'a');
        assert("__bool__"@.len() == 8);
        assert("__lt__"@.len() == 6);
        assert("__eq__"@.len() == 6);
    }
    if key == "__init__"@ {
        assert("__init__"@[2] == 'i');
        assert("__bool__"@[2] == 'b');
        assert("__add__"@.len() == 7);
        assert("__lt__"@.len() == 6);
        assert("__eq__"@.len() == 6);
        assert("__len__"@.len() == 7);
    }
    if key == "__new__"@ {
        assert("__new__"@[2] == 'n');
        assert("__add__"@[2] == 'a');
        assert("__len__"@[2] == 'l');
        assert("__bool__"@.len() == 8);
        assert("__lt__"@.len() == 6);
        assert("__eq__"@.len() == 6);
        assert("__init__"@.len() == 8);
    }
}

/// What `type_setattro` does: the state before the call, and the state and the result
/// after it.
pub open spec fn type_setattro_post(
    prt: Runtime,
    rt: Runtime,
    value: ObjId,
    key: ObjId,
    rvalue: ObjId,
    r: PyRes<()>,
) -> bool {
    &&& rt.wf()
    &&& rt.extends(prt)
    &&& rt.objects@.len() == prt.objects@.len()
    &&& match (prt.tp(value).tp_dict, spec_key_hash(prt, key)) {
            (Some(d), Some(h)) => exists|mid: Runtime|
                {
                    &&& mid.same_except(prt, d)
                    &&& spec_dict_value(mid, d) == Some(
                        spec_insert(prt.dict_entries(d), h, key, rvalue),
                    )
                    &&& match spec_str_value(prt, key) {
                        Some(name) => r is Ok && slot_updated(mid, rt, value, name, rvalue),
                        None => r is Err && r->Err_0 is TypeError && rt == mid,
                    }
                },
            _ => r is Err && r->Err_0 is TypeError && rt.objects@ == prt.objects@,
        }
}

/// What `update_slot` does: the state before the call, and the state and the result
/// after it.
pub open spec fn update_slot_post(
    prt: Runtime,
    rt: Runtime,
    value: ObjId,
    key: Seq<char>,
    rvalue: ObjId,
) -> bool {
    &&& rt.wf()
    &&& rt.extends(prt)
    &&& slot_updated(prt, rt, value, key, rvalue)
    &&& slot_frame(prt, rt)
}

} // verus!
