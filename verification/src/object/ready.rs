use vstd::prelude::*;
use crate::error::{PyErr, PyRes};
use crate::object::dictobj::spec_dict_value;
use crate::object::mro::{
    all_nonempty, is_subseq, lemma_linearize_keeps_order, lemma_linearize_members,
    lemma_subseq_cons, linearlize, lists_of, spec_linearize,
};
use crate::object::pyhashmap::{spec_get, spec_insert, Entry};
use crate::object::generic::pyobj_to_string;
use crate::object::listobj::spec_list_value;
use crate::object::strobj::{spec_str_hash, spec_str_value, str_hash};
use crate::object::typeobj::{attro_defaults, spec_attro_defaults, spec_blank_type, 
    PyTypeObject, clone_ids, inherit_method, lemma_chain_keeps, opt_seq, or_else, slots_ok, spec_inherit,
    spec_inherit_chain, BinaryOp, GetAttroFun, SetAttroFun, Slots, TypeView, UnaryOp, VarArgFun,
};
use crate::object::{
    lemma_extends_refl, lemma_extends_trans, ObjId, PyInnerObject, PyObject, Runtime,
    PY_BASEOBJ_TYPE, PY_TYPE_TYPE,
};

verus! {

/// `cur` is `prev` with new objects behind the old ones, of which at most the
/// object `id` changed.
pub open spec fn grew_except(prev: Runtime, cur: Runtime, id: ObjId) -> bool {
    &&& prev.objects@.len() <= cur.objects@.len()
    &&& forall|i: int|
        0 <= i < prev.objects@.len() && i != id ==> #[trigger] cur.objects@[i] == prev.objects@[i]
    &&& cur.envs == prev.envs
    &&& cur.exc == prev.exc
    &&& cur.fuel == prev.fuel
}

/// The name of the native function at `m`.
pub open spec fn spec_method_name(rt: Runtime, m: ObjId) -> Seq<char> {
    rt.obj(m).inner->RustFunObj_0.name@
}

/// The dictionary entries that stand for the first `n` of the native methods
/// `methods`, when the string object made for the name of the `j`-th has
/// index `base + j`.
pub open spec fn spec_methods_dict(rt: Runtime, methods: Seq<ObjId>, base: int, n: nat) -> Seq<
    Entry,
>
    decreases n,
{
    if n == 0 {
        Seq::empty()
    } else {
        spec_insert(
            spec_methods_dict(rt, methods, base, (n - 1) as nat),
            spec_str_hash(spec_method_name(rt, methods[n - 1])),
            (base + n - 1) as usize,
            methods[n - 1],
        )
    }
}

/// The names of the native methods `methods`, in their order.
pub open spec fn spec_method_names(rt: Runtime, methods: Seq<ObjId>) -> Seq<Seq<char>> {
    Seq::new(methods.len(), |j: int| spec_method_name(rt, methods[j]))
}

/// The base of a type after base defaulting: every type but `object` that has
/// no base gets `object`.
pub open spec fn spec_ready_base(t: ObjId, base: Option<ObjId>) -> Option<ObjId> {
    if t != PY_BASEOBJ_TYPE && base is None {
        Some(PY_BASEOBJ_TYPE)
    } else {
        base
    }
}

/// The list of bases of a type with base `base`: a type with a base and
/// without bases of its own gets the base as its one base.
pub open spec fn spec_ready_bases(base: Option<ObjId>, bases: Option<Seq<ObjId>>) -> Option<
    Seq<ObjId>,
> {
    match base {
        Some(b) => match bases {
            Some(bs) => if bs.len() == 0 {
                Some(seq![b])
            } else {
                Some(bs)
            },
            None => Some(seq![b]),
        },
        None => bases,
    }
}

/// The method resolution orders of the first `n` of `bases`, leaving out the
/// bases that have none and the orders that are empty.
pub open spec fn spec_base_mros(rt: Runtime, bases: Seq<ObjId>, n: nat) -> Seq<Seq<ObjId>>
    decreases n,
{
    if n == 0 {
        Seq::empty()
    } else {
        let rest = spec_base_mros(rt, bases, (n - 1) as nat);
        match rt.tp(bases[n - 1]).tp_mro {
            Some(m) => if m@.len() > 0 {
                rest.push(m@)
            } else {
                rest
            },
            None => rest,
        }
    }
}

/// The method resolution order of the type `t` with bases `bases`: `t`
/// followed by the merge of the orders of the bases. `None` where the orders
/// cannot be merged.
pub open spec fn spec_ready_mro(rt: Runtime, t: ObjId, bases: Option<Seq<ObjId>>) -> Option<
    Seq<ObjId>,
> {
    match bases {
        Some(bs) => match spec_linearize(spec_base_mros(rt, bs, bs.len())) {
            Some(m) => Some(seq![t] + m),
            None => None,
        },
        None => Some(seq![t]),
    }
}

/// A unary slot that calls the entry filed under the name `name`, if there is one.
pub open spec fn spec_wrapped_unaryop(entries: Seq<Entry>, name: Seq<char>) -> Option<UnaryOp> {
    match spec_get(entries, spec_str_hash(name)) {
        Some(f) => Some(UnaryOp::Wrapped(f)),
        None => None,
    }
}

/// A binary slot that calls the entry filed under the name `name`, if there is one.
pub open spec fn spec_wrapped_binop(entries: Seq<Entry>, name: Seq<char>) -> Option<BinaryOp> {
    match spec_get(entries, spec_str_hash(name)) {
        Some(f) => Some(BinaryOp::Wrapped(f)),
        None => None,
    }
}

/// A variadic slot that calls the entry filed under the name `name`, if there is one.
pub open spec fn spec_wrapped_varargfun(entries: Seq<Entry>, name: Seq<char>) -> Option<
    VarArgFun,
> {
    match spec_get(entries, spec_str_hash(name)) {
        Some(f) => Some(VarArgFun::Wrapped(f)),
        None => None,
    }
}

/// The slots `own` overlaid with the slots that the dictionary entries
/// define: for each recognized name that the dictionary holds, a slot that
/// calls the entry.
pub open spec fn spec_dict_slots(entries: Seq<Entry>, own: Slots) -> Slots {
    Slots {
        tp_hash: own.tp_hash,
        tp_bool: or_else(spec_wrapped_unaryop(entries, "__bool__"@), own.tp_bool),
        tp_fun_eq: or_else(spec_wrapped_binop(entries, "__eq__"@), own.tp_fun_eq),
        tp_fun_add: or_else(spec_wrapped_binop(entries, "__add__"@), own.tp_fun_add),
        tp_fun_lt: or_else(spec_wrapped_binop(entries, "__lt__"@), own.tp_fun_lt),
        tp_len: or_else(spec_wrapped_unaryop(entries, "__len__"@), own.tp_len),
        tp_new: or_else(spec_wrapped_varargfun(entries, "__new__"@), own.tp_new),
        tp_init: or_else(spec_wrapped_varargfun(entries, "__init__"@), own.tp_init),
        ..own
    }
}

/// The ancestors that a type inherits slots from, in order: its base, then
/// its method resolution order without the type itself.
pub open spec fn spec_chain_ids(base: Option<ObjId>, mro: Option<Seq<ObjId>>) -> Seq<ObjId> {
    let head = match base {
        Some(b) => seq![b],
        None => Seq::empty(),
    };
    let tail = match mro {
        Some(m) => if m.len() > 0 {
            m.skip(1)
        } else {
            Seq::empty()
        },
        None => Seq::empty(),
    };
    head + tail
}

/// The inheritable slots of the types `ids`.
pub open spec fn spec_chain(rt: Runtime, ids: Seq<ObjId>) -> Seq<Slots> {
    Seq::new(ids.len(), |j: int| rt.tp(ids[j]).spec_slots())
}

/// The slots of a type after readiness: the slots it had, overlaid with the
/// slots that its dictionary defines, each slot still unset taken from the
/// first ancestor that sets it, and then the generic attribute read and
/// write where the type still has none.
pub open spec fn spec_ready_slots(
    rt: Runtime,
    own: Slots,
    entries: Seq<Entry>,
    base: Option<ObjId>,
    mro: Option<Seq<ObjId>>,
) -> Slots {
    let ids = spec_chain_ids(base, mro);
    spec_attro_defaults(
        spec_inherit_chain(spec_dict_slots(entries, own), spec_chain(rt, ids), ids.len()),
    )
}

/// The value filed in the dictionary `dict` under the hash of the text `s`.
pub fn dict_lookup_str(rt: &Runtime, dict: ObjId, s: &str) -> (r: Option<ObjId>)
    requires
        rt.wf(),
        rt.is_dict(dict),
    ensures
        r == spec_get(rt.dict_entries(dict), spec_str_hash(s@)),
        r matches Some(v) ==> rt.valid(v),
{
    dict_lookup_hash(rt, dict, str_hash(s))
}

/// The value filed in the dictionary `dict` under the hash `h`.
pub fn dict_lookup_hash(rt: &Runtime, dict: ObjId, h: u64) -> (r: Option<ObjId>)
    requires
        rt.wf(),
        rt.is_dict(dict),
    ensures
        r == spec_get(rt.dict_entries(dict), h),
        r matches Some(v) ==> rt.valid(v),
{
    match &rt.objects[dict].inner {
        PyInnerObject::DictObj(d) => {
            let r = d.dict.get(h);
            proof {
                rt.lemma_obj(dict);
                crate::object::pyhashmap::lemma_first_index(d.dict@, h);
            }
            r
        },
        _ => vstd::pervasive::unreached(),
    }
}

/// The unary slot that calls `obj`.
pub fn unaryop_from_pyobj(obj: ObjId) -> (r: UnaryOp)
    ensures
        r == UnaryOp::Wrapped(obj),
{
    UnaryOp::Wrapped(obj)
}

/// The unary slot that calls the entry of `dict` filed under the name `s`.
pub fn get_wrapped_unaryop(rt: &Runtime, dict: ObjId, s: &str) -> (r: Option<UnaryOp>)
    requires
        rt.wf(),
        rt.is_dict(dict),
    ensures
        r == spec_wrapped_unaryop(rt.dict_entries(dict), s@),
        crate::object::opt_id_ok(rt.objects@, crate::object::typeobj::unary_target(r)),
{
    match dict_lookup_str(rt, dict, s) {
        Some(f) => Some(unaryop_from_pyobj(f)),
        None => None,
    }
}

/// The binary slot that calls `obj`.
pub fn binop_from_pyobj(obj: ObjId) -> (r: BinaryOp)
    ensures
        r == BinaryOp::Wrapped(obj),
{
    BinaryOp::Wrapped(obj)
}

/// The binary slot that calls the entry of `dict` filed under the name `s`.
pub fn get_wrapped_binop(rt: &Runtime, dict: ObjId, s: &str) -> (r: Option<BinaryOp>)
    requires
        rt.wf(),
        rt.is_dict(dict),
    ensures
        r == spec_wrapped_binop(rt.dict_entries(dict), s@),
        crate::object::opt_id_ok(rt.objects@, crate::object::typeobj::binary_target(r)),
{
    match dict_lookup_str(rt, dict, s) {
        Some(f) => Some(binop_from_pyobj(f)),
        None => None,
    }
}

/// The variadic slot that calls `obj`.
pub fn varargfun_from_pyobj(obj: ObjId) -> (r: VarArgFun)
    ensures
        r == VarArgFun::Wrapped(obj),
{
    VarArgFun::Wrapped(obj)
}

/// The variadic slot that calls the entry of `dict` filed under the name `s`.
pub fn get_wrapped_varargfun(rt: &Runtime, dict: ObjId, s: &str) -> (r: Option<VarArgFun>)
    requires
        rt.wf(),
        rt.is_dict(dict),
    ensures
        r == spec_wrapped_varargfun(rt.dict_entries(dict), s@),
        crate::object::opt_id_ok(rt.objects@, crate::object::typeobj::vararg_target(r)),
{
    match dict_lookup_str(rt, dict, s) {
        Some(f) => Some(varargfun_from_pyobj(f)),
        None => None,
    }
}

/// String objects stay what they are in a runtime that differs in one
/// object before them.
pub proof fn lemma_strings_kept(a: Runtime, b: Runtime, obj: ObjId, base: int, names: Seq<Seq<char>>)
    requires
        crate::object::strobj::strings_at(a, base, names),
        b.same_except(a, obj),
        obj < base,
        base + names.len() <= a.objects@.len(),
    ensures
        crate::object::strobj::strings_at(b, base, names),
{
    assert forall|j: int| 0 <= j < names.len() implies crate::object::strobj::string_is(
        b.objects@[base + j],
        #[trigger] names[j],
    ) by {
        assert(b.objects@[base + j] == a.objects@[base + j]);
    }
}

/// Gives the type `obj` an attribute dictionary if it has none: a new
/// dictionary with an entry for each of the type's native methods, filed
/// under a new string object that holds the method's name.
pub fn ready_dict(rt: &mut Runtime, obj: ObjId)
    requires
        old(rt).wf(),
        old(rt).is_type(obj),
    ensures
        final(rt).wf(),
        final(rt).extends(*old(rt)),
        grew_except(*old(rt), *final(rt), obj),
        final(rt).is_type(obj),
        match old(rt).tp(obj).tp_dict {
            Some(_) => final(rt).objects@ == old(rt).objects@,
            None => {
                let d = old(rt).objects@.len() as usize;
                let methods = match old(rt).tp(obj).tp_methods {
                    Some(ms) => ms@,
                    None => Seq::empty(),
                };
                &&& final(rt).tp(obj) == (PyTypeObject { tp_dict: Some(d), ..old(rt).tp(obj) })
                &&& final(rt).objects@.len() == d + 1 + methods.len()
                &&& spec_dict_value(*final(rt), d) == Some(
                    spec_methods_dict(*old(rt), methods, d + 1, methods.len()),
                )
                &&& crate::object::strobj::strings_at(
                    *final(rt),
                    d + 1,
                    spec_method_names(*old(rt), methods),
                )
            },
        },
{
    proof {
        old(rt).lemma_obj(obj);
        lemma_extends_refl(*old(rt));
    }
    if rt.objects[obj].pytype_tp_dict().is_some() {
        return ;
    }
    let methods: Vec<ObjId> = match &rt.typeobj(obj).tp_methods {
        Some(ms) => clone_ids(ms),
        None => Vec::new(),
    };
    let d = PyObject::pydict_new(rt);
    let mut i: usize = 0;
    while i < methods.len()
        invariant
            i <= methods@.len(),
            old(rt).wf(),
            old(rt).is_type(obj),
            old(rt).tp(obj).tp_dict is None,
            methods@ == match old(rt).tp(obj).tp_methods {
                Some(ms) => ms@,
                None => Seq::empty(),
            },
            rt.wf(),
            rt.extends(*old(rt)),
            rt.only_grew(*old(rt)),
            d == old(rt).objects@.len(),
            rt.objects@.len() == d + 1 + i,
            rt.is_dict(d),
            spec_dict_value(*rt, d) == Some(spec_methods_dict(*old(rt), methods@, d + 1, i as nat)),
            crate::object::strobj::strings_at(
                *rt,
                d + 1,
                spec_method_names(*old(rt), methods@).take(i as int),
            ),
        decreases methods@.len() - i,
    {
        let ghost before = *rt;
        let m = methods[i];
        proof {
            old(rt).lemma_obj(obj);
            assert(crate::object::rustfun_at(old(rt).objects@, m));
            assert(rt.objects@[m as int] == old(rt).objects@[m as int]);
        }
        let name = rt.objects[m].pyrustfun_name();
        let key = PyObject::from_string(rt, name);
        let ghost mid = *rt;
        proof {
            assert(mid.objects@[crate::object::PY_STRING_TYPE as int]
                == before.objects@[crate::object::PY_STRING_TYPE as int]);
            assert(mid.objects@[d as int] == before.objects@[d as int]);
        }
        let res = PyObject::pydict_update(rt, d, key, m);
        proof {
            assert(res is Ok);
            lemma_extends_trans(*old(rt), before, mid);
            lemma_extends_trans(*old(rt), mid, *rt);
            assert forall|k: int| 0 <= k < old(rt).objects@.len() implies #[trigger] rt.objects@[k]
                == old(rt).objects@[k] by {
                assert(rt.objects@[k] == mid.objects@[k]);
                assert(mid.objects@[k] == before.objects@[k]);
            }
        }
        i = i + 1;
        proof {
            let all = spec_method_names(*old(rt), methods@);
            let names = all.take(i as int);
            assert forall|j: int| 0 <= j < names.len() implies crate::object::strobj::string_is(
                rt.objects@[d + 1 + j],
                #[trigger] names[j],
            ) by {
                assert(rt.objects@[d + 1 + j] == mid.objects@[d + 1 + j]);
                if j < i - 1 {
                    assert(mid.objects@[d + 1 + j] == before.objects@[d + 1 + j]);
                    assert(all.take(i - 1)[j] == names[j]);
                }
            }
        }
    }
    let ghost mid = *rt;
    rt.set_tp_dict(obj, d);
    proof {
        assert(spec_method_names(*old(rt), methods@).take(methods@.len() as int)
            =~= spec_method_names(*old(rt), methods@));
        lemma_strings_kept(mid, *rt, obj, d + 1, spec_method_names(*old(rt), methods@));
        lemma_extends_trans(*old(rt), mid, *rt);
        assert(mid.objects@[obj as int] == old(rt).objects@[obj as int]);
        assert forall|k: int|
            0 <= k < old(rt).objects@.len() && k != obj implies #[trigger] rt.objects@[k] == old(rt).objects@[k] by {
            assert(rt.objects@[k] == mid.objects@[k]);
        }
    }
}

/// Base defaulting: gives the type `obj` the base `object` if it has no base
/// and is not `object` itself, and a list of bases made of its base if it has
/// a base and no bases of its own.
pub fn ready_bases(rt: &mut Runtime, obj: ObjId)
    requires
        old(rt).wf(),
        old(rt).is_type(obj),
    ensures
        final(rt).wf(),
        final(rt).extends(*old(rt)),
        final(rt).same_except(*old(rt), obj),
        final(rt).is_type(obj),
        final(rt).tp(obj)@ == (TypeView {
            base: spec_ready_base(obj, old(rt).tp(obj).tp_base),
            bases: spec_ready_bases(
                spec_ready_base(obj, old(rt).tp(obj).tp_base),
                old(rt).tp(obj)@.bases,
            ),
            ..old(rt).tp(obj)@
        }),
{
    proof {
        lemma_extends_refl(*old(rt));
    }
    if obj != PY_BASEOBJ_TYPE && rt.objects[obj].pytype_tp_base().is_none() {
        rt.set_tp_base(obj, PY_BASEOBJ_TYPE);
    }
    let ghost mid = *rt;
    proof {
        mid.lemma_obj(obj);
    }
    match rt.objects[obj].pytype_tp_base() {
        Some(b) => {
            let lacks = match &rt.typeobj(obj).tp_bases {
                Some(bs) => bs.len() == 0,
                None => true,
            };
            if lacks {
                let mut bases: Vec<ObjId> = Vec::new();
                bases.push(b);
                proof {
                    assert(bases@ =~= seq![b]);
                }
                rt.set_tp_bases(obj, bases);
                proof {
                    lemma_extends_trans(*old(rt), mid, *rt);
                }
            }
        },
        None => {},
    }
}

/// Every order among the first `n` bases' orders is the order of one of
/// those bases.
pub proof fn lemma_base_mros_from(rt: Runtime, bases: Seq<ObjId>, n: nat, k: int)
    requires
        n <= bases.len(),
        0 <= k < spec_base_mros(rt, bases, n).len(),
    ensures
        exists|j: int|
            0 <= j < n && rt.tp(#[trigger] bases[j]).tp_mro is Some && spec_base_mros(
                rt,
                bases,
                n,
            )[k] == rt.tp(bases[j]).tp_mro->Some_0@,
    decreases n,
{
    if n > 0 {
        let rest = spec_base_mros(rt, bases, (n - 1) as nat);
        if k < rest.len() {
            lemma_base_mros_from(rt, bases, (n - 1) as nat, k);
            let j = choose|j: int|
                0 <= j < n - 1 && rt.tp(#[trigger] bases[j]).tp_mro is Some && rest[k] == rt.tp(
                    bases[j],
                ).tp_mro->Some_0@;
            assert(spec_base_mros(rt, bases, n)[k] == rest[k]);
        } else {
            assert(rt.tp(bases[n - 1]).tp_mro is Some);
        }
    }
}

/// The order of each of the first `n` bases, unless it is empty, is among
/// those bases' orders.
pub proof fn lemma_base_mros_has(rt: Runtime, bases: Seq<ObjId>, n: nat, j: int)
    requires
        n <= bases.len(),
        0 <= j < n,
        rt.tp(bases[j]).tp_mro is Some,
        rt.tp(bases[j]).tp_mro->Some_0@.len() > 0,
    ensures
        exists|k: int|
            0 <= k < spec_base_mros(rt, bases, n).len() && #[trigger] spec_base_mros(
                rt,
                bases,
                n,
            )[k] == rt.tp(bases[j]).tp_mro->Some_0@,
    decreases n,
{
    let all = spec_base_mros(rt, bases, n);
    let rest = spec_base_mros(rt, bases, (n - 1) as nat);
    if j == n - 1 {
        assert(all[all.len() - 1] == rt.tp(bases[j]).tp_mro->Some_0@);
    } else {
        lemma_base_mros_has(rt, bases, (n - 1) as nat, j);
        let k = choose|k: int|
            0 <= k < rest.len() && #[trigger] rest[k] == rt.tp(bases[j]).tp_mro->Some_0@;
        assert(all[k] == rest[k]);
    }
}

/// Computes the method resolution order of the type `obj`: the type itself,
/// followed by the merge of the orders of its bases. Fails where the orders
/// of the bases cannot be merged.
pub fn ready_mro(rt: &mut Runtime, obj: ObjId) -> (r: PyRes<()>)
    requires
        old(rt).wf(),
        old(rt).is_type(obj),
    ensures
        final(rt).wf(),
        final(rt).extends(*old(rt)),
        final(rt).same_except(*old(rt), obj),
        final(rt).is_type(obj),
        match spec_ready_mro(*old(rt), obj, old(rt).tp(obj)@.bases) {
            Some(m) => r is Ok && final(rt).tp(obj)@ == (TypeView {
                mro: Some(m),
                ..old(rt).tp(obj)@
            }),
            None => r is Err && r->Err_0 is MroConflict && final(rt).objects@ == old(rt).objects@,
        },
{
    proof {
        lemma_extends_refl(*old(rt));
        old(rt).lemma_obj(obj);
    }
    let mut mro: Vec<ObjId> = Vec::new();
    mro.push(obj);
    let bases = rt.objects[obj].pytype_tp_bases();
    match bases {
        Some(bs) => {
            let mut mro_list: Vec<Vec<ObjId>> = Vec::new();
            let mut i: usize = 0;
            proof {
                assert(lists_of(mro_list@) =~= spec_base_mros(*rt, bs@, 0));
            }
            while i < bs.len()
                invariant
                    i <= bs@.len(),
                    rt.wf(),
                    rt.is_type(obj),
                    forall|j: int|
                        0 <= j < bs@.len() ==> rt.is_type(#[trigger] bs@[j]) && bs@[j] < obj,
                    lists_of(mro_list@) == spec_base_mros(*rt, bs@, i as nat),
                    all_nonempty(lists_of(mro_list@)),
                decreases bs@.len() - i,
            {
                let b = bs[i];
                assert(rt.is_type(bs@[i as int]));
                let ghost before = lists_of(mro_list@);
                match rt.objects[b].pytype_tp_mro() {
                    Some(m) => {
                        if m.len() > 0 {
                            mro_list.push(m);
                            proof {
                                assert(lists_of(mro_list@) =~= before.push(m@));
                            }
                        }
                    },
                    None => {},
                }
                i = i + 1;
            }
            let ghost lists = lists_of(mro_list@);
            match linearlize(mro_list) {
                Some(m) => {
                    let mut k: usize = 0;
                    while k < m.len()
                        invariant
                            k <= m@.len(),
                            rt.wf(),
                            rt.is_type(obj),
                            forall|j: int|
                                0 <= j < bs@.len() ==> rt.is_type(#[trigger] bs@[j]) && bs@[j] < obj,
                            lists == spec_base_mros(*rt, bs@, bs@.len()),
                            spec_linearize(lists) == Some(m@),
                            mro@ == seq![obj] + m@.take(k as int),
                            forall|j: int|
                                0 <= j < mro@.len() ==> rt.is_type(#[trigger] mro@[j]) && mro@[j]
                                    <= obj,
                        decreases m@.len() - k,
                    {
                        let x = m[k];
                        proof {
                            assert(m@.contains(x));
                            lemma_linearize_members(lists, x);
                            let l = choose|l: int|
                                0 <= l < lists.len() && (#[trigger] lists[l]).contains(x);
                            lemma_base_mros_from(*rt, bs@, bs@.len(), l);
                            let j = choose|j: int|
                                0 <= j < bs@.len() && rt.tp(#[trigger] bs@[j]).tp_mro is Some
                                    && lists[l] == rt.tp(bs@[j]).tp_mro->Some_0@;
                            assert(rt.is_type(bs@[j]));
                            rt.lemma_obj(bs@[j]);
                            let bm = rt.tp(bs@[j]).tp_mro->Some_0@;
                            let p = choose|p: int| 0 <= p < bm.len() && bm[p] == x;
                            assert(rt.is_type(bm[p]) && bm[p] <= bs@[j]);
                            assert(seq![obj] + m@.take(k + 1) =~= (seq![obj] + m@.take(
                                k as int,
                            )).push(x));
                        }
                        mro.push(x);
                        k = k + 1;
                    }
                    proof {
                        assert(m@.take(m@.len() as int) =~= m@);
                    }
                },
                None => {
                    return Err(PyErr::MroConflict);
                },
            }
        },
        None => {
            proof {
                assert(mro@ =~= seq![obj]);
            }
        },
    }
    rt.set_tp_mro(obj, mro);
    Ok(())
}

/// The slots `own` overlaid with the slots that the dictionary `dict` defines.
pub fn dict_slots(rt: &Runtime, dict: ObjId, own: Slots) -> (s: Slots)
    requires
        rt.wf(),
        rt.is_dict(dict),
        slots_ok(rt.objects@, own),
    ensures
        s == spec_dict_slots(rt.dict_entries(dict), own),
        slots_ok(rt.objects@, s),
{
    let b = get_wrapped_unaryop(rt, dict, "__bool__");
    let add = get_wrapped_binop(rt, dict, "__add__");
    let eq = get_wrapped_binop(rt, dict, "__eq__");
    let lt = get_wrapped_binop(rt, dict, "__lt__");
    let len = get_wrapped_unaryop(rt, dict, "__len__");
    let init = get_wrapped_varargfun(rt, dict, "__init__");
    let new = get_wrapped_varargfun(rt, dict, "__new__");
    Slots {
        tp_hash: own.tp_hash,
        tp_bool: if b.is_some() {
            b
        } else {
            own.tp_bool
        },
        tp_fun_eq: if eq.is_some() {
            eq
        } else {
            own.tp_fun_eq
        },
        tp_fun_add: if add.is_some() {
            add
        } else {
            own.tp_fun_add
        },
        tp_fun_lt: if lt.is_some() {
            lt
        } else {
            own.tp_fun_lt
        },
        tp_len: if len.is_some() {
            len
        } else {
            own.tp_len
        },
        tp_new: if new.is_some() {
            new
        } else {
            own.tp_new
        },
        tp_init: if init.is_some() {
            init
        } else {
            own.tp_init
        },
        tp_call: own.tp_call,
        tp_iter: own.tp_iter,
        tp_iternext: own.tp_iternext,
        tp_getattro: own.tp_getattro,
        tp_setattro: own.tp_setattro,
    }
}

/// The ancestors that the type `obj` inherits slots from, in order.
pub fn chain_ids(rt: &Runtime, obj: ObjId) -> (ids: Vec<ObjId>)
    requires
        rt.wf(),
        rt.is_type(obj),
    ensures
        ids@ == spec_chain_ids(rt.tp(obj).tp_base, rt.tp(obj)@.mro),
        forall|j: int| 0 <= j < ids@.len() ==> rt.is_type(#[trigger] ids@[j]),
{
    proof {
        rt.lemma_obj(obj);
    }
    let mut ids: Vec<ObjId> = Vec::new();
    match rt.objects[obj].pytype_tp_base() {
        Some(b) => {
            ids.push(b);
        },
        None => {},
    }
    let ghost head = ids@;
    match &rt.typeobj(obj).tp_mro {
        Some(m) => {
            if m.len() > 0 {
                let mut k: usize = 1;
                proof {
                    assert(m@.subrange(1, 1) =~= Seq::<ObjId>::empty());
                    assert(head + m@.subrange(1, 1) =~= head);
                }
                while k < m.len()
                    invariant
                        1 <= k <= m@.len(),
                        ids@ == head + m@.subrange(1, k as int),
                        forall|j: int| 0 <= j < m@.len() ==> rt.is_type(#[trigger] m@[j]),
                        forall|j: int| 0 <= j < ids@.len() ==> rt.is_type(#[trigger] ids@[j]),
                    decreases m@.len() - k,
                {
                    assert(rt.is_type(m@[k as int]));
                    ids.push(m[k]);
                    proof {
                        assert(head + m@.subrange(1, k + 1) =~= (head + m@.subrange(
                            1,
                            k as int,
                        )).push(m@[k as int]));
                    }
                    k = k + 1;
                }
                proof {
                    assert(m@.subrange(1, m@.len() as int) =~= m@.skip(1));
                }
            } else {
                proof {
                    assert(ids@ =~= head + Seq::<ObjId>::empty());
                }
            }
        },
        None => {
            proof {
                assert(ids@ =~= head + Seq::<ObjId>::empty());
            }
        },
    }
    ids
}

/// The slots `own` with each unset slot taken from the first of the types
/// `ids` that sets it.
pub fn inherit_from(rt: &Runtime, ids: &Vec<ObjId>, own: Slots) -> (s: Slots)
    requires
        rt.wf(),
        forall|j: int| 0 <= j < ids@.len() ==> rt.is_type(#[trigger] ids@[j]),
        slots_ok(rt.objects@, own),
    ensures
        s == spec_inherit_chain(own, spec_chain(*rt, ids@), ids@.len()),
        slots_ok(rt.objects@, s),
{
    let mut s = own;
    let mut j: usize = 0;
    while j < ids.len()
        invariant
            j <= ids@.len(),
            rt.wf(),
            forall|j: int| 0 <= j < ids@.len() ==> rt.is_type(#[trigger] ids@[j]),
            s == spec_inherit_chain(own, spec_chain(*rt, ids@), j as nat),
            slots_ok(rt.objects@, s),
        decreases ids@.len() - j,
    {
        let a = ids[j];
        proof {
            assert(rt.is_type(ids@[j as int]));
            rt.lemma_obj(a);
        }
        let bs = rt.typeobj(a).slots();
        inherit_method(&mut s, &bs);
        j = j + 1;
    }
    s
}

/// Fills the slots of the type `obj`, which has an attribute dictionary: for
/// each recognized name that the dictionary holds, a slot that calls the
/// entry; each slot still unset from the first ancestor that sets it; the
/// generic attribute read and write where the type has none.
pub fn ready_slots(rt: &mut Runtime, obj: ObjId)
    requires
        old(rt).wf(),
        old(rt).is_type(obj),
        old(rt).tp(obj).tp_dict is Some,
    ensures
        final(rt).wf(),
        final(rt).extends(*old(rt)),
        final(rt).same_except(*old(rt), obj),
        final(rt).is_type(obj),
        final(rt).tp(obj).spec_slots() == spec_ready_slots(
            *old(rt),
            old(rt).tp(obj).spec_slots(),
            old(rt).dict_entries(old(rt).tp(obj).tp_dict->Some_0),
            old(rt).tp(obj).tp_base,
            old(rt).tp(obj)@.mro,
        ),
        final(rt).tp(obj).same_but_slots(old(rt).tp(obj)),
{
    proof {
        old(rt).lemma_obj(obj);
    }
    let dict = match rt.objects[obj].pytype_tp_dict() {
        Some(d) => d,
        None => vstd::pervasive::unreached(),
    };
    let own = rt.typeobj(obj).slots();
    let s1 = dict_slots(rt, dict, own);
    let ids = chain_ids(rt, obj);
    let s = inherit_from(rt, &ids, s1);
    proof {
        lemma_chain_keeps(s1, spec_chain(*rt, ids@), 0, ids@.len());
    }
    rt.set_slots(obj, attro_defaults(s));
}

/// The orders of the bases are the same in two runtimes in which the bases
/// have the same orders.
pub proof fn lemma_base_mros_frame(a: Runtime, b: Runtime, bases: Seq<ObjId>, n: nat)
    requires
        n <= bases.len(),
        forall|j: int|
            0 <= j < n ==> opt_seq(a.tp(#[trigger] bases[j]).tp_mro) == opt_seq(
                b.tp(bases[j]).tp_mro,
            ),
    ensures
        spec_base_mros(a, bases, n) == spec_base_mros(b, bases, n),
    decreases n,
{
    if n > 0 {
        lemma_base_mros_frame(a, b, bases, (n - 1) as nat);
        assert(opt_seq(a.tp(bases[n - 1]).tp_mro) == opt_seq(b.tp(bases[n - 1]).tp_mro));
    }
}

/// Every class behind the first of the order of a type comes before the type
/// in the arena, when the type's bases do.
pub proof fn lemma_ready_mro_below(rt: Runtime, t: ObjId, bases: Option<Seq<ObjId>>, k: int)
    requires
        rt.wf(),
        bases matches Some(bs) ==> forall|j: int|
            0 <= j < bs.len() ==> rt.is_type(#[trigger] bs[j]) && bs[j] < t,
        spec_ready_mro(rt, t, bases) is Some,
        1 <= k < spec_ready_mro(rt, t, bases)->Some_0.len(),
    ensures
        spec_ready_mro(rt, t, bases)->Some_0[k] < t,
        rt.is_type(spec_ready_mro(rt, t, bases)->Some_0[k]),
{
    let bs = bases->Some_0;
    let lists = spec_base_mros(rt, bs, bs.len());
    let m = spec_linearize(lists)->Some_0;
    let x = m[k - 1];
    assert(m.contains(x));
    lemma_linearize_members(lists, x);
    let l = choose|l: int| 0 <= l < lists.len() && (#[trigger] lists[l]).contains(x);
    lemma_base_mros_from(rt, bs, bs.len(), l);
    let j = choose|j: int|
        0 <= j < bs.len() && rt.tp(#[trigger] bs[j]).tp_mro is Some && lists[l] == rt.tp(
            bs[j],
        ).tp_mro->Some_0@;
    assert(rt.is_type(bs[j]));
    rt.lemma_obj(bs[j]);
    let bm = rt.tp(bs[j]).tp_mro->Some_0@;
    let p = choose|p: int| 0 <= p < bm.len() && bm[p] == x;
    assert(rt.is_type(bm[p]) && bm[p] <= bs[j]);
}

/// The slots of the types `ids` are the same in two runtimes that hold the
/// same objects at `ids`.
pub proof fn lemma_chain_frame(a: Runtime, b: Runtime, ids: Seq<ObjId>)
    requires
        forall|j: int| 0 <= j < ids.len() ==> a.obj(#[trigger] ids[j]) == b.obj(ids[j]),
    ensures
        spec_chain(a, ids) == spec_chain(b, ids),
{
    assert forall|j: int| 0 <= j < ids.len() implies spec_chain(a, ids)[j] == spec_chain(
        b,
        ids,
    )[j] by {
        assert(a.obj(ids[j]) == b.obj(ids[j]));
    }
    assert(spec_chain(a, ids) =~= spec_chain(b, ids));
}

/// The native methods of the type `t`, none where it has no table of them.
pub open spec fn spec_methods(rt: Runtime, t: ObjId) -> Seq<ObjId> {
    match rt.tp(t).tp_methods {
        Some(ms) => ms@,
        None => Seq::empty(),
    }
}

/// The attribute dictionary of the type `t` after readiness: its own, or
/// the next object that the arena gets.
pub open spec fn spec_ready_dict(rt: Runtime, t: ObjId) -> ObjId {
    match rt.tp(t).tp_dict {
        Some(d) => d,
        None => rt.objects@.len() as usize,
    }
}

/// `cur` is `prev` after the readiness of the type `t`.
///
/// The type has an attribute dictionary, which holds its native methods if it
/// was made for it; a base, unless it is `object`; a list of bases; a method
/// resolution order that starts with the type and goes on with the merge of
/// the orders of its bases; the slots that its dictionary defines, and every
/// other slot from the first ancestor that sets it; and the generic attribute
/// read and write where neither it nor an ancestor has one. Its name, its
/// native methods and its subclasses are as before.
pub open spec fn readied(prev: Runtime, cur: Runtime, t: ObjId) -> bool {
    let o = prev.tp(t);
    let base = spec_ready_base(t, o.tp_base);
    let bases = spec_ready_bases(base, o@.bases);
    let mro = spec_ready_mro(prev, t, bases);
    let d = spec_ready_dict(prev, t);
    let slots = spec_ready_slots(prev, o.spec_slots(), cur.dict_entries(d), base, mro);
    &&& cur.is_type(t)
    &&& cur.is_dict(d)
    &&& mro is Some
    &&& cur.tp(t)@ == (TypeView {
        base: base,
        bases: bases,
        mro: mro,
        dict: Some(d),
        call: slots.tp_call,
        iter: slots.tp_iter,
        iternext: slots.tp_iternext,
        getattro: slots.tp_getattro,
        setattro: slots.tp_setattro,
        hash: slots.tp_hash,
        bool_: slots.tp_bool,
        eq: slots.tp_fun_eq,
        add: slots.tp_fun_add,
        lt: slots.tp_fun_lt,
        len: slots.tp_len,
        new: slots.tp_new,
        init: slots.tp_init,
        ..o@
    })
    &&& match o.tp_dict {
        Some(_) => cur.objects@.len() == prev.objects@.len() && cur.dict_entries(d)
            == prev.dict_entries(d),
        None => cur.objects@.len() == d + 1 + spec_methods(prev, t).len() && cur.dict_entries(d)
            == spec_methods_dict(prev, spec_methods(prev, t), d + 1, spec_methods(prev, t).len())
            && crate::object::strobj::strings_at(
            cur,
            d + 1,
            spec_method_names(prev, spec_methods(prev, t)),
        ),
    }
}

/// Readiness. Fills the type `obj` from its dictionary, its bases and its
/// native methods, as [`readied`] says. Fails, with the type partly filled,
/// where the orders of its bases cannot be merged.
pub fn pytype_ready(rt: &mut Runtime, obj: ObjId) -> (r: PyRes<()>)
    requires
        old(rt).wf(),
        old(rt).is_type(obj),
    ensures
        pytype_ready_post(*old(rt), *final(rt), obj, r),
{
    let ghost rt0 = *rt;
    ready_dict(rt, obj);
    let ghost rt1 = *rt;
    let count = rt.objects.len();
    proof {
        assert(rt0.objects@.len() <= count);
    }
    ready_bases(rt, obj);
    let ghost rt2 = *rt;
    let ghost bases = rt2.tp(obj)@.bases;
    let ghost base = rt2.tp(obj).tp_base;
    let ghost d = spec_ready_dict(rt0, obj);
    proof {
        rt0.lemma_obj(obj);
        rt2.lemma_obj(obj);
        lemma_extends_trans(rt0, rt1, rt2);
        assert(bases == spec_ready_bases(
            spec_ready_base(obj, rt0.tp(obj).tp_base),
            rt0.tp(obj)@.bases,
        ));
        match bases {
            Some(bs) => {
                assert forall|j: int| 0 <= j < bs.len() implies opt_seq(
                    rt2.tp(#[trigger] bs[j]).tp_mro,
                ) == opt_seq(rt0.tp(bs[j]).tp_mro) by {
                    assert(rt2.is_type(bs[j]) && bs[j] < obj);
                    assert(rt2.objects@[bs[j] as int] == rt1.objects@[bs[j] as int]);
                    assert(rt1.objects@[bs[j] as int] == rt0.objects@[bs[j] as int]);
                }
                lemma_base_mros_frame(rt2, rt0, bs, bs.len());
            },
            None => {},
        }
        assert(spec_ready_mro(rt2, obj, bases) == spec_ready_mro(rt0, obj, bases));
    }
    match ready_mro(rt, obj) {
        Ok(()) => {},
        Err(e) => {
            proof {
                lemma_extends_trans(rt0, rt2, *rt);
                assert forall|i: int|
                    0 <= i < rt0.objects@.len() && i != obj implies #[trigger] rt.objects@[i]
                    == rt0.objects@[i] by {
                    assert(rt.objects@[i] == rt2.objects@[i]);
                    assert(rt2.objects@[i] == rt1.objects@[i]);
                }
            }
            return Err(e);
        },
    }
    let ghost rt3 = *rt;
    let ghost mro = rt3.tp(obj)@.mro;
    proof {
        lemma_extends_trans(rt0, rt2, rt3);
        assert(rt3.objects@[d as int] == rt2.objects@[d as int]);
        assert(rt2.objects@[d as int] == rt1.objects@[d as int]);
    }
    ready_slots(rt, obj);
    proof {
        if rt0.tp(obj).tp_dict is None {
            let names = spec_method_names(rt0, spec_methods(rt0, obj));
            assert(obj < d);
            lemma_strings_kept(rt1, rt2, obj, d + 1, names);
            lemma_strings_kept(rt2, rt3, obj, d + 1, names);
            lemma_strings_kept(rt3, *rt, obj, d + 1, names);
        }
        lemma_extends_trans(rt0, rt3, *rt);
        assert forall|i: int|
            0 <= i < rt0.objects@.len() && i != obj implies #[trigger] rt.objects@[i]
            == rt0.objects@[i] by {
            assert(rt.objects@[i] == rt3.objects@[i]);
            assert(rt3.objects@[i] == rt2.objects@[i]);
            assert(rt2.objects@[i] == rt1.objects@[i]);
        }
        assert(rt.objects@[d as int] == rt3.objects@[d as int]);
        let ids = spec_chain_ids(base, mro);
        assert forall|j: int| 0 <= j < ids.len() implies rt3.obj(#[trigger] ids[j]) == rt0.obj(
            ids[j],
        ) by {
            let x = ids[j];
            if base is Some && j == 0 {
                assert(x == base->Some_0);
                assert(x < obj);
            } else {
                let m = mro->Some_0;
                let k = if base is Some {
                    j
                } else {
                    j + 1
                };
                assert(x == m[k]);
                lemma_ready_mro_below(rt0, obj, bases, k);
            }
            assert(rt3.objects@[x as int] == rt2.objects@[x as int]);
            assert(rt2.objects@[x as int] == rt1.objects@[x as int]);
            assert(rt1.objects@[x as int] == rt0.objects@[x as int]);
        }
        lemma_chain_frame(rt3, rt0, ids);
    }
    Ok(())
}

/// The type `t` is ready: readiness would change none of its fields.
pub open spec fn is_ready(rt: Runtime, t: ObjId) -> bool {
    let o = rt.tp(t);
    &&& rt.is_type(t)
    &&& o.tp_dict is Some
    &&& rt.is_dict(o.tp_dict->Some_0)
    &&& spec_ready_base(t, o.tp_base) == o.tp_base
    &&& spec_ready_bases(o.tp_base, o@.bases) == o@.bases
    &&& o@.mro is Some
    &&& spec_ready_mro(rt, t, o@.bases) == o@.mro
    &&& spec_ready_slots(
        rt,
        o.spec_slots(),
        rt.dict_entries(o.tp_dict->Some_0),
        o.tp_base,
        o@.mro,
    ) == o.spec_slots()
    &&& o.tp_getattro is Some
    &&& o.tp_setattro is Some
}

/// The object at `x` is in `b` what it is in `a`, or a type with the same
/// fields.
pub open spec fn same_view_at(a: Runtime, b: Runtime, x: ObjId) -> bool {
    b.obj(x) == a.obj(x) || {
        &&& b.obj(x).ob_type == a.obj(x).ob_type
        &&& b.obj(x).ob_dict == a.obj(x).ob_dict
        &&& a.obj(x).inner is TypeObj
        &&& b.obj(x).inner is TypeObj
        &&& b.tp(x)@ == a.tp(x)@
    }
}

/// Every object of `a` is in `b` what it is in `a`, or a type with the same
/// fields.
pub open spec fn same_views(a: Runtime, b: Runtime) -> bool {
    &&& a.objects@.len() <= b.objects@.len()
    &&& forall|x: ObjId| x < a.objects@.len() ==> #[trigger] same_view_at(a, b, x)
}

/// The slots that a dictionary defines overlay slots that were made with
/// them without changing them.
pub proof fn lemma_dict_slots_twice(entries: Seq<Entry>, own: Slots, chain: Seq<Slots>, n: nat)
    requires
        n <= chain.len(),
    ensures
        spec_dict_slots(
            entries,
            spec_attro_defaults(spec_inherit_chain(spec_dict_slots(entries, own), chain, n)),
        ) == spec_attro_defaults(spec_inherit_chain(spec_dict_slots(entries, own), chain, n)),
{
    lemma_chain_keeps(spec_dict_slots(entries, own), chain, 0, n);
}

/// A ready type is ready in every runtime in which the objects up to the
/// type, and the dictionaries, have the same fields.
pub proof fn lemma_ready_frame(a: Runtime, b: Runtime, t: ObjId)
    requires
        a.wf(),
        is_ready(a, t),
        a.objects@.len() <= b.objects@.len(),
        forall|x: ObjId|
            x < a.objects@.len() && (x <= t || a.obj(x).inner is DictObj) ==> #[trigger] same_view_at(
                a,
                b,
                x,
            ),
    ensures
        is_ready(b, t),
{
    let o = a.tp(t);
    let d = o.tp_dict->Some_0;
    a.lemma_obj(t);
    assert(same_view_at(a, b, t));
    assert(same_view_at(a, b, d));
    let bases = o@.bases;
    let mro = o@.mro;
    match bases {
        Some(bs) => {
            assert forall|j: int| 0 <= j < bs.len() implies opt_seq(
                a.tp(#[trigger] bs[j]).tp_mro,
            ) == opt_seq(b.tp(bs[j]).tp_mro) by {
                assert(a.is_type(bs[j]));
                assert(same_view_at(a, b, bs[j]));
            }
            lemma_base_mros_frame(a, b, bs, bs.len());
        },
        None => {},
    }
    let ids = spec_chain_ids(o.tp_base, mro);
    assert forall|j: int| 0 <= j < ids.len() implies spec_chain(a, ids)[j] == spec_chain(
        b,
        ids,
    )[j] by {
        let x = ids[j];
        if o.tp_base is Some && j == 0 {
            assert(a.is_type(x));
        } else {
            let m = mro->Some_0;
            let k = if o.tp_base is Some {
                j
            } else {
                j + 1
            };
            assert(x == m[k]);
            assert(a.is_type(m[k]));
        }
        assert(same_view_at(a, b, x));
    }
    assert(spec_chain(a, ids) =~= spec_chain(b, ids));
}

/// Objects that have the same fields in `b` as in `a`, and in `c` as in
/// `b`, have the same fields in `c` as in `a`.
pub proof fn lemma_same_views_trans(a: Runtime, b: Runtime, c: Runtime)
    requires
        same_views(a, b),
        same_views(b, c),
    ensures
        same_views(a, c),
{
    assert forall|x: ObjId| x < a.objects@.len() implies #[trigger] same_view_at(a, c, x) by {
        assert(same_view_at(a, b, x));
        assert(same_view_at(b, c, x));
    }
}

/// Readiness makes a type ready.
pub proof fn lemma_readied_is_ready(prev: Runtime, cur: Runtime, t: ObjId)
    requires
        prev.wf(),
        prev.is_type(t),
        cur.wf(),
        grew_except(prev, cur, t),
        readied(prev, cur, t),
    ensures
        is_ready(cur, t),
{
    let o = prev.tp(t);
    let n = cur.tp(t);
    let base = n.tp_base;
    let bases = n@.bases;
    let mro = n@.mro;
    let d = spec_ready_dict(prev, t);
    cur.lemma_obj(t);
    prev.lemma_obj(t);
    match bases {
        Some(bs) => {
            assert forall|j: int| 0 <= j < bs.len() implies opt_seq(
                cur.tp(#[trigger] bs[j]).tp_mro,
            ) == opt_seq(prev.tp(bs[j]).tp_mro) by {
                assert(cur.is_type(bs[j]) && bs[j] < t);
                assert(cur.objects@[bs[j] as int] == prev.objects@[bs[j] as int]);
            }
            lemma_base_mros_frame(cur, prev, bs, bs.len());
        },
        None => {},
    }
    assert(spec_ready_mro(cur, t, bases) == spec_ready_mro(prev, t, bases));
    let ids = spec_chain_ids(base, mro);
    assert forall|j: int| 0 <= j < ids.len() implies cur.obj(#[trigger] ids[j]) == prev.obj(
        ids[j],
    ) by {
        let x = ids[j];
        if base is Some && j == 0 {
            assert(x < t);
        } else {
            let m = mro->Some_0;
            let k = if base is Some {
                j
            } else {
                j + 1
            };
            assert(x == m[k]);
            assert forall|i: int| 0 <= i < bases->Some_0.len() implies prev.is_type(
                #[trigger] bases->Some_0[i],
            ) && bases->Some_0[i] < t by {
                assert(cur.is_type(bases->Some_0[i]) && bases->Some_0[i] < t);
                assert(cur.objects@[bases->Some_0[i] as int]
                    == prev.objects@[bases->Some_0[i] as int]);
            }
            lemma_ready_mro_below(prev, t, bases, k);
        }
        assert(cur.objects@[x as int] == prev.objects@[x as int]);
    }
    lemma_chain_frame(cur, prev, ids);
    let entries = cur.dict_entries(d);
    let chain = spec_chain(prev, ids);
    let s0 = spec_dict_slots(entries, o.spec_slots());
    let s = spec_attro_defaults(spec_inherit_chain(s0, chain, ids.len()));
    assert(n.spec_slots() == s);
    lemma_dict_slots_twice(entries, o.spec_slots(), chain, ids.len());
    crate::object::typeobj::lemma_ready_slots_stable(s0, chain, ids.len(), ids.len());
}

/// MRO well-formedness. The method resolution order of a ready type
/// starts with the type itself, and the order of each of its bases that
/// has one is a subsequence of it: the ancestors of the base come in the
/// same order among the ancestors of the type.
pub proof fn lemma_mro_well_formed(rt: Runtime, t: ObjId, j: int)
    requires
        rt.wf(),
        is_ready(rt, t),
    ensures
        rt.tp(t)@.mro->Some_0.len() > 0,
        rt.tp(t)@.mro->Some_0[0] == t,
        rt.tp(t)@.bases matches Some(bs) ==> (0 <= j < bs.len() ==> (rt.tp(
            bs[j],
        )@.mro matches Some(bm) ==> is_subseq(bm, rt.tp(t)@.mro->Some_0))),
{
    let o = rt.tp(t);
    let mro = o@.mro->Some_0;
    match o@.bases {
        Some(bs) => {
            let lists = spec_base_mros(rt, bs, bs.len());
            let m = spec_linearize(lists)->Some_0;
            assert(mro == seq![t] + m);
            if 0 <= j < bs.len() {
                match rt.tp(bs[j])@.mro {
                    Some(bm) => {
                        if bm.len() > 0 {
                            lemma_base_mros_has(rt, bs, bs.len(), j);
                            let k = choose|k: int|
                                0 <= k < lists.len() && #[trigger] lists[k] == rt.tp(
                                    bs[j],
                                ).tp_mro->Some_0@;
                            lemma_linearize_keeps_order(lists, k);
                            lemma_subseq_cons(bm, m, t);
                        }
                    },
                    None => {},
                }
            }
        },
        None => {},
    }
}

/// Readiness is idempotent: on a ready type it changes no field of the
/// type, makes no object, and leaves the type's dictionary as it is.
pub proof fn lemma_ready_again(prev: Runtime, cur: Runtime, t: ObjId)
    requires
        is_ready(prev, t),
        readied(prev, cur, t),
    ensures
        cur.tp(t)@ == prev.tp(t)@,
        cur.objects@.len() == prev.objects@.len(),
        cur.dict_entries(prev.tp(t).tp_dict->Some_0) == prev.dict_entries(
            prev.tp(t).tp_dict->Some_0,
        ),
{
}

/// Slot monotonicity. After readiness, a slot that neither the type nor
/// its dictionary sets is the slot of the first of the type's ancestors
/// that sets it: if the ancestor `k` of the chain sets the slot and none
/// before it does, the type has that ancestor's slot.
pub proof fn lemma_ready_slot_from_nearest_ancestor(prev: Runtime, cur: Runtime, t: ObjId, k: int)
    requires
        readied(prev, cur, t),
        0 <= k < spec_chain_ids(cur.tp(t).tp_base, cur.tp(t)@.mro).len(),
    ensures
        ({
            let ids = spec_chain_ids(cur.tp(t).tp_base, cur.tp(t)@.mro);
            let chain = spec_chain(prev, ids);
            let own = spec_dict_slots(
                cur.dict_entries(spec_ready_dict(prev, t)),
                prev.tp(t).spec_slots(),
            );
            let r = cur.tp(t).spec_slots();
            &&& own.tp_hash is None && chain[k].tp_hash is Some && (forall|j: int|
                0 <= j < k ==> (#[trigger] chain[j]).tp_hash is None) ==> r.tp_hash
                == chain[k].tp_hash
            &&& own.tp_bool is None && chain[k].tp_bool is Some && (forall|j: int|
                0 <= j < k ==> (#[trigger] chain[j]).tp_bool is None) ==> r.tp_bool
                == chain[k].tp_bool
            &&& own.tp_fun_eq is None && chain[k].tp_fun_eq is Some && (forall|j: int|
                0 <= j < k ==> (#[trigger] chain[j]).tp_fun_eq is None) ==> r.tp_fun_eq
                == chain[k].tp_fun_eq
            &&& own.tp_fun_add is None && chain[k].tp_fun_add is Some && (forall|j: int|
                0 <= j < k ==> (#[trigger] chain[j]).tp_fun_add is None) ==> r.tp_fun_add
                == chain[k].tp_fun_add
            &&& own.tp_fun_lt is None && chain[k].tp_fun_lt is Some && (forall|j: int|
                0 <= j < k ==> (#[trigger] chain[j]).tp_fun_lt is None) ==> r.tp_fun_lt
                == chain[k].tp_fun_lt
            &&& own.tp_len is None && chain[k].tp_len is Some && (forall|j: int|
                0 <= j < k ==> (#[trigger] chain[j]).tp_len is None) ==> r.tp_len
                == chain[k].tp_len
            &&& own.tp_new is None && chain[k].tp_new is Some && (forall|j: int|
                0 <= j < k ==> (#[trigger] chain[j]).tp_new is None) ==> r.tp_new
                == chain[k].tp_new
            &&& own.tp_init is None && chain[k].tp_init is Some && (forall|j: int|
                0 <= j < k ==> (#[trigger] chain[j]).tp_init is None) ==> r.tp_init
                == chain[k].tp_init
            &&& own.tp_call is None && chain[k].tp_call is Some && (forall|j: int|
                0 <= j < k ==> (#[trigger] chain[j]).tp_call is None) ==> r.tp_call
                == chain[k].tp_call
            &&& own.tp_iter is None && chain[k].tp_iter is Some && (forall|j: int|
                0 <= j < k ==> (#[trigger] chain[j]).tp_iter is None) ==> r.tp_iter
                == chain[k].tp_iter
            &&& own.tp_iternext is None && chain[k].tp_iternext is Some && (forall|j: int|
                0 <= j < k ==> (#[trigger] chain[j]).tp_iternext is None) ==> r.tp_iternext
                == chain[k].tp_iternext
            &&& own.tp_getattro is None && chain[k].tp_getattro is Some && (forall|j: int|
                0 <= j < k ==> (#[trigger] chain[j]).tp_getattro is None) ==> r.tp_getattro
                == chain[k].tp_getattro
            &&& own.tp_setattro is None && chain[k].tp_setattro is Some && (forall|j: int|
                0 <= j < k ==> (#[trigger] chain[j]).tp_setattro is None) ==> r.tp_setattro
                == chain[k].tp_setattro
        }),
{
    let ids = spec_chain_ids(cur.tp(t).tp_base, cur.tp(t)@.mro);
    let chain = spec_chain(prev, ids);
    let own = spec_dict_slots(
        cur.dict_entries(spec_ready_dict(prev, t)),
        prev.tp(t).spec_slots(),
    );
    crate::object::typeobj::lemma_slot_from_nearest_ancestor(own, chain, ids.len(), k);
}

/// A type descriptor with the name `name`, the dictionary `dict` and the
/// bases `bases`, and nothing else.
pub fn blank_type(name: String, dict: Option<ObjId>, bases: Option<Vec<ObjId>>) -> (t:
    PyTypeObject)
    ensures
        t@ == spec_blank_type(name@, dict, opt_seq(bases)),
        t.tp_name == name,
        t.tp_dict == dict,
        t.tp_bases == bases,
{
    PyTypeObject {
        tp_name: name,
        tp_base: None,
        tp_hash: None,
        tp_bool: None,
        tp_fun_eq: None,
        tp_fun_add: None,
        tp_fun_lt: None,
        tp_len: None,
        tp_call: None,
        tp_getattro: None,
        tp_setattro: None,
        tp_iter: None,
        tp_iternext: None,
        tp_methods: None,
        tp_dict: dict,
        tp_bases: bases,
        tp_mro: None,
        tp_subclasses: None,
        tp_new: None,
        tp_init: None,
    }
}

impl PyObject {
    /// Makes a new type without a name, links or slots. Its type is `type`.
    pub fn pytype_new(rt: &mut Runtime) -> (id: ObjId)
        requires
            old(rt).wf(),
        ensures
            final(rt).wf(),
            final(rt).extends(*old(rt)),
            final(rt).only_grew(*old(rt)),
            id == old(rt).objects@.len(),
            final(rt).objects@.len() == id + 1,
            final(rt).obj(id).ob_type == PY_TYPE_TYPE,
            final(rt).obj(id).ob_dict.is_none(),
            final(rt).is_type(id),
            final(rt).tp(id)@ == spec_blank_type(Seq::empty(), None, None),
    {
        let tp = blank_type(String::new(), None, None);
        rt.new_object(
            PyObject { ob_type: PY_TYPE_TYPE, ob_dict: None, inner: PyInnerObject::TypeObj(tp) },
        )
    }
}

/// What the three arguments of a class construction stand for: the name, the
/// bases and the dictionary. `None` unless there are three arguments, of
/// which the first is a string, the second a list of types and the third a
/// dictionary.
pub open spec fn spec_type_new_args(rt: Runtime, args: Seq<ObjId>) -> Option<
    (Seq<char>, Seq<ObjId>, ObjId),
> {
    if args.len() != 3 {
        None
    } else {
        match (spec_str_value(rt, args[0]), spec_list_value(rt, args[1])) {
            (Some(name), Some(bases)) => if rt.is_dict(args[2]) && forall|j: int|
                0 <= j < bases.len() ==> rt.is_type(#[trigger] bases[j]) {
                Some((name, bases, args[2]))
            } else {
                None
            },
            _ => None,
        }
    }
}

/// The recorded subclasses `subs` of the type `b` after a class `cls` with
/// the bases `bases` has been recorded with the first `n` of its bases.
pub open spec fn spec_registered(
    subs: Option<Seq<ObjId>>,
    bases: Seq<ObjId>,
    b: ObjId,
    cls: ObjId,
    n: nat,
) -> Option<Seq<ObjId>>
    decreases n,
{
    if n == 0 {
        subs
    } else {
        let before = spec_registered(subs, bases, b, cls, (n - 1) as nat);
        if bases[n - 1] == b {
            Some(
                match before {
                    Some(ss) => ss.push(cls),
                    None => seq![cls],
                },
            )
        } else {
            before
        }
    }
}

/// `cur` is `prev` with a new class at the end of the arena, named `name`,
/// with the dictionary `dict` and the bases `bases`, and recorded as a
/// subclass with the first `n` of its bases.
pub open spec fn class_registered(
    prev: Runtime,
    cur: Runtime,
    name: Seq<char>,
    bases: Seq<ObjId>,
    dict: ObjId,
    n: nat,
) -> bool {
    let cls = prev.objects@.len() as usize;
    &&& cur.objects@.len() == cls + 1
    &&& cur.envs == prev.envs
    &&& cur.exc == prev.exc
    &&& cur.fuel == prev.fuel
    &&& cur.obj(cls).ob_type == PY_TYPE_TYPE
    &&& cur.obj(cls).ob_dict.is_none()
    &&& cur.is_type(cls)
    &&& cur.tp(cls)@ == spec_blank_type(name, Some(dict), Some(bases))
    &&& forall|x: ObjId|
        x < cls ==> if prev.is_type(x) {
            &&& (#[trigger] cur.obj(x)).ob_type == prev.obj(x).ob_type
            &&& cur.obj(x).ob_dict == prev.obj(x).ob_dict
            &&& cur.is_type(x)
            &&& cur.tp(x)@ == (TypeView {
                subclasses: spec_registered(prev.tp(x)@.subclasses, bases, x, cls, n),
                ..prev.tp(x)@
            })
        } else {
            cur.obj(x) == prev.obj(x)
        }
}

/// `cur` is `prev` after the construction of a class out of `name`, `bases`
/// and `dict`, with the result `r`: in the state `mid` between the two the
/// class is recorded with its bases, and `cur` is that state after the
/// readiness of the class. The construction fails where the orders of the
/// bases cannot be merged.
pub open spec fn class_made(
    prev: Runtime,
    mid: Runtime,
    cur: Runtime,
    name: Seq<char>,
    bases: Seq<ObjId>,
    dict: ObjId,
    r: PyRes<ObjId>,
) -> bool {
    let cls = prev.objects@.len() as usize;
    &&& mid.wf()
    &&& class_registered(prev, mid, name, bases, dict, bases.len())
    &&& grew_except(mid, cur, cls)
    &&& match spec_ready_mro(mid, cls, spec_ready_bases(Some(PY_BASEOBJ_TYPE), Some(bases))) {
        Some(_) => r == Ok::<ObjId, PyErr>(cls) && readied(mid, cur, cls),
        None => r is Err && r->Err_0 is MroConflict,
    }
}

/// Class construction. Makes a new class out of a name, a list of bases and
/// a dictionary, records it as a subclass with each of its bases, and
/// readies it.
pub fn type_new(rt: &mut Runtime, meta: ObjId, args: &Vec<ObjId>) -> (r: PyRes<ObjId>)
    requires
        old(rt).wf(),
        old(rt).valid(meta),
        old(rt).all_valid(args@),
    ensures
        type_new_post(*old(rt), *final(rt), meta, args@, r),
{
    proof {
        lemma_extends_refl(*old(rt));
    }
    if args.len() != 3 {
        return Err(PyErr::TypeError("type() takes 1 or 3 arguments"));
    }
    assert(rt.valid(args@[0]) && rt.valid(args@[1]) && rt.valid(args@[2]));
    let name = match pyobj_to_string(rt, args[0]) {
        Ok(s) => s,
        Err(e) => {
            return Err(e);
        },
    };
    let bases: Vec<ObjId> = match &rt.objects[args[1]].inner {
        PyInnerObject::ListObj(l) => clone_ids(&l.list),
        _ => {
            return Err(PyErr::TypeError("bases must be a list"));
        },
    };
    let dictobj = args[2];
    match &rt.objects[dictobj].inner {
        PyInnerObject::DictObj(_) => {},
        _ => {
            return Err(PyErr::TypeError("dict object expected"));
        },
    }
    let mut k: usize = 0;
    proof {
        old(rt).lemma_obj(args@[1]);
    }
    while k < bases.len()
        invariant
            k <= bases@.len(),
            *rt == *old(rt),
            rt.wf(),
            args@.len() == 3,
            rt.valid(args@[1]),
            spec_list_value(*rt, args@[1]) == Some(bases@),
            spec_str_value(*rt, args@[0]) is Some,
            rt.is_dict(args@[2]),
            rt.all_valid(bases@),
            forall|j: int| 0 <= j < k ==> rt.is_type(#[trigger] bases@[j]),
        decreases bases@.len() - k,
    {
        assert(rt.valid(bases@[k as int]));
        match &rt.objects[bases[k]].inner {
            PyInnerObject::TypeObj(_) => {},
            _ => {
                proof {
                    assert(!rt.is_type(bases@[k as int]));
                }
                return Err(PyErr::TypeError("bases must be types"));
            },
        }
        k = k + 1;
    }
    proof {
        old(rt).lemma_obj(args@[1]);
    }
    let ghost name_view = name@;
    let tp = blank_type(name, Some(dictobj), Some(clone_ids(&bases)));
    let cls = rt.new_object(
        PyObject { ob_type: PY_TYPE_TYPE, ob_dict: None, inner: PyInnerObject::TypeObj(tp) },
    );
    let ghost s0 = *old(rt);
    let mut i: usize = 0;
    proof {
        assert(spec_type_new_args(s0, args@) == Some((name_view, bases@, dictobj)));
        assert forall|x: ObjId| x < cls implies if s0.is_type(x) {
            &&& (#[trigger] rt.obj(x)).ob_type == s0.obj(x).ob_type
            &&& rt.obj(x).ob_dict == s0.obj(x).ob_dict
            &&& rt.is_type(x)
            &&& rt.tp(x)@ == (TypeView {
                subclasses: spec_registered(s0.tp(x)@.subclasses, bases@, x, cls, 0),
                ..s0.tp(x)@
            })
        } else {
            rt.obj(x) == s0.obj(x)
        } by {
            assert(rt.objects@[x as int] == s0.objects@[x as int]);
        }
    }
    while i < bases.len()
        invariant
            i <= bases@.len(),
            s0 == *old(rt),
            s0.wf(),
            cls == s0.objects@.len(),
            rt.wf(),
            rt.extends(s0),
            forall|j: int| 0 <= j < bases@.len() ==> s0.is_type(#[trigger] bases@[j]),
            spec_type_new_args(s0, args@) == Some((name_view, bases@, dictobj)),
            class_registered(s0, *rt, name_view, bases@, dictobj, i as nat),
        decreases bases@.len() - i,
    {
        let b = bases[i];
        let ghost before = *rt;
        proof {
            assert(s0.is_type(bases@[i as int]));
            assert(before.obj(b).ob_type == s0.obj(b).ob_type);
        }
        rt.push_subclass(b, cls);
        proof {
            lemma_extends_trans(s0, before, *rt);
            assert forall|x: ObjId| x < cls implies if s0.is_type(x) {
                &&& (#[trigger] rt.obj(x)).ob_type == s0.obj(x).ob_type
                &&& rt.obj(x).ob_dict == s0.obj(x).ob_dict
                &&& rt.is_type(x)
                &&& rt.tp(x)@ == (TypeView {
                    subclasses: spec_registered(
                        s0.tp(x)@.subclasses,
                        bases@,
                        x,
                        cls,
                        (i + 1) as nat,
                    ),
                    ..s0.tp(x)@
                })
            } else {
                rt.obj(x) == s0.obj(x)
            } by {
                assert(before.obj(x).ob_type == s0.obj(x).ob_type);
                if x != b {
                    assert(rt.objects@[x as int] == before.objects@[x as int]);
                }
            }
            assert(rt.objects@[cls as int] == before.objects@[cls as int]);
        }
        i = i + 1;
    }
    let ghost mid = *rt;
    proof {
        mid.lemma_obj(cls);
        assert(spec_ready_base(cls, mid.tp(cls).tp_base) == Some(PY_BASEOBJ_TYPE));
    }
    let res = pytype_ready(rt, cls);
    let r = match res {
        Ok(()) => Ok(cls),
        Err(e) => Err(e),
    };
    proof {
        lemma_extends_trans(s0, mid, *rt);
        assert(class_made(*old(rt), mid, *rt, name_view, bases@, dictobj, r));
        assert(spec_type_new_args(*old(rt), args@) == Some((name_view, bases@, dictobj)));
        let t = spec_type_new_args(*old(rt), args@)->Some_0;
        assert(t.0 == name_view && t.1 == bases@ && t.2 == dictobj);
        assert(class_made(*old(rt), mid, *rt, t.0, t.1, t.2, r));
    }
    r
}

/// What `type_new` does: the state before the call, and the state and the result
/// after it.
pub open spec fn type_new_post(
    prt: Runtime,
    rt: Runtime,
    meta: ObjId,
    args: Seq<ObjId>,
    r: PyRes<ObjId>,
) -> bool {
    &&& rt.wf()
    &&& rt.extends(prt)
    &&& match spec_type_new_args(prt, args) {
            None => r is Err && r->Err_0 is TypeError && rt.objects@ == prt.objects@,
            Some((name, bases, dict)) => exists|mid: Runtime| #[trigger]
                class_made(prt, mid, rt, name, bases, dict, r),
        }
    &&& r matches Ok(cls) ==> rt.is_type(cls)
}

/// What `pytype_ready` does: the state before the call, and the state and the result
/// after it.
pub open spec fn pytype_ready_post(
    prt: Runtime,
    rt: Runtime,
    obj: ObjId,
    r: PyRes<()>,
) -> bool {
    &&& rt.wf()
    &&& rt.extends(prt)
    &&& grew_except(prt, rt, obj)
    &&& rt.is_type(obj)
    &&& match spec_ready_mro(
            prt,
            obj,
            spec_ready_bases(
                spec_ready_base(obj, prt.tp(obj).tp_base),
                prt.tp(obj)@.bases,
            ),
        ) {
            Some(_) => r is Ok && readied(prt, rt, obj),
            None => r is Err && r->Err_0 is MroConflict,
        }
}

} // verus!
