use vstd::prelude::*;
use vstd::string::StringExecFns;
use vstd::std_specs::hash::DefaultHasherAdditionalSpecFns;
use std::collections::hash_map::DefaultHasher;
use core::hash::Hasher;
use crate::object::{
    lemma_wf_after_update, type_ok, ObjId, PyInnerObject, PyObject, Runtime, PY_BASEEXC_TYPE,
    PY_EXC_TYPE, PY_LIST_APPEND, PY_LONG_TYPE, PY_TYPE_TYPE,
};

verus! {

/// How a type hashes its instances.
#[derive(Clone, Copy, Debug, PartialEq, Eq, Structural)]
pub enum HashFun {
    /// By identity: the hash of the object's index.
    DefaultHash,
    /// By the integer's value.
    LongHash,
    /// By the string's text.
    StrHash,
}

/// A slot that takes one operand.
#[derive(Clone, Copy, Debug, PartialEq, Eq, Structural)]
pub enum UnaryOp {
    LongBool,
    ListBool,
    ListLen,
    DictLen,
    StrLen,
    /// Calls the callable object with the operand.
    Wrapped(ObjId),
}

/// A slot that takes two operands.
#[derive(Clone, Copy, Debug, PartialEq, Eq, Structural)]
pub enum BinaryOp {
    LongEq,
    LongAdd,
    LongLt,
    StrEq,
    StrAdd,
    TypeEq,
    /// Calls the callable object with the two operands.
    Wrapped(ObjId),
}

/// A slot that takes a receiver and an argument vector.
#[derive(Clone, Copy, Debug, PartialEq, Eq, Structural)]
pub enum VarArgFun {
    TypeCall,
    TypeNew,
    ObjectNew,
    BaseExcNew,
    /// Calls the callable object with the receiver put before the arguments.
    Wrapped(ObjId),
}

/// The attribute-read slot.
#[derive(Clone, Copy, Debug, PartialEq, Eq, Structural)]
pub enum GetAttroFun {
    Generic,
    Type,
}

/// The attribute-write slot.
#[derive(Clone, Copy, Debug, PartialEq, Eq, Structural)]
pub enum SetAttroFun {
    Generic,
    Type,
}

/// The slot that makes an iterator.
#[derive(Clone, Copy, Debug, PartialEq, Eq, Structural)]
pub enum GetIterFun {
    ListIter,
}

/// The slot that advances an iterator.
#[derive(Clone, Copy, Debug, PartialEq, Eq, Structural)]
pub enum IterNextFun {
    ListIterNext,
}

/// A type descriptor: name, inheritance links, attribute dictionary and slots.
pub struct PyTypeObject {
    pub tp_name: String,
    pub tp_base: Option<ObjId>,
    pub tp_hash: Option<HashFun>,
    pub tp_bool: Option<UnaryOp>,
    pub tp_fun_eq: Option<BinaryOp>,
    pub tp_fun_add: Option<BinaryOp>,
    pub tp_fun_lt: Option<BinaryOp>,
    pub tp_len: Option<UnaryOp>,
    pub tp_call: Option<VarArgFun>,
    pub tp_getattro: Option<GetAttroFun>,
    pub tp_setattro: Option<SetAttroFun>,
    pub tp_iter: Option<GetIterFun>,
    pub tp_iternext: Option<IterNextFun>,
    pub tp_methods: Option<Vec<ObjId>>,
    pub tp_dict: Option<ObjId>,
    pub tp_bases: Option<Vec<ObjId>>,
    pub tp_mro: Option<Vec<ObjId>>,
    pub tp_subclasses: Option<Vec<ObjId>>,
    pub tp_new: Option<VarArgFun>,
    pub tp_init: Option<VarArgFun>,
}

/// The object that a unary slot calls, if it wraps one.
pub open spec fn unary_target(f: Option<UnaryOp>) -> Option<ObjId> {
    match f {
        Some(UnaryOp::Wrapped(o)) => Some(o),
        _ => None,
    }
}

/// The object that a binary slot calls, if it wraps one.
pub open spec fn binary_target(f: Option<BinaryOp>) -> Option<ObjId> {
    match f {
        Some(BinaryOp::Wrapped(o)) => Some(o),
        _ => None,
    }
}

/// The object that a variadic slot calls, if it wraps one.
pub open spec fn vararg_target(f: Option<VarArgFun>) -> Option<ObjId> {
    match f {
        Some(VarArgFun::Wrapped(o)) => Some(o),
        _ => None,
    }
}

/// The view of an optional vector.
pub open spec fn opt_seq(v: Option<Vec<ObjId>>) -> Option<Seq<ObjId>> {
    match v {
        Some(v) => Some(v@),
        None => None,
    }
}

/// The fields of a type descriptor as plain values.
pub struct TypeView {
    pub name: Seq<char>,
    pub base: Option<ObjId>,
    pub hash: Option<HashFun>,
    pub bool_: Option<UnaryOp>,
    pub eq: Option<BinaryOp>,
    pub add: Option<BinaryOp>,
    pub lt: Option<BinaryOp>,
    pub len: Option<UnaryOp>,
    pub call: Option<VarArgFun>,
    pub getattro: Option<GetAttroFun>,
    pub setattro: Option<SetAttroFun>,
    pub iter: Option<GetIterFun>,
    pub iternext: Option<IterNextFun>,
    pub methods: Option<Seq<ObjId>>,
    pub dict: Option<ObjId>,
    pub bases: Option<Seq<ObjId>>,
    pub mro: Option<Seq<ObjId>>,
    pub subclasses: Option<Seq<ObjId>>,
    pub new: Option<VarArgFun>,
    pub init: Option<VarArgFun>,
}

impl PyTypeObject {
    pub open spec fn view(&self) -> TypeView {
        TypeView {
            name: self.tp_name@,
            base: self.tp_base,
            hash: self.tp_hash,
            bool_: self.tp_bool,
            eq: self.tp_fun_eq,
            add: self.tp_fun_add,
            lt: self.tp_fun_lt,
            len: self.tp_len,
            call: self.tp_call,
            getattro: self.tp_getattro,
            setattro: self.tp_setattro,
            iter: self.tp_iter,
            iternext: self.tp_iternext,
            methods: opt_seq(self.tp_methods),
            dict: self.tp_dict,
            bases: opt_seq(self.tp_bases),
            mro: opt_seq(self.tp_mro),
            subclasses: opt_seq(self.tp_subclasses),
            new: self.tp_new,
            init: self.tp_init,
        }
    }
}

/// The hash of an object by identity: the hasher is fed the eight bytes of the
/// object's index, least significant first.
pub open spec fn spec_default_hash(obj: ObjId) -> u64 {
    DefaultHasher::spec_finish(seq![vstd::bytes::spec_u64_to_le_bytes(obj as u64)])
}

/// The hash of the object `obj` by identity.
pub fn default_hash(obj: ObjId) -> (h: u64)
    ensures
        h == spec_default_hash(obj),
{
    let mut hasher = DefaultHasher::new();
    let bytes = vstd::bytes::u64_to_le_bytes(obj as u64);
    hasher.write(bytes.as_slice());
    proof {
        assert(hasher@ =~= seq![vstd::bytes::spec_u64_to_le_bytes(obj as u64)]);
    }
    hasher.finish()
}

/// A copy of a vector of indices.
pub fn clone_ids(v: &Vec<ObjId>) -> (r: Vec<ObjId>)
    ensures
        r@ == v@,
{
    let mut r: Vec<ObjId> = Vec::new();
    let mut i: usize = 0;
    while i < v.len()
        invariant
            i <= v@.len(),
            r@ == v@.take(i as int),
        decreases v@.len() - i,
    {
        r.push(v[i]);
        proof {
            assert(v@.take(i as int).push(v@[i as int]) =~= v@.take(i + 1));
        }
        i = i + 1;
    }
    proof {
        assert(v@.take(v@.len() as int) =~= v@);
    }
    r
}

/// A copy of an optional vector of indices.
pub fn clone_opt_ids(v: &Option<Vec<ObjId>>) -> (r: Option<Vec<ObjId>>)
    ensures
        opt_seq(r) == opt_seq(*v),
{
    match v {
        Some(v) => Some(clone_ids(v)),
        None => None,
    }
}

impl PyObject {
    /// Whether the object's type is `type`.
    pub fn pytype_check(&self) -> (r: bool)
        ensures
            r == (self.ob_type == PY_TYPE_TYPE),
    {
        self.ob_type == PY_TYPE_TYPE
    }

    /// The type descriptor that the object holds.
    pub fn pytype_typeobj_borrow(&self) -> (t: &PyTypeObject)
        requires
            self.inner is TypeObj,
        ensures
            *t == self.inner->TypeObj_0,
    {
        match &self.inner {
            PyInnerObject::TypeObj(t) => t,
            _ => vstd::pervasive::unreached(),
        }
    }

    pub fn pytype_tp_dict(&self) -> (r: Option<ObjId>)
        requires
            self.inner is TypeObj,
        ensures
            r == self.inner->TypeObj_0.tp_dict,
    {
        self.pytype_typeobj_borrow().tp_dict
    }

    pub fn pytype_tp_iter(&self) -> (r: Option<GetIterFun>)
        requires
            self.inner is TypeObj,
        ensures
            r == self.inner->TypeObj_0.tp_iter,
    {
        self.pytype_typeobj_borrow().tp_iter
    }

    pub fn pytype_tp_iternext(&self) -> (r: Option<IterNextFun>)
        requires
            self.inner is TypeObj,
        ensures
            r == self.inner->TypeObj_0.tp_iternext,
    {
        self.pytype_typeobj_borrow().tp_iternext
    }

    pub fn pytype_tp_base(&self) -> (r: Option<ObjId>)
        requires
            self.inner is TypeObj,
        ensures
            r == self.inner->TypeObj_0.tp_base,
    {
        self.pytype_typeobj_borrow().tp_base
    }

    pub fn pytype_tp_bases(&self) -> (r: Option<Vec<ObjId>>)
        requires
            self.inner is TypeObj,
        ensures
            opt_seq(r) == opt_seq(self.inner->TypeObj_0.tp_bases),
    {
        clone_opt_ids(&self.pytype_typeobj_borrow().tp_bases)
    }

    pub fn pytype_tp_mro(&self) -> (r: Option<Vec<ObjId>>)
        requires
            self.inner is TypeObj,
        ensures
            opt_seq(r) == opt_seq(self.inner->TypeObj_0.tp_mro),
    {
        clone_opt_ids(&self.pytype_typeobj_borrow().tp_mro)
    }

    pub fn pytype_tp_subclasses(&self) -> (r: Option<Vec<ObjId>>)
        requires
            self.inner is TypeObj,
        ensures
            opt_seq(r) == opt_seq(self.inner->TypeObj_0.tp_subclasses),
    {
        clone_opt_ids(&self.pytype_typeobj_borrow().tp_subclasses)
    }

    pub fn pytype_tp_call(&self) -> (r: Option<VarArgFun>)
        requires
            self.inner is TypeObj,
        ensures
            r == self.inner->TypeObj_0.tp_call,
    {
        self.pytype_typeobj_borrow().tp_call
    }

    pub fn pytype_tp_init(&self) -> (r: Option<VarArgFun>)
        requires
            self.inner is TypeObj,
        ensures
            r == self.inner->TypeObj_0.tp_init,
    {
        self.pytype_typeobj_borrow().tp_init
    }

    pub fn pytype_tp_new(&self) -> (r: Option<VarArgFun>)
        requires
            self.inner is TypeObj,
        ensures
            r == self.inner->TypeObj_0.tp_new,
    {
        self.pytype_typeobj_borrow().tp_new
    }
}

impl PyTypeObject {
    /// The attribute dictionary of the type.
    pub fn tp_dict_ref(&self) -> (r: &Option<ObjId>)
        ensures
            *r == self.tp_dict,
    {
        &self.tp_dict
    }
}

/// The slots that a type takes over from its bases.
#[derive(Clone, Copy, Debug, PartialEq, Eq, Structural)]
pub struct Slots {
    pub tp_hash: Option<HashFun>,
    pub tp_bool: Option<UnaryOp>,
    pub tp_fun_eq: Option<BinaryOp>,
    pub tp_fun_add: Option<BinaryOp>,
    pub tp_fun_lt: Option<BinaryOp>,
    pub tp_len: Option<UnaryOp>,
    pub tp_new: Option<VarArgFun>,
    pub tp_init: Option<VarArgFun>,
    pub tp_call: Option<VarArgFun>,
    pub tp_iter: Option<GetIterFun>,
    pub tp_iternext: Option<IterNextFun>,
    pub tp_getattro: Option<GetAttroFun>,
    pub tp_setattro: Option<SetAttroFun>,
}

/// `a` where it is set, else `b`.
pub open spec fn or_else<T>(a: Option<T>, b: Option<T>) -> Option<T> {
    if a is Some {
        a
    } else {
        b
    }
}

/// The slots `own` with each unset slot taken from `base`.
pub open spec fn spec_inherit(own: Slots, base: Slots) -> Slots {
    Slots {
        tp_hash: or_else(own.tp_hash, base.tp_hash),
        tp_bool: or_else(own.tp_bool, base.tp_bool),
        tp_fun_eq: or_else(own.tp_fun_eq, base.tp_fun_eq),
        tp_fun_add: or_else(own.tp_fun_add, base.tp_fun_add),
        tp_fun_lt: or_else(own.tp_fun_lt, base.tp_fun_lt),
        tp_len: or_else(own.tp_len, base.tp_len),
        tp_new: or_else(own.tp_new, base.tp_new),
        tp_init: or_else(own.tp_init, base.tp_init),
        tp_call: or_else(own.tp_call, base.tp_call),
        tp_iter: or_else(own.tp_iter, base.tp_iter),
        tp_iternext: or_else(own.tp_iternext, base.tp_iternext),
        tp_getattro: or_else(own.tp_getattro, base.tp_getattro),
        tp_setattro: or_else(own.tp_setattro, base.tp_setattro),
    }
}

/// The slots `s` with the generic attribute read and write where `s` has
/// no slot for them.
pub open spec fn spec_attro_defaults(s: Slots) -> Slots {
    Slots {
        tp_getattro: or_else(s.tp_getattro, Some(GetAttroFun::Generic)),
        tp_setattro: or_else(s.tp_setattro, Some(SetAttroFun::Generic)),
        ..s
    }
}

/// Gives the slots `s` the generic attribute read and write where they have
/// no slot for them.
pub fn attro_defaults(s: Slots) -> (r: Slots)
    ensures
        r == spec_attro_defaults(s),
{
    let mut r = s;
    if r.tp_getattro.is_none() {
        r.tp_getattro = Some(GetAttroFun::Generic);
    }
    if r.tp_setattro.is_none() {
        r.tp_setattro = Some(SetAttroFun::Generic);
    }
    r
}

/// The slots `own` after inheriting from the first `n` entries of `chain`, in order.
pub open spec fn spec_inherit_chain(own: Slots, chain: Seq<Slots>, n: nat) -> Slots
    decreases n,
{
    if n == 0 {
        own
    } else {
        spec_inherit(spec_inherit_chain(own, chain, (n - 1) as nat), chain[n - 1])
    }
}

/// Every object that a slot of `s` wraps is an object of `objs`.
pub open spec fn slots_ok(objs: Seq<PyObject>, s: Slots) -> bool {
    &&& crate::object::opt_id_ok(objs, unary_target(s.tp_bool))
    &&& crate::object::opt_id_ok(objs, unary_target(s.tp_len))
    &&& crate::object::opt_id_ok(objs, binary_target(s.tp_fun_eq))
    &&& crate::object::opt_id_ok(objs, binary_target(s.tp_fun_add))
    &&& crate::object::opt_id_ok(objs, binary_target(s.tp_fun_lt))
    &&& crate::object::opt_id_ok(objs, vararg_target(s.tp_new))
    &&& crate::object::opt_id_ok(objs, vararg_target(s.tp_init))
    &&& crate::object::opt_id_ok(objs, vararg_target(s.tp_call))
}

/// Slot monotonicity. After inheriting along a chain of ancestors, a slot
/// that the type did not set itself is the slot of the first ancestor of the
/// chain that sets it: if ancestor `k` sets a slot and no ancestor before it
/// does, the type has that ancestor's slot.
pub proof fn lemma_slot_from_nearest_ancestor(own: Slots, chain: Seq<Slots>, n: nat, k: int)
    requires
        0 <= k < n <= chain.len(),
    ensures
        ({
            let r = spec_inherit_chain(own, chain, n);
            &&& own.tp_hash is None && chain[k].tp_hash is Some && (forall|j: int|
                0 <= j < k ==> (#[trigger] chain[j]).tp_hash is None) ==> r.tp_hash
                == chain[k].tp_hash
            &&& own.tp_bool is None && chain[k].tp_bool is Some && (forall|j: int|
                0 <= j < k ==> (#[trigger] chain[j]).tp_bool is None) ==> r.tp_bool
                == chain[k].tp_bool
            &&& own.tp_fun_eq is None && chain[k].tp_fun_eq is Some && (forall|j: int|
                0 <= j < k ==> (#[trigger] chain[j]).tp_fun_eq is None) ==> r.tp_fun_eq
                == chain[k].tp_fun_eq
            &&& own.tp_fun_add is None && chain[k].tp_fun_add is Some && (forall|j: int|
                0 <= j < k ==> (#[trigger] chain[j]).tp_fun_add is None) ==> r.tp_fun_add
                == chain[k].tp_fun_add
            &&& own.tp_fun_lt is None && chain[k].tp_fun_lt is Some && (forall|j: int|
                0 <= j < k ==> (#[trigger] chain[j]).tp_fun_lt is None) ==> r.tp_fun_lt
                == chain[k].tp_fun_lt
            &&& own.tp_len is None && chain[k].tp_len is Some && (forall|j: int|
                0 <= j < k ==> (#[trigger] chain[j]).tp_len is None) ==> r.tp_len
                == chain[k].tp_len
            &&& own.tp_new is None && chain[k].tp_new is Some && (forall|j: int|
                0 <= j < k ==> (#[trigger] chain[j]).tp_new is None) ==> r.tp_new
                == chain[k].tp_new
            &&& own.tp_init is None && chain[k].tp_init is Some && (forall|j: int|
                0 <= j < k ==> (#[trigger] chain[j]).tp_init is None) ==> r.tp_init
                == chain[k].tp_init
            &&& own.tp_call is None && chain[k].tp_call is Some && (forall|j: int|
                0 <= j < k ==> (#[trigger] chain[j]).tp_call is None) ==> r.tp_call
                == chain[k].tp_call
            &&& own.tp_iter is None && chain[k].tp_iter is Some && (forall|j: int|
                0 <= j < k ==> (#[trigger] chain[j]).tp_iter is None) ==> r.tp_iter
                == chain[k].tp_iter
            &&& own.tp_iternext is None && chain[k].tp_iternext is Some && (forall|j: int|
                0 <= j < k ==> (#[trigger] chain[j]).tp_iternext is None) ==> r.tp_iternext
                == chain[k].tp_iternext
            &&& own.tp_getattro is None && chain[k].tp_getattro is Some && (forall|j: int|
                0 <= j < k ==> (#[trigger] chain[j]).tp_getattro is None) ==> r.tp_getattro
                == chain[k].tp_getattro
            &&& own.tp_setattro is None && chain[k].tp_setattro is Some && (forall|j: int|
                0 <= j < k ==> (#[trigger] chain[j]).tp_setattro is None) ==> r.tp_setattro
                == chain[k].tp_setattro
        }),
    decreases n,
{
    lemma_chain_prefix(own, chain, k as nat);
    lemma_chain_keeps(own, chain, (k + 1) as nat, n);
}

/// After inheriting from a prefix of the chain in which no ancestor sets a
/// slot, a slot that the type did not set itself is still unset.
pub proof fn lemma_chain_prefix(own: Slots, chain: Seq<Slots>, k: nat)
    requires
        k <= chain.len(),
    ensures
        ({
            let r = spec_inherit_chain(own, chain, k);
            &&& own.tp_hash is None && (forall|j: int|
                0 <= j < k ==> (#[trigger] chain[j]).tp_hash is None) ==> r.tp_hash is None
            &&& own.tp_bool is None && (forall|j: int|
                0 <= j < k ==> (#[trigger] chain[j]).tp_bool is None) ==> r.tp_bool is None
            &&& own.tp_fun_eq is None && (forall|j: int|
                0 <= j < k ==> (#[trigger] chain[j]).tp_fun_eq is None) ==> r.tp_fun_eq is None
            &&& own.tp_fun_add is None && (forall|j: int|
                0 <= j < k ==> (#[trigger] chain[j]).tp_fun_add is None) ==> r.tp_fun_add is None
            &&& own.tp_fun_lt is None && (forall|j: int|
                0 <= j < k ==> (#[trigger] chain[j]).tp_fun_lt is None) ==> r.tp_fun_lt is None
            &&& own.tp_len is None && (forall|j: int|
                0 <= j < k ==> (#[trigger] chain[j]).tp_len is None) ==> r.tp_len is None
            &&& own.tp_new is None && (forall|j: int|
                0 <= j < k ==> (#[trigger] chain[j]).tp_new is None) ==> r.tp_new is None
            &&& own.tp_init is None && (forall|j: int|
                0 <= j < k ==> (#[trigger] chain[j]).tp_init is None) ==> r.tp_init is None
            &&& own.tp_call is None && (forall|j: int|
                0 <= j < k ==> (#[trigger] chain[j]).tp_call is None) ==> r.tp_call is None
            &&& own.tp_iter is None && (forall|j: int|
                0 <= j < k ==> (#[trigger] chain[j]).tp_iter is None) ==> r.tp_iter is None
            &&& own.tp_iternext is None && (forall|j: int|
                0 <= j < k ==> (#[trigger] chain[j]).tp_iternext is None) ==> r.tp_iternext is None
            &&& own.tp_getattro is None && (forall|j: int|
                0 <= j < k ==> (#[trigger] chain[j]).tp_getattro is None) ==> r.tp_getattro is None
            &&& own.tp_setattro is None && (forall|j: int|
                0 <= j < k ==> (#[trigger] chain[j]).tp_setattro is None) ==> r.tp_setattro is None
        }),
    decreases k,
{
    if k > 0 {
        lemma_chain_prefix(own, chain, (k - 1) as nat);
    }
}

/// Inheriting further along the chain does not change a slot that is set.
pub proof fn lemma_chain_keeps(own: Slots, chain: Seq<Slots>, m: nat, n: nat)
    requires
        m <= n <= chain.len(),
    ensures
        ({
            let a = spec_inherit_chain(own, chain, m);
            let r = spec_inherit_chain(own, chain, n);
            &&& a.tp_hash is Some ==> r.tp_hash == a.tp_hash
            &&& a.tp_bool is Some ==> r.tp_bool == a.tp_bool
            &&& a.tp_fun_eq is Some ==> r.tp_fun_eq == a.tp_fun_eq
            &&& a.tp_fun_add is Some ==> r.tp_fun_add == a.tp_fun_add
            &&& a.tp_fun_lt is Some ==> r.tp_fun_lt == a.tp_fun_lt
            &&& a.tp_len is Some ==> r.tp_len == a.tp_len
            &&& a.tp_new is Some ==> r.tp_new == a.tp_new
            &&& a.tp_init is Some ==> r.tp_init == a.tp_init
            &&& a.tp_call is Some ==> r.tp_call == a.tp_call
            &&& a.tp_iter is Some ==> r.tp_iter == a.tp_iter
            &&& a.tp_iternext is Some ==> r.tp_iternext == a.tp_iternext
            &&& a.tp_getattro is Some ==> r.tp_getattro == a.tp_getattro
            &&& a.tp_setattro is Some ==> r.tp_setattro == a.tp_setattro
        }),
    decreases n,
{
    if m < n {
        lemma_chain_keeps(own, chain, m, (n - 1) as nat);
    }
}

/// Slots that were inherited along a chain, and given the generic attribute
/// read and write where they had none, stay as they are when they inherit
/// along the chain again.
pub proof fn lemma_ready_slots_stable(own: Slots, chain: Seq<Slots>, n: nat, m: nat)
    requires
        m <= n <= chain.len(),
    ensures
        spec_inherit_chain(spec_attro_defaults(spec_inherit_chain(own, chain, n)), chain, m)
            == spec_attro_defaults(spec_inherit_chain(own, chain, n)),
    decreases m,
{
    if m > 0 {
        lemma_ready_slots_stable(own, chain, n, (m - 1) as nat);
        lemma_chain_unset(own, chain, n, m - 1);
    }
}

/// A slot that is unset after inheriting along the chain is set by no
/// ancestor of the chain.
pub proof fn lemma_chain_unset(own: Slots, chain: Seq<Slots>, n: nat, k: int)
    requires
        0 <= k < n <= chain.len(),
    ensures
        ({
            let r = spec_inherit_chain(own, chain, n);
            &&& r.tp_hash is None ==> chain[k].tp_hash is None
            &&& r.tp_bool is None ==> chain[k].tp_bool is None
            &&& r.tp_fun_eq is None ==> chain[k].tp_fun_eq is None
            &&& r.tp_fun_add is None ==> chain[k].tp_fun_add is None
            &&& r.tp_fun_lt is None ==> chain[k].tp_fun_lt is None
            &&& r.tp_len is None ==> chain[k].tp_len is None
            &&& r.tp_new is None ==> chain[k].tp_new is None
            &&& r.tp_init is None ==> chain[k].tp_init is None
            &&& r.tp_call is None ==> chain[k].tp_call is None
            &&& r.tp_iter is None ==> chain[k].tp_iter is None
            &&& r.tp_iternext is None ==> chain[k].tp_iternext is None
            &&& r.tp_getattro is None ==> chain[k].tp_getattro is None
            &&& r.tp_setattro is None ==> chain[k].tp_setattro is None
        }),
    decreases n,
{
    if k < n - 1 {
        lemma_chain_unset(own, chain, (n - 1) as nat, k);
    }
}

impl PyTypeObject {
    /// The inheritable slots of the type.
    pub open spec fn spec_slots(&self) -> Slots {
        Slots {
            tp_hash: self.tp_hash,
            tp_bool: self.tp_bool,
            tp_fun_eq: self.tp_fun_eq,
            tp_fun_add: self.tp_fun_add,
            tp_fun_lt: self.tp_fun_lt,
            tp_len: self.tp_len,
            tp_new: self.tp_new,
            tp_init: self.tp_init,
            tp_call: self.tp_call,
            tp_iter: self.tp_iter,
            tp_iternext: self.tp_iternext,
            tp_getattro: self.tp_getattro,
            tp_setattro: self.tp_setattro,
        }
    }

    /// The inheritable slots of the type.
    pub fn slots(&self) -> (s: Slots)
        ensures
            s == self.spec_slots(),
    {
        Slots {
            tp_hash: self.tp_hash,
            tp_bool: self.tp_bool,
            tp_fun_eq: self.tp_fun_eq,
            tp_fun_add: self.tp_fun_add,
            tp_fun_lt: self.tp_fun_lt,
            tp_len: self.tp_len,
            tp_new: self.tp_new,
            tp_init: self.tp_init,
            tp_call: self.tp_call,
            tp_iter: self.tp_iter,
            tp_iternext: self.tp_iternext,
            tp_getattro: self.tp_getattro,
            tp_setattro: self.tp_setattro,
        }
    }

    /// The type `other` is this type but for its inheritable slots.
    pub open spec fn same_but_slots(&self, other: PyTypeObject) -> bool {
        &&& self.tp_name == other.tp_name
        &&& self.tp_base == other.tp_base
        &&& self.tp_methods == other.tp_methods
        &&& self.tp_dict == other.tp_dict
        &&& self.tp_bases == other.tp_bases
        &&& self.tp_mro == other.tp_mro
        &&& self.tp_subclasses == other.tp_subclasses
    }
}

/// `a` where it is set, else `b`.
pub fn first_set<T: Copy>(a: Option<T>, b: Option<T>) -> (r: Option<T>)
    ensures
        r == or_else(a, b),
{
    if a.is_some() {
        a
    } else {
        b
    }
}

/// Fills each unset slot of `typ` from `base`.
pub fn inherit_method(typ: &mut Slots, base: &Slots)
    ensures
        *final(typ) == spec_inherit(*old(typ), *base),
{
    typ.tp_hash = first_set(typ.tp_hash, base.tp_hash);
    typ.tp_bool = first_set(typ.tp_bool, base.tp_bool);
    typ.tp_fun_eq = first_set(typ.tp_fun_eq, base.tp_fun_eq);
    typ.tp_fun_add = first_set(typ.tp_fun_add, base.tp_fun_add);
    typ.tp_fun_lt = first_set(typ.tp_fun_lt, base.tp_fun_lt);
    typ.tp_len = first_set(typ.tp_len, base.tp_len);
    typ.tp_new = first_set(typ.tp_new, base.tp_new);
    typ.tp_init = first_set(typ.tp_init, base.tp_init);
    typ.tp_call = first_set(typ.tp_call, base.tp_call);
    typ.tp_iter = first_set(typ.tp_iter, base.tp_iter);
    typ.tp_iternext = first_set(typ.tp_iternext, base.tp_iternext);
    typ.tp_getattro = first_set(typ.tp_getattro, base.tp_getattro);
    typ.tp_setattro = first_set(typ.tp_setattro, base.tp_setattro);
}

/// A runtime that differs from a well-formed one in the descriptor of one
/// type, whose links name objects of the right cases and which kept its `hash`
/// slot if it had one, is well formed, and a later state of it.
pub proof fn lemma_type_update(prev: Runtime, cur: Runtime, obj: ObjId)
    requires
        prev.wf(),
        prev.is_type(obj),
        cur.same_except(prev, obj),
        cur.obj(obj).inner is TypeObj,
        cur.obj(obj).ob_type == prev.obj(obj).ob_type,
        cur.obj(obj).ob_dict == prev.obj(obj).ob_dict,
        type_ok(prev.objects@, obj as int, cur.tp(obj)),
        prev.tp(obj).tp_hash is Some ==> cur.tp(obj).tp_hash == prev.tp(obj).tp_hash,
    ensures
        cur.wf(),
        cur.extends(prev),
{
    let a = prev.objects@;
    let b = cur.objects@;
    prev.lemma_obj(obj);
    assert forall|i: int| 0 <= i < a.len() implies crate::object::same_object(
        a[i],
        #[trigger] b[i],
    ) by {
        if i != obj {
            assert(b[i] == a[i]);
        }
    }
    crate::object::lemma_obj_ok_later(
        a,
        b,
        prev.envs@.len(),
        cur.envs@.len(),
        obj as int,
        cur.obj(obj),
    );
    lemma_wf_after_update(prev, cur, obj);
}

impl Runtime {
    /// Sets the attribute dictionary of the type `obj`.
    pub fn set_tp_dict(&mut self, obj: ObjId, dict: ObjId)
        requires
            old(self).wf(),
            old(self).is_type(obj),
            old(self).is_dict(dict),
        ensures
            final(self).wf(),
            final(self).extends(*old(self)),
            final(self).same_except(*old(self), obj),
            final(self).is_type(obj),
            final(self).tp(obj) == (PyTypeObject { tp_dict: Some(dict), ..old(self).tp(obj) }),
    {
        let ghost prev = *self;
        match &mut self.objects[obj].inner {
            PyInnerObject::TypeObj(tp) => {
                tp.tp_dict = Some(dict);
            },
            _ => {},
        }
        proof {
            prev.lemma_obj(obj);
            lemma_type_update(prev, *self, obj);
        }
    }

    /// Sets the base of the type `obj`.
    pub fn set_tp_base(&mut self, obj: ObjId, base: ObjId)
        requires
            old(self).wf(),
            old(self).is_type(obj),
            old(self).is_type(base),
            base < obj,
        ensures
            final(self).wf(),
            final(self).extends(*old(self)),
            final(self).same_except(*old(self), obj),
            final(self).is_type(obj),
            final(self).tp(obj) == (PyTypeObject { tp_base: Some(base), ..old(self).tp(obj) }),
    {
        let ghost prev = *self;
        match &mut self.objects[obj].inner {
            PyInnerObject::TypeObj(tp) => {
                tp.tp_base = Some(base);
            },
            _ => {},
        }
        proof {
            prev.lemma_obj(obj);
            lemma_type_update(prev, *self, obj);
        }
    }

    /// Sets the list of bases of the type `obj`.
    pub fn set_tp_bases(&mut self, obj: ObjId, bases: Vec<ObjId>)
        requires
            old(self).wf(),
            old(self).is_type(obj),
            forall|j: int|
                0 <= j < bases@.len() ==> old(self).is_type(#[trigger] bases@[j]) && bases@[j] < obj,
        ensures
            final(self).wf(),
            final(self).extends(*old(self)),
            final(self).same_except(*old(self), obj),
            final(self).is_type(obj),
            final(self).tp(obj) == (PyTypeObject { tp_bases: Some(bases), ..old(self).tp(obj) }),
    {
        let ghost prev = *self;
        match &mut self.objects[obj].inner {
            PyInnerObject::TypeObj(tp) => {
                tp.tp_bases = Some(bases);
            },
            _ => {},
        }
        proof {
            prev.lemma_obj(obj);
            lemma_type_update(prev, *self, obj);
        }
    }

    /// Sets the method resolution order of the type `obj`.
    pub fn set_tp_mro(&mut self, obj: ObjId, mro: Vec<ObjId>)
        requires
            old(self).wf(),
            old(self).is_type(obj),
            forall|j: int|
                0 <= j < mro@.len() ==> old(self).is_type(#[trigger] mro@[j]) && mro@[j] <= obj,
        ensures
            final(self).wf(),
            final(self).extends(*old(self)),
            final(self).same_except(*old(self), obj),
            final(self).is_type(obj),
            final(self).tp(obj) == (PyTypeObject { tp_mro: Some(mro), ..old(self).tp(obj) }),
    {
        let ghost prev = *self;
        match &mut self.objects[obj].inner {
            PyInnerObject::TypeObj(tp) => {
                tp.tp_mro = Some(mro);
            },
            _ => {},
        }
        proof {
            prev.lemma_obj(obj);
            lemma_type_update(prev, *self, obj);
        }
    }

    /// Sets the inheritable slots of the type `obj`. A `hash` slot that the
    /// type has is not changed.
    pub fn set_slots(&mut self, obj: ObjId, s: Slots)
        requires
            old(self).wf(),
            old(self).is_type(obj),
            slots_ok(old(self).objects@, s),
            old(self).tp(obj).tp_hash is Some ==> s.tp_hash == old(self).tp(obj).tp_hash,
        ensures
            final(self).wf(),
            final(self).extends(*old(self)),
            final(self).same_except(*old(self), obj),
            final(self).is_type(obj),
            final(self).tp(obj).spec_slots() == s,
            final(self).tp(obj).same_but_slots(old(self).tp(obj)),
    {
        let ghost prev = *self;
        match &mut self.objects[obj].inner {
            PyInnerObject::TypeObj(tp) => {
                tp.tp_hash = s.tp_hash;
                tp.tp_bool = s.tp_bool;
                tp.tp_fun_eq = s.tp_fun_eq;
                tp.tp_fun_add = s.tp_fun_add;
                tp.tp_fun_lt = s.tp_fun_lt;
                tp.tp_len = s.tp_len;
                tp.tp_new = s.tp_new;
                tp.tp_init = s.tp_init;
                tp.tp_call = s.tp_call;
                tp.tp_iter = s.tp_iter;
                tp.tp_iternext = s.tp_iternext;
                tp.tp_getattro = s.tp_getattro;
                tp.tp_setattro = s.tp_setattro;
            },
            _ => {},
        }
        proof {
            prev.lemma_obj(obj);
            lemma_type_update(prev, *self, obj);
        }
    }

    /// Records `cls` as a subclass of the type `base`.
    pub fn push_subclass(&mut self, base: ObjId, cls: ObjId)
        requires
            old(self).wf(),
            old(self).is_type(base),
            old(self).is_type(cls),
            base < cls,
        ensures
            final(self).wf(),
            final(self).extends(*old(self)),
            final(self).same_except(*old(self), base),
            final(self).is_type(base),
            final(self).tp(base)@ == (TypeView {
                subclasses: Some(
                    match old(self).tp(base)@.subclasses {
                        Some(ss) => ss.push(cls),
                        None => seq![cls],
                    },
                ),
                ..old(self).tp(base)@
            }),
    {
        let ghost prev = *self;
        match &mut self.objects[base].inner {
            PyInnerObject::TypeObj(tp) => {
                match &mut tp.tp_subclasses {
                    Some(ss) => {
                        ss.push(cls);
                    },
                    None => {
                        let mut ss: Vec<ObjId> = Vec::new();
                        ss.push(cls);
                        tp.tp_subclasses = Some(ss);
                    },
                }
            },
            _ => {},
        }
        proof {
            prev.lemma_obj(base);
            lemma_type_update(prev, *self, base);
        }
    }
}

/// The fields of a type that has a name, a dictionary and bases, and nothing else.
pub open spec fn spec_blank_type(
    name: Seq<char>,
    dict: Option<ObjId>,
    bases: Option<Seq<ObjId>>,
) -> TypeView {
    TypeView {
        name: name,
        base: None,
        hash: None,
        bool_: None,
        eq: None,
        add: None,
        lt: None,
        len: None,
        call: None,
        getattro: None,
        setattro: None,
        iter: None,
        iternext: None,
        methods: None,
        dict: dict,
        bases: bases,
        mro: None,
        subclasses: None,
        new: None,
        init: None,
    }
}

impl PyTypeObject {
    /// The type has the name `name`, the base `base` and the native methods
    /// `methods`; it has no dictionary, bases, order or subclasses yet, and
    /// none of its slots calls an object.
    pub open spec fn is_static(&self, name: Seq<char>, base: Option<ObjId>, methods: Seq<ObjId>) -> bool {
        &&& self.tp_name@ == name
        &&& self.tp_base == base
        &&& match self.tp_methods {
            Some(ms) => ms@ == methods,
            None => methods.len() == 0,
        }
        &&& self.tp_dict is None
        &&& self.tp_bases is None
        &&& self.tp_mro is None
        &&& self.tp_subclasses is None
        &&& unary_target(self.tp_bool) is None
        &&& unary_target(self.tp_len) is None
        &&& binary_target(self.tp_fun_eq) is None
        &&& binary_target(self.tp_fun_add) is None
        &&& binary_target(self.tp_fun_lt) is None
        &&& vararg_target(self.tp_call) is None
        &&& vararg_target(self.tp_new) is None
        &&& vararg_target(self.tp_init) is None
    }

    /// A type with a name and nothing else.
    pub fn named(name: &str) -> (t: PyTypeObject)
        ensures
            t@ == spec_blank_type(name@, None, None),
            t.is_static(name@, None, Seq::empty()),
            t.spec_slots() == (Slots {
                tp_hash: None,
                tp_bool: None,
                tp_fun_eq: None,
                tp_fun_add: None,
                tp_fun_lt: None,
                tp_len: None,
                tp_new: None,
                tp_init: None,
                tp_call: None,
                tp_iter: None,
                tp_iternext: None,
                tp_getattro: None,
                tp_setattro: None,
            }),
            t.tp_methods is None,
    {
        PyTypeObject {
            tp_name: String::from_str(name),
            tp_base: None,
            tp_hash: None,
            tp_bool: None,
            tp_fun_eq: None,
            tp_fun_add: None,
            tp_fun_lt: None,
            tp_len: None,
            tp_call: None,
            tp_getattro: None,
            tp_setattro: None,
            tp_iter: None,
            tp_iternext: None,
            tp_methods: None,
            tp_dict: None,
            tp_bases: None,
            tp_mro: None,
            tp_subclasses: None,
            tp_new: None,
            tp_init: None,
        }
    }

    /// The fields of the descriptor of `object`, the root of the class hierarchy.
    pub open spec fn spec_new_baseobj() -> TypeView {
        TypeView {
            hash: Some(HashFun::DefaultHash),
            getattro: Some(GetAttroFun::Generic),
            setattro: Some(SetAttroFun::Generic),
            new: Some(VarArgFun::ObjectNew),
            ..spec_blank_type("object"@, None, None)
        }
    }

    /// The descriptor of `object`, the root of the class hierarchy.
    pub fn new_baseobj() -> (t: PyTypeObject)
        ensures
            t.is_static("object"@, None, Seq::empty()),
            t.tp_hash == Some(HashFun::DefaultHash),
            t.tp_getattro == Some(GetAttroFun::Generic),
            t.tp_setattro == Some(SetAttroFun::Generic),
            t.tp_new == Some(VarArgFun::ObjectNew),
            t@ == PyTypeObject::spec_new_baseobj(),
    {
        let mut t = PyTypeObject::named("object");
        t.tp_hash = Some(HashFun::DefaultHash);
        t.tp_getattro = Some(GetAttroFun::Generic);
        t.tp_setattro = Some(SetAttroFun::Generic);
        t.tp_new = Some(VarArgFun::ObjectNew);
        t
    }

    /// The fields of the descriptor of `type`, the type of types.
    pub open spec fn spec_new_type() -> TypeView {
        TypeView {
            hash: Some(HashFun::DefaultHash),
            eq: Some(BinaryOp::TypeEq),
            call: Some(VarArgFun::TypeCall),
            getattro: Some(GetAttroFun::Type),
            setattro: Some(SetAttroFun::Type),
            new: Some(VarArgFun::TypeNew),
            ..spec_blank_type("type"@, None, None)
        }
    }

    /// The descriptor of `type`, the type of types.
    pub fn new_type() -> (t: PyTypeObject)
        ensures
            t.is_static("type"@, None, Seq::empty()),
            t.tp_hash == Some(HashFun::DefaultHash),
            t.tp_fun_eq == Some(BinaryOp::TypeEq),
            t.tp_call == Some(VarArgFun::TypeCall),
            t.tp_getattro == Some(GetAttroFun::Type),
            t.tp_setattro == Some(SetAttroFun::Type),
            t.tp_new == Some(VarArgFun::TypeNew),
            t@ == PyTypeObject::spec_new_type(),
    {
        let mut t = PyTypeObject::named("type");
        t.tp_hash = Some(HashFun::DefaultHash);
        t.tp_fun_eq = Some(BinaryOp::TypeEq);
        t.tp_call = Some(VarArgFun::TypeCall);
        t.tp_getattro = Some(GetAttroFun::Type);
        t.tp_setattro = Some(SetAttroFun::Type);
        t.tp_new = Some(VarArgFun::TypeNew);
        t
    }

    /// The fields of the descriptor of `int`.
    pub open spec fn spec_new_int() -> TypeView {
        TypeView {
            hash: Some(HashFun::LongHash),
            bool_: Some(UnaryOp::LongBool),
            eq: Some(BinaryOp::LongEq),
            add: Some(BinaryOp::LongAdd),
            lt: Some(BinaryOp::LongLt),
            ..spec_blank_type("int"@, None, None)
        }
    }

    /// The descriptor of `int`.
    pub fn new_int() -> (t: PyTypeObject)
        ensures
            t.is_static("int"@, None, Seq::empty()),
            t.tp_hash == Some(HashFun::LongHash),
            t.tp_bool == Some(UnaryOp::LongBool),
            t.tp_fun_eq == Some(BinaryOp::LongEq),
            t.tp_fun_add == Some(BinaryOp::LongAdd),
            t.tp_fun_lt == Some(BinaryOp::LongLt),
            t@ == PyTypeObject::spec_new_int(),
    {
        let mut t = PyTypeObject::named("int");
        t.tp_hash = Some(HashFun::LongHash);
        t.tp_bool = Some(UnaryOp::LongBool);
        t.tp_fun_eq = Some(BinaryOp::LongEq);
        t.tp_fun_add = Some(BinaryOp::LongAdd);
        t.tp_fun_lt = Some(BinaryOp::LongLt);
        t
    }

    /// The fields of the descriptor of `bool`, a subclass of `int`.
    pub open spec fn spec_new_bool() -> TypeView {
        TypeView {
            base: Some(PY_LONG_TYPE),
            ..spec_blank_type("bool"@, None, None)
        }
    }

    /// The descriptor of `bool`, a subclass of `int`.
    pub fn new_bool() -> (t: PyTypeObject)
        ensures
            t.is_static("bool"@, Some(PY_LONG_TYPE), Seq::empty()),
            t.tp_hash is None,
            t@ == PyTypeObject::spec_new_bool(),
    {
        let mut t = PyTypeObject::named("bool");
        t.tp_base = Some(PY_LONG_TYPE);
        t
    }

    /// The fields of the descriptor of `str`.
    pub open spec fn spec_new_str() -> TypeView {
        TypeView {
            hash: Some(HashFun::StrHash),
            eq: Some(BinaryOp::StrEq),
            add: Some(BinaryOp::StrAdd),
            len: Some(UnaryOp::StrLen),
            ..spec_blank_type("str"@, None, None)
        }
    }

    /// The descriptor of `str`.
    pub fn new_str() -> (t: PyTypeObject)
        ensures
            t.is_static("str"@, None, Seq::empty()),
            t.tp_hash == Some(HashFun::StrHash),
            t.tp_fun_eq == Some(BinaryOp::StrEq),
            t.tp_fun_add == Some(BinaryOp::StrAdd),
            t.tp_len == Some(UnaryOp::StrLen),
            t@ == PyTypeObject::spec_new_str(),
    {
        let mut t = PyTypeObject::named("str");
        t.tp_hash = Some(HashFun::StrHash);
        t.tp_fun_eq = Some(BinaryOp::StrEq);
        t.tp_fun_add = Some(BinaryOp::StrAdd);
        t.tp_len = Some(UnaryOp::StrLen);
        t
    }

    /// The fields of the descriptor of the type of `None`.
    pub open spec fn spec_new_none() -> TypeView {
        TypeView {
            hash: Some(HashFun::DefaultHash),
            ..spec_blank_type("None"@, None, None)
        }
    }

    /// The descriptor of the type of `None`.
    pub fn new_none() -> (t: PyTypeObject)
        ensures
            t.is_static("None"@, None, Seq::empty()),
            t.tp_hash == Some(HashFun::DefaultHash),
            t@ == PyTypeObject::spec_new_none(),
    {
        let mut t = PyTypeObject::named("None");
        t.tp_hash = Some(HashFun::DefaultHash);
        t
    }

    /// The fields of the descriptor of `list`, with its native method `append`.
    pub open spec fn spec_new_list() -> TypeView {
        TypeView {
            bool_: Some(UnaryOp::ListBool),
            len: Some(UnaryOp::ListLen),
            iter: Some(GetIterFun::ListIter),
            methods: Some(seq![PY_LIST_APPEND]),
            ..spec_blank_type("list"@, None, None)
        }
    }

    /// The descriptor of `list`, with its native method `append`.
    pub fn new_list() -> (t: PyTypeObject)
        ensures
            t.is_static("list"@, None, seq![PY_LIST_APPEND]),
            t.tp_hash is None,
            t.tp_bool == Some(UnaryOp::ListBool),
            t.tp_len == Some(UnaryOp::ListLen),
            t.tp_iter == Some(GetIterFun::ListIter),
            t@ == PyTypeObject::spec_new_list(),
    {
        let mut t = PyTypeObject::named("list");
        t.tp_bool = Some(UnaryOp::ListBool);
        t.tp_len = Some(UnaryOp::ListLen);
        t.tp_iter = Some(GetIterFun::ListIter);
        let mut methods: Vec<ObjId> = Vec::new();
        methods.push(PY_LIST_APPEND);
        proof {
            assert(methods@ =~= seq![PY_LIST_APPEND]);
        }
        t.tp_methods = Some(methods);
        t
    }

    /// The fields of the descriptor of the type of list iterators.
    pub open spec fn spec_new_listiter() -> TypeView {
        TypeView {
            iternext: Some(IterNextFun::ListIterNext),
            ..spec_blank_type("listiter"@, None, None)
        }
    }

    /// The descriptor of the type of list iterators.
    pub fn new_listiter() -> (t: PyTypeObject)
        ensures
            t.is_static("listiter"@, None, Seq::empty()),
            t.tp_hash is None,
            t.tp_iternext == Some(IterNextFun::ListIterNext),
            t@ == PyTypeObject::spec_new_listiter(),
    {
        let mut t = PyTypeObject::named("listiter");
        t.tp_iternext = Some(IterNextFun::ListIterNext);
        t
    }

    /// The fields of the descriptor of `dict`.
    pub open spec fn spec_new_dict() -> TypeView {
        TypeView {
            len: Some(UnaryOp::DictLen),
            getattro: Some(GetAttroFun::Generic),
            ..spec_blank_type("dict"@, None, None)
        }
    }

    /// The descriptor of `dict`.
    pub fn new_dict() -> (t: PyTypeObject)
        ensures
            t.is_static("dict"@, None, Seq::empty()),
            t.tp_hash is None,
            t.tp_len == Some(UnaryOp::DictLen),
            t.tp_getattro == Some(GetAttroFun::Generic),
            t@ == PyTypeObject::spec_new_dict(),
    {
        let mut t = PyTypeObject::named("dict");
        t.tp_len = Some(UnaryOp::DictLen);
        t.tp_getattro = Some(GetAttroFun::Generic);
        t
    }

    /// The fields of the descriptor of the type of code objects.
    pub open spec fn spec_new_code() -> TypeView {
        spec_blank_type("code"@, None, None)
    }

    /// The descriptor of the type of code objects.
    pub fn new_code() -> (t: PyTypeObject)
        ensures
            t.is_static("code"@, None, Seq::empty()),
            t.tp_hash is None,
            t@ == PyTypeObject::spec_new_code(),
    {
        PyTypeObject::named("code")
    }

    /// The fields of the descriptor of the type of functions.
    pub open spec fn spec_new_function() -> TypeView {
        TypeView {
            hash: Some(HashFun::DefaultHash),
            ..spec_blank_type("function"@, None, None)
        }
    }

    /// The descriptor of the type of functions.
    pub fn new_function() -> (t: PyTypeObject)
        ensures
            t.is_static("function"@, None, Seq::empty()),
            t.tp_hash == Some(HashFun::DefaultHash),
            t@ == PyTypeObject::spec_new_function(),
    {
        let mut t = PyTypeObject::named("function");
        t.tp_hash = Some(HashFun::DefaultHash);
        t
    }

    /// The fields of the descriptor of the type of bound methods.
    pub open spec fn spec_new_method() -> TypeView {
        TypeView {
            hash: Some(HashFun::DefaultHash),
            ..spec_blank_type("method"@, None, None)
        }
    }

    /// The descriptor of the type of bound methods.
    pub fn new_method() -> (t: PyTypeObject)
        ensures
            t.is_static("method"@, None, Seq::empty()),
            t.tp_hash == Some(HashFun::DefaultHash),
            t@ == PyTypeObject::spec_new_method(),
    {
        let mut t = PyTypeObject::named("method");
        t.tp_hash = Some(HashFun::DefaultHash);
        t
    }

    /// The fields of the descriptor of the type of native functions.
    pub open spec fn spec_new_rustfun() -> TypeView {
        TypeView {
            hash: Some(HashFun::DefaultHash),
            ..spec_blank_type("rustfunction"@, None, None)
        }
    }

    /// The descriptor of the type of native functions.
    pub fn new_rustfun() -> (t: PyTypeObject)
        ensures
            t.is_static("rustfunction"@, None, Seq::empty()),
            t.tp_hash == Some(HashFun::DefaultHash),
            t@ == PyTypeObject::spec_new_rustfun(),
    {
        let mut t = PyTypeObject::named("rustfunction");
        t.tp_hash = Some(HashFun::DefaultHash);
        t
    }

    /// The fields of the descriptor of `BaseException`.
    pub open spec fn spec_new_baseexc() -> TypeView {
        TypeView {
            hash: Some(HashFun::DefaultHash),
            new: Some(VarArgFun::BaseExcNew),
            ..spec_blank_type("BaseException"@, None, None)
        }
    }

    /// The descriptor of `BaseException`.
    pub fn new_baseexc() -> (t: PyTypeObject)
        ensures
            t.is_static("BaseException"@, None, Seq::empty()),
            t.tp_hash == Some(HashFun::DefaultHash),
            t.tp_new == Some(VarArgFun::BaseExcNew),
            t@ == PyTypeObject::spec_new_baseexc(),
    {
        let mut t = PyTypeObject::named("BaseException");
        t.tp_hash = Some(HashFun::DefaultHash);
        t.tp_new = Some(VarArgFun::BaseExcNew);
        t
    }

    /// The fields of the descriptor of a built-in exception type named `name` with the base `base`.
    pub open spec fn spec_new_exception(name: Seq<char>, base: ObjId) -> TypeView {
        TypeView {
            base: Some(base),
            hash: Some(HashFun::DefaultHash),
            ..spec_blank_type(name, None, None)
        }
    }

    /// The descriptor of a built-in exception type named `name` with the base `base`.
    pub fn new_exception(name: &str, base: ObjId) -> (t: PyTypeObject)
        ensures
            t.is_static(name@, Some(base), Seq::empty()),
            t.tp_hash == Some(HashFun::DefaultHash),
            t@ == PyTypeObject::spec_new_exception(name@, base),
    {
        let mut t = PyTypeObject::named(name);
        t.tp_base = Some(base);
        t.tp_hash = Some(HashFun::DefaultHash);
        t
    }
}

} // verus!
