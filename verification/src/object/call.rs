use vstd::prelude::*;
use crate::env::Env;
use crate::error::{pyerr_set, PyErr, PyRes};
use crate::eval::eval;
use crate::object::attr::{type_getattro, type_setattro};
use crate::object::dictobj::PyDictObject;
use crate::object::excobj::PyExcObject;
use crate::object::generic::{
    pyobj_generic_get_attro, pyobj_generic_set_attro, pyobj_to_i32,
};
use crate::object::ready::type_new;
use crate::object::rustfunobj::{NativeFn, PyRustFun};
use crate::object::dictobj::spec_dict_value;
use crate::object::listobj::spec_list_value;
use crate::object::longobj::spec_long_value;
use crate::object::strobj::{pystr_add, pystr_eq, pystr_len, spec_str_len, spec_str_value};
use crate::object::typeobj::{
    BinaryOp, GetAttroFun, SetAttroFun, UnaryOp, VarArgFun,
};
use crate::object::{
    lemma_extends_refl, lemma_extends_trans, raised_ok, settled, ObjId, PyInnerObject, PyObject,
    Runtime, PY_FALSE, PY_LONG_TYPE, PY_NONE_OBJECT, PY_STRING_TYPE, PY_TRUE, PY_TYPE_TYPE,
};

verus! {

/// The runtime `prt` with one step of its budget used up.
pub open spec fn burnt(prt: Runtime) -> Runtime {
    Runtime { fuel: (prt.fuel - 1) as u64, ..prt }
}

/// The budget of `prt` is used up: the result is the error that says so,
/// and `rt` is `prt`.
pub open spec fn ran_out<T>(prt: Runtime, rt: Runtime, r: PyRes<T>) -> bool {
    prt.fuel == 0 && rt == prt && r == Err::<T, PyErr>(PyErr::OutOfFuel)
}

/// Calling the callable `funv` with the arguments `args` in the runtime
/// `prt` gives the result `r` and leaves the runtime `rt`.
///
/// The call uses up one step of the budget. A function runs its code in a
/// new frame under the frame it captured, in which its parameters are bound
/// to the arguments; a bound method does the same with its receiver put
/// before the arguments. A native function is applied to its receiver, or
/// the `None` object, and its one argument. For anything else the `call`
/// slot of the callable's type decides.
pub open spec fn call_rel(
    prt: Runtime,
    funv: ObjId,
    args: Seq<ObjId>,
    rt: Runtime,
    r: PyRes<ObjId>,
) -> bool
    decreases prt.fuel, 0nat,
{
    if prt.fuel == 0 {
        ran_out(prt, rt, r)
    } else {
        let b = burnt(prt);
        match b.obj(funv).inner {
            PyInnerObject::FunObj(f) => code_call_rel(b, f.env, f.codeobj, args, rt, r),
            PyInnerObject::MethodObj(m) => code_call_rel(
                b,
                m.env,
                m.codeobj,
                seq![m.ob_self] + args,
                rt,
                r,
            ),
            PyInnerObject::RustFunObj(f) => if args.len() != 1 {
                type_error(b, rt, r)
            } else {
                match f.rust_fun {
                    PyRustFun::MethO(nf) => native_rel(
                        b,
                        nf,
                        match f.ob_self {
                            Some(s) => s,
                            None => PY_NONE_OBJECT,
                        },
                        args[0],
                        rt,
                        r,
                    ),
                }
            },
            _ => match b.tp(b.obj(funv).ob_type).tp_call {
                Some(c) => vararg_rel(b, c, funv, args, rt, r),
                None => type_error(b, rt, r),
            },
        }
    }
}

/// Running the code of the code object `codeobj` in a new frame under the
/// frame `env`, with the parameters bound to `vals`, gives the result `r`
/// and leaves the runtime `rt`. Values that are not as many as the
/// parameters are a type error.
pub open spec fn code_call_rel(
    b: Runtime,
    env: usize,
    codeobj: ObjId,
    vals: Seq<ObjId>,
    rt: Runtime,
    r: PyRes<ObjId>,
) -> bool
    decreases b.fuel, 4nat,
{
    let names = b.obj(codeobj).inner->CodeObj_0.co_argnames@;
    let code = b.obj(codeobj).inner->CodeObj_0.co_code@;
    if names.len() != vals.len() {
        type_error(b, rt, r)
    } else {
        exists|e: Runtime| #[trigger]
            crate::env::new_child_post(b, e, env, names, vals, b.envs@.len() as usize) && e.fuel
                == b.fuel && crate::eval::evals(
                e,
                code,
                b.envs@.len() as usize,
                rt,
                r,
            )
    }
}

/// Applying the native function `f` to the receiver `slf` and the argument
/// `arg` gives the result `r` and leaves the runtime `rt`.
pub open spec fn native_rel(
    prt: Runtime,
    f: NativeFn,
    slf: ObjId,
    arg: ObjId,
    rt: Runtime,
    r: PyRes<ObjId>,
) -> bool
    decreases prt.fuel, 3nat,
{
    match f {
        NativeFn::BuiltinLen => len_rel(prt, arg, rt, r),
        NativeFn::ListAppend => crate::object::listobj::pylist_append_post(prt, rt, slf, arg, r),
    }
}

/// `len(obj)` gives the result `r` and leaves the runtime `rt`: what the
/// `len` slot of the type of `obj` gives; without the slot, a type error.
pub open spec fn len_rel(prt: Runtime, obj: ObjId, rt: Runtime, r: PyRes<ObjId>) -> bool
    decreases prt.fuel, 2nat,
{
    match prt.tp(prt.obj(obj).ob_type).tp_len {
        Some(f) => unary_rel(prt, f, obj, rt, r),
        None => type_error(prt, rt, r),
    }
}

/// Calling the unary slot `f` with the operand `v` gives the result `r` and
/// leaves the runtime `rt`.
pub open spec fn unary_rel(prt: Runtime, f: UnaryOp, v: ObjId, rt: Runtime, r: PyRes<ObjId>) -> bool
    decreases prt.fuel, 1nat,
{
    match f {
        UnaryOp::Wrapped(o) => call_rel(prt, o, seq![v], rt, r),
        _ => unary_native(prt, rt, f, v, r),
    }
}

/// Calling the binary slot `f` with the operands `lv` and `rv` gives the
/// result `r` and leaves the runtime `rt`.
pub open spec fn binary_rel(
    prt: Runtime,
    f: BinaryOp,
    lv: ObjId,
    rv: ObjId,
    rt: Runtime,
    r: PyRes<ObjId>,
) -> bool
    decreases prt.fuel, 1nat,
{
    match f {
        BinaryOp::Wrapped(o) => call_rel(prt, o, seq![lv, rv], rt, r),
        _ => binary_native(prt, rt, f, lv, rv, r),
    }
}

/// Calling the variadic slot `f` with the receiver `slf` and the arguments
/// `args` gives the result `r` and leaves the runtime `rt`.
pub open spec fn vararg_rel(
    prt: Runtime,
    f: VarArgFun,
    slf: ObjId,
    args: Seq<ObjId>,
    rt: Runtime,
    r: PyRes<ObjId>,
) -> bool
    decreases prt.fuel, 2nat,
{
    match f {
        VarArgFun::TypeCall => if prt.fuel == 0 {
            ran_out(prt, rt, r)
        } else {
            type_call_rel(burnt(prt), slf, args, rt, r)
        },
        VarArgFun::TypeNew => crate::object::ready::type_new_post(prt, rt, slf, args, r),
        VarArgFun::ObjectNew => object_new_post(prt, rt, slf, args, r),
        VarArgFun::BaseExcNew => pybaseexc_new_post(prt, rt, slf, args, r),
        VarArgFun::Wrapped(o) => call_rel(prt, o, seq![slf] + args, rt, r),
    }
}

/// The result `r` of a call of a type that made the instance `made` and
/// got `res` from its `init` slot: the instance, unless `init` failed.
pub open spec fn initialized(made: PyRes<ObjId>, res: PyRes<ObjId>, r: PyRes<ObjId>) -> bool {
    r == match res {
        Ok(_) => made,
        Err(_) => res,
    }
}

/// A value `r` is an object of the runtime `rt`.
pub open spec fn value_ok(rt: Runtime, r: PyRes<ObjId>) -> bool {
    r matches Ok(v) ==> rt.valid(v)
}

/// What follows the making of an instance in a call of the type `typ`: a
/// failure to make it is the result; an instance `obj` is the result, after
/// the `init` slot of its type, if it has one, was called with the instance
/// and the arguments, unless `typ` is `type`. A failure of that call is the
/// result; its value is dropped.
pub open spec fn init_rel(
    mid: Runtime,
    typ: ObjId,
    args: Seq<ObjId>,
    made: PyRes<ObjId>,
    rt: Runtime,
    r: PyRes<ObjId>,
) -> bool
    decreases mid.fuel, 3nat,
{
    match made {
        Err(e) => rt == mid && r == made,
        Ok(obj) => if typ == PY_TYPE_TYPE {
            rt == mid && r == made
        } else {
            match mid.tp(mid.obj(obj).ob_type).tp_init {
                None => rt == mid && r == made,
                Some(init) => exists|res: PyRes<ObjId>|
                    vararg_rel(mid, init, obj, args, rt, res) && #[trigger] initialized(
                        made,
                        res,
                        r,
                    ),
            }
        },
    }
}

/// Calling the type `typ` with the arguments `args` gives the result `r`
/// and leaves the runtime `rt`. `type` with one argument gives the type of
/// the argument. Else the `new` slot of the type makes the instance, and
/// the `init` slot of the instance's type initializes it, as [`init_rel`]
/// says.
pub open spec fn type_call_rel(
    prt: Runtime,
    typ: ObjId,
    args: Seq<ObjId>,
    rt: Runtime,
    r: PyRes<ObjId>,
) -> bool
    decreases prt.fuel, 4nat,
{
    if typ == PY_TYPE_TYPE && args.len() == 1 {
        rt == prt && r == Ok::<ObjId, PyErr>(prt.obj(args[0]).ob_type)
    } else if typ == PY_TYPE_TYPE && args.len() != 3 {
        type_error(prt, rt, r)
    } else if !prt.is_type(typ) || prt.tp(typ).tp_new is None {
        type_error(prt, rt, r)
    } else {
        exists|mid: Runtime, made: PyRes<ObjId>|
            vararg_rel(prt, prt.tp(typ).tp_new->Some_0, typ, args, mid, made) && #[trigger] value_ok(
                mid,
                made,
            ) && mid.fuel <= prt.fuel && init_rel(mid, typ, args, made, rt, r)
    }
}

/// The truth value `r` that a `bool` slot stands for which gave `res`:
/// `True` and `False` stand for themselves, and anything else is a type
/// error. A failure of the slot is the failure.
pub open spec fn as_truth(res: PyRes<ObjId>, r: PyRes<bool>) -> bool {
    match res {
        Ok(x) => if x == PY_TRUE {
            r == Ok::<bool, PyErr>(true)
        } else if x == PY_FALSE {
            r == Ok::<bool, PyErr>(false)
        } else {
            r is Err && r->Err_0 is TypeError
        },
        Err(e) => r == Err::<bool, PyErr>(e),
    }
}

/// The truth value `r` that a `len` slot stands for which gave `res`:
/// whether the integer is positive; anything but an integer is a type
/// error. A failure of the slot is the failure.
pub open spec fn as_length(rt: Runtime, res: PyRes<ObjId>, r: PyRes<bool>) -> bool {
    match res {
        Ok(x) => match spec_long_value(rt, x) {
            Some(n) => r == Ok::<bool, PyErr>(n > 0),
            None => r is Err && r->Err_0 is TypeError,
        },
        Err(e) => r == Err::<bool, PyErr>(e),
    }
}

/// The truth value of `v` is `r`, in the runtime `rt` that finding it
/// leaves: what the `bool` slot of its type gives, which must be the `True`
/// or the `False` object; without that slot, whether the `len` slot gives a
/// positive integer; without either, a type error.
pub open spec fn truth_rel(prt: Runtime, v: ObjId, rt: Runtime, r: PyRes<bool>) -> bool
    decreases prt.fuel, 2nat,
{
    let tp = prt.tp(prt.obj(v).ob_type);
    match tp.tp_bool {
        Some(f) => exists|res: PyRes<ObjId>|
            unary_rel(prt, f, v, rt, res) && #[trigger] as_truth(res, r),
        None => match tp.tp_len {
            Some(f) => exists|res: PyRes<ObjId>|
                unary_rel(prt, f, v, rt, res) && #[trigger] as_length(rt, res, r),
            None => type_error(prt, rt, r),
        },
    }
}

/// The runtime `rt` is `prt` with the object `err` in the exception
/// indicator.
pub open spec fn indicated(prt: Runtime, rt: Runtime, err: ObjId) -> bool {
    rt.objects == prt.objects && rt.envs == prt.envs && rt.fuel == prt.fuel && rt.exc == Some(err)
}

/// Raising an instance of the exception type `exception` with the message
/// `s` leaves the runtime `rt`, and the failure goes on with the error `e`.
///
/// A new string object is made of the message, and the type is called with
/// it. The instance that the call gives is put into the exception
/// indicator, and the error is `Raised`. Where the call fails with an
/// error that ends the program, that is the error. Where it fails with a
/// built-in exception that has still to be made, that exception is raised
/// in its place.
pub open spec fn set_string_rel(
    prt: Runtime,
    exception: ObjId,
    s: Seq<char>,
    rt: Runtime,
    e: PyErr,
) -> bool
    decreases prt.fuel, 2nat,
{
    exists|m1: Runtime| #[trigger]
        crate::object::strobj::from_str_post(prt, m1, s, prt.objects@.len() as usize) && m1.fuel
            == prt.fuel && set_string_made(m1, exception, prt.objects@.len() as usize, rt, e)
}

/// The raising of an exception, from the runtime `m1` in which the string
/// object `msg` holds the message: the type is called with the string.
pub open spec fn set_string_made(
    m1: Runtime,
    exception: ObjId,
    msg: ObjId,
    rt: Runtime,
    e: PyErr,
) -> bool
    decreases m1.fuel, 1nat,
{
    exists|m2: Runtime, res: PyRes<ObjId>|
        call_rel(m1, exception, seq![msg], m2, res) && #[trigger] value_ok(m2, res) && match res {
            Ok(err) => indicated(m2, rt, err) && e is Raised,
            Err(e1) => if e1.spec_is_fatal() {
                rt == m2 && e == e1
            } else {
                match e1.spec_exc_type() {
                    Some(t) => m2.fuel < m1.fuel && set_string_rel(
                        m2,
                        t,
                        e1.spec_message(),
                        rt,
                        e,
                    ),
                    None => rt == m2 && e is Raised,
                }
            },
        }
}

/// Raising the failure `e` leaves the runtime `rt`, and the failure goes on
/// with the error `e2`: a built-in exception that has still to be made is
/// raised, as [`set_string_rel`] says; any other error stays as it is.
pub open spec fn raise_rel(prt: Runtime, e: PyErr, rt: Runtime, e2: PyErr) -> bool
    decreases prt.fuel, 3nat,
{
    match e.spec_exc_type() {
        Some(t) => set_string_rel(prt, t, e.spec_message(), rt, e2),
        None => rt == prt && e2 == e,
    }
}

/// What an attribute read gives, where the attribute-read slot found
/// `res`: the value that it found; an attribute that it did not find is an
/// attribute error.
pub open spec fn found(res: PyRes<Option<ObjId>>, r: PyRes<ObjId>) -> bool {
    match res {
        Ok(Some(v)) => r == Ok::<ObjId, PyErr>(v),
        Ok(None) => r is Err && r->Err_0 is AttributeError,
        Err(e) => r == Err::<ObjId, PyErr>(e),
    }
}

/// Reading the attribute `key` of `value` gives the result `r` and leaves
/// the runtime `rt`: what the attribute-read slot of the type of `value`
/// finds. A type without the slot has no attributes.
pub open spec fn get_attr_rel(
    prt: Runtime,
    value: ObjId,
    key: ObjId,
    rt: Runtime,
    r: PyRes<ObjId>,
) -> bool {
    match prt.tp(prt.obj(value).ob_type).tp_getattro {
        Some(GetAttroFun::Generic) => exists|res: PyRes<Option<ObjId>>| #[trigger]
            crate::object::generic::pyobj_generic_get_attro_post(prt, rt, value, key, res)
                && found(res, r),
        Some(GetAttroFun::Type) => rt == prt && if prt.is_type(value) {
            match crate::object::dictobj::spec_key_hash(prt, key) {
                Some(h) => found(Ok(crate::object::attr::spec_type_getattro(prt, value, h)), r),
                None => r is Err && r->Err_0 is TypeError,
            }
        } else {
            r is Err && r->Err_0 is TypeError
        },
        None => rt == prt && r is Err && r->Err_0 is AttributeError,
    }
}

/// Writing `rvalue` to the attribute `key` of `value` gives the result `r`
/// and leaves the runtime `rt`: what the attribute-write slot of the type
/// of `value` does. A type without the slot takes no attributes.
pub open spec fn set_attr_rel(
    prt: Runtime,
    value: ObjId,
    key: ObjId,
    rvalue: ObjId,
    rt: Runtime,
    r: PyRes<()>,
) -> bool {
    match prt.tp(prt.obj(value).ob_type).tp_setattro {
        Some(SetAttroFun::Generic) => crate::object::generic::pyobj_generic_set_attro_post(
            prt,
            rt,
            value,
            key,
            rvalue,
            r,
        ),
        Some(SetAttroFun::Type) => if prt.is_type(value) {
            crate::object::attr::type_setattro_post(prt, rt, value, key, rvalue, r)
        } else {
            rt == prt && r is Err && r->Err_0 is TypeError
        },
        None => rt == prt && r is Err && r->Err_0 is TypeError,
    }
}

/// `slf == other` on types: the `True` object if they are the same object.
pub fn type_eq(slf: ObjId, other: ObjId) -> (r: ObjId)
    ensures
        r == PyObject::spec_from_bool(slf == other),
{
    PyObject::from_bool(slf == other)
}

/// Makes a new instance of the type `typ`, with an empty instance dictionary.
pub fn object_new(rt: &mut Runtime, typ: ObjId, args: &Vec<ObjId>) -> (r: PyRes<ObjId>)
    requires
        old(rt).wf(),
        old(rt).valid(typ),
    ensures
        object_new_post(*old(rt), *final(rt), typ, args@, r),
{
    proof {
        lemma_extends_refl(*rt);
    }
    match &rt.objects[typ].inner {
        PyInnerObject::TypeObj(_) => {},
        _ => {
            return Err(PyErr::TypeError("type object expected"));
        },
    }
    let d = PyObject::pydict_new(rt);
    let ghost mid = *rt;
    let id = rt.new_object(
        PyObject { ob_type: typ, ob_dict: Some(d), inner: PyInnerObject::InstObj },
    );
    proof {
        lemma_extends_trans(*old(rt), mid, *rt);
        assert forall|i: int| 0 <= i < old(rt).objects@.len() implies #[trigger] rt.objects@[i]
            == old(rt).objects@[i] by {
            assert(rt.objects@[i] == mid.objects@[i]);
        }
        assert(rt.objects@[d as int] == mid.objects@[d as int]);
    }
    Ok(id)
}

/// Makes a new exception instance of the type `exception`, which keeps the
/// arguments in a new list, and has an empty instance dictionary.
pub fn pybaseexc_new(rt: &mut Runtime, exception: ObjId, args: &Vec<ObjId>) -> (r: PyRes<ObjId>)
    requires
        old(rt).wf(),
        old(rt).valid(exception),
        old(rt).all_valid(args@),
    ensures
        pybaseexc_new_post(*old(rt), *final(rt), exception, args@, r),
{
    proof {
        lemma_extends_refl(*rt);
    }
    match &rt.objects[exception].inner {
        PyInnerObject::TypeObj(_) => {},
        _ => {
            return Err(PyErr::TypeError("type object expected"));
        },
    }
    let list = PyObject::pylist_from_vec(rt, args);
    let ghost m1 = *rt;
    let d = PyObject::pydict_new(rt);
    let ghost m2 = *rt;
    proof {
        lemma_extends_trans(*old(rt), m1, m2);
        assert(m2.objects@[list as int] == m1.objects@[list as int]);
        assert(m2.objects@[exception as int] == m1.objects@[exception as int]);
        assert(m1.objects@[exception as int] == old(rt).objects@[exception as int]);
    }
    let id = rt.new_object(
        PyObject {
            ob_type: exception,
            ob_dict: Some(d),
            inner: PyInnerObject::ExcObj(PyExcObject { args: list }),
        },
    );
    proof {
        lemma_extends_trans(*old(rt), m2, *rt);
        assert forall|i: int| 0 <= i < old(rt).objects@.len() implies #[trigger] rt.objects@[i]
            == old(rt).objects@[i] by {
            assert(rt.objects@[i] == m2.objects@[i]);
            assert(m2.objects@[i] == m1.objects@[i]);
        }
        assert(rt.objects@[list as int] == m2.objects@[list as int]);
    }
    Ok(id)
}

/// Calls the callable `funv` with the arguments `args`.
///
/// A function runs its code in a new frame under the frame it captured, in
/// which its parameters are bound to the arguments; a bound method does the
/// same with its receiver put before the arguments. A native function is
/// applied to its receiver, or the `None` object, and its one argument. For
/// anything else the `call` slot of the callable's type decides; calling a
/// type runs the constructor protocol. Every call uses up one step of the
/// budget.
pub fn call_func(rt: &mut Runtime, funv: ObjId, args: &Vec<ObjId>) -> (r: PyRes<ObjId>)
    requires
        old(rt).wf(),
        old(rt).valid(funv),
        old(rt).all_valid(args@),
    ensures
        final(rt).wf(),
        final(rt).extends(*old(rt)),
        raised_ok(*final(rt), r),
        r matches Ok(v) ==> final(rt).valid(v),
        old(rt).fuel == 0 ==> r is Err && r->Err_0 is OutOfFuel,
        old(rt).fuel > 0 ==> final(rt).fuel < old(rt).fuel,
        call_rel(*old(rt), funv, args@, *final(rt), r),
    decreases old(rt).fuel, 0nat,
{
    if !rt.burn() {
        return Err(PyErr::OutOfFuel);
    }
    let ghost s1 = *rt;
    proof {
        s1.lemma_obj(funv);
        s1.lemma_valid_later(*old(rt), args@);
        assert(s1 == burnt(*old(rt)));
    }
    let target = match &rt.objects[funv].inner {
        PyInnerObject::FunObj(fun) => Callee::Code(fun.env, fun.codeobj, None),
        PyInnerObject::MethodObj(m) => Callee::Code(m.env, m.codeobj, Some(m.ob_self)),
        PyInnerObject::RustFunObj(f) => Callee::Native(f.rust_fun, f.ob_self),
        _ => Callee::Slot,
    };
    match target {
        Callee::Code(env, codeobj, slf) => {
            let mut vals: Vec<ObjId> = Vec::new();
            match slf {
                Some(s) => {
                    vals.push(s);
                },
                None => {},
            }
            let ghost first = vals@;
            let mut i: usize = 0;
            while i < args.len()
                invariant
                    i <= args@.len(),
                    rt.all_valid(args@),
                    rt.all_valid(vals@),
                    vals@ == first + args@.take(i as int),
                decreases args@.len() - i,
            {
                assert(rt.valid(args@[i as int]));
                vals.push(args[i]);
                proof {
                    assert(args@.take(i + 1) =~= args@.take(i as int).push(args@[i as int]));
                    assert(vals@ =~= first + args@.take(i + 1));
                }
                i = i + 1;
            }
            proof {
                assert(args@.take(i as int) =~= args@);
                assert(Seq::<ObjId>::empty() + args@ =~= args@);
                if slf is Some {
                    assert(first =~= seq![slf->Some_0]);
                }
            }
            let r = call_code(rt, env, codeobj, &vals);
            proof {
                lemma_extends_trans(*old(rt), s1, *rt);
            }
            r
        },
        Callee::Native(PyRustFun::MethO(f), ob_self) => {
            if args.len() != 1 {
                return Err(PyErr::TypeError("1 argument expected"));
            }
            let slf = match ob_self {
                Some(s) => s,
                None => PY_NONE_OBJECT,
            };
            assert(rt.valid(args@[0]));
            let r = call_native(rt, f, slf, args[0]);
            proof {
                lemma_extends_trans(*old(rt), s1, *rt);
            }
            r
        },
        Callee::Slot => {
            proof {
                rt.lemma_obj(rt.obj(funv).ob_type);
            }
            match rt.typeobj_of(funv).tp_call {
                Some(tp_call) => {
                    let r = call_varargfun(rt, tp_call, funv, args);
                    proof {
                        lemma_extends_trans(*old(rt), s1, *rt);
                    }
                    r
                },
                None => Err(PyErr::TypeError("callable object expected")),
            }
        },
    }
}

/// Runs the code of the code object `codeobj` in a new frame under the
/// frame `env`, in which the parameters of the code are bound to `vals`.
/// Values that are not as many as the parameters are an error.
pub fn call_code(rt: &mut Runtime, env: usize, codeobj: ObjId, vals: &Vec<ObjId>) -> (r: PyRes<
    ObjId,
>)
    requires
        old(rt).wf(),
        old(rt).valid_env(env),
        old(rt).is_code(codeobj),
        old(rt).all_valid(vals@),
    ensures
        final(rt).wf(),
        final(rt).extends(*old(rt)),
        raised_ok(*final(rt), r),
        r matches Ok(v) ==> final(rt).valid(v),
        code_call_rel(*old(rt), env, codeobj, vals@, *final(rt), r),
    decreases old(rt).fuel, 2nat,
{
    proof {
        lemma_extends_refl(*rt);
    }
    let code = rt.objects[codeobj].pycode_code();
    let names = rt.objects[codeobj].pycode_argnames();
    if names.len() != vals.len() {
        return Err(PyErr::TypeError("wrong number of arguments"));
    }
    let frame = Env::new_child(rt, env, &names, vals);
    let ghost mid = *rt;
    proof {
        assert(frame == old(rt).envs@.len() as usize);
    }
    let r = eval(rt, &code, frame);
    proof {
        lemma_extends_trans(*old(rt), mid, *rt);
    }
    r
}

/// What a call is handed to.
enum Callee {
    /// Code to run: the captured frame, the code object and the receiver.
    Code(usize, ObjId, Option<ObjId>),
    /// A native function and its receiver.
    Native(PyRustFun, Option<ObjId>),
    /// The `call` slot of the callable's type.
    Slot,
}

/// Applies the native function `f` to the receiver `slf` and the argument `arg`.
pub fn call_native(rt: &mut Runtime, f: NativeFn, slf: ObjId, arg: ObjId) -> (r: PyRes<ObjId>)
    requires
        old(rt).wf(),
        old(rt).valid(slf),
        old(rt).valid(arg),
    ensures
        final(rt).wf(),
        final(rt).extends(*old(rt)),
        raised_ok(*final(rt), r),
        r matches Ok(v) ==> final(rt).valid(v),
        native_rel(*old(rt), f, slf, arg, *final(rt), r),
    decreases old(rt).fuel, 3nat,
{
    match f {
        NativeFn::BuiltinLen => builtin_len(rt, slf, arg),
        NativeFn::ListAppend => PyObject::pylist_append(rt, slf, arg),
    }
}

/// `len(obj)`: what the `len` slot of the type of `obj` gives.
pub fn builtin_len(rt: &mut Runtime, _module: ObjId, obj: ObjId) -> (r: PyRes<ObjId>)
    requires
        old(rt).wf(),
        old(rt).valid(obj),
    ensures
        final(rt).wf(),
        final(rt).extends(*old(rt)),
        raised_ok(*final(rt), r),
        r matches Ok(v) ==> final(rt).valid(v),
        len_rel(*old(rt), obj, *final(rt), r),
    decreases old(rt).fuel, 2nat,
{
    proof {
        lemma_extends_refl(*rt);
        rt.lemma_obj(obj);
        rt.lemma_obj(rt.obj(obj).ob_type);
    }
    match rt.typeobj_of(obj).tp_len {
        Some(fun) => call_unaryop(rt, fun, obj),
        None => Err(PyErr::TypeError("object has no len()")),
    }
}

/// The result `r` is a new integer object of `cur` that holds `n`, the one
/// object by which `cur` differs from `prev`.
pub open spec fn new_int(prev: Runtime, cur: Runtime, r: PyRes<ObjId>, n: i32) -> bool {
    &&& cur.only_grew(prev)
    &&& r == Ok::<ObjId, PyErr>(prev.objects@.len() as usize)
    &&& cur.objects@.len() == prev.objects@.len() + 1
    &&& cur.obj(r->Ok_0).ob_type == PY_LONG_TYPE
    &&& spec_long_value(cur, r->Ok_0) == Some(n)
}

/// The result `r` is a type error, and `cur` is `prev`.
pub open spec fn type_error<T>(prev: Runtime, cur: Runtime, r: PyRes<T>) -> bool {
    r is Err && r->Err_0 is TypeError && cur.objects@ == prev.objects@ && cur.envs == prev.envs
        && cur.exc == prev.exc && cur.fuel == prev.fuel
}

/// The result `r` is the value `v`, and `cur` is `prev`.
pub open spec fn pure_value<T>(prev: Runtime, cur: Runtime, r: PyRes<T>, v: T) -> bool {
    r == Ok::<T, PyErr>(v) && cur.objects@ == prev.objects@ && cur.envs == prev.envs && cur.exc
        == prev.exc && cur.fuel == prev.fuel
}

/// What a unary slot that is no call of an object gives for the operand
/// `v`, between the runtimes `prev` and `cur`.
pub open spec fn unary_native(prev: Runtime, cur: Runtime, f: UnaryOp, v: ObjId, r: PyRes<ObjId>) -> bool {
    match f {
        UnaryOp::LongBool => match spec_long_value(prev, v) {
            Some(n) => pure_value(prev, cur, r, PyObject::spec_from_bool(n > 0)),
            None => type_error(prev, cur, r),
        },
        UnaryOp::ListBool => match spec_list_value(prev, v) {
            Some(items) => pure_value(prev, cur, r, PyObject::spec_from_bool(items.len() > 0)),
            None => type_error(prev, cur, r),
        },
        UnaryOp::ListLen => match spec_list_value(prev, v) {
            Some(items) => new_int(prev, cur, r, items.len() as i32),
            None => type_error(prev, cur, r),
        },
        UnaryOp::DictLen => match spec_dict_value(prev, v) {
            Some(entries) => new_int(prev, cur, r, entries.len() as i32),
            None => type_error(prev, cur, r),
        },
        UnaryOp::StrLen => match spec_str_value(prev, v) {
            Some(s) => new_int(prev, cur, r, spec_str_len(s)),
            None => type_error(prev, cur, r),
        },
        UnaryOp::Wrapped(_) => true,
    }
}

/// What a binary slot that is no call of an object gives for the operands
/// `lv` and `rv`, between the runtimes `prev` and `cur`.
pub open spec fn binary_native(
    prev: Runtime,
    cur: Runtime,
    f: BinaryOp,
    lv: ObjId,
    rv: ObjId,
    r: PyRes<ObjId>,
) -> bool {
    match f {
        BinaryOp::LongEq => match (spec_long_value(prev, lv), spec_long_value(prev, rv)) {
            (Some(a), Some(b)) => pure_value(prev, cur, r, PyObject::spec_from_bool(a == b)),
            _ => type_error(prev, cur, r),
        },
        BinaryOp::LongLt => match (spec_long_value(prev, lv), spec_long_value(prev, rv)) {
            (Some(a), Some(b)) => pure_value(prev, cur, r, PyObject::spec_from_bool(a < b)),
            _ => type_error(prev, cur, r),
        },
        BinaryOp::LongAdd => match (spec_long_value(prev, lv), spec_long_value(prev, rv)) {
            (Some(a), Some(b)) => new_int(prev, cur, r, a.wrapping_add(b)),
            _ => type_error(prev, cur, r),
        },
        BinaryOp::StrEq => match (spec_str_value(prev, lv), spec_str_value(prev, rv)) {
            (Some(a), Some(b)) => pure_value(prev, cur, r, PyObject::spec_from_bool(a == b)),
            _ => type_error(prev, cur, r),
        },
        BinaryOp::StrAdd => match (spec_str_value(prev, lv), spec_str_value(prev, rv)) {
            (Some(a), Some(b)) => {
                &&& cur.only_grew(prev)
                &&& r == Ok::<ObjId, PyErr>(prev.objects@.len() as usize)
                &&& cur.objects@.len() == prev.objects@.len() + 1
                &&& cur.obj(r->Ok_0).ob_type == PY_STRING_TYPE
                &&& spec_str_value(cur, r->Ok_0) == Some(a + b)
            },
            _ => type_error(prev, cur, r),
        },
        BinaryOp::TypeEq => pure_value(prev, cur, r, PyObject::spec_from_bool(lv == rv)),
        BinaryOp::Wrapped(_) => true,
    }
}

/// Calls the unary slot `f` with the operand `v`.
pub fn call_unaryop(rt: &mut Runtime, f: UnaryOp, v: ObjId) -> (r: PyRes<ObjId>)
    requires
        old(rt).wf(),
        old(rt).valid(v),
        f matches UnaryOp::Wrapped(o) ==> old(rt).valid(o),
    ensures
        final(rt).wf(),
        final(rt).extends(*old(rt)),
        raised_ok(*final(rt), r),
        r matches Ok(v) ==> final(rt).valid(v),
        unary_rel(*old(rt), f, v, *final(rt), r),
    decreases old(rt).fuel, 1nat,
{
    proof {
        lemma_extends_refl(*rt);
    }
    match f {
        UnaryOp::LongBool => PyObject::pylong_bool(rt, v),
        UnaryOp::ListBool => PyObject::pylist_bool(rt, v),
        UnaryOp::ListLen => PyObject::pylist_len(rt, v),
        UnaryOp::DictLen => PyObject::pydict_len(rt, v),
        UnaryOp::StrLen => pystr_len(rt, v),
        UnaryOp::Wrapped(o) => {
            let mut args: Vec<ObjId> = Vec::new();
            args.push(v);
            assert(args@ =~= seq![v]);
            call_func(rt, o, &args)
        },
    }
}

/// Calls the binary slot `f` with the operands `lv` and `rv`.
pub fn call_binop(rt: &mut Runtime, f: BinaryOp, lv: ObjId, rv: ObjId) -> (r: PyRes<ObjId>)
    requires
        old(rt).wf(),
        old(rt).valid(lv),
        old(rt).valid(rv),
        f matches BinaryOp::Wrapped(o) ==> old(rt).valid(o),
    ensures
        final(rt).wf(),
        final(rt).extends(*old(rt)),
        raised_ok(*final(rt), r),
        r matches Ok(v) ==> final(rt).valid(v),
        binary_rel(*old(rt), f, lv, rv, *final(rt), r),
    decreases old(rt).fuel, 1nat,
{
    proof {
        lemma_extends_refl(*rt);
    }
    match f {
        BinaryOp::LongEq => PyObject::pylong_eq(rt, lv, rv),
        BinaryOp::LongAdd => PyObject::pylong_add(rt, lv, rv),
        BinaryOp::LongLt => PyObject::pylong_lt(rt, lv, rv),
        BinaryOp::StrEq => pystr_eq(rt, lv, rv),
        BinaryOp::StrAdd => pystr_add(rt, lv, rv),
        BinaryOp::TypeEq => Ok(type_eq(lv, rv)),
        BinaryOp::Wrapped(o) => {
            let mut args: Vec<ObjId> = Vec::new();
            args.push(lv);
            args.push(rv);
            assert(args@ =~= seq![lv, rv]);
            call_func(rt, o, &args)
        },
    }
}

/// Calls the variadic slot `f` with the receiver `slf` and the arguments `args`.
pub fn call_varargfun(rt: &mut Runtime, f: VarArgFun, slf: ObjId, args: &Vec<ObjId>) -> (r:
    PyRes<ObjId>)
    requires
        old(rt).wf(),
        old(rt).valid(slf),
        old(rt).all_valid(args@),
        f matches VarArgFun::Wrapped(o) ==> old(rt).valid(o),
    ensures
        final(rt).wf(),
        final(rt).extends(*old(rt)),
        raised_ok(*final(rt), r),
        r matches Ok(v) ==> final(rt).valid(v),
        vararg_rel(*old(rt), f, slf, args@, *final(rt), r),
    decreases old(rt).fuel, 2nat,
{
    match f {
        VarArgFun::TypeCall => {
            if !rt.burn() {
                return Err(PyErr::OutOfFuel);
            }
            let ghost mid = *rt;
            proof {
                mid.lemma_valid_later(*old(rt), args@);
                assert(mid == burnt(*old(rt)));
            }
            let r = type_call(rt, slf, args);
            proof {
                lemma_extends_trans(*old(rt), mid, *rt);
            }
            r
        },
        VarArgFun::TypeNew => {
            let r = type_new(rt, slf, args);
            r
        },
        VarArgFun::ObjectNew => object_new(rt, slf, args),
        VarArgFun::BaseExcNew => pybaseexc_new(rt, slf, args),
        VarArgFun::Wrapped(o) => {
            let mut all: Vec<ObjId> = Vec::new();
            all.push(slf);
            let mut i: usize = 0;
            while i < args.len()
                invariant
                    i <= args@.len(),
                    rt.all_valid(args@),
                    rt.all_valid(all@),
                    all@ == seq![slf] + args@.take(i as int),
                decreases args@.len() - i,
            {
                assert(rt.valid(args@[i as int]));
                all.push(args[i]);
                proof {
                    assert(args@.take(i + 1) =~= args@.take(i as int).push(args@[i as int]));
                    assert(all@ =~= seq![slf] + args@.take(i + 1));
                }
                i = i + 1;
            }
            proof {
                assert(args@.take(i as int) =~= args@);
            }
            call_func(rt, o, &all)
        },
    }
}

/// Calls the type `typ`. `type` with one argument gives the type of the
/// argument. Else the constructor protocol runs: the `new` slot of the type
/// makes the instance, and the `init` slot of the instance's type, if it has
/// one, is called with the instance and the same arguments, unless `typ` is
/// `type` itself. The result of `init` is dropped.
pub fn type_call(rt: &mut Runtime, typ: ObjId, args: &Vec<ObjId>) -> (r: PyRes<ObjId>)
    requires
        old(rt).wf(),
        old(rt).valid(typ),
        old(rt).all_valid(args@),
    ensures
        final(rt).wf(),
        final(rt).extends(*old(rt)),
        raised_ok(*final(rt), r),
        r matches Ok(v) ==> final(rt).valid(v),
        type_call_rel(*old(rt), typ, args@, *final(rt), r),
    decreases old(rt).fuel, 3nat,
{
    proof {
        lemma_extends_refl(*rt);
    }
    if typ == PY_TYPE_TYPE {
        if args.len() == 1 {
            assert(rt.valid(args@[0]));
            return Ok(rt.type_of(args[0]));
        } else if args.len() != 3 {
            return Err(PyErr::TypeError("type() takes 1 or 3 arguments"));
        }
    }
    let tp_new = match &rt.objects[typ].inner {
        PyInnerObject::TypeObj(t) => t.tp_new,
        _ => {
            return Err(PyErr::TypeError("type object expected"));
        },
    };
    let tp_new = match tp_new {
        Some(f) => f,
        None => {
            return Err(PyErr::TypeError("cannot create instances"));
        },
    };
    proof {
        rt.lemma_obj(typ);
    }
    let made = call_varargfun(rt, tp_new, typ, args);
    let ghost mid = *rt;
    let obj = match made {
        Ok(obj) => obj,
        Err(e) => {
            proof {
                assert(value_ok(mid, made));
            }
            return Err(e);
        },
    };
    proof {
        assert(value_ok(mid, made));
    }
    if typ == PY_TYPE_TYPE {
        return Ok(obj);
    }
    proof {
        mid.lemma_valid_later(*old(rt), args@);
    }
    let init = rt.typeobj_of(obj).tp_init;
    match init {
        Some(tp_init) => {
            proof {
                mid.lemma_obj(obj);
                mid.lemma_obj(mid.obj(obj).ob_type);
            }
            let res = call_varargfun(rt, tp_init, obj, args);
            proof {
                lemma_extends_trans(*old(rt), mid, *rt);
            }
            match res {
                Ok(_) => {
                    proof {
                        assert(initialized(made, res, Ok(obj)));
                    }
                },
                Err(e) => {
                    proof {
                        assert(initialized(made, res, Err(e)));
                    }
                    return Err(e);
                },
            }
        },
        None => {},
    }
    Ok(obj)
}

/// The truth value of `v`: what the `bool` slot of its type gives, which
/// must be the `True` or the `False` object; without that slot, whether the
/// `len` slot gives a positive integer; without either, an error.
pub fn pyobj_to_bool(rt: &mut Runtime, v: ObjId) -> (r: PyRes<bool>)
    requires
        old(rt).wf(),
        old(rt).valid(v),
    ensures
        final(rt).wf(),
        final(rt).extends(*old(rt)),
        raised_ok(*final(rt), r),
        truth_rel(*old(rt), v, *final(rt), r),
    decreases old(rt).fuel, 2nat,
{
    proof {
        lemma_extends_refl(*rt);
        rt.lemma_obj(v);
        rt.lemma_obj(rt.obj(v).ob_type);
    }
    let tp_bool = rt.typeobj_of(v).tp_bool;
    let tp_len = rt.typeobj_of(v).tp_len;
    match tp_bool {
        Some(fun) => {
            let res = call_unaryop(rt, fun, v);
            let r = match res {
                Ok(x) => if x == PY_TRUE {
                    Ok(true)
                } else if x == PY_FALSE {
                    Ok(false)
                } else {
                    Err(PyErr::TypeError("boolean object expected"))
                },
                Err(e) => Err(e),
            };
            proof {
                assert(as_truth(res, r));
            }
            r
        },
        None => match tp_len {
            Some(fun) => {
                let res = call_unaryop(rt, fun, v);
                let r = match res {
                    Ok(x) => match pyobj_to_i32(rt, x) {
                        Ok(n) => Ok(n > 0),
                        Err(e) => Err(e),
                    },
                    Err(e) => Err(e),
                };
                proof {
                    assert(as_length(*rt, res, r));
                }
                r
            },
            None => Err(PyErr::TypeError("boolean object expected")),
        },
    }
}

/// Whether `v` counts as true, as [`pyobj_to_bool`] finds it.
pub fn pyobj_is_bool(rt: &mut Runtime, v: ObjId) -> (r: PyRes<bool>)
    requires
        old(rt).wf(),
        old(rt).valid(v),
    ensures
        final(rt).wf(),
        final(rt).extends(*old(rt)),
        raised_ok(*final(rt), r),
        truth_rel(*old(rt), v, *final(rt), r),
    decreases old(rt).fuel, 3nat,
{
    pyobj_to_bool(rt, v)
}

/// Attribute read: what the attribute-read slot of the type of `value`
/// finds; an attribute that it does not find is an error.
pub fn pyobj_get_attr(rt: &mut Runtime, value: ObjId, key: ObjId) -> (r: PyRes<ObjId>)
    requires
        old(rt).wf(),
        old(rt).valid(value),
        old(rt).valid(key),
    ensures
        final(rt).wf(),
        final(rt).extends(*old(rt)),
        final(rt).only_grew(*old(rt)),
        r matches Ok(v) ==> final(rt).valid(v),
        r matches Err(e) ==> e is TypeError || e is AttributeError,
        get_attr_rel(*old(rt), value, key, *final(rt), r),
{
    proof {
        lemma_extends_refl(*rt);
    }
    let res = match rt.typeobj_of(value).tp_getattro {
        Some(GetAttroFun::Generic) => pyobj_generic_get_attro(rt, value, key),
        Some(GetAttroFun::Type) => {
            match &rt.objects[value].inner {
                PyInnerObject::TypeObj(_) => type_getattro(rt, value, key),
                _ => Err(PyErr::TypeError("type object expected")),
            }
        },
        None => Ok(None),
    };
    match res {
        Ok(Some(v)) => Ok(v),
        Ok(None) => Err(PyErr::AttributeError("failed to find attribute")),
        Err(e) => Err(e),
    }
}

/// Attribute write: through the attribute-write slot of the type of
/// `value`; a type without that slot takes no attributes.
pub fn pyobj_set_attr(rt: &mut Runtime, value: ObjId, key: ObjId, rvalue: ObjId) -> (r: PyRes<()>)
    requires
        old(rt).wf(),
        old(rt).valid(value),
        old(rt).valid(key),
        old(rt).valid(rvalue),
    ensures
        final(rt).wf(),
        final(rt).extends(*old(rt)),
        final(rt).objects@.len() == old(rt).objects@.len(),
        r matches Err(e) ==> e is TypeError || e is AttributeError,
        set_attr_rel(*old(rt), value, key, rvalue, *final(rt), r),
{
    proof {
        lemma_extends_refl(*rt);
    }
    match rt.typeobj_of(value).tp_setattro {
        Some(SetAttroFun::Generic) => pyobj_generic_set_attro(rt, value, key, rvalue),
        Some(SetAttroFun::Type) => {
            let is_type = match &rt.objects[value].inner {
                PyInnerObject::TypeObj(_) => true,
                _ => false,
            };
            if is_type {
                type_setattro(rt, value, key, rvalue)
            } else {
                Err(PyErr::TypeError("type object expected"))
            }
        },
        None => Err(PyErr::TypeError("__setattribute__ expected")),
    }
}

/// Makes an instance of the exception type `exception` by calling the type
/// with the one argument `s`, as a string object, and puts the instance into
/// the exception indicator. Returns the error with which the failure that
/// is being reported goes on: `Raised`, or what ended the program while the
/// exception was made.
pub fn pyerr_set_string(rt: &mut Runtime, exception: ObjId, s: &str) -> (e: PyErr)
    requires
        old(rt).wf(),
        old(rt).valid(exception),
    ensures
        final(rt).wf(),
        final(rt).extends(*old(rt)),
        e is Raised || e.spec_is_fatal(),
        e is Raised ==> final(rt).exc is Some,
        set_string_rel(*old(rt), exception, s@, *final(rt), e),
    decreases old(rt).fuel, 1nat,
{
    let msg = PyObject::from_str(rt, s);
    let ghost m1 = *rt;
    proof {
        assert(msg == old(rt).objects@.len() as usize);
    }
    let mut args: Vec<ObjId> = Vec::new();
    args.push(msg);
    proof {
        assert(args@ =~= seq![msg]);
    }
    let res = call_func(rt, exception, &args);
    let ghost m2 = *rt;
    proof {
        lemma_extends_trans(*old(rt), m1, m2);
        assert(value_ok(m2, res));
    }
    match res {
        Ok(err) => {
            pyerr_set(rt, err);
            proof {
                assert(rt.extends(m2)) by {
                    lemma_extends_refl(m2);
                }
                lemma_extends_trans(*old(rt), m2, *rt);
                assert(set_string_made(m1, exception, msg, *rt, PyErr::Raised));
            }
            PyErr::Raised
        },
        Err(e) => {
            if e.is_fatal() {
                proof {
                    assert(set_string_made(m1, exception, msg, *rt, e));
                }
                e
            } else {
                match e.exc_type() {
                    Some(t) => {
                        proof {
                            m2.lemma_obj(t);
                        }
                        let e2 = pyerr_set_string(rt, t, e.message());
                        proof {
                            lemma_extends_trans(*old(rt), m2, *rt);
                            assert(set_string_made(m1, exception, msg, *rt, e2));
                        }
                        e2
                    },
                    None => {
                        proof {
                            assert(set_string_made(m1, exception, msg, *rt, PyErr::Raised));
                        }
                        PyErr::Raised
                    },
                }
            }
        },
    }
}

/// What `object_new` does: the state before the call, and the state and the result
/// after it.
pub open spec fn object_new_post(
    prt: Runtime,
    rt: Runtime,
    typ: ObjId,
    args: Seq<ObjId>,
    r: PyRes<ObjId>,
) -> bool {
    &&& rt.wf()
    &&& rt.extends(prt)
    &&& rt.only_grew(prt)
    &&& if prt.is_type(typ) {
            &&& r == Ok::<ObjId, PyErr>((prt.objects@.len() + 1) as usize)
            &&& rt.objects@.len() == prt.objects@.len() + 2
            &&& rt.obj(r->Ok_0).ob_type == typ
            &&& rt.obj(r->Ok_0).ob_dict == Some(prt.objects@.len() as usize)
            &&& rt.obj(r->Ok_0).inner is InstObj
            &&& rt.dict_entries(prt.objects@.len() as usize).len() == 0
        } else {
            r is Err && r->Err_0 is TypeError && rt.objects@ == prt.objects@
        }
}

/// What `pybaseexc_new` does: the state before the call, and the state and the result
/// after it.
pub open spec fn pybaseexc_new_post(
    prt: Runtime,
    rt: Runtime,
    exception: ObjId,
    args: Seq<ObjId>,
    r: PyRes<ObjId>,
) -> bool {
    &&& rt.wf()
    &&& rt.extends(prt)
    &&& rt.only_grew(prt)
    &&& if prt.is_type(exception) {
            &&& r == Ok::<ObjId, PyErr>((prt.objects@.len() + 2) as usize)
            &&& rt.objects@.len() == prt.objects@.len() + 3
            &&& rt.obj(r->Ok_0).ob_type == exception
            &&& rt.obj(r->Ok_0).ob_dict == Some((prt.objects@.len() + 1) as usize)
            &&& rt.obj(r->Ok_0).inner == PyInnerObject::ExcObj(
                PyExcObject { args: prt.objects@.len() as usize },
            )
            &&& rt.list_items(prt.objects@.len() as usize) == args
        } else {
            r is Err && r->Err_0 is TypeError && rt.objects@ == prt.objects@
        }
}

} // verus!
