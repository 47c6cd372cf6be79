use vstd::prelude::*;
use crate::object::{
    EnvId, ObjId, PyInnerObject, PyObject, Runtime, PY_FUN_TYPE,
};
use crate::opcode::Code;
use crate::syntax::Id;

verus! {

/// The payload of a function: its code object and the frame it was made in.
pub struct PyFunObject {
    pub env: EnvId,
    pub codeobj: ObjId,
}

impl PyObject {
    /// Makes a new function out of a code object and the frame `env`, which
    /// the function captures.
    pub fn pyfun_new(rt: &mut Runtime, env: EnvId, codeobj: ObjId) -> (id: ObjId)
        requires
            old(rt).wf(),
            old(rt).valid_env(env),
            old(rt).is_code(codeobj),
        ensures
            pyfun_new_post(*old(rt), *final(rt), env, codeobj, id),
    {
        rt.new_object(
            PyObject {
                ob_type: PY_FUN_TYPE,
                ob_dict: None,
                inner: PyInnerObject::FunObj(PyFunObject { env: env, codeobj: codeobj }),
            },
        )
    }

    /// A copy of the instructions of the function `slf`.
    pub fn pyfun_code(rt: &Runtime, slf: ObjId) -> (code: Code)
        requires
            rt.wf(),
            rt.valid(slf),
            rt.obj(slf).inner is FunObj,
        ensures
            code@ == rt.obj(rt.obj(slf).inner->FunObj_0.codeobj).inner->CodeObj_0.co_code@,
    {
        proof {
            rt.lemma_obj(slf);
        }
        match &rt.objects[slf].inner {
            PyInnerObject::FunObj(f) => rt.objects[f.codeobj].pycode_code(),
            _ => vstd::pervasive::unreached(),
        }
    }

    /// A copy of the parameter names of the function `slf`.
    pub fn pyfun_argnames(rt: &Runtime, slf: ObjId) -> (names: Vec<Id>)
        requires
            rt.wf(),
            rt.valid(slf),
            rt.obj(slf).inner is FunObj,
        ensures
            names@ == rt.obj(rt.obj(slf).inner->FunObj_0.codeobj).inner->CodeObj_0.co_argnames@,
    {
        proof {
            rt.lemma_obj(slf);
        }
        match &rt.objects[slf].inner {
            PyInnerObject::FunObj(f) => rt.objects[f.codeobj].pycode_argnames(),
            _ => vstd::pervasive::unreached(),
        }
    }
}

/// What `pyfun_new` does: the state before the call, and the state and the result
/// after it.
pub open spec fn pyfun_new_post(
    prt: Runtime,
    rt: Runtime,
    env: EnvId,
    codeobj: ObjId,
    id: ObjId,
) -> bool {
    &&& rt.wf()
    &&& rt.extends(prt)
    &&& rt.only_grew(prt)
    &&& id == prt.objects@.len()
    &&& rt.objects@.len() == id + 1
    &&& rt.obj(id).ob_type == PY_FUN_TYPE
    &&& rt.obj(id).ob_dict.is_none()
    &&& rt.obj(id).inner == PyInnerObject::FunObj(
            PyFunObject { env: env, codeobj: codeobj },
        )
}

} // verus!
