use vstd::prelude::*;
use crate::object::{ObjId, PyInnerObject, PyObject, Runtime, PY_CODE_TYPE};
use crate::opcode::{clone_code, Code};
use crate::syntax::Id;

verus! {

/// The payload of a code object: instructions and parameter names.
pub struct PyCodeObject {
    pub co_code: Code,
    pub co_argnames: Vec<Id>,
}

/// The texts of the names `names`.
pub open spec fn names_of(names: Seq<Id>) -> Seq<Seq<char>> {
    Seq::new(names.len(), |j: int| names[j]@)
}

/// A copy of a vector of names.
pub fn clone_names(names: &Vec<Id>) -> (r: Vec<Id>)
    ensures
        r@ == names@,
{
    let mut r: Vec<Id> = Vec::new();
    let mut i: usize = 0;
    while i < names.len()
        invariant
            i <= names@.len(),
            r@ == names@.take(i as int),
        decreases names@.len() - i,
    {
        r.push(names[i].clone());
        proof {
            assert(names@.take(i as int).push(names@[i as int]) =~= names@.take(i + 1));
        }
        i = i + 1;
    }
    proof {
        assert(names@.take(names@.len() as int) =~= names@);
    }
    r
}

impl PyObject {
    /// Makes a new code object out of instructions and parameter names.
    pub fn pycode_new(rt: &mut Runtime, code: Code, argnames: Vec<Id>) -> (id: ObjId)
        requires
            old(rt).wf(),
        ensures
            final(rt).wf(),
            final(rt).extends(*old(rt)),
            final(rt).only_grew(*old(rt)),
            id == old(rt).objects@.len(),
            final(rt).objects@.len() == id + 1,
            final(rt).obj(id).ob_type == PY_CODE_TYPE,
            final(rt).obj(id).ob_dict.is_none(),
            final(rt).obj(id).inner == PyInnerObject::CodeObj(
                PyCodeObject { co_code: code, co_argnames: argnames },
            ),
    {
        rt.new_object(
            PyObject {
                ob_type: PY_CODE_TYPE,
                ob_dict: None,
                inner: PyInnerObject::CodeObj(PyCodeObject { co_code: code, co_argnames: argnames }),
            },
        )
    }

    /// A copy of the instructions of a code object.
    pub fn pycode_code(&self) -> (code: Code)
        requires
            self.inner is CodeObj,
        ensures
            code@ == self.inner->CodeObj_0.co_code@,
    {
        match &self.inner {
            PyInnerObject::CodeObj(c) => clone_code(&c.co_code),
            _ => vstd::pervasive::unreached(),
        }
    }

    /// A copy of the parameter names of a code object.
    pub fn pycode_argnames(&self) -> (names: Vec<Id>)
        requires
            self.inner is CodeObj,
        ensures
            names@ == self.inner->CodeObj_0.co_argnames@,
    {
        match &self.inner {
            PyInnerObject::CodeObj(c) => clone_names(&c.co_argnames),
            _ => vstd::pervasive::unreached(),
        }
    }
}

} // verus!
