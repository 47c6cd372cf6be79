use vstd::prelude::*;
use crate::object::{
    ObjId, Runtime, PY_ATTRIBUTEERROR_TYPE, PY_INDEXERROR_TYPE, PY_STOPITERATION_TYPE,
    PY_TYPEERROR_TYPE,
};

verus! {

/// Why an operation did not produce its value.
///
/// The first four name a built-in exception that has not been made yet: the
/// stack machine instantiates it and puts it into the exception indicator
/// when the failure reaches it. `Raised` says that the indicator already holds
/// the exception. The remaining ones end the program: no handler catches them.
#[derive(Clone, Copy, Debug, PartialEq, Eq)]
pub enum PyErr {
    TypeError(&'static str),
    AttributeError(&'static str),
    IndexError(&'static str),
    StopIteration,
    /// The exception indicator holds the exception.
    Raised,
    /// A name was read that no frame binds.
    NameError,
    /// An `assert` statement found its condition false.
    AssertionError,
    /// The code vector asked for something that its stacks do not hold.
    InvalidCode,
    /// The step budget is used up.
    OutOfFuel,
    /// The bases of a class admit no linearization.
    MroConflict,
}

/// The result of a fallible operation.
pub type PyRes<T> = Result<T, PyErr>;

impl PyErr {
    /// The type of the built-in exception that the error stands for, if it
    /// stands for one.
    pub open spec fn spec_exc_type(self) -> Option<ObjId> {
        match self {
            PyErr::TypeError(_) => Some(PY_TYPEERROR_TYPE),
            PyErr::AttributeError(_) => Some(PY_ATTRIBUTEERROR_TYPE),
            PyErr::IndexError(_) => Some(PY_INDEXERROR_TYPE),
            PyErr::StopIteration => Some(PY_STOPITERATION_TYPE),
            _ => None,
        }
    }

    /// The error ends the program.
    pub open spec fn spec_is_fatal(self) -> bool {
        match self {
            PyErr::NameError | PyErr::AssertionError | PyErr::InvalidCode | PyErr::OutOfFuel
            | PyErr::MroConflict => true,
            _ => false,
        }
    }

    /// The type of the built-in exception that the error stands for.
    pub fn exc_type(&self) -> (r: Option<ObjId>)
        ensures
            r == self.spec_exc_type(),
    {
        match self {
            PyErr::TypeError(_) => Some(PY_TYPEERROR_TYPE),
            PyErr::AttributeError(_) => Some(PY_ATTRIBUTEERROR_TYPE),
            PyErr::IndexError(_) => Some(PY_INDEXERROR_TYPE),
            PyErr::StopIteration => Some(PY_STOPITERATION_TYPE),
            _ => None,
        }
    }

    /// Whether the error ends the program.
    pub fn is_fatal(&self) -> (r: bool)
        ensures
            r == self.spec_is_fatal(),
    {
        match self {
            PyErr::NameError | PyErr::AssertionError | PyErr::InvalidCode | PyErr::OutOfFuel
            | PyErr::MroConflict => true,
            _ => false,
        }
    }

    /// The message of a built-in exception; empty for the other errors.
    pub open spec fn spec_message(self) -> Seq<char> {
        match self {
            PyErr::TypeError(m) => m@,
            PyErr::AttributeError(m) => m@,
            PyErr::IndexError(m) => m@,
            _ => ""@,
        }
    }

    /// The message of a built-in exception; empty for the other errors.
    pub fn message(&self) -> (r: &'static str)
        ensures
            r@ == self.spec_message(),
    {
        match self {
            PyErr::TypeError(m) => m,
            PyErr::AttributeError(m) => m,
            PyErr::IndexError(m) => m,
            _ => "",
        }
    }
}

/// Whether the exception indicator holds an exception.
pub fn pyerr_occurred(rt: &Runtime) -> (r: bool)
    ensures
        r == rt.exc.is_some(),
{
    rt.exc.is_some()
}

/// Puts `err` into the exception indicator.
pub fn pyerr_set(rt: &mut Runtime, err: ObjId)
    requires
        old(rt).wf(),
        old(rt).valid(err),
    ensures
        final(rt).wf(),
        final(rt).exc == Some(err),
        final(rt).objects == old(rt).objects,
        final(rt).envs == old(rt).envs,
        final(rt).fuel == old(rt).fuel,
{
    rt.exc = Some(err);
    proof {
        assert forall|i: int| 0 <= i < rt.objects@.len() implies #[trigger] crate::object::obj_ok_at(
            rt.objects@,
            rt.envs@.len(),
            i,
        ) by {
            assert(crate::object::obj_ok_at(old(rt).objects@, old(rt).envs@.len(), i));
        }
    }
}

/// Empties the exception indicator.
pub fn pyerr_clear(rt: &mut Runtime)
    requires
        old(rt).wf(),
    ensures
        final(rt).wf(),
        final(rt).exc.is_none(),
        final(rt).objects == old(rt).objects,
        final(rt).envs == old(rt).envs,
        final(rt).fuel == old(rt).fuel,
{
    rt.exc = None;
    proof {
        assert forall|i: int| 0 <= i < rt.objects@.len() implies #[trigger] crate::object::obj_ok_at(
            rt.objects@,
            rt.envs@.len(),
            i,
        ) by {
            assert(crate::object::obj_ok_at(old(rt).objects@, old(rt).envs@.len(), i));
        }
    }
}

/// Whether the exception indicator holds an exception whose type has
/// `exception` among its ancestors, itself included.
pub fn pyerr_check(rt: &Runtime, exception: ObjId) -> (r: bool)
    requires
        rt.wf(),
    ensures
        r == match rt.exc {
            Some(exc) => crate::object::generic::spec_isinstance(*rt, exc, exception),
            None => false,
        },
{
    match rt.exc {
        Some(exc) => crate::object::generic::pyobj_isinstance(rt, exc, exception),
        None => false,
    }
}

} // verus!
