use vstd::prelude::*;
use crate::error::{PyErr, PyRes};
use crate::object::longobj::spec_long_value;
use crate::object::typeobj::clone_ids;
use crate::object::{
    lemma_wf_after_update, ObjId, PyInnerObject, PyObject, Runtime, PY_LISTITER_TYPE,
    PY_LIST_TYPE, PY_LONG_TYPE, PY_NONE_OBJECT,
};

verus! {

/// The payload of a list object.
pub struct PyListObject {
    pub list: Vec<ObjId>,
}

/// The payload of a list iterator: the list and the index of the next item.
pub struct PyListIterObject {
    pub it_index: usize,
    pub it_seq: ObjId,
}

/// The items of the object at `id`, if it is a list.
pub open spec fn spec_list_value(rt: Runtime, id: ObjId) -> Option<Seq<ObjId>> {
    match rt.obj(id).inner {
        PyInnerObject::ListObj(l) => Some(l.list@),
        _ => None,
    }
}

/// The list and the position of the iterator at `id`, if it is a list iterator.
pub open spec fn spec_iter_value(rt: Runtime, id: ObjId) -> Option<(ObjId, usize)> {
    match rt.obj(id).inner {
        PyInnerObject::ListIterObj(it) => Some((it.it_seq, it.it_index)),
        _ => None,
    }
}

/// What the next step of an iterator at position `index` over `items` yields.
pub open spec fn spec_iter_next(items: Seq<ObjId>, index: usize) -> Option<ObjId> {
    if index < items.len() {
        Some(items[index as int])
    } else {
        None
    }
}

/// The position of an iterator over `items` after `steps` steps from `index`.
pub open spec fn spec_iter_advance(items: Seq<ObjId>, index: usize, steps: nat) -> usize
    decreases steps,
{
    if steps == 0 {
        index
    } else if index < items.len() {
        spec_iter_advance(items, (index + 1) as usize, (steps - 1) as nat)
    } else {
        index
    }
}

/// Iterating a list from its start yields each of its items once, in order,
/// and then ends: the `k`-th step yields the `k`-th item for every `k` below
/// the length, and the step after the last item yields nothing and leaves the
/// iterator where it is.
pub proof fn lemma_iteration_yields_items_in_order(items: Seq<ObjId>, k: nat)
    requires
        items.len() <= usize::MAX,
    ensures
        k < items.len() ==> spec_iter_advance(items, 0, k) == k && spec_iter_next(
            items,
            spec_iter_advance(items, 0, k),
        ) == Some(items[k as int]),
        k >= items.len() ==> spec_iter_advance(items, 0, k) == items.len() && spec_iter_next(
            items,
            spec_iter_advance(items, 0, k),
        ).is_none(),
{
    lemma_iter_advance(items, 0, k);
}

/// `steps` steps from `index` end at `index + steps`, or at the end of the list.
pub proof fn lemma_iter_advance(items: Seq<ObjId>, index: usize, steps: nat)
    requires
        index <= items.len() <= usize::MAX,
    ensures
        spec_iter_advance(items, index, steps) == if index + steps <= items.len() {
            index + steps
        } else {
            items.len() as int
        },
    decreases steps,
{
    if steps > 0 && index < items.len() {
        lemma_iter_advance(items, (index + 1) as usize, (steps - 1) as nat);
    }
}

impl PyObject {
    /// Makes a new list object with the items of `v`.
    pub fn pylist_from_vec(rt: &mut Runtime, v: &Vec<ObjId>) -> (id: ObjId)
        requires
            old(rt).wf(),
            old(rt).all_valid(v@),
        ensures
            pylist_from_vec_post(*old(rt), *final(rt), v@, id),
    {
        let items = clone_ids(v);
        rt.new_object(
            PyObject {
                ob_type: PY_LIST_TYPE,
                ob_dict: None,
                inner: PyInnerObject::ListObj(PyListObject { list: items }),
            },
        )
    }

    /// Whether the object's type is `list`.
    pub fn pylist_check(&self) -> (r: bool)
        ensures
            r == (self.ob_type == PY_LIST_TYPE),
    {
        self.ob_type == PY_LIST_TYPE
    }

    /// The length of a list: a new integer object.
    pub fn pylist_len(rt: &mut Runtime, slf: ObjId) -> (r: PyRes<ObjId>)
        requires
            old(rt).wf(),
            old(rt).valid(slf),
        ensures
            final(rt).wf(),
            final(rt).extends(*old(rt)),
            final(rt).only_grew(*old(rt)),
            match spec_list_value(*old(rt), slf) {
                Some(items) => {
                    &&& r == Ok::<ObjId, PyErr>(old(rt).objects@.len() as usize)
                    &&& final(rt).objects@.len() == old(rt).objects@.len() + 1
                    &&& final(rt).obj(r->Ok_0).ob_type == PY_LONG_TYPE
                    &&& spec_long_value(*final(rt), r->Ok_0) == Some(items.len() as i32)
                },
                None => r is Err && r->Err_0 is TypeError && final(rt).objects@ == old(rt).objects@,
            },
    {
        let n = match &rt.objects[slf].inner {
            PyInnerObject::ListObj(l) => Some(#[verifier::truncate] (l.list.len() as i32)),
            _ => None,
        };
        match n {
            Some(n) => Ok(PyObject::from_i32(rt, n)),
            None => Err(PyErr::TypeError("len expects list object")),
        }
    }

    /// The truth value of a list: `True` if it has an item.
    pub fn pylist_bool(rt: &Runtime, slf: ObjId) -> (r: PyRes<ObjId>)
        requires
            rt.valid(slf),
        ensures
            match spec_list_value(*rt, slf) {
                Some(items) => r == Ok::<ObjId, PyErr>(PyObject::spec_from_bool(items.len() > 0)),
                None => r is Err && r->Err_0 is TypeError,
            },
    {
        match &rt.objects[slf].inner {
            PyInnerObject::ListObj(l) => Ok(PyObject::from_bool(l.list.len() > 0)),
            _ => Err(PyErr::TypeError("bool expects list object")),
        }
    }

    /// The item at `index`.
    pub fn pylist_getitem(rt: &Runtime, slf: ObjId, index: usize) -> (r: PyRes<ObjId>)
        requires
            rt.valid(slf),
        ensures
            match spec_list_value(*rt, slf) {
                Some(items) => if index < items.len() {
                    r == Ok::<ObjId, PyErr>(items[index as int])
                } else {
                    r is Err && r->Err_0 is IndexError
                },
                None => r is Err && r->Err_0 is TypeError,
            },
    {
        match &rt.objects[slf].inner {
            PyInnerObject::ListObj(l) => {
                if index < l.list.len() {
                    Ok(l.list[index])
                } else {
                    Err(PyErr::IndexError("list index out of range"))
                }
            },
            _ => Err(PyErr::TypeError("__getitem__ expects list object")),
        }
    }

    /// The number of items of a list.
    pub fn pylist_size(&self) -> (n: usize)
        requires
            self.inner is ListObj,
        ensures
            n == self.inner->ListObj_0.list@.len(),
    {
        match &self.inner {
            PyInnerObject::ListObj(l) => l.list.len(),
            _ => vstd::pervasive::unreached(),
        }
    }

    /// A copy of the items of a list.
    pub fn pylist_clone(&self) -> (v: Vec<ObjId>)
        requires
            self.inner is ListObj,
        ensures
            v@ == self.inner->ListObj_0.list@,
    {
        match &self.inner {
            PyInnerObject::ListObj(l) => clone_ids(&l.list),
            _ => vstd::pervasive::unreached(),
        }
    }

    /// Puts `elm` at the end of a list and returns the `None` object.
    pub fn pylist_append(rt: &mut Runtime, slf: ObjId, elm: ObjId) -> (r: PyRes<ObjId>)
        requires
            old(rt).wf(),
            old(rt).valid(slf),
            old(rt).valid(elm),
        ensures
            pylist_append_post(*old(rt), *final(rt), slf, elm, r),
    {
        let ghost prev = *rt;
        let done = match &mut rt.objects[slf].inner {
            PyInnerObject::ListObj(l) => {
                l.list.push(elm);
                true
            },
            _ => false,
        };
        if done {
            proof {
                prev.lemma_obj(slf);
                lemma_wf_after_update(prev, *rt, slf);
            }
            Ok(PY_NONE_OBJECT)
        } else {
            proof {
                assert(rt.objects@ =~= prev.objects@);
                prev.lemma_obj(slf);
                lemma_wf_after_update(prev, *rt, slf);
            }
            Err(PyErr::TypeError("append expects list object"))
        }
    }

    /// Makes a new iterator at the start of a list.
    pub fn pylist_iter(rt: &mut Runtime, slf: ObjId) -> (r: PyRes<ObjId>)
        requires
            old(rt).wf(),
            old(rt).valid(slf),
        ensures
            pylist_iter_post(*old(rt), *final(rt), slf, r),
    {
        let is_list = match &rt.objects[slf].inner {
            PyInnerObject::ListObj(_) => true,
            _ => false,
        };
        if !rt.objects[slf].pylist_check() || !is_list {
            return Err(PyErr::TypeError("__iter__ expects list object"));
        }
        Ok(
            rt.new_object(
                PyObject {
                    ob_type: PY_LISTITER_TYPE,
                    ob_dict: None,
                    inner: PyInnerObject::ListIterObj(PyListIterObject { it_index: 0, it_seq: slf }),
                },
            ),
        )
    }

    /// Whether the object's type is the type of list iterators.
    pub fn pylistiter_check(&self) -> (r: bool)
        ensures
            r == (self.ob_type == PY_LISTITER_TYPE),
    {
        self.ob_type == PY_LISTITER_TYPE
    }

    /// The next item of a list iterator, which moves on by one; `None` at the
    /// end of the list, where the iterator stays.
    pub fn pylistiter_next(rt: &mut Runtime, slf: ObjId) -> (r: PyRes<Option<ObjId>>)
        requires
            old(rt).wf(),
            old(rt).valid(slf),
        ensures
            pylistiter_next_post(*old(rt), *final(rt), slf, r),
    {
        let ghost prev = *rt;
        proof {
            prev.lemma_obj(slf);
        }
        let (list, index) = match &rt.objects[slf].inner {
            PyInnerObject::ListIterObj(it) => (it.it_seq, it.it_index),
            _ => {
                return Err(PyErr::TypeError("__next__ expects listiter object"));
            },
        };
        proof {
            prev.lemma_obj(list);
            reveal_with_fuel(spec_iter_advance, 2);
        }
        if index >= rt.objects[list].pylist_size() {
            return Ok(None);
        }
        let res = PyObject::pylist_getitem(rt, list, index);
        let item = match res {
            Ok(item) => item,
            Err(e) => {
                return Err(e);
            },
        };
        match &mut rt.objects[slf].inner {
            PyInnerObject::ListIterObj(it) => {
                it.it_index = index + 1;
            },
            _ => {},
        }
        proof {
            lemma_wf_after_update(prev, *rt, slf);
        }
        Ok(Some(item))
    }
}

/// What `pylist_from_vec` does: the state before the call, and the state and the result
/// after it.
pub open spec fn pylist_from_vec_post(
    prt: Runtime,
    rt: Runtime,
    v: Seq<ObjId>,
    id: ObjId,
) -> bool {
    &&& rt.wf()
    &&& rt.extends(prt)
    &&& rt.only_grew(prt)
    &&& id == prt.objects@.len()
    &&& rt.objects@.len() == id + 1
    &&& rt.obj(id).ob_type == PY_LIST_TYPE
    &&& rt.obj(id).ob_dict.is_none()
    &&& spec_list_value(rt, id) == Some(v)
}

/// What `pylist_append` does: the state before the call, and the state and the result
/// after it.
pub open spec fn pylist_append_post(
    prt: Runtime,
    rt: Runtime,
    slf: ObjId,
    elm: ObjId,
    r: PyRes<ObjId>,
) -> bool {
    &&& rt.wf()
    &&& rt.extends(prt)
    &&& rt.same_except(prt, slf)
    &&& match spec_list_value(prt, slf) {
            Some(items) => {
                &&& r == Ok::<ObjId, PyErr>(PY_NONE_OBJECT)
                &&& spec_list_value(rt, slf) == Some(items.push(elm))
            },
            None => r is Err && r->Err_0 is TypeError && rt.objects@ == prt.objects@,
        }
}

/// What `pylist_iter` does: the state before the call, and the state and the result
/// after it.
pub open spec fn pylist_iter_post(
    prt: Runtime,
    rt: Runtime,
    slf: ObjId,
    r: PyRes<ObjId>,
) -> bool {
    &&& rt.wf()
    &&& rt.extends(prt)
    &&& rt.only_grew(prt)
    &&& if prt.obj(slf).ob_type == PY_LIST_TYPE && prt.is_list(slf) {
            &&& r == Ok::<ObjId, PyErr>(prt.objects@.len() as usize)
            &&& rt.objects@.len() == prt.objects@.len() + 1
            &&& rt.obj(r->Ok_0).ob_type == PY_LISTITER_TYPE
            &&& spec_iter_value(rt, r->Ok_0) == Some((slf, 0usize))
        } else {
            r is Err && r->Err_0 is TypeError && rt.objects@ == prt.objects@
        }
}

/// What `pylistiter_next` does: the state before the call, and the state and the result
/// after it.
pub open spec fn pylistiter_next_post(
    prt: Runtime,
    rt: Runtime,
    slf: ObjId,
    r: PyRes<Option<ObjId>>,
) -> bool {
    &&& rt.wf()
    &&& rt.extends(prt)
    &&& rt.same_except(prt, slf)
    &&& match spec_iter_value(prt, slf) {
            Some((list, index)) => {
                let items = prt.list_items(list);
                &&& r == Ok::<Option<ObjId>, PyErr>(spec_iter_next(items, index))
                &&& spec_iter_value(rt, slf) == Some(
                    (list, spec_iter_advance(items, index, 1)),
                )
                &&& r->Ok_0 matches Some(item) ==> prt.valid(item)
            },
            None => r is Err && r->Err_0 is TypeError && rt.objects@ == prt.objects@,
        }
}

} // verus!
