use pyinterp::env::Env;
use pyinterp::error::{pyerr_check, pyerr_clear, pyerr_occurred, pyerr_set, PyErr};
use pyinterp::object::attr::{type_getattro, type_setattro, update_slot};
use pyinterp::object::call::{
    builtin_len, call_func, object_new, pybaseexc_new, pyerr_set_string, pyobj_get_attr,
    pyobj_set_attr, pyobj_to_bool, type_call,
};
use pyinterp::object::dictobj::pyobj_hash;
use pyinterp::object::generic::{
    bind_self, pyobj_isinstance, pyobj_issubclass, pyobj_to_i32, pyobj_to_string,
};
use pyinterp::object::mro::{linearlize, pick_winner, remove_winner};
use pyinterp::object::pyhashmap::PyHashMap;
use pyinterp::object::ready::{pytype_ready, type_new};
use pyinterp::object::strobj::{pystr_add, pystr_eq, pystr_hash, pystr_len};
use pyinterp::object::typeobj::{default_hash, BinaryOp, UnaryOp, VarArgFun};
use pyinterp::object::{
    PyInnerObject, PyObject, Runtime, PY_ATTRIBUTEERROR_TYPE, PY_BASEEXC_TYPE, PY_BASEOBJ_TYPE,
    PY_BOOL_TYPE, PY_BUILTIN_LEN, PY_DICT_TYPE, PY_EXC_TYPE, PY_FALSE, PY_INDEXERROR_TYPE,
    PY_LIST_TYPE, PY_LONG_TYPE, PY_NONE_OBJECT, PY_STOPITERATION_TYPE, PY_STRING_TYPE, PY_TRUE,
    PY_TYPEERROR_TYPE, PY_TYPE_TYPE,
};

fn rt() -> Runtime {
    Runtime::new(1_000_000)
}

fn int_of(rt: &Runtime, id: usize) -> i32 {
    pyobj_to_i32(rt, id).unwrap()
}

fn mro(rt: &Runtime, t: usize) -> Vec<usize> {
    rt.objects[t].pytype_tp_mro().unwrap()
}

fn new_class(rt: &mut Runtime, name: &str, bases: &Vec<usize>) -> usize {
    let n = PyObject::from_str(rt, name);
    let b = PyObject::pylist_from_vec(rt, bases);
    let d = PyObject::pydict_new(rt);
    type_new(rt, PY_TYPE_TYPE, &vec![n, b, d]).unwrap()
}

#[test]
fn hashmap_finds_the_first_entry_of_a_hash() {
    let mut m = PyHashMap::new();
    assert_eq!(m.len(), 0);
    assert_eq!(m.get(7), None);
    m.insert(7, 1, 10);
    m.insert(8, 2, 20);
    assert_eq!(m.get(7), Some(10));
    assert_eq!(m.get(8), Some(20));
    assert_eq!(m.get(9), None);
    assert_eq!(m.len(), 2);
}

#[test]
fn hashmap_replaces_the_entry_of_a_hash_at_its_place() {
    let mut m = PyHashMap::new();
    m.insert(7, 1, 10);
    m.insert(8, 2, 20);
    m.insert(7, 3, 30);
    assert_eq!(m.get(7), Some(30));
    assert_eq!(m.len(), 2);
    assert_eq!(m.table, vec![(7, 3, 30), (8, 2, 20)]);
    assert_eq!(m.position(8), 1);
    assert_eq!(m.position(9), 2);
}

#[test]
fn a_second_insert_under_one_hash_replaces_the_first() {
    let mut m = PyHashMap::new();
    m.insert(7, 1, 10);
    m.insert(7, 1, 20);
    assert_eq!(m.get(7), Some(20));
    assert_eq!(m.len(), 1);
}

#[test]
fn storing_under_a_key_again_keeps_the_length_of_a_dictionary() {
    let mut rt = rt();
    let d = PyObject::pydict_new(&mut rt);
    let k = PyObject::from_str(&mut rt, "a");
    let again = PyObject::from_str(&mut rt, "a");
    let one = PyObject::from_i32(&mut rt, 1);
    let two = PyObject::from_i32(&mut rt, 2);
    PyObject::pydict_update(&mut rt, d, k, one).unwrap();
    PyObject::pydict_update(&mut rt, d, again, two).unwrap();
    assert_eq!(PyObject::pydict_lookup(&rt, d, k), Ok(Some(two)));
    let n = PyObject::pydict_len(&mut rt, d).unwrap();
    assert_eq!(int_of(&rt, n), 1);
}

#[test]
fn new_runtime_has_its_fixed_objects() {
    let rt = rt();
    assert_eq!(rt.objects.len(), 44);
    assert!(rt.exc.is_none());
    assert_eq!(rt.fuel, 1_000_000);
    assert_eq!(rt.objects[PY_TRUE].ob_type(), PY_BOOL_TYPE);
    assert_eq!(int_of(&rt, PY_TRUE), 1);
    assert_eq!(int_of(&rt, PY_FALSE), 0);
    assert_eq!(PyObject::from_bool(true), PY_TRUE);
    assert_eq!(PyObject::from_bool(false), PY_FALSE);
    assert_eq!(PyObject::none_obj(), PY_NONE_OBJECT);
    assert!(rt.objects[PY_LONG_TYPE].pytype_check());
    assert!(!rt.objects[PY_TRUE].pytype_check());
    assert_eq!(rt.type_of(PY_TYPE_TYPE), PY_TYPE_TYPE);
}

#[test]
fn fixed_types_are_ready() {
    let rt = rt();
    assert_eq!(mro(&rt, PY_BASEOBJ_TYPE), vec![PY_BASEOBJ_TYPE]);
    assert_eq!(mro(&rt, PY_TYPE_TYPE), vec![PY_TYPE_TYPE, PY_BASEOBJ_TYPE]);
    assert_eq!(mro(&rt, PY_BOOL_TYPE), vec![PY_BOOL_TYPE, PY_LONG_TYPE, PY_BASEOBJ_TYPE]);
    assert_eq!(
        mro(&rt, PY_TYPEERROR_TYPE),
        vec![PY_TYPEERROR_TYPE, PY_EXC_TYPE, PY_BASEEXC_TYPE, PY_BASEOBJ_TYPE]
    );
    let b = rt.typeobj(PY_BOOL_TYPE);
    assert_eq!(b.tp_fun_add, Some(BinaryOp::LongAdd));
    assert_eq!(b.tp_bool, Some(UnaryOp::LongBool));
    assert_eq!(b.tp_base, Some(PY_LONG_TYPE));
    let t = rt.typeobj(PY_TYPEERROR_TYPE);
    assert_eq!(t.tp_new, Some(VarArgFun::BaseExcNew));
    assert!(rt.objects[PY_LIST_TYPE].pytype_tp_dict().is_some());
    assert!(rt.objects[PY_LIST_TYPE].pytype_tp_iter().is_some());
    assert!(rt.objects[PY_LIST_TYPE].pytype_tp_iternext().is_none());
    assert_eq!(rt.objects[PY_BOOL_TYPE].pytype_tp_base(), Some(PY_LONG_TYPE));
    assert_eq!(rt.objects[PY_BOOL_TYPE].pytype_tp_bases(), Some(vec![PY_LONG_TYPE]));
    assert_eq!(rt.objects[PY_TYPE_TYPE].pytype_tp_call(), Some(VarArgFun::TypeCall));
    assert_eq!(rt.objects[PY_TYPE_TYPE].pytype_tp_new(), Some(VarArgFun::TypeNew));
    assert_eq!(rt.objects[PY_TYPE_TYPE].pytype_tp_init(), None);
    assert!(rt.objects[PY_TYPE_TYPE].pytype_tp_subclasses().is_none());
}

#[test]
fn integers() {
    let mut rt = rt();
    let a = PyObject::from_i32(&mut rt, 40);
    let b = PyObject::from_i32(&mut rt, 2);
    assert_eq!(rt.objects[a].ob_type(), PY_LONG_TYPE);
    let c = PyObject::pylong_add(&mut rt, a, b).unwrap();
    assert_eq!(int_of(&rt, c), 42);
    assert_eq!(PyObject::pylong_eq(&rt, a, b), Ok(PY_FALSE));
    assert_eq!(PyObject::pylong_eq(&rt, a, a), Ok(PY_TRUE));
    assert_eq!(PyObject::pylong_lt(&rt, b, a), Ok(PY_TRUE));
    assert_eq!(PyObject::pylong_lt(&rt, a, b), Ok(PY_FALSE));
    assert_eq!(PyObject::pylong_bool(&rt, a), Ok(PY_TRUE));
    let z = PyObject::from_i32(&mut rt, 0);
    let n = PyObject::from_i32(&mut rt, -3);
    assert_eq!(PyObject::pylong_bool(&rt, z), Ok(PY_FALSE));
    assert_eq!(PyObject::pylong_bool(&rt, n), Ok(PY_FALSE));
    let max = PyObject::from_i32(&mut rt, i32::MAX);
    let one = PyObject::from_i32(&mut rt, 1);
    let w = PyObject::pylong_add(&mut rt, max, one).unwrap();
    assert_eq!(int_of(&rt, w), i32::MIN);
    let s = PyObject::from_str(&mut rt, "x");
    assert!(matches!(PyObject::pylong_add(&mut rt, a, s), Err(PyErr::TypeError(_))));
    assert!(matches!(PyObject::pylong_eq(&rt, s, a), Err(PyErr::TypeError(_))));
    assert!(matches!(PyObject::pylong_lt(&rt, a, s), Err(PyErr::TypeError(_))));
    assert!(matches!(PyObject::pylong_bool(&rt, s), Err(PyErr::TypeError(_))));
    assert!(matches!(PyObject::pylong_hash(&rt, s), Err(PyErr::TypeError(_))));
    assert!(matches!(pyobj_to_i32(&rt, s), Err(PyErr::TypeError(_))));
}

#[test]
fn equal_integers_have_equal_hashes() {
    let mut rt = rt();
    let a = PyObject::from_i32(&mut rt, 12345);
    let b = PyObject::from_i32(&mut rt, 12345);
    let c = PyObject::from_i32(&mut rt, 12346);
    let ha = PyObject::pylong_hash(&rt, a).unwrap();
    assert_eq!(ha, PyObject::pylong_hash(&rt, b).unwrap());
    assert_ne!(ha, PyObject::pylong_hash(&rt, c).unwrap());
    assert_eq!(pyobj_hash(&rt, a), Ok(ha));
}

#[test]
fn strings() {
    let mut rt = rt();
    let a = PyObject::from_str(&mut rt, "ab");
    let b = PyObject::from_string(&mut rt, "cd".to_string());
    assert_eq!(rt.objects[a].ob_type(), PY_STRING_TYPE);
    let c = pystr_add(&mut rt, a, b).unwrap();
    assert_eq!(pyobj_to_string(&rt, c).unwrap(), "abcd");
    assert_eq!(pystr_eq(&rt, a, b), Ok(PY_FALSE));
    let a2 = PyObject::from_str(&mut rt, "ab");
    assert_eq!(pystr_eq(&rt, a, a2), Ok(PY_TRUE));
    assert_eq!(pystr_hash(&rt, a).unwrap(), pystr_hash(&rt, a2).unwrap());
    assert_ne!(pystr_hash(&rt, a).unwrap(), pystr_hash(&rt, b).unwrap());
    let l = pystr_len(&mut rt, c).unwrap();
    assert_eq!(int_of(&rt, l), 4);
    let i = PyObject::from_i32(&mut rt, 1);
    assert!(matches!(pystr_add(&mut rt, a, i), Err(PyErr::TypeError(_))));
    assert!(matches!(pystr_eq(&rt, i, a), Err(PyErr::TypeError(_))));
    assert!(matches!(pystr_len(&mut rt, i), Err(PyErr::TypeError(_))));
    assert!(matches!(pystr_hash(&rt, i), Err(PyErr::TypeError(_))));
    assert!(matches!(pyobj_to_string(&rt, i), Err(PyErr::TypeError(_))));
}

#[test]
fn string_length_counts_bytes() {
    let mut rt = rt();
    let s = PyObject::from_str(&mut rt, "é");
    let l = pystr_len(&mut rt, s).unwrap();
    assert_eq!(int_of(&rt, l), 2);
}

#[test]
fn default_hash_tells_objects_apart() {
    assert_eq!(default_hash(5), default_hash(5));
    assert_ne!(default_hash(5), default_hash(6));
}

#[test]
fn lists() {
    let mut rt = rt();
    let a = PyObject::from_i32(&mut rt, 1);
    let b = PyObject::from_i32(&mut rt, 2);
    let l = PyObject::pylist_from_vec(&mut rt, &vec![a, b]);
    assert!(rt.objects[l].pylist_check());
    assert!(!rt.objects[a].pylist_check());
    assert_eq!(rt.objects[l].pylist_size(), 2);
    assert_eq!(rt.objects[l].pylist_clone(), vec![a, b]);
    assert_eq!(PyObject::pylist_getitem(&rt, l, 0), Ok(a));
    assert_eq!(PyObject::pylist_getitem(&rt, l, 1), Ok(b));
    assert!(matches!(PyObject::pylist_getitem(&rt, l, 2), Err(PyErr::IndexError(_))));
    assert!(matches!(PyObject::pylist_getitem(&rt, a, 0), Err(PyErr::TypeError(_))));
    assert_eq!(PyObject::pylist_bool(&rt, l), Ok(PY_TRUE));
    let n = PyObject::pylist_len(&mut rt, l).unwrap();
    assert_eq!(int_of(&rt, n), 2);
    assert_eq!(PyObject::pylist_append(&mut rt, l, a), Ok(PY_NONE_OBJECT));
    assert_eq!(rt.objects[l].pylist_clone(), vec![a, b, a]);
    assert!(matches!(PyObject::pylist_append(&mut rt, a, b), Err(PyErr::TypeError(_))));
    let e = PyObject::pylist_from_vec(&mut rt, &vec![]);
    assert_eq!(PyObject::pylist_bool(&rt, e), Ok(PY_FALSE));
    assert!(matches!(PyObject::pylist_bool(&rt, a), Err(PyErr::TypeError(_))));
    assert!(matches!(PyObject::pylist_len(&mut rt, a), Err(PyErr::TypeError(_))));
}

#[test]
fn iterating_a_list_yields_its_items_in_order_once() {
    let mut rt = rt();
    let a = PyObject::from_i32(&mut rt, 1);
    let b = PyObject::from_i32(&mut rt, 2);
    let c = PyObject::from_i32(&mut rt, 3);
    let l = PyObject::pylist_from_vec(&mut rt, &vec![a, b, c]);
    let it = PyObject::pylist_iter(&mut rt, l).unwrap();
    assert!(rt.objects[it].pylistiter_check());
    assert!(!rt.objects[l].pylistiter_check());
    assert_eq!(PyObject::pylistiter_next(&mut rt, it), Ok(Some(a)));
    assert_eq!(PyObject::pylistiter_next(&mut rt, it), Ok(Some(b)));
    assert_eq!(PyObject::pylistiter_next(&mut rt, it), Ok(Some(c)));
    assert_eq!(PyObject::pylistiter_next(&mut rt, it), Ok(None));
    assert_eq!(PyObject::pylistiter_next(&mut rt, it), Ok(None));
    assert!(matches!(PyObject::pylistiter_next(&mut rt, l), Err(PyErr::TypeError(_))));
    assert!(matches!(PyObject::pylist_iter(&mut rt, a), Err(PyErr::TypeError(_))));
}

#[test]
fn dicts() {
    let mut rt = rt();
    let d = PyObject::pydict_new(&mut rt);
    assert!(rt.objects[d].pydict_check());
    assert_eq!(rt.objects[d].ob_type(), PY_DICT_TYPE);
    let k1 = PyObject::from_str(&mut rt, "a");
    let k2 = PyObject::from_i32(&mut rt, 5);
    let v1 = PyObject::from_i32(&mut rt, 10);
    let v2 = PyObject::from_i32(&mut rt, 20);
    assert_eq!(PyObject::pydict_lookup(&rt, d, k1), Ok(None));
    assert_eq!(PyObject::pydict_update(&mut rt, d, k1, v1), Ok(()));
    assert_eq!(PyObject::pydict_update(&mut rt, d, k2, v2), Ok(()));
    assert_eq!(PyObject::pydict_lookup(&rt, d, k1), Ok(Some(v1)));
    assert_eq!(PyObject::pydict_lookup(&rt, d, k2), Ok(Some(v2)));
    let k1b = PyObject::from_str(&mut rt, "a");
    assert_eq!(PyObject::pydict_lookup(&rt, d, k1b), Ok(Some(v1)));
    let n = PyObject::pydict_len(&mut rt, d).unwrap();
    assert_eq!(int_of(&rt, n), 2);
    let l = PyObject::pylist_from_vec(&mut rt, &vec![]);
    assert_eq!(pyobj_hash(&rt, l), Ok(default_hash(l)));
    assert_eq!(PyObject::pydict_lookup(&rt, d, l), Ok(None));
    let unready = PyObject::pytype_new(&mut rt);
    let l = object_new(&mut rt, unready, &vec![]).unwrap();
    assert!(matches!(PyObject::pydict_lookup(&rt, d, l), Err(PyErr::TypeError(_))));
    assert!(matches!(PyObject::pydict_update(&mut rt, d, l, v1), Err(PyErr::TypeError(_))));
    assert!(matches!(PyObject::pydict_lookup(&rt, v1, k1), Err(PyErr::TypeError(_))));
    assert!(matches!(PyObject::pydict_update(&mut rt, v1, k1, v2), Err(PyErr::TypeError(_))));
    assert!(matches!(PyObject::pydict_len(&mut rt, v1), Err(PyErr::TypeError(_))));
    assert!(matches!(pyobj_hash(&rt, l), Err(PyErr::TypeError(_))));
}

#[test]
fn environment_reads_walk_to_the_root() {
    let mut rt = rt();
    let root = Env::new(&mut rt);
    let a = PyObject::from_i32(&mut rt, 1);
    let b = PyObject::from_i32(&mut rt, 2);
    Env::update(&mut rt, root, "x".to_string(), a);
    Env::update(&mut rt, root, "y".to_string(), a);
    let child = Env::new_child(&mut rt, root, &vec!["x".to_string()], &vec![b]);
    assert_eq!(Env::get(&rt, child, &"x".to_string()), Ok(b));
    assert_eq!(Env::get(&rt, child, &"y".to_string()), Ok(a));
    assert_eq!(Env::get(&rt, root, &"x".to_string()), Ok(a));
    assert!(matches!(Env::get(&rt, child, &"z".to_string()), Err(PyErr::NameError)));
}

#[test]
fn binding_in_a_child_leaves_the_parent_as_it_is() {
    let mut rt = rt();
    let root = Env::new(&mut rt);
    let a = PyObject::from_i32(&mut rt, 1);
    let b = PyObject::from_i32(&mut rt, 2);
    Env::update(&mut rt, root, "x".to_string(), a);
    let child = Env::new_child(&mut rt, root, &vec![], &vec![]);
    assert_eq!(Env::get(&rt, child, &"x".to_string()), Ok(a));
    Env::update(&mut rt, child, "x".to_string(), b);
    assert_eq!(Env::get(&rt, child, &"x".to_string()), Ok(b));
    assert_eq!(Env::get(&rt, root, &"x".to_string()), Ok(a));
}

#[test]
fn rebinding_keeps_the_order_of_the_names() {
    let mut rt = rt();
    let root = Env::new(&mut rt);
    let a = PyObject::from_i32(&mut rt, 1);
    let b = PyObject::from_i32(&mut rt, 2);
    Env::update(&mut rt, root, "x".to_string(), a);
    Env::update(&mut rt, root, "y".to_string(), a);
    Env::update(&mut rt, root, "x".to_string(), b);
    assert_eq!(rt.envs[root].map, vec![("x".to_string(), b), ("y".to_string(), a)]);
    assert_eq!(rt.envs[root].find(&"y".to_string()), 1);
    assert_eq!(rt.envs[root].find(&"z".to_string()), 2);
}

#[test]
fn duplicate_parameters_take_the_last_argument() {
    let mut rt = rt();
    let root = Env::new(&mut rt);
    let a = PyObject::from_i32(&mut rt, 1);
    let b = PyObject::from_i32(&mut rt, 2);
    let child = Env::new_child(
        &mut rt,
        root,
        &vec!["x".to_string(), "x".to_string()],
        &vec![a, b],
    );
    assert_eq!(rt.envs[child].map, vec![("x".to_string(), b)]);
}

#[test]
fn frame_as_dictionary_keeps_the_order_of_the_bindings() {
    let mut rt = rt();
    let root = Env::new(&mut rt);
    let a = PyObject::from_i32(&mut rt, 1);
    let b = PyObject::from_i32(&mut rt, 2);
    Env::update(&mut rt, root, "first".to_string(), a);
    Env::update(&mut rt, root, "second".to_string(), b);
    let d = Env::dictobj(&mut rt, root);
    match &rt.objects[d].inner {
        PyInnerObject::DictObj(dict) => {
            assert_eq!(dict.dict.len(), 2);
            let k0 = dict.dict.table[0].1;
            let k1 = dict.dict.table[1].1;
            assert_eq!(pyobj_to_string(&rt, k0).unwrap(), "first");
            assert_eq!(pyobj_to_string(&rt, k1).unwrap(), "second");
            assert_eq!(dict.dict.table[0].2, a);
            assert_eq!(dict.dict.table[1].2, b);
        }
        _ => panic!("dictionary expected"),
    }
}

#[test]
fn linearization_merges_orders() {
    assert_eq!(linearlize(vec![]), Some(vec![]));
    assert_eq!(linearlize(vec![vec![1, 0]]), Some(vec![1, 0]));
    assert_eq!(linearlize(vec![vec![2, 1, 0], vec![3, 1, 0]]), Some(vec![2, 3, 1, 0]));
    assert_eq!(linearlize(vec![vec![1, 0], vec![2, 1, 0]]), Some(vec![2, 1, 0]));
    assert_eq!(linearlize(vec![vec![1, 2], vec![2, 1]]), None);
}

#[test]
fn winner_is_the_first_head_in_no_tail() {
    assert_eq!(pick_winner(&vec![vec![1, 0], vec![2, 1, 0]]), Some(2));
    assert_eq!(pick_winner(&vec![vec![1, 2], vec![2, 1]]), None);
    assert_eq!(pick_winner(&vec![]), None);
    assert_eq!(remove_winner(2, vec![vec![1, 0], vec![2, 1, 0], vec![2]]), vec![vec![1, 0], vec![1, 0]]);
}

#[test]
fn order_of_a_diamond() {
    let mut rt = rt();
    let a = new_class(&mut rt, "A", &vec![]);
    let b = new_class(&mut rt, "B", &vec![a]);
    let c = new_class(&mut rt, "C", &vec![a]);
    let d = new_class(&mut rt, "D", &vec![b, c]);
    assert_eq!(mro(&rt, a), vec![a, PY_BASEOBJ_TYPE]);
    assert_eq!(mro(&rt, b), vec![b, a, PY_BASEOBJ_TYPE]);
    assert_eq!(mro(&rt, d), vec![d, b, c, a, PY_BASEOBJ_TYPE]);
    assert_eq!(rt.objects[a].pytype_tp_subclasses(), Some(vec![b, c]));
    assert_eq!(rt.objects[a].pytype_tp_bases(), Some(vec![PY_BASEOBJ_TYPE]));
    assert_eq!(rt.objects[d].pytype_tp_bases(), Some(vec![b, c]));
    assert_eq!(rt.objects[d].pytype_tp_base(), Some(PY_BASEOBJ_TYPE));
    assert!(pyobj_issubclass(&rt, d, a));
    assert!(pyobj_issubclass(&rt, d, d));
    assert!(!pyobj_issubclass(&rt, a, d));
    let n = PyObject::from_i32(&mut rt, 1);
    assert!(!pyobj_issubclass(&rt, n, PY_LONG_TYPE));
    assert!(pyobj_isinstance(&rt, n, PY_LONG_TYPE));
    assert!(pyobj_isinstance(&rt, PY_TRUE, PY_LONG_TYPE));
    assert!(!pyobj_isinstance(&rt, n, PY_BOOL_TYPE));
}

#[test]
fn conflicting_orders_fail_the_class() {
    let mut rt = rt();
    let a = new_class(&mut rt, "A", &vec![]);
    let b = new_class(&mut rt, "B", &vec![]);
    let x = new_class(&mut rt, "X", &vec![a, b]);
    let y = new_class(&mut rt, "Y", &vec![b, a]);
    let n = PyObject::from_str(&mut rt, "Z");
    let bases = PyObject::pylist_from_vec(&mut rt, &vec![x, y]);
    let d = PyObject::pydict_new(&mut rt);
    assert!(matches!(
        type_new(&mut rt, PY_TYPE_TYPE, &vec![n, bases, d]),
        Err(PyErr::MroConflict)
    ));
}

#[test]
fn class_construction_checks_its_arguments() {
    let mut rt = rt();
    let n = PyObject::from_str(&mut rt, "A");
    let i = PyObject::from_i32(&mut rt, 1);
    let l = PyObject::pylist_from_vec(&mut rt, &vec![]);
    let li = PyObject::pylist_from_vec(&mut rt, &vec![i]);
    let d = PyObject::pydict_new(&mut rt);
    assert!(matches!(type_new(&mut rt, PY_TYPE_TYPE, &vec![n, l]), Err(PyErr::TypeError(_))));
    assert!(matches!(type_new(&mut rt, PY_TYPE_TYPE, &vec![i, l, d]), Err(PyErr::TypeError(_))));
    assert!(matches!(type_new(&mut rt, PY_TYPE_TYPE, &vec![n, d, d]), Err(PyErr::TypeError(_))));
    assert!(matches!(type_new(&mut rt, PY_TYPE_TYPE, &vec![n, l, l]), Err(PyErr::TypeError(_))));
    assert!(matches!(type_new(&mut rt, PY_TYPE_TYPE, &vec![n, li, d]), Err(PyErr::TypeError(_))));
    let before = rt.objects.len();
    let cls = type_new(&mut rt, PY_TYPE_TYPE, &vec![n, l, d]).unwrap();
    assert_eq!(cls, before);
    assert_eq!(rt.typeobj(cls).tp_name, "A");
    assert_eq!(rt.objects[cls].pytype_tp_dict(), Some(d));
    assert_eq!(rt.typeobj(cls).tp_dict_ref(), &Some(d));
}

#[test]
fn slots_come_from_the_nearest_ancestor() {
    let mut rt = rt();
    let a = new_class(&mut rt, "A", &vec![]);
    let f = PyObject::from_i32(&mut rt, 100);
    let g = PyObject::from_i32(&mut rt, 200);
    update_slot(&mut rt, a, "__add__", f);
    update_slot(&mut rt, a, "__len__", f);
    let b = new_class(&mut rt, "B", &vec![a]);
    update_slot(&mut rt, b, "__len__", g);
    let c = new_class(&mut rt, "C", &vec![b]);
    assert_eq!(rt.typeobj(c).tp_fun_add, Some(BinaryOp::Wrapped(f)));
    assert_eq!(rt.typeobj(c).tp_len, Some(UnaryOp::Wrapped(g)));
    assert_eq!(rt.typeobj(c).tp_new, Some(VarArgFun::ObjectNew));
    assert_eq!(rt.typeobj(c).tp_fun_lt, None);
}

#[test]
fn writing_a_dunder_reaches_the_subclasses_that_lack_it() {
    let mut rt = rt();
    let a = new_class(&mut rt, "A", &vec![]);
    let b = new_class(&mut rt, "B", &vec![a]);
    let c = new_class(&mut rt, "C", &vec![a]);
    let below_c = new_class(&mut rt, "D", &vec![c]);
    let key = PyObject::from_str(&mut rt, "__add__");
    let own = PyObject::from_i32(&mut rt, 1);
    assert_eq!(type_setattro(&mut rt, c, key, own), Ok(()));
    let f = PyObject::from_i32(&mut rt, 2);
    assert_eq!(type_setattro(&mut rt, a, key, f), Ok(()));
    assert_eq!(rt.typeobj(a).tp_fun_add, Some(BinaryOp::Wrapped(f)));
    assert_eq!(rt.typeobj(b).tp_fun_add, Some(BinaryOp::Wrapped(f)));
    assert_eq!(rt.typeobj(c).tp_fun_add, Some(BinaryOp::Wrapped(own)));
    assert_eq!(rt.typeobj(below_c).tp_fun_add, Some(BinaryOp::Wrapped(own)));
    assert_eq!(type_getattro(&rt, a, key), Ok(Some(f)));
    assert_eq!(type_getattro(&rt, b, key), Ok(Some(f)));
    assert_eq!(type_getattro(&rt, below_c, key), Ok(Some(own)));
    let other = PyObject::from_str(&mut rt, "plain");
    assert_eq!(type_setattro(&mut rt, a, other, f), Ok(()));
    assert_eq!(type_getattro(&rt, b, other), Ok(Some(f)));
    let missing = PyObject::from_str(&mut rt, "missing");
    assert_eq!(type_getattro(&rt, b, missing), Ok(None));
}

#[test]
fn every_recognized_dunder_sets_its_slot() {
    let mut rt = rt();
    let a = new_class(&mut rt, "A", &vec![]);
    let f = PyObject::from_i32(&mut rt, 2);
    update_slot(&mut rt, a, "__add__", f);
    update_slot(&mut rt, a, "__bool__", f);
    update_slot(&mut rt, a, "__lt__", f);
    update_slot(&mut rt, a, "__eq__", f);
    update_slot(&mut rt, a, "__len__", f);
    update_slot(&mut rt, a, "__init__", f);
    update_slot(&mut rt, a, "__new__", f);
    let hash_before = rt.typeobj(a).tp_hash;
    update_slot(&mut rt, a, "__hash__", f);
    let t = rt.typeobj(a);
    assert_eq!(t.tp_fun_add, Some(BinaryOp::Wrapped(f)));
    assert_eq!(t.tp_bool, Some(UnaryOp::Wrapped(f)));
    assert_eq!(t.tp_fun_lt, Some(BinaryOp::Wrapped(f)));
    assert_eq!(t.tp_fun_eq, Some(BinaryOp::Wrapped(f)));
    assert_eq!(t.tp_len, Some(UnaryOp::Wrapped(f)));
    assert_eq!(t.tp_init, Some(VarArgFun::Wrapped(f)));
    assert_eq!(t.tp_new, Some(VarArgFun::Wrapped(f)));
    assert_eq!(t.tp_hash, hash_before);
}

#[test]
fn readiness_is_idempotent() {
    let mut rt = rt();
    let a = new_class(&mut rt, "A", &vec![]);
    let b = new_class(&mut rt, "B", &vec![a]);
    let objects = rt.objects.len();
    let order = mro(&rt, b);
    let slots = rt.typeobj(b).slots();
    assert_eq!(pytype_ready(&mut rt, b), Ok(()));
    assert_eq!(pytype_ready(&mut rt, PY_LIST_TYPE), Ok(()));
    assert_eq!(rt.objects.len(), objects);
    assert_eq!(mro(&rt, b), order);
    assert_eq!(rt.typeobj(b).slots(), slots);
}

#[test]
fn blank_type_becomes_a_child_of_object() {
    let mut rt = rt();
    let t = PyObject::pytype_new(&mut rt);
    assert!(rt.objects[t].pytype_check());
    assert!(rt.objects[t].pytype_tp_mro().is_none());
    assert_eq!(pytype_ready(&mut rt, t), Ok(()));
    assert_eq!(mro(&rt, t), vec![t, PY_BASEOBJ_TYPE]);
    assert_eq!(rt.objects[t].pytype_tp_base(), Some(PY_BASEOBJ_TYPE));
    assert!(rt.objects[t].pytype_tp_dict().is_some());
    assert_eq!(rt.typeobj(t).tp_new, Some(VarArgFun::ObjectNew));
}

#[test]
fn instances_and_attributes() {
    let mut rt = rt();
    let a = new_class(&mut rt, "A", &vec![]);
    let inst = type_call(&mut rt, a, &vec![]).unwrap();
    assert_eq!(rt.objects[inst].ob_type(), a);
    let key = PyObject::from_str(&mut rt, "x");
    let v = PyObject::from_i32(&mut rt, 3);
    assert!(matches!(pyobj_get_attr(&mut rt, inst, key), Err(PyErr::AttributeError(_))));
    assert_eq!(pyobj_set_attr(&mut rt, inst, key, v), Ok(()));
    assert_eq!(pyobj_get_attr(&mut rt, inst, key), Ok(v));
    assert!(matches!(pyobj_set_attr(&mut rt, v, key, v), Err(PyErr::AttributeError(_))));
    let o = object_new(&mut rt, a, &vec![]).unwrap();
    assert_eq!(rt.objects[o].ob_type(), a);
    assert!(matches!(object_new(&mut rt, v, &vec![]), Err(PyErr::TypeError(_))));
}

#[test]
fn type_of_and_wrong_argument_counts() {
    let mut rt = rt();
    let v = PyObject::from_i32(&mut rt, 3);
    assert_eq!(type_call(&mut rt, PY_TYPE_TYPE, &vec![v]), Ok(PY_LONG_TYPE));
    assert!(matches!(type_call(&mut rt, PY_TYPE_TYPE, &vec![v, v]), Err(PyErr::TypeError(_))));
    assert!(matches!(type_call(&mut rt, v, &vec![]), Err(PyErr::TypeError(_))));
}

#[test]
fn native_methods_are_bound_to_the_receiver() {
    let mut rt = rt();
    let l = PyObject::pylist_from_vec(&mut rt, &vec![]);
    let key = PyObject::from_str(&mut rt, "append");
    let m = pyobj_get_attr(&mut rt, l, key).unwrap();
    assert_eq!(rt.objects[m].pyrustfun_name(), "append");
    let v = PyObject::from_i32(&mut rt, 8);
    assert_eq!(call_func(&mut rt, m, &vec![v]), Ok(PY_NONE_OBJECT));
    assert_eq!(rt.objects[l].pylist_clone(), vec![v]);
    assert!(matches!(call_func(&mut rt, m, &vec![v, v]), Err(PyErr::TypeError(_))));
    assert!(matches!(call_func(&mut rt, v, &vec![]), Err(PyErr::TypeError(_))));
    assert_eq!(bind_self(&mut rt, v, l), v);
}

#[test]
fn calls_use_up_the_budget() {
    let mut rt = Runtime::new(1);
    let v = PyObject::from_i32(&mut rt, 8);
    let n = call_func(&mut rt, PY_BUILTIN_LEN, &vec![v]);
    assert!(matches!(n, Err(PyErr::TypeError(_))));
    assert_eq!(rt.fuel, 0);
    assert_eq!(call_func(&mut rt, PY_BUILTIN_LEN, &vec![v]), Err(PyErr::OutOfFuel));
    assert!(!rt.burn());
}

#[test]
fn len_goes_through_the_slot() {
    let mut rt = rt();
    let a = PyObject::from_i32(&mut rt, 1);
    let l = PyObject::pylist_from_vec(&mut rt, &vec![a, a, a]);
    let n = builtin_len(&mut rt, PY_NONE_OBJECT, l).unwrap();
    assert_eq!(int_of(&rt, n), 3);
    assert!(matches!(builtin_len(&mut rt, PY_NONE_OBJECT, a), Err(PyErr::TypeError(_))));
}

#[test]
fn truth_values() {
    let mut rt = rt();
    let one = PyObject::from_i32(&mut rt, 1);
    let zero = PyObject::from_i32(&mut rt, 0);
    let e = PyObject::pylist_from_vec(&mut rt, &vec![]);
    let d = PyObject::pydict_new(&mut rt);
    let s = PyObject::from_str(&mut rt, "x");
    assert_eq!(pyobj_to_bool(&mut rt, one), Ok(true));
    assert_eq!(pyobj_to_bool(&mut rt, zero), Ok(false));
    assert_eq!(pyobj_to_bool(&mut rt, PY_TRUE), Ok(true));
    assert_eq!(pyobj_to_bool(&mut rt, PY_FALSE), Ok(false));
    assert_eq!(pyobj_to_bool(&mut rt, e), Ok(false));
    assert_eq!(pyobj_to_bool(&mut rt, d), Ok(false));
    assert_eq!(pyobj_to_bool(&mut rt, s), Ok(true));
    assert!(matches!(pyobj_to_bool(&mut rt, PY_NONE_OBJECT), Err(PyErr::TypeError(_))));
}

#[test]
fn exception_indicator() {
    let mut rt = rt();
    assert!(!pyerr_occurred(&rt));
    assert!(!pyerr_check(&rt, PY_EXC_TYPE));
    let r = pyerr_set_string(&mut rt, PY_INDEXERROR_TYPE, "out of range");
    assert_eq!(r, PyErr::Raised);
    assert!(pyerr_occurred(&rt));
    assert!(pyerr_check(&rt, PY_INDEXERROR_TYPE));
    assert!(pyerr_check(&rt, PY_EXC_TYPE));
    assert!(pyerr_check(&rt, PY_BASEEXC_TYPE));
    assert!(!pyerr_check(&rt, PY_TYPEERROR_TYPE));
    let exc = rt.exc.unwrap();
    assert!(PyObject::pyexc_is_exc_instance(&rt, exc));
    assert!(!PyObject::pyexc_is_exc_subclass(&rt, exc));
    assert!(PyObject::pyexc_is_exc_subclass(&rt, PY_STOPITERATION_TYPE));
    assert!(!PyObject::pyexc_is_exc_subclass(&rt, PY_LONG_TYPE));
    match &rt.objects[exc].inner {
        PyInnerObject::ExcObj(e) => {
            let args = rt.objects[e.args].pylist_clone();
            assert_eq!(args.len(), 1);
            assert_eq!(pyobj_to_string(&rt, args[0]).unwrap(), "out of range");
        }
        _ => panic!("exception instance expected"),
    }
    pyerr_clear(&mut rt);
    assert!(!pyerr_occurred(&rt));
    let v = PyObject::from_i32(&mut rt, 1);
    pyerr_set(&mut rt, v);
    assert_eq!(rt.exc, Some(v));
    assert!(!pyerr_check(&rt, PY_EXC_TYPE));
}

#[test]
fn raising_with_something_that_cannot_be_called_raises_a_type_error() {
    let mut rt = rt();
    let v = PyObject::from_i32(&mut rt, 1);
    assert_eq!(pyerr_set_string(&mut rt, v, "x"), PyErr::Raised);
    assert!(pyerr_check(&rt, PY_TYPEERROR_TYPE));
}

#[test]
fn exception_instances_keep_their_arguments() {
    let mut rt = rt();
    let v = PyObject::from_i32(&mut rt, 1);
    let e = pybaseexc_new(&mut rt, PY_ATTRIBUTEERROR_TYPE, &vec![v, v]).unwrap();
    assert_eq!(rt.objects[e].ob_type(), PY_ATTRIBUTEERROR_TYPE);
    assert!(rt.objects[e].ob_dict.is_some());
    assert!(matches!(pybaseexc_new(&mut rt, v, &vec![]), Err(PyErr::TypeError(_))));
}

#[test]
fn errors_know_their_exception() {
    assert_eq!(PyErr::TypeError("m").exc_type(), Some(PY_TYPEERROR_TYPE));
    assert_eq!(PyErr::AttributeError("m").exc_type(), Some(PY_ATTRIBUTEERROR_TYPE));
    assert_eq!(PyErr::IndexError("m").exc_type(), Some(PY_INDEXERROR_TYPE));
    assert_eq!(PyErr::StopIteration.exc_type(), Some(PY_STOPITERATION_TYPE));
    assert_eq!(PyErr::Raised.exc_type(), None);
    assert_eq!(PyErr::TypeError("m").message(), "m");
    assert_eq!(PyErr::Raised.message(), "");
    assert!(PyErr::NameError.is_fatal());
    assert!(PyErr::AssertionError.is_fatal());
    assert!(PyErr::InvalidCode.is_fatal());
    assert!(PyErr::OutOfFuel.is_fatal());
    assert!(PyErr::MroConflict.is_fatal());
    assert!(!PyErr::Raised.is_fatal());
    assert!(!PyErr::TypeError("m").is_fatal());
}
