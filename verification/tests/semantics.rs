use pyinterp::compile::CompileError;
use pyinterp::env::Env;
use pyinterp::error::PyErr;
use pyinterp::eval::{build_class, class_of, eval, subscript, StackMachine};
use pyinterp::lexer::{tokenize, LexingError};
use pyinterp::object::call::{call_code, call_func, pyobj_get_attr, pyobj_is_bool};
use pyinterp::object::{PyInnerObject, PyObject, Runtime, PY_BASEOBJ_TYPE, PY_TYPE_TYPE};
use pyinterp::opcode::Opcode;
use pyinterp::parser::{ParseError, Parser};
use pyinterp::syntax::Expr;
use pyinterp::util::{run_prog_on, RunError};

fn runtime() -> Runtime {
    Runtime::new(100_000)
}

fn value_of(rt: &Runtime, id: usize) -> i32 {
    match &rt.objects[id].inner {
        PyInnerObject::LongObj(n) => n.n,
        _ => panic!("no integer"),
    }
}

#[test]
fn subscript_reads_lists_by_index() {
    let mut rt = runtime();
    let a = PyObject::from_i32(&mut rt, 10);
    let b = PyObject::from_i32(&mut rt, 20);
    let list = PyObject::pylist_from_vec(&mut rt, &vec![a, b]);
    let zero = PyObject::from_i32(&mut rt, 0);
    let one = PyObject::from_i32(&mut rt, 1);
    let two = PyObject::from_i32(&mut rt, 2);
    let minus = PyObject::from_i32(&mut rt, -1);
    assert_eq!(subscript(&rt, list, zero), Ok(a));
    assert_eq!(subscript(&rt, list, one), Ok(b));
    assert!(matches!(subscript(&rt, list, two), Err(PyErr::IndexError(_))));
    assert!(matches!(subscript(&rt, list, minus), Err(PyErr::IndexError(_))));
    assert!(matches!(subscript(&rt, list, list), Err(PyErr::TypeError(_))));
}

#[test]
fn subscript_reads_dictionaries_by_key() {
    let mut rt = runtime();
    let d = PyObject::pydict_new(&mut rt);
    let k = PyObject::from_str(&mut rt, "k");
    let same = PyObject::from_str(&mut rt, "k");
    let other = PyObject::from_str(&mut rt, "other");
    let v = PyObject::from_i32(&mut rt, 7);
    PyObject::pydict_update(&mut rt, d, k, v).unwrap();
    assert_eq!(subscript(&rt, d, same), Ok(v));
    assert!(matches!(subscript(&rt, d, other), Err(PyErr::TypeError(_))));
    assert!(matches!(subscript(&rt, v, k), Err(PyErr::TypeError(_))));
}

#[test]
fn code_is_called_with_as_many_values_as_parameters() {
    let mut rt = runtime();
    let root = Env::new(&mut rt);
    let code = vec![Opcode::LoadName("x".to_string()), Opcode::ReturnValue];
    let codeobj = PyObject::pycode_new(&mut rt, code, vec!["x".to_string()]);
    let v = PyObject::from_i32(&mut rt, 5);
    assert_eq!(call_code(&mut rt, root, codeobj, &vec![v]), Ok(v));
    assert!(matches!(call_code(&mut rt, root, codeobj, &vec![]), Err(PyErr::TypeError(_))));
    assert!(matches!(call_code(&mut rt, root, codeobj, &vec![v, v]), Err(PyErr::TypeError(_))));
}

#[test]
fn a_call_uses_up_one_step_and_each_instruction_another() {
    let mut rt = Runtime::new(10);
    let root = Env::new(&mut rt);
    let code = vec![Opcode::LoadName("x".to_string()), Opcode::ReturnValue];
    let codeobj = PyObject::pycode_new(&mut rt, code, vec!["x".to_string()]);
    let f = PyObject::pyfun_new(&mut rt, root, codeobj);
    let v = PyObject::from_i32(&mut rt, 5);
    assert_eq!(call_func(&mut rt, f, &vec![v]), Ok(v));
    assert_eq!(rt.fuel, 7);
}

#[test]
fn code_without_instructions_gives_none_and_changes_nothing() {
    let mut rt = runtime();
    let root = Env::new(&mut rt);
    let objects = rt.objects.len();
    let fuel = rt.fuel;
    assert_eq!(eval(&mut rt, &vec![], root), Ok(pyinterp::object::PY_NONE_OBJECT));
    assert_eq!(rt.objects.len(), objects);
    assert_eq!(rt.fuel, fuel);
}

#[test]
fn code_without_a_budget_does_not_start() {
    let mut rt = Runtime::new(0);
    let root = Env::new(&mut rt);
    assert_eq!(eval(&mut rt, &vec![Opcode::Panic], root), Err(PyErr::OutOfFuel));
    assert_eq!(rt.fuel, 0);
}

#[test]
fn a_machine_runs_from_its_program_counter() {
    let mut rt = runtime();
    let root = Env::new(&mut rt);
    let v = PyObject::from_i32(&mut rt, 3);
    let code = vec![Opcode::Panic, Opcode::LoadConst(v), Opcode::ReturnValue];
    let mut m = StackMachine::new();
    m.pc = 1;
    assert_eq!(m.exec(&mut rt, &code, root), Ok(v));
    let mut m = StackMachine::new();
    assert_eq!(m.exec(&mut rt, &code, root), Err(PyErr::AssertionError));
}

#[test]
fn a_class_is_made_of_what_its_body_binds() {
    let mut rt = runtime();
    let root = Env::new(&mut rt);
    let name = PyObject::from_str(&mut rt, "A");
    let v = PyObject::from_i32(&mut rt, 11);
    let body = vec![
        Opcode::LoadConst(v),
        Opcode::StoreName("x".to_string()),
        Opcode::LoadConst(pyinterp::object::PY_NONE_OBJECT),
        Opcode::ReturnValue,
    ];
    let cls = build_class(&mut rt, root, name, &body, &vec![]).unwrap();
    assert_eq!(rt.objects[cls].ob_type, PY_TYPE_TYPE);
    let key = PyObject::from_str(&mut rt, "x");
    let got = pyobj_get_attr(&mut rt, cls, key).unwrap();
    assert_eq!(got, v);
    let mro = rt.objects[cls].pytype_tp_mro().unwrap();
    assert_eq!(mro, vec![cls, PY_BASEOBJ_TYPE]);
}

#[test]
fn a_failing_body_makes_no_class() {
    let mut rt = runtime();
    let root = Env::new(&mut rt);
    let name = PyObject::from_str(&mut rt, "A");
    let body = vec![Opcode::LoadName("missing".to_string())];
    assert_eq!(build_class(&mut rt, root, name, &body, &vec![]), Err(PyErr::NameError));
}

#[test]
fn a_class_takes_the_bindings_of_a_frame() {
    let mut rt = runtime();
    let root = Env::new(&mut rt);
    let v = PyObject::from_i32(&mut rt, 4);
    Env::update(&mut rt, root, "y".to_string(), v);
    let name = PyObject::from_str(&mut rt, "B");
    let bases = PyObject::pylist_from_vec(&mut rt, &vec![]);
    let cls = class_of(&mut rt, name, bases, root).unwrap();
    let key = PyObject::from_str(&mut rt, "y");
    let got = pyobj_get_attr(&mut rt, cls, key).unwrap();
    assert_eq!(value_of(&rt, got), 4);
    let bad = class_of(&mut rt, v, bases, root);
    assert!(matches!(bad, Err(PyErr::TypeError(_))));
}

#[test]
fn bases_are_optional() {
    let tokens = tokenize("(A, B):\n".to_string()).unwrap();
    let mut p = Parser::new(tokens);
    let bases = p.bases().unwrap();
    assert_eq!(bases, vec![Expr::VarExpr("A".to_string()), Expr::VarExpr("B".to_string())]);
    assert_eq!(p.pos, 5);
    let tokens = tokenize(":\n".to_string()).unwrap();
    let mut p = Parser::new(tokens);
    assert_eq!(p.bases().unwrap(), vec![]);
    assert_eq!(p.pos, 0);
    let tokens = tokenize("(A:\n".to_string()).unwrap();
    let mut p = Parser::new(tokens);
    assert!(p.bases().is_err());
}

#[test]
fn failures_have_their_texts() {
    let lex = RunError::Lex(LexingError { line: 2, row: 3, msg: "bad".to_string() });
    assert_eq!(lex.to_string(), "Lexing Error: line 2, row 3, bad");
    let parse = RunError::Parse(ParseError { pos: 4, msg: "expression expected" });
    assert_eq!(parse.to_string(), "Parse Error: expression expected at token 4");
    assert_eq!(
        RunError::Compile(CompileError::ContinueOutsideLoop).to_string(),
        "Compile Error: continue outside loop block"
    );
    assert_eq!(
        RunError::Compile(CompileError::TooLarge).to_string(),
        "Compile Error: program too large"
    );
    assert_eq!(
        RunError::Runtime(PyErr::Raised).to_string(),
        "Runtime Error: uncaught exception"
    );
    assert_eq!(RunError::Runtime(PyErr::NameError).to_string(), "Runtime Error: unbound variable");
    assert_eq!(RunError::Runtime(PyErr::AssertionError).to_string(), "AssertionError");
    assert_eq!(RunError::Runtime(PyErr::InvalidCode).to_string(), "Runtime Error: invalid code");
    assert_eq!(
        RunError::Runtime(PyErr::OutOfFuel).to_string(),
        "Runtime Error: step budget used up"
    );
    assert_eq!(
        RunError::Runtime(PyErr::MroConflict).to_string(),
        "Runtime Error: cannot create a consistent method resolution order"
    );
    assert_eq!(RunError::Runtime(PyErr::TypeError("no")).to_string(), "Runtime Error: no");
}

#[test]
fn a_text_that_fails_early_leaves_the_runtime_as_it_is() {
    let mut rt = runtime();
    let objects = rt.objects.len();
    let envs = rt.envs.len();
    let r = run_prog_on(&mut rt, "x = $\n".to_string());
    assert!(matches!(r, Err(RunError::Lex(_))));
    assert_eq!((rt.objects.len(), rt.envs.len()), (objects, envs));
    let r = run_prog_on(&mut rt, "x = = 1\n".to_string());
    assert!(matches!(r, Err(RunError::Parse(_))));
    assert_eq!((rt.objects.len(), rt.envs.len()), (objects, envs));
    let r = run_prog_on(&mut rt, "continue\n".to_string());
    assert_eq!(r, Err(RunError::Compile(CompileError::ContinueOutsideLoop)));
    let r = run_prog_on(&mut rt, "x = 1\nassert x == 1\n".to_string());
    assert_eq!(r, Ok(()));
    assert_eq!(rt.envs.len(), envs + 1);
}

#[test]
fn truth_comes_from_the_bool_slot_or_the_length() {
    let mut rt = runtime();
    let zero = PyObject::from_i32(&mut rt, 0);
    let five = PyObject::from_i32(&mut rt, 5);
    let empty = PyObject::pylist_from_vec(&mut rt, &vec![]);
    let full = PyObject::pylist_from_vec(&mut rt, &vec![zero]);
    let text = PyObject::from_str(&mut rt, "");
    let d = PyObject::pydict_new(&mut rt);
    assert_eq!(pyobj_is_bool(&mut rt, zero), Ok(false));
    assert_eq!(pyobj_is_bool(&mut rt, five), Ok(true));
    assert_eq!(pyobj_is_bool(&mut rt, empty), Ok(false));
    assert_eq!(pyobj_is_bool(&mut rt, full), Ok(true));
    assert_eq!(pyobj_is_bool(&mut rt, text), Ok(false));
    assert_eq!(pyobj_is_bool(&mut rt, d), Ok(false));
    assert_eq!(pyobj_is_bool(&mut rt, pyinterp::object::PY_TRUE), Ok(true));
    assert_eq!(pyobj_is_bool(&mut rt, pyinterp::object::PY_FALSE), Ok(false));
    let none = pyobj_is_bool(&mut rt, pyinterp::object::PY_NONE_OBJECT);
    assert!(matches!(none, Err(PyErr::TypeError(_))));
}

#[test]
fn an_expression_names_its_variant() {
    let x = Expr::VarExpr("x".to_string());
    assert_eq!(x.to_string(), "VarExpr");
    assert_eq!(Expr::IntExpr(1).to_string(), "IntExpr");
    assert_eq!(Expr::BoolExpr(true).to_string(), "BoolExpr");
    assert_eq!(Expr::StrExpr("s".to_string()).to_string(), "StrExpr");
    assert_eq!(Expr::NoneExpr.to_string(), "NoneExpr");
    let one = || Box::new(Expr::IntExpr(1));
    assert_eq!(Expr::AddExpr(one(), one()).to_string(), "AddExpr");
    assert_eq!(Expr::LtExpr(one(), one()).to_string(), "LtExpr");
    assert_eq!(Expr::EqEqExpr(one(), one()).to_string(), "EqEqExpr");
    assert_eq!(Expr::CallExpr(one(), vec![]).to_string(), "CallExpr");
    assert_eq!(Expr::AttrExpr(one(), "a".to_string()).to_string(), "AttrExpr");
    assert_eq!(Expr::SubscrExpr(one(), one()).to_string(), "SubscrExpr");
    assert_eq!(Expr::ListExpr(vec![]).to_string(), "ListExpr");
    assert_eq!(Expr::DictExpr(vec![]).to_string(), "DictExpr");
}

#[test]
fn every_unset_slot_comes_from_an_ancestor() {
    let mut rt = runtime();
    let name = PyObject::from_str(&mut rt, "L");
    let bases = PyObject::pylist_from_vec(&mut rt, &vec![pyinterp::object::PY_LIST_TYPE]);
    let d = PyObject::pydict_new(&mut rt);
    let cls = pyinterp::object::ready::type_new(&mut rt, PY_TYPE_TYPE, &vec![name, bases, d])
        .unwrap();
    assert!(rt.objects[cls].pytype_tp_iter().is_some());
    assert_eq!(
        rt.objects[cls].pytype_tp_iter(),
        rt.objects[pyinterp::object::PY_LIST_TYPE].pytype_tp_iter()
    );
    let name = PyObject::from_str(&mut rt, "M");
    let bases = PyObject::pylist_from_vec(&mut rt, &vec![PY_TYPE_TYPE]);
    let d = PyObject::pydict_new(&mut rt);
    let meta = pyinterp::object::ready::type_new(&mut rt, PY_TYPE_TYPE, &vec![name, bases, d])
        .unwrap();
    assert_eq!(
        rt.objects[meta].pytype_tp_call(),
        rt.objects[PY_TYPE_TYPE].pytype_tp_call()
    );
    assert!(rt.objects[meta].pytype_tp_call().is_some());
    let t = rt.typeobj(meta);
    assert_eq!(t.tp_base, Some(PY_BASEOBJ_TYPE));
    assert_eq!(t.tp_getattro, rt.typeobj(PY_BASEOBJ_TYPE).tp_getattro);
    assert_eq!(t.tp_setattro, rt.typeobj(PY_BASEOBJ_TYPE).tp_setattro);
}

#[test]
fn a_return_under_blocks_leaves_no_block() {
    let mut rt = runtime();
    let root = Env::new(&mut rt);
    let v = PyObject::from_i32(&mut rt, 3);
    let code = vec![
        Opcode::SetupLoop(10),
        Opcode::LoadConst(v),
        Opcode::SetupExcept(10),
        Opcode::LoadConst(v),
        Opcode::ReturnValue,
    ];
    let mut m = StackMachine::new();
    assert_eq!(m.exec(&mut rt, &code, root), Ok(v));
    assert_eq!(m.blocks.len(), 0);
    assert_eq!(m.stack.len(), 0);
    assert_eq!(m.pc, 4);
}

#[test]
fn a_break_cuts_the_stack_to_the_level_of_its_loop() {
    let mut rt = runtime();
    let root = Env::new(&mut rt);
    let one = PyObject::from_i32(&mut rt, 1);
    let seven = PyObject::from_i32(&mut rt, 7);
    let five = PyObject::from_i32(&mut rt, 5);
    let code = vec![
        Opcode::LoadConst(one),
        Opcode::SetupLoop(3),
        Opcode::LoadConst(seven),
        Opcode::BreakLoop,
        Opcode::LoadConst(five),
        Opcode::BinaryAdd,
        Opcode::ReturnValue,
    ];
    let mut m = StackMachine::new();
    let r = m.exec(&mut rt, &code, root).unwrap();
    assert_eq!(value_of(&rt, r), 6);
    assert_eq!(m.blocks.len(), 0);
    assert_eq!(m.stack.len(), 0);
    assert!(rt.exc.is_none());
}

#[test]
fn an_uncaught_exception_leaves_no_block_and_stays_in_the_indicator() {
    let mut rt = runtime();
    let root = Env::new(&mut rt);
    let one = PyObject::from_i32(&mut rt, 1);
    let code = vec![
        Opcode::SetupLoop(5),
        Opcode::LoadConst(one),
        Opcode::LoadConst(one),
        Opcode::CallFunction(0),
        Opcode::ReturnValue,
    ];
    let mut m = StackMachine::new();
    assert_eq!(m.exec(&mut rt, &code, root), Err(PyErr::Raised));
    assert_eq!(m.blocks.len(), 0);
    assert!(rt.exc.is_some());
}

fn lex_error(text: &str) -> LexingError {
    match tokenize(text.to_string()) {
        Ok(_) => panic!("the text has tokens"),
        Err(e) => e,
    }
}

#[test]
fn a_lexing_error_has_the_place_at_which_the_lexer_gave_up() {
    let e = lex_error("x = 1\ny = $\n");
    assert_eq!((e.line, e.row, e.msg.as_str()), (2, 4, "Invalid character used"));
    let e = lex_error("$");
    assert_eq!((e.line, e.row, e.msg.as_str()), (1, 1, "Invalid character used"));
    let e = lex_error("x = 'abc");
    assert_eq!((e.line, e.row, e.msg.as_str()), (1, 9, "' expected"));
    let e = lex_error("x = \"ab\ncd");
    assert_eq!((e.line, e.row, e.msg.as_str()), (2, 2, "\" expected"));
    let e = lex_error("x = 99999999999\n");
    assert_eq!((e.line, e.row, e.msg.as_str()), (1, 16, "integer literal too large"));
    let e = lex_error("if x:\n    y = 1\n  z = 2\n");
    assert_eq!((e.line, e.row, e.msg.as_str()), (3, 2, "Invalid indentation"));
}
