use pyinterp::error::PyErr;
use pyinterp::util::{run_prog_string, run_prog_with_fuel, RunError};

fn ok(prog: &str) {
    match run_prog_string(prog.to_string()) {
        Ok(()) => {}
        Err(e) => panic!("program failed: {}", e.to_string()),
    }
}

fn fails(prog: &str) -> RunError {
    match run_prog_string(prog.to_string()) {
        Ok(()) => panic!("program did not fail"),
        Err(e) => e,
    }
}

#[test]
fn blank_lines() {
    ok("\n\nx = 1\n\n   \nassert x == 1\n\n");
}

#[test]
fn parse_string() {
    ok("s = 'abc'\nt = \"abc\"\nassert s == t\n");
}

#[test]
fn consecutive_call() {
    ok("def f():\n    def g():\n        return 3\n    return g\nassert f()() == 3\n");
}

#[test]
fn if_true() {
    ok("x = 0\nif True:\n    x = 1\nelse:\n    x = 2\nassert x == 1\n");
}

#[test]
fn if_false() {
    ok("x = 0\nif False:\n    x = 1\nelse:\n    x = 2\nassert x == 2\n");
}

#[test]
fn if_without_else() {
    ok("x = 0\nif 1 < 2:\n    x = 5\nassert x == 5\n");
}

#[test]
fn while_normal() {
    ok("i = 0\nwhile i < 5:\n    i = i + 1\nassert i == 5\n");
}

#[test]
fn while_continue() {
    ok("i = 0\nn = 0\nwhile i < 5:\n    i = i + 1\n    if i == 3:\n        continue\n    n = n + 1\nassert n == 4\n");
}

#[test]
fn while_break() {
    ok("i = 0\nwhile True:\n    i = i + 1\n    if i == 3:\n        break\nassert i == 3\n");
}

#[test]
fn def_simple() {
    ok("def f():\n    return 7\nassert f() == 7\n");
}

#[test]
fn def_argument() {
    ok("def add(a, b):\n    return a + b\nassert add(2, 3) == 5\n");
}

#[test]
fn def_without_return_gives_none() {
    ok("def f():\n    x = 1\nassert type(f()) == type(None)\n");
}

#[test]
fn def_internal() {
    ok("def f(x):\n    def g(y):\n        return x + y\n    return g(10)\nassert f(1) == 11\n");
}

#[test]
fn def_higher_order() {
    ok("def twice(f, x):\n    return f(f(x))\ndef inc(x):\n    return x + 1\nassert twice(inc, 5) == 7\n");
}

#[test]
fn def_lexical_scope() {
    ok("x = 1\ndef f():\n    return x\ndef g():\n    x = 2\n    return f()\nassert g() == 1\n");
}

#[test]
fn wrong_number_of_arguments_is_a_type_error() {
    match fails("def f(a):\n    return a\nf(1, 2)\n") {
        RunError::Runtime(PyErr::Raised) => {}
        e => panic!("unexpected: {}", e.to_string()),
    }
}

#[test]
fn class_var() {
    ok("class A:\n    x = 3\nassert A.x == 3\n");
}

#[test]
fn class_instance_var() {
    ok("class A:\n    x = 3\na = A()\na.y = 4\nassert a.x + a.y == 7\n");
}

#[test]
fn class_method() {
    ok("class A:\n    def get(self, v):\n        return v + 1\nassert A().get(4) == 5\n");
}

#[test]
fn assign_attr() {
    ok("class A:\n    x = 1\na = A()\na.x = 2\nassert a.x == 2\nassert A.x == 1\n");
}

#[test]
fn class_update() {
    ok("class A:\n    x = 1\nA.x = 5\nassert A().x == 5\n");
}

#[test]
fn class_init() {
    ok("class A:\n    def __init__(self, v):\n        self.v = v\na = A(9)\nassert a.v == 9\n");
}

#[test]
fn dict_basic() {
    ok("d = {1: 10, 2: 20}\nassert d[1] == 10\nassert d[2] == 20\n");
}

#[test]
fn dict_overwrite_finds_the_new_value() {
    ok("d = {'a': 1}\nd['a'] = 2\nassert d['a'] == 2\n");
}

#[test]
fn dict_miss_is_a_type_error() {
    match fails("d = {'a': 1}\nd['b']\n") {
        RunError::Runtime(PyErr::Raised) => {}
        e => panic!("unexpected: {}", e.to_string()),
    }
}

#[test]
fn string_add() {
    ok("assert 'ab' + 'cd' == 'abcd'\n");
}

#[test]
fn string_len() {
    ok("assert len('hello') == 5\n");
}

#[test]
fn meta_add() {
    ok("class A:\n    def __add__(self, o):\n        return 7\nassert (A() + A()) == 7\n");
}

#[test]
fn inherit_meta_add() {
    ok("class A:\n    def __add__(self, o):\n        return 7\nclass B(A):\n    x = 1\nassert (B() + B()) == 7\n");
}

#[test]
fn meta_add_lazy() {
    ok("class A:\n    x = 1\nclass B(A):\n    y = 2\ndef add(self, o):\n    return 11\nA.__add__ = add\nassert (A() + A()) == 11\nassert (B() + B()) == 11\n");
}

#[test]
fn dunder_eq_lt_len_bool() {
    ok("class A:\n    def __eq__(self, o):\n        return True\n    def __lt__(self, o):\n        return False\n    def __len__(self):\n        return 3\n    def __bool__(self):\n        return False\na = A()\nassert a == 1\nassert (a < 1) == False\nassert len(a) == 3\nx = 0\nif a:\n    x = 1\nassert x == 0\n");
}

#[test]
fn list_basic() {
    ok("l = [1, 2, 3]\nassert l[0] == 1\nassert l[2] == 3\nassert len(l) == 3\n");
}

#[test]
fn list_append() {
    ok("l = []\nl.append(4)\nl.append(5)\nassert len(l) == 2\nassert l[1] == 5\n");
}

#[test]
fn list_index_out_of_range() {
    match fails("l = [1]\nl[1]\n") {
        RunError::Runtime(PyErr::Raised) => {}
        e => panic!("unexpected: {}", e.to_string()),
    }
}

#[test]
fn empty_list_is_false() {
    ok("x = 0\nif []:\n    x = 1\nassert x == 0\nif [0]:\n    x = 2\nassert x == 2\n");
}

#[test]
fn builtin_len() {
    ok("assert len([1, 2]) == 2\nassert len({}) == 0\n");
}

#[test]
fn len_of_int_is_a_type_error() {
    match fails("len(1)\n") {
        RunError::Runtime(PyErr::Raised) => {}
        e => panic!("unexpected: {}", e.to_string()),
    }
}

#[test]
fn inheritance_simple() {
    ok("class A:\n    def m(self):\n        return 1\nclass B(A):\n    x = 0\nassert B().m() == 1\n");
}

#[test]
fn inheritance_complex() {
    ok("class A:\n    def m(self):\n        return 1\nclass B(A):\n    def m(self):\n        return 2\nclass C(A):\n    def m(self):\n        return 3\n    def n(self):\n        return 4\nclass D(B, C):\n    x = 0\nassert D().m() == 2\nassert D().n() == 4\n");
}

#[test]
fn inconsistent_bases_have_no_order() {
    let prog = "class A:\n    x = 1\nclass B:\n    x = 2\nclass X(A, B):\n    x = 3\nclass Y(B, A):\n    x = 4\nclass Z(X, Y):\n    x = 5\n";
    match fails(prog) {
        RunError::Runtime(PyErr::MroConflict) => {}
        e => panic!("unexpected: {}", e.to_string()),
    }
}

#[test]
fn base_after_its_subclass_in_the_bases() {
    ok("class A:\n    def m(self):\n        return 1\nclass B(A):\n    def m(self):\n        return 2\nclass C(A, B):\n    x = 3\nassert C().m() == 2\n");
}

#[test]
fn bool_arith() {
    ok("assert True + True == 2\nassert (True == True) == True\nassert False < True\n");
}

#[test]
fn int_addition_wraps() {
    ok("assert 2147483647 + 1 < 0\n");
}

#[test]
fn type_call() {
    ok("assert type(1) == int\nassert type(True) == bool\nclass A:\n    x = 1\nassert type(A()) == A\nassert type(A) == type\n");
}

#[test]
fn type_with_three_arguments_makes_a_class() {
    ok("def m(self):\n    return 5\nA = type('A', [], {'m': m})\nassert A().m() == 5\n");
}

#[test]
fn for_stmt() {
    ok("s = 0\nfor x in [1, 2, 3, 4]:\n    s = s + x\nassert s == 10\n");
}

#[test]
fn for_break_and_continue() {
    ok("s = 0\nfor x in [1, 2, 3, 4, 5]:\n    if x == 2:\n        continue\n    if x == 5:\n        break\n    s = s + x\nassert s == 8\n");
}

#[test]
fn for_over_an_int_is_a_type_error() {
    match fails("for x in 3:\n    y = x\n") {
        RunError::Runtime(PyErr::Raised) => {}
        e => panic!("unexpected: {}", e.to_string()),
    }
}

#[test]
fn nested_loops() {
    ok("n = 0\nfor i in [1, 2, 3]:\n    j = 0\n    while j < i:\n        j = j + 1\n        n = n + 1\nassert n == 6\n");
}

#[test]
fn return_inside_loop_leaves_the_function() {
    ok("def f():\n    for x in [1, 2, 3]:\n        if x == 2:\n            return x\n    return 0\nassert f() == 2\n");
}

#[test]
fn unbound_name() {
    match fails("x = y\n") {
        RunError::Runtime(PyErr::NameError) => {}
        e => panic!("unexpected: {}", e.to_string()),
    }
}

#[test]
fn missing_attribute() {
    match fails("class A:\n    x = 1\nA().y\n") {
        RunError::Runtime(PyErr::Raised) => {}
        e => panic!("unexpected: {}", e.to_string()),
    }
}

#[test]
fn adding_int_and_str_is_a_type_error() {
    match fails("1 + 'a'\n") {
        RunError::Runtime(PyErr::Raised) => {}
        e => panic!("unexpected: {}", e.to_string()),
    }
}

#[test]
fn calling_an_int_is_a_type_error() {
    match fails("x = 1\nx()\n") {
        RunError::Runtime(PyErr::Raised) => {}
        e => panic!("unexpected: {}", e.to_string()),
    }
}

#[test]
fn continue_outside_loop_does_not_compile() {
    match fails("continue\n") {
        RunError::Compile(_) => {}
        e => panic!("unexpected: {}", e.to_string()),
    }
}

#[test]
fn bad_indentation_is_a_lexing_error() {
    match fails("if True:\n        x = 1\n    y = 2\n") {
        RunError::Lex(e) => {
            assert_eq!(e.to_string(), "Lexing Error: line 3, row 4, Invalid indentation");
        }
        e => panic!("unexpected: {}", e.to_string()),
    }
}

#[test]
fn missing_colon_is_a_parse_error() {
    match fails("if True\n    x = 1\n") {
        RunError::Parse(_) => {}
        e => panic!("unexpected: {}", e.to_string()),
    }
}

#[test]
fn endless_loop_uses_up_the_budget() {
    let r = run_prog_with_fuel("while True:\n    x = 1\n".to_string(), 500);
    assert!(matches!(r, Err(RunError::Runtime(PyErr::OutOfFuel))));
}

#[test]
fn endless_recursion_uses_up_the_budget() {
    let r = run_prog_with_fuel("def f():\n    return f()\nf()\n".to_string(), 2000);
    assert!(matches!(r, Err(RunError::Runtime(PyErr::OutOfFuel))));
}

#[test]
fn exception_type_can_be_called() {
    ok("e = Exception('boom')\nassert type(e) == Exception\n");
}

#[test]
fn storing_under_a_key_of_a_literal_replaces_its_value() {
    ok("d = {'a': 1}\nd['a'] = 2\nassert len(d) == 1\nassert d['a'] == 2\n");
}
