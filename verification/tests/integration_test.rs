use pyinterp::error::PyErr;
use pyinterp::util::{run_prog_string, run_prog_with_fuel, RunError};

fn run(prog: &str) -> Result<(), RunError> {
    run_prog_string(prog.to_string())
}

fn expect_ok(prog: &str) {
    match run(prog) {
        Ok(()) => {}
        Err(e) => panic!("program failed: {}", e.to_string()),
    }
}

#[test]
fn assert_true() {
    assert!(run_prog_string("assert 42 == 42\n".to_string()).is_ok())
}

#[test]
fn assert_false_is_an_assertion_failure() {
    let r = run_prog_string("assert 1 == 42\n".to_string());
    assert!(matches!(r, Err(RunError::Runtime(PyErr::AssertionError))));
}

#[test]
fn while_loop_sums() {
    expect_ok("x = 0\ni = 0\nwhile i < 10:\n    x = x + i\n    i = i + 1\nassert x == 45\n");
}

#[test]
fn recursion_with_minus_is_a_lexing_error() {
    let prog = "def f(n):\n    if n < 2:\n        return 1\n    return f(n + (0 - 1)) + f(n + (0 - 2))\nassert f(6) == 13\n";
    match run(prog) {
        Err(RunError::Lex(e)) => {
            assert_eq!(e.line, 4);
        }
        _ => panic!("lexing error expected"),
    }
}

#[test]
fn recursion_counts_up() {
    let prog = "def f(n):\n    if 5 < n:\n        return 1\n    return f(n + 1) + f(n + 2)\nassert f(0) == 21\n";
    expect_ok(prog);
}

#[test]
fn method_resolution_and_binding() {
    let prog = "class A:\n    def m(self):\n        return 1\nclass B(A):\n    def m(self):\n        return 2\nassert B().m() == 2\nassert A().m() == 1\n";
    expect_ok(prog);
}

#[test]
fn dunder_add_becomes_a_slot() {
    let prog = "class A:\n    def __add__(self, o):\n        return 7\nassert (A() + A()) == 7\n";
    expect_ok(prog);
}

#[test]
fn dict_literal_store_and_len() {
    let prog = "d = {'a': 1, 'b': 2}\nd['c'] = 3\nassert len(d) == 3\n";
    expect_ok(prog);
}

#[test]
fn out_of_fuel() {
    let r = run_prog_with_fuel("while True:\n    x = 1\n".to_string(), 1000);
    assert!(matches!(r, Err(RunError::Runtime(PyErr::OutOfFuel))));
}
