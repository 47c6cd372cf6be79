use vstd::prelude::*;
use vstd::string::StringExecFns;
use crate::builtinmodule::{load_builtins, load_builtins_post};
use crate::compile::{compile, emit_body, heap_added, CompileError, Emitted};
use crate::env::Env;
use crate::error::{pyerr_clear, PyErr, PyRes};
use crate::eval::{eval, evals};
use crate::lexer::{spec_tokenize, tokenize, LexingError};
use crate::object::{lemma_extends_trans, EnvId, ObjId, PyInnerObject, Runtime};
use crate::parser::{p_program, ParseError, Parser, TokenStream};
use crate::syntax::{program_view, Program};

verus! {

/// The budget of steps of a program that is run without a budget of its own.
pub const DEFAULT_FUEL: u64 = 0xffff_ffff_ffff_ffff;

/// Why a program did not run to its end.
#[derive(Debug, PartialEq, Eq)]
pub enum RunError {
    /// The text is no sequence of tokens.
    Lex(LexingError),
    /// The tokens are no program.
    Parse(ParseError),
    /// The program has no code.
    Compile(CompileError),
    /// The code failed: with an exception that nothing caught, where the
    /// error is `Raised`, and else with the error that ended it.
    Runtime(PyErr),
}

impl RunError {
    /// The text of the failure.
    pub open spec fn spec_text(self) -> Seq<char> {
        match self {
            RunError::Lex(e) => "Lexing Error: line "@ + crate::lexer::spec_decimal(e.line as nat)
                + ", row "@ + crate::lexer::spec_decimal(e.row as nat) + ", "@ + e.msg@,
            RunError::Parse(e) => "Parse Error: "@ + e.msg@ + " at token "@
                + crate::lexer::spec_decimal(e.pos as nat),
            RunError::Compile(CompileError::ContinueOutsideLoop) => "Compile Error: continue outside loop block"@,
            RunError::Compile(CompileError::TooLarge) => "Compile Error: program too large"@,
            RunError::Runtime(PyErr::Raised) => "Runtime Error: uncaught exception"@,
            RunError::Runtime(PyErr::NameError) => "Runtime Error: unbound variable"@,
            RunError::Runtime(PyErr::AssertionError) => "AssertionError"@,
            RunError::Runtime(PyErr::InvalidCode) => "Runtime Error: invalid code"@,
            RunError::Runtime(PyErr::OutOfFuel) => "Runtime Error: step budget used up"@,
            RunError::Runtime(PyErr::MroConflict) => "Runtime Error: cannot create a consistent method resolution order"@,
            RunError::Runtime(e) => "Runtime Error: "@ + e.spec_message(),
        }
    }

    /// A short classification of the failure, and its text where it has one.
    pub fn to_string(self) -> (s: String)
        ensures
            s@ == self.spec_text(),
    {
        match self {
            RunError::Lex(e) => e.to_string(),
            RunError::Parse(e) => e.to_string(),
            RunError::Compile(CompileError::ContinueOutsideLoop) => String::from_str(
                "Compile Error: continue outside loop block",
            ),
            RunError::Compile(CompileError::TooLarge) => String::from_str(
                "Compile Error: program too large",
            ),
            RunError::Runtime(PyErr::Raised) => String::from_str("Runtime Error: uncaught exception"),
            RunError::Runtime(PyErr::NameError) => String::from_str("Runtime Error: unbound variable"),
            RunError::Runtime(PyErr::AssertionError) => String::from_str("AssertionError"),
            RunError::Runtime(PyErr::InvalidCode) => String::from_str("Runtime Error: invalid code"),
            RunError::Runtime(PyErr::OutOfFuel) => String::from_str(
                "Runtime Error: step budget used up",
            ),
            RunError::Runtime(PyErr::MroConflict) => String::from_str(
                "Runtime Error: cannot create a consistent method resolution order",
            ),
            RunError::Runtime(e) => {
                let mut s = String::from_str("Runtime Error: ");
                s.append(e.message());
                s
            },
        }
    }
}

/// `m3` is `m1` with a new root frame without bindings behind its frames,
/// and with an empty exception indicator.
pub open spec fn root_made(m1: Runtime, m3: Runtime) -> bool {
    &&& m3.wf()
    &&& m3.objects == m1.objects
    &&& m3.exc is None
    &&& m3.fuel == m1.fuel
    &&& m3.envs@.len() == m1.envs@.len() + 1
    &&& forall|i: int| 0 <= i < m1.envs@.len() ==> #[trigger] m3.envs@[i] == m1.envs@[i]
    &&& m3.envs@[m1.envs@.len() as int].parent is None
    &&& m3.envs@[m1.envs@.len() as int].bindings() == Seq::<(Seq<char>, ObjId)>::empty()
}

/// The states that a program goes through before its code runs: `m1` is
/// `prt` with the constants of the code, `m3` is `m1` with a new root frame,
/// and loading the built-ins into that frame gives `loaded` and leaves `m4`.
pub open spec fn set_up(
    prt: Runtime,
    em: Emitted,
    m1: Runtime,
    m3: Runtime,
    m4: Runtime,
    loaded: PyRes<()>,
) -> bool {
    &&& heap_added(prt, m1, em.heap)
    &&& root_made(m1, m3)
    &&& load_builtins_post(m3, m4, m1.envs@.len() as usize, loaded)
}

/// What a run gives whose code gave `res`.
pub open spec fn run_result(res: PyRes<ObjId>) -> Result<(), RunError> {
    match res {
        Ok(_) => Ok(()),
        Err(e) => Err(RunError::Runtime(e)),
    }
}

/// Running the code `em` from the runtime `prt` gives `r` and leaves the
/// runtime `rt`: the constants of the code are put into the arena, a new
/// root frame is made, the built-ins are loaded into it, and the code runs
/// in that frame. A failure to load the built-ins is the failure of the
/// run.
pub open spec fn code_ran(prt: Runtime, em: Emitted, rt: Runtime, r: Result<(), RunError>) -> bool {
    exists|m1: Runtime, m3: Runtime, m4: Runtime, loaded: PyRes<()>| #[trigger]
        set_up(prt, em, m1, m3, m4, loaded) && match loaded {
            Err(e) => rt == m4 && r == Err::<(), RunError>(RunError::Runtime(e)),
            Ok(_) => exists|res: PyRes<ObjId>| #[trigger]
                evals(m4, em.code, m1.envs@.len() as usize, rt, res) && r == run_result(res),
        }
}

/// What a run gives whose compilation is described by `em`: a program that
/// has no code is the error that says why; else the code runs, as
/// [`code_ran`] says.
pub open spec fn staged(
    prt: Runtime,
    em: Result<Emitted, CompileError>,
    rt: Runtime,
    r: Result<(), RunError>,
) -> bool {
    match em {
        Err(e) => r == Err::<(), RunError>(RunError::Compile(e)),
        Ok(em) => code_ran(prt, em, rt, r),
    }
}

/// Running the text `prog` from the runtime `prt` gives `r` and leaves the
/// runtime `rt`. A text that is no sequence of tokens is a lexing error,
/// and tokens that are no program are a parse error; both leave the
/// runtime as it is. Else the program that the grammar reads in the tokens
/// is compiled and run, as [`staged`] says.
pub open spec fn ran(prt: Runtime, prog: Seq<char>, rt: Runtime, r: Result<(), RunError>) -> bool {
    match spec_tokenize(prog) {
        Err(f) => r is Err && r->Err_0 is Lex && crate::lexer::error_of(
            r->Err_0->Lex_0,
            prog,
            f,
        ) && rt == prt,
        Ok(tokens) => match p_program(tokens, 0) {
            None => r is Err && r->Err_0 is Parse && rt == prt,
            Some(p) => exists|ast: Program| #[trigger]
                program_view(ast) == p.0 && staged(
                    prt,
                    emit_body(ast@, prt.objects@.len() as int),
                    rt,
                    r,
                ),
        },
    }
}

/// Runs the program `prog` on the runtime `rt`: the text is turned into
/// tokens, the tokens into a program, the program into code, and the code
/// is run in a new root frame in which the built-in names are bound.
pub fn run_prog_on(rt: &mut Runtime, prog: String) -> (r: Result<(), RunError>)
    requires
        old(rt).wf(),
    ensures
        final(rt).wf(),
        final(rt).extends(*old(rt)),
        r matches Err(RunError::Runtime(e)) ==> e is Raised || e.spec_is_fatal(),
        r matches Err(RunError::Runtime(PyErr::Raised)) ==> final(rt).exc is Some,
        ran(*old(rt), prog@, *final(rt), r),
{
    proof {
        crate::object::lemma_extends_refl(*rt);
    }
    let tokens = match tokenize(prog) {
        Ok(t) => t,
        Err(e) => {
            return Err(RunError::Lex(e));
        },
    };
    let mut parser = Parser::new(tokens);
    let ast = match parser.parse() {
        Ok(a) => a,
        Err(e) => {
            return Err(RunError::Parse(e));
        },
    };
    proof {
        assert(program_view(ast) == p_program(spec_tokenize(prog@)->Ok_0, 0)->Some_0.0);
    }
    let res = compile(rt, &ast);
    let ghost m1 = *rt;
    let code = match res {
        Ok(c) => c,
        Err(e) => {
            return Err(RunError::Compile(e));
        },
    };
    let ghost em = emit_body(ast@, old(rt).objects@.len() as int)->Ok_0;
    let env = Env::new(rt);
    let ghost m2 = *rt;
    pyerr_clear(rt);
    let ghost m3 = *rt;
    proof {
        assert(root_made(m1, m3));
        assert(env == m1.envs@.len() as usize);
        lemma_extends_trans(*old(rt), m1, m2);
        assert(m3.extends(m2)) by {
            crate::object::lemma_extends_refl(m2);
        }
        lemma_extends_trans(*old(rt), m2, m3);
    }
    let res = load_builtins(rt, env);
    let ghost m4 = *rt;
    proof {
        lemma_extends_trans(*old(rt), m3, m4);
    }
    proof {
        assert(set_up(*old(rt), em, m1, m3, m4, res));
    }
    match res {
        Ok(()) => {},
        Err(e) => {
            return Err(RunError::Runtime(e));
        },
    }
    let res = eval(rt, &code, env);
    proof {
        lemma_extends_trans(*old(rt), m4, *rt);
    }
    match res {
        Ok(_) => Ok(()),
        Err(e) => Err(RunError::Runtime(e)),
    }
}

/// Runs the program `prog` on a new runtime with the budget `fuel`.
pub fn run_prog_with_fuel(prog: String, fuel: u64) -> (r: Result<(), RunError>)
    ensures
        r matches Err(RunError::Runtime(e)) ==> e is Raised || e.spec_is_fatal(),
        exists|prt: Runtime, rt: Runtime| #[trigger] ran(prt, prog@, rt, r) && prt.started(fuel),
{
    let mut rt = Runtime::new(fuel);
    let ghost prt = rt;
    let r = run_prog_on(&mut rt, prog);
    proof {
        assert(ran(prt, prog@, rt, r));
    }
    r
}

/// Runs the program `prog` on a new runtime.
pub fn run_prog_string(prog: String) -> (r: Result<(), RunError>)
    ensures
        r matches Err(RunError::Runtime(e)) ==> e is Raised || e.spec_is_fatal(),
        exists|prt: Runtime, rt: Runtime| #[trigger]
            ran(prt, prog@, rt, r) && prt.started(DEFAULT_FUEL),
{
    run_prog_with_fuel(prog, DEFAULT_FUEL)
}

} // verus!
