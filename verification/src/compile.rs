use vstd::prelude::*;
use crate::object::codeobj::names_of;
use crate::object::longobj::PyLongObject;
use crate::object::{
    lemma_extends_refl, lemma_extends_trans, ObjId, PyInnerObject, PyObject, Runtime,
    PY_CODE_TYPE, PY_LONG_TYPE, PY_NONE_OBJECT, PY_STRING_TYPE,
};
use crate::opcode::{Addr, Code, Opcode};
use crate::syntax::{CompoundStmt, Expr, Id, Program, SimpleStmt, Stmt, Target};

verus! {

broadcast use {
    vstd::std_specs::vec::axiom_vec_index_decreases,
    vstd::std_specs::vec::axiom_vec_decreases_to_view,
};

/// Why a program has no code.
#[derive(Clone, Copy, Debug, PartialEq, Eq, Structural)]
pub enum CompileError {
    /// A `continue` stands outside of every loop.
    ContinueOutsideLoop,
    /// An address in the code does not fit the machine's word.
    TooLarge,
}

/// Where a piece of code will stand: the address of its first instruction,
/// and the address at which the innermost loop around it goes on.
#[derive(Clone, Copy, Debug)]
pub struct AddrInfo {
    pub start: Addr,
    pub cont: Option<Addr>,
}

impl AddrInfo {
    /// The start of a code vector, outside of every loop.
    pub fn new() -> (a: AddrInfo)
        ensures
            a.start == 0,
            a.cont.is_none(),
    {
        AddrInfo { start: 0, cont: None }
    }

    /// The same loop, at another address.
    pub fn change_start(&self, start: Addr) -> (a: AddrInfo)
        ensures
            a.start == start,
            a.cont == self.cont,
    {
        AddrInfo { start: start, cont: self.cont }
    }
}

/// A constant that compiled code refers to: an integer, a string, or a code
/// object, given by its instructions and its parameter names.
pub enum ConstVal {
    Int(i32),
    Str(Seq<char>),
    Code(Seq<Opcode>, Seq<Seq<char>>),
}

/// What compiling a piece of syntax gives: the instructions, and the
/// constants that it puts into the arena, in order.
pub struct Emitted {
    pub code: Seq<Opcode>,
    pub heap: Seq<ConstVal>,
}

impl Emitted {
    /// Nothing.
    pub open spec fn empty() -> Emitted {
        Emitted { code: Seq::empty(), heap: Seq::empty() }
    }

    /// The instructions `code`, without constants.
    pub open spec fn ops(code: Seq<Opcode>) -> Emitted {
        Emitted { code: code, heap: Seq::empty() }
    }

    /// `self` followed by `next`.
    pub open spec fn and(self, next: Emitted) -> Emitted {
        Emitted { code: self.code + next.code, heap: self.heap + next.heap }
    }
}

/// The object `o` holds the constant `c`.
pub open spec fn obj_is_const(o: PyObject, c: ConstVal) -> bool {
    &&& o.ob_dict is None
    &&& match c {
        ConstVal::Int(i) => o.ob_type == PY_LONG_TYPE && o.inner == PyInnerObject::LongObj(
            PyLongObject { n: i },
        ),
        ConstVal::Str(s) => o.ob_type == PY_STRING_TYPE && o.inner is StrObj
            && o.inner->StrObj_0.s@ == s,
        ConstVal::Code(code, names) => o.ob_type == PY_CODE_TYPE && o.inner is CodeObj
            && o.inner->CodeObj_0.co_code@ == code && names_of(o.inner->CodeObj_0.co_argnames@)
            == names,
    }
}

/// `cur` is `prev` with the constants `heap` put behind its objects.
pub open spec fn heap_added(prev: Runtime, cur: Runtime, heap: Seq<ConstVal>) -> bool {
    &&& cur.only_grew(prev)
    &&& cur.objects@.len() == prev.objects@.len() + heap.len()
    &&& forall|k: int|
        0 <= k < heap.len() ==> obj_is_const(
            cur.objects@[prev.objects@.len() + k],
            #[trigger] heap[k],
        )
}

/// Putting constants into the arena one batch after the other puts all of
/// them there.
pub proof fn lemma_heap_added(a: Runtime, b: Runtime, c: Runtime, h1: Seq<ConstVal>, h2: Seq<ConstVal>)
    requires
        heap_added(a, b, h1),
        heap_added(b, c, h2),
    ensures
        heap_added(a, c, h1 + h2),
{
    let h = h1 + h2;
    assert forall|i: int| 0 <= i < a.objects@.len() implies #[trigger] c.objects@[i]
        == a.objects@[i] by {
        assert(c.objects@[i] == b.objects@[i]);
    }
    assert forall|k: int| 0 <= k < h.len() implies obj_is_const(
        c.objects@[a.objects@.len() + k],
        #[trigger] h[k],
    ) by {
        if k < h1.len() {
            assert(h[k] == h1[k]);
            assert(c.objects@[a.objects@.len() + k] == b.objects@[a.objects@.len() + k]);
        } else {
            assert(h[k] == h2[k - h1.len()]);
        }
    }
}

/// The code of the expression `e`, whose constants go into the arena from
/// index `base` on.
pub open spec fn emit_expr(e: Expr, base: int) -> Emitted
    decreases e, 0nat,
{
    match e {
        Expr::VarExpr(id) => Emitted::ops(seq![Opcode::LoadName(id)]),
        Expr::IntExpr(i) => Emitted {
            code: seq![Opcode::LoadConst(base as usize)],
            heap: seq![ConstVal::Int(i)],
        },
        Expr::BoolExpr(b) => Emitted::ops(seq![Opcode::LoadConst(PyObject::spec_from_bool(b))]),
        Expr::StrExpr(s) => Emitted {
            code: seq![Opcode::LoadConst(base as usize)],
            heap: seq![ConstVal::Str(s@)],
        },
        Expr::NoneExpr => Emitted::ops(seq![Opcode::LoadConst(PY_NONE_OBJECT)]),
        Expr::AddExpr(e1, e2) => {
            let a = emit_expr(*e1, base);
            let b = emit_expr(*e2, base + a.heap.len());
            a.and(b).and(Emitted::ops(seq![Opcode::BinaryAdd]))
        },
        Expr::LtExpr(e1, e2) => {
            let a = emit_expr(*e1, base);
            let b = emit_expr(*e2, base + a.heap.len());
            a.and(b).and(Emitted::ops(seq![Opcode::BinaryLt]))
        },
        Expr::EqEqExpr(e1, e2) => {
            let a = emit_expr(*e1, base);
            let b = emit_expr(*e2, base + a.heap.len());
            a.and(b).and(Emitted::ops(seq![Opcode::BinaryEq]))
        },
        Expr::CallExpr(fun, args) => {
            let f = emit_expr(*fun, base);
            let a = emit_exprs(args@, base + f.heap.len(), args@.len());
            f.and(a).and(Emitted::ops(seq![Opcode::CallFunction(args@.len() as usize)]))
        },
        Expr::AttrExpr(obj, ident) => emit_expr(*obj, base).and(
            Emitted::ops(seq![Opcode::LoadAttr(ident)]),
        ),
        Expr::SubscrExpr(e1, e2) => {
            let a = emit_expr(*e1, base);
            let b = emit_expr(*e2, base + a.heap.len());
            a.and(b).and(Emitted::ops(seq![Opcode::BinarySubScr]))
        },
        Expr::ListExpr(items) => emit_exprs(items@, base, items@.len()).and(
            Emitted::ops(seq![Opcode::BuildList(items@.len() as usize)]),
        ),
        Expr::DictExpr(pairs) => emit_pairs(pairs@, base, pairs@.len()).and(
            Emitted::ops(seq![Opcode::BuildMap(pairs@.len() as usize)]),
        ),
    }
}

/// The code of the first `n` of the expressions `es`, one after the other.
pub open spec fn emit_exprs(es: Seq<Expr>, base: int, n: nat) -> Emitted
    decreases es, n,
{
    if n == 0 || n > es.len() {
        Emitted::empty()
    } else {
        let before = emit_exprs(es, base, (n - 1) as nat);
        before.and(emit_expr(es[n - 1], base + before.heap.len()))
    }
}

/// The code of the first `n` of the pairs `ps`: for each pair the key, then
/// the value.
pub open spec fn emit_pairs(ps: Seq<(Expr, Expr)>, base: int, n: nat) -> Emitted
    decreases ps, n,
{
    if n == 0 || n > ps.len() {
        Emitted::empty()
    } else {
        let before = emit_pairs(ps, base, (n - 1) as nat);
        let k = emit_expr(ps[n - 1].0, base + before.heap.len());
        let v = emit_expr(ps[n - 1].1, base + before.heap.len() + k.heap.len());
        before.and(k).and(v)
    }
}

/// One instruction without constants.
fn one(op: Opcode) -> (code: Code)
    ensures
        code@ == seq![op],
{
    let mut code: Code = Vec::new();
    code.push(op);
    proof {
        assert(code@ =~= seq![op]);
    }
    code
}

/// Compiles an expression: the code leaves the value of the expression on
/// the stack.
pub fn compile_expr(rt: &mut Runtime, expr: &Expr) -> (code: Code)
    requires
        old(rt).wf(),
    ensures
        final(rt).wf(),
        final(rt).extends(*old(rt)),
        code@ == emit_expr(*expr, old(rt).objects@.len() as int).code,
        heap_added(*old(rt), *final(rt), emit_expr(*expr, old(rt).objects@.len() as int).heap),
    decreases expr,
{
    let ghost base = rt.objects@.len() as int;
    proof {
        lemma_extends_refl(*rt);
    }
    match expr {
        Expr::VarExpr(id) => one(Opcode::LoadName(id.clone())),
        Expr::IntExpr(i) => {
            let c = PyObject::from_i32(rt, *i);
            one(Opcode::LoadConst(c))
        },
        Expr::BoolExpr(b) => one(Opcode::LoadConst(PyObject::from_bool(*b))),
        Expr::StrExpr(s) => {
            let c = PyObject::from_string(rt, s.clone());
            one(Opcode::LoadConst(c))
        },
        Expr::NoneExpr => one(Opcode::LoadConst(PyObject::none_obj())),
        Expr::AddExpr(e1, e2) => {
            let mut code = compile_expr(rt, e1);
            let ghost m1 = *rt;
            let mut code2 = compile_expr(rt, e2);
            code.append(&mut code2);
            code.push(Opcode::BinaryAdd);
            proof {
                let a = emit_expr(**e1, base);
                let b = emit_expr(**e2, base + a.heap.len());
                lemma_extends_trans(*old(rt), m1, *rt);
                lemma_heap_added(*old(rt), m1, *rt, a.heap, b.heap);
                assert(a.heap + b.heap + Seq::<ConstVal>::empty() =~= a.heap + b.heap);
            }
            code
        },
        Expr::LtExpr(e1, e2) => {
            let mut code = compile_expr(rt, e1);
            let ghost m1 = *rt;
            let mut code2 = compile_expr(rt, e2);
            code.append(&mut code2);
            code.push(Opcode::BinaryLt);
            proof {
                let a = emit_expr(**e1, base);
                let b = emit_expr(**e2, base + a.heap.len());
                lemma_extends_trans(*old(rt), m1, *rt);
                lemma_heap_added(*old(rt), m1, *rt, a.heap, b.heap);
                assert(a.heap + b.heap + Seq::<ConstVal>::empty() =~= a.heap + b.heap);
            }
            code
        },
        Expr::EqEqExpr(e1, e2) => {
            let mut code = compile_expr(rt, e1);
            let ghost m1 = *rt;
            let mut code2 = compile_expr(rt, e2);
            code.append(&mut code2);
            code.push(Opcode::BinaryEq);
            proof {
                let a = emit_expr(**e1, base);
                let b = emit_expr(**e2, base + a.heap.len());
                lemma_extends_trans(*old(rt), m1, *rt);
                lemma_heap_added(*old(rt), m1, *rt, a.heap, b.heap);
                assert(a.heap + b.heap + Seq::<ConstVal>::empty() =~= a.heap + b.heap);
            }
            code
        },
        Expr::CallExpr(fun, args) => {
            let mut code = compile_expr(rt, fun);
            let ghost m1 = *rt;
            let ghost f = emit_expr(**fun, base);
            let mut acode = compile_exprs(rt, args);
            let ghost a = emit_exprs(args@, base + f.heap.len(), args@.len());
            code.append(&mut acode);
            code.push(Opcode::CallFunction(args.len()));
            proof {
                lemma_extends_trans(*old(rt), m1, *rt);
                lemma_heap_added(*old(rt), m1, *rt, f.heap, a.heap);
                assert(code@ =~= f.code + a.code + seq![Opcode::CallFunction(args@.len() as usize)]);
                assert(f.heap + a.heap + Seq::<ConstVal>::empty() =~= f.heap + a.heap);
            }
            code
        },
        Expr::AttrExpr(e, ident) => {
            let mut code = compile_expr(rt, e);
            code.push(Opcode::LoadAttr(ident.clone()));
            proof {
                let f = emit_expr(**e, base);
                assert(code@ =~= f.code + seq![Opcode::LoadAttr(*ident)]);
                assert(f.heap + Seq::<ConstVal>::empty() =~= f.heap);
            }
            code
        },
        Expr::SubscrExpr(e1, e2) => {
            let mut code = compile_expr(rt, e1);
            let ghost m1 = *rt;
            let mut code2 = compile_expr(rt, e2);
            code.append(&mut code2);
            code.push(Opcode::BinarySubScr);
            proof {
                let a = emit_expr(**e1, base);
                let b = emit_expr(**e2, base + a.heap.len());
                lemma_extends_trans(*old(rt), m1, *rt);
                lemma_heap_added(*old(rt), m1, *rt, a.heap, b.heap);
                assert(a.heap + b.heap + Seq::<ConstVal>::empty() =~= a.heap + b.heap);
            }
            code
        },
        Expr::ListExpr(cl) => {
            let mut code = compile_exprs(rt, cl);
            code.push(Opcode::BuildList(cl.len()));
            proof {
                let f = emit_exprs(cl@, base, cl@.len());
                assert(code@ =~= f.code + seq![Opcode::BuildList(cl@.len() as usize)]);
                assert(f.heap + Seq::<ConstVal>::empty() =~= f.heap);
            }
            code
        },
        Expr::DictExpr(pl) => {
            let mut code = compile_pairs(rt, pl);
            code.push(Opcode::BuildMap(pl.len()));
            proof {
                let f = emit_pairs(pl@, base, pl@.len());
                assert(code@ =~= f.code + seq![Opcode::BuildMap(pl@.len() as usize)]);
                assert(f.heap + Seq::<ConstVal>::empty() =~= f.heap);
            }
            code
        },
    }
}

/// Compiles expressions one after the other.
fn compile_exprs(rt: &mut Runtime, es: &Vec<Expr>) -> (code: Code)
    requires
        old(rt).wf(),
    ensures
        final(rt).wf(),
        final(rt).extends(*old(rt)),
        code@ == emit_exprs(es@, old(rt).objects@.len() as int, es@.len()).code,
        heap_added(
            *old(rt),
            *final(rt),
            emit_exprs(es@, old(rt).objects@.len() as int, es@.len()).heap,
        ),
    decreases es,
{
    let ghost base = rt.objects@.len() as int;
    let mut code: Code = Vec::new();
    let mut i: usize = 0;
    proof {
        lemma_extends_refl(*rt);
    }
    while i < es.len()
        invariant
            i <= es@.len(),
            base == old(rt).objects@.len(),
            rt.wf(),
            rt.extends(*old(rt)),
            code@ == emit_exprs(es@, base, i as nat).code,
            heap_added(*old(rt), *rt, emit_exprs(es@, base, i as nat).heap),
        decreases es@.len() - i,
    {
        let ghost before = *rt;
        let ghost done = emit_exprs(es@, base, i as nat);
        let mut c = compile_expr(rt, &es[i]);
        code.append(&mut c);
        proof {
            lemma_extends_trans(*old(rt), before, *rt);
            lemma_heap_added(
                *old(rt),
                before,
                *rt,
                done.heap,
                emit_expr(es@[i as int], base + done.heap.len()).heap,
            );
        }
        i = i + 1;
    }
    code
}

/// Compiles pairs of a key and a value one after the other.
fn compile_pairs(rt: &mut Runtime, ps: &Vec<(Expr, Expr)>) -> (code: Code)
    requires
        old(rt).wf(),
    ensures
        final(rt).wf(),
        final(rt).extends(*old(rt)),
        code@ == emit_pairs(ps@, old(rt).objects@.len() as int, ps@.len()).code,
        heap_added(
            *old(rt),
            *final(rt),
            emit_pairs(ps@, old(rt).objects@.len() as int, ps@.len()).heap,
        ),
    decreases ps,
{
    let ghost base = rt.objects@.len() as int;
    let mut code: Code = Vec::new();
    let mut i: usize = 0;
    proof {
        lemma_extends_refl(*rt);
    }
    while i < ps.len()
        invariant
            i <= ps@.len(),
            base == old(rt).objects@.len(),
            rt.wf(),
            rt.extends(*old(rt)),
            code@ == emit_pairs(ps@, base, i as nat).code,
            heap_added(*old(rt), *rt, emit_pairs(ps@, base, i as nat).heap),
        decreases ps@.len() - i,
    {
        let ghost before = *rt;
        let ghost done = emit_pairs(ps@, base, i as nat);
        let mut c1 = compile_expr(rt, &ps[i].0);
        let ghost mid = *rt;
        let ghost k = emit_expr(ps@[i as int].0, base + done.heap.len());
        let mut c2 = compile_expr(rt, &ps[i].1);
        let ghost v = emit_expr(ps@[i as int].1, base + done.heap.len() + k.heap.len());
        code.append(&mut c1);
        code.append(&mut c2);
        proof {
            lemma_extends_trans(*old(rt), before, mid);
            lemma_extends_trans(*old(rt), mid, *rt);
            lemma_heap_added(*old(rt), before, mid, done.heap, k.heap);
            lemma_heap_added(*old(rt), mid, *rt, done.heap + k.heap, v.heap);
            assert(code@ =~= done.code + k.code + v.code);
        }
        i = i + 1;
    }
    code
}

/// The code that stores into the target `t`.
pub open spec fn emit_target(t: Target, base: int) -> Emitted {
    match t {
        Target::IdentTarget(id) => Emitted::ops(seq![Opcode::StoreName(id)]),
        Target::AttrTarget(obj, id) => emit_expr(*obj, base).and(
            Emitted::ops(seq![Opcode::StoreAttr(id)]),
        ),
        Target::SubscrTarget(e1, e2) => {
            let a = emit_expr(*e1, base);
            let b = emit_expr(*e2, base + a.heap.len());
            a.and(b).and(Emitted::ops(seq![Opcode::StoreSubScr]))
        },
    }
}

/// The address `a` fits the machine's word.
pub open spec fn fits(a: int) -> bool {
    0 <= a <= usize::MAX
}

/// The code of a simple statement that stands at the address `start`, in a
/// loop that goes on at `cont`, if it stands in one.
pub open spec fn emit_simple(s: SimpleStmt, start: int, cont: Option<Addr>, base: int) -> Result<
    Emitted,
    CompileError,
> {
    match s {
        SimpleStmt::ExprStmt(e) => Ok(emit_expr(e, base).and(Emitted::ops(seq![Opcode::PopTop]))),
        SimpleStmt::AssignStmt(t, e) => {
            let v = emit_expr(e, base);
            Ok(v.and(emit_target(t, base + v.heap.len())))
        },
        SimpleStmt::ReturnStmt(e) => Ok(
            emit_expr(e, base).and(Emitted::ops(seq![Opcode::ReturnValue])),
        ),
        SimpleStmt::BreakStmt => Ok(Emitted::ops(seq![Opcode::BreakLoop])),
        SimpleStmt::ContinueStmt => match cont {
            Some(c) => Ok(Emitted::ops(seq![Opcode::ContinueLoop(c)])),
            None => Err(CompileError::ContinueOutsideLoop),
        },
        SimpleStmt::AssertStmt(e) => {
            let v = emit_expr(e, base);
            let target = start + v.code.len() + 2;
            if fits(target) {
                Ok(v.and(Emitted::ops(seq![Opcode::PopJumpIfTrue(target as usize), Opcode::Panic])))
            } else {
                Err(CompileError::TooLarge)
            }
        },
    }
}

/// The code of a body: the code of its statements from the address 0 on,
/// outside of every loop, and behind it the return of the `None` object.
pub open spec fn emit_body(stmts: Seq<Stmt>, base: int) -> Result<Emitted, CompileError>
    decreases stmts, stmts.len() + 1,
{
    match emit_prog(stmts, 0, None, base, stmts.len()) {
        Ok(p) => Ok(
            p.and(Emitted::ops(seq![Opcode::LoadConst(PY_NONE_OBJECT), Opcode::ReturnValue])),
        ),
        Err(e) => Err(e),
    }
}

/// The code of a definition of a function or a class: the code object of
/// the body, with the parameter names `parms`, and the name `id` as a
/// string; the instructions load the two.
pub open spec fn emit_definition(body: Emitted, parms: Seq<Seq<char>>, id: Seq<char>, base: int) -> Emitted {
    Emitted {
        code: seq![
            Opcode::LoadConst((base + body.heap.len()) as usize),
            Opcode::LoadConst((base + body.heap.len() + 1) as usize),
        ],
        heap: body.heap + seq![ConstVal::Code(body.code, parms), ConstVal::Str(id)],
    }
}

/// The code of a compound statement that stands at the address `start`.
pub open spec fn emit_compound(c: CompoundStmt, start: int, cont: Option<Addr>, base: int) -> Result<
    Emitted,
    CompileError,
>
    decreases c, 0nat,
{
    match c {
        CompoundStmt::IfStmt(e, prog_then, prog_else) => {
            let v = emit_expr(e, base);
            let a1 = start + v.code.len() + 1;
            if !fits(a1) {
                Err(CompileError::TooLarge)
            } else {
                match emit_prog(prog_then@, a1, cont, base + v.heap.len(), prog_then@.len()) {
                    Err(e) => Err(e),
                    Ok(t) => {
                        let a2 = a1 + t.code.len() + 1;
                        if !fits(a2) {
                            Err(CompileError::TooLarge)
                        } else {
                            match emit_prog(
                                prog_else@,
                                a2,
                                cont,
                                base + v.heap.len() + t.heap.len(),
                                prog_else@.len(),
                            ) {
                                Err(e) => Err(e),
                                Ok(l) => {
                                    let a3 = a2 + l.code.len();
                                    if !fits(a3) {
                                        Err(CompileError::TooLarge)
                                    } else {
                                        Ok(
                                            v.and(
                                                Emitted::ops(
                                                    seq![Opcode::PopJumpIfFalse(a2 as usize)],
                                                ),
                                            ).and(t).and(
                                                Emitted::ops(
                                                    seq![Opcode::JumpAbsolute(a3 as usize)],
                                                ),
                                            ).and(l),
                                        )
                                    }
                                },
                            }
                        }
                    },
                }
            }
        },
        CompoundStmt::WhileStmt(e, prog) => {
            let v = emit_expr(e, base);
            let body_at = start + v.code.len() + 2;
            if !fits(body_at) {
                Err(CompileError::TooLarge)
            } else {
                match emit_prog(
                    prog@,
                    body_at,
                    Some((start + 1) as usize),
                    base + v.heap.len(),
                    prog@.len(),
                ) {
                    Err(e) => Err(e),
                    Ok(b) => {
                        let end = body_at + b.code.len() + 1;
                        if !fits(end + 1) {
                            Err(CompileError::TooLarge)
                        } else {
                            Ok(
                                Emitted::ops(
                                    seq![Opcode::SetupLoop((end - start + 1) as usize)],
                                ).and(v).and(
                                    Emitted::ops(seq![Opcode::PopJumpIfFalse(end as usize)]),
                                ).and(b).and(
                                    Emitted::ops(
                                        seq![
                                            Opcode::JumpAbsolute((start + 1) as usize),
                                            Opcode::PopBlock,
                                        ],
                                    ),
                                ),
                            )
                        }
                    },
                }
            }
        },
        CompoundStmt::ForStmt(target, e, prog) => {
            let v = emit_expr(e, base);
            let t = emit_target(target, base + v.heap.len());
            let for_iter = start + v.code.len() + 2;
            let body_at = for_iter + 1 + t.code.len();
            if !fits(body_at) {
                Err(CompileError::TooLarge)
            } else {
                match emit_prog(
                    prog@,
                    body_at,
                    Some(for_iter as usize),
                    base + v.heap.len() + t.heap.len(),
                    prog@.len(),
                ) {
                    Err(e) => Err(e),
                    Ok(b) => {
                        let end = body_at + b.code.len() + 1;
                        if !fits(end + 1) {
                            Err(CompileError::TooLarge)
                        } else {
                            Ok(
                                Emitted::ops(
                                    seq![Opcode::SetupLoop((end - start + 1) as usize)],
                                ).and(v).and(
                                    Emitted::ops(
                                        seq![Opcode::GetIter, Opcode::ForIter(end as usize)],
                                    ),
                                ).and(t).and(b).and(
                                    Emitted::ops(
                                        seq![
                                            Opcode::JumpAbsolute(for_iter as usize),
                                            Opcode::PopBlock,
                                        ],
                                    ),
                                ),
                            )
                        }
                    },
                }
            }
        },
        CompoundStmt::DefStmt(id, parms, prog) => match emit_body(prog@, base) {
            Err(e) => Err(e),
            Ok(b) => Ok(
                emit_definition(b, names_of(parms@), id@, base).and(
                    Emitted::ops(seq![Opcode::MakeFunction, Opcode::StoreName(id)]),
                ),
            ),
        },
        CompoundStmt::ClassStmt(id, bases, prog) => {
            let bs = emit_exprs(bases@, base, bases@.len());
            match emit_body(prog@, base + bs.heap.len()) {
                Err(e) => Err(e),
                Ok(b) => Ok(
                    bs.and(emit_definition(b, Seq::empty(), id@, base + bs.heap.len())).and(
                        Emitted::ops(
                            seq![
                                Opcode::MakeClass(bases@.len() as usize),
                                Opcode::StoreName(id),
                            ],
                        ),
                    ),
                ),
            }
        },
    }
}

/// The code of a statement that stands at the address `start`.
pub open spec fn emit_stmt(s: Stmt, start: int, cont: Option<Addr>, base: int) -> Result<
    Emitted,
    CompileError,
>
    decreases s, 0nat,
{
    match s {
        Stmt::StmtSimple(simple) => emit_simple(simple, start, cont, base),
        Stmt::StmtCompound(compound) => emit_compound(compound, start, cont, base),
    }
}

/// The code of the first `n` of the statements `stmts`, one after the
/// other, from the address `start` on.
pub open spec fn emit_prog(
    stmts: Seq<Stmt>,
    start: int,
    cont: Option<Addr>,
    base: int,
    n: nat,
) -> Result<Emitted, CompileError>
    decreases stmts, n,
{
    if n == 0 || n > stmts.len() {
        Ok(Emitted::empty())
    } else {
        match emit_prog(stmts, start, cont, base, (n - 1) as nat) {
            Err(e) => Err(e),
            Ok(before) => match emit_stmt(
                stmts[n - 1],
                start + before.code.len(),
                cont,
                base + before.heap.len(),
            ) {
                Err(e) => Err(e),
                Ok(s) => if fits(start + before.code.len() + s.code.len()) {
                    Ok(before.and(s))
                } else {
                    Err(CompileError::TooLarge)
                },
            },
        }
    }
}

/// What holds of the result `r` of a compilation that [`Emitted`] describes
/// as `em`, between the runtimes `prev` and `cur`: where there is code, `r`
/// is that code, and `cur` has its constants; where there is none, `r` is
/// the error.
pub open spec fn compiled(
    prev: Runtime,
    cur: Runtime,
    em: Result<Emitted, CompileError>,
    r: Result<Code, CompileError>,
) -> bool {
    match em {
        Ok(e) => r is Ok && r->Ok_0@ == e.code && heap_added(prev, cur, e.heap),
        Err(e) => r == Err::<Code, CompileError>(e),
    }
}

/// The sum of two addresses, if it fits the machine's word.
fn offset(a: usize, b: usize) -> (r: Result<usize, CompileError>)
    ensures
        if a + b <= usize::MAX {
            r == Ok::<usize, CompileError>((a + b) as usize)
        } else {
            r == Err::<usize, CompileError>(CompileError::TooLarge)
        },
{
    match a.checked_add(b) {
        Some(s) => Ok(s),
        None => Err(CompileError::TooLarge),
    }
}

/// Compiles an assignment target: the code takes the value to store off
/// the stack.
pub fn compile_target(rt: &mut Runtime, target: &Target) -> (code: Code)
    requires
        old(rt).wf(),
    ensures
        final(rt).wf(),
        final(rt).extends(*old(rt)),
        code@ == emit_target(*target, old(rt).objects@.len() as int).code,
        heap_added(*old(rt), *final(rt), emit_target(*target, old(rt).objects@.len() as int).heap),
{
    let ghost base = rt.objects@.len() as int;
    proof {
        lemma_extends_refl(*rt);
    }
    match target {
        Target::IdentTarget(id) => one(Opcode::StoreName(id.clone())),
        Target::AttrTarget(lexpr, id) => {
            let mut code = compile_expr(rt, lexpr);
            code.push(Opcode::StoreAttr(id.clone()));
            proof {
                let f = emit_expr(**lexpr, base);
                assert(code@ =~= f.code + seq![Opcode::StoreAttr(*id)]);
                assert(f.heap + Seq::<ConstVal>::empty() =~= f.heap);
            }
            code
        },
        Target::SubscrTarget(e1, e2) => {
            let mut code = compile_expr(rt, e1);
            let ghost m1 = *rt;
            let mut code2 = compile_expr(rt, e2);
            code.append(&mut code2);
            code.push(Opcode::StoreSubScr);
            proof {
                let a = emit_expr(**e1, base);
                let b = emit_expr(**e2, base + a.heap.len());
                lemma_extends_trans(*old(rt), m1, *rt);
                lemma_heap_added(*old(rt), m1, *rt, a.heap, b.heap);
                assert(a.heap + b.heap + Seq::<ConstVal>::empty() =~= a.heap + b.heap);
            }
            code
        },
    }
}

/// Compiles a simple statement that will stand at `addr_info.start`.
pub fn compile_simple_stmt(rt: &mut Runtime, stmt: &SimpleStmt, addr_info: AddrInfo) -> (r: Result<
    Code,
    CompileError,
>)
    requires
        old(rt).wf(),
    ensures
        final(rt).wf(),
        final(rt).extends(*old(rt)),
        compiled(
            *old(rt),
            *final(rt),
            emit_simple(
                *stmt,
                addr_info.start as int,
                addr_info.cont,
                old(rt).objects@.len() as int,
            ),
            r,
        ),
{
    let ghost base = rt.objects@.len() as int;
    proof {
        lemma_extends_refl(*rt);
    }
    match stmt {
        SimpleStmt::ExprStmt(expr) => {
            let mut code = compile_expr(rt, expr);
            code.push(Opcode::PopTop);
            proof {
                let f = emit_expr(*expr, base);
                assert(code@ =~= f.code + seq![Opcode::PopTop]);
                assert(f.heap + Seq::<ConstVal>::empty() =~= f.heap);
            }
            Ok(code)
        },
        SimpleStmt::AssignStmt(target, expr) => {
            let mut code = compile_expr(rt, expr);
            let ghost m1 = *rt;
            let mut tcode = compile_target(rt, target);
            code.append(&mut tcode);
            proof {
                let v = emit_expr(*expr, base);
                let t = emit_target(*target, base + v.heap.len());
                lemma_extends_trans(*old(rt), m1, *rt);
                lemma_heap_added(*old(rt), m1, *rt, v.heap, t.heap);
            }
            Ok(code)
        },
        SimpleStmt::ReturnStmt(expr) => {
            let mut code = compile_expr(rt, expr);
            code.push(Opcode::ReturnValue);
            proof {
                let f = emit_expr(*expr, base);
                assert(code@ =~= f.code + seq![Opcode::ReturnValue]);
                assert(f.heap + Seq::<ConstVal>::empty() =~= f.heap);
            }
            Ok(code)
        },
        SimpleStmt::BreakStmt => Ok(one(Opcode::BreakLoop)),
        SimpleStmt::ContinueStmt => match addr_info.cont {
            Some(cont) => Ok(one(Opcode::ContinueLoop(cont))),
            None => Err(CompileError::ContinueOutsideLoop),
        },
        SimpleStmt::AssertStmt(expr) => {
            let mut code = compile_expr(rt, expr);
            let a = match offset(addr_info.start, code.len()) {
                Ok(a) => a,
                Err(e) => {
                    return Err(e);
                },
            };
            let pop_jump_addr = match offset(a, 2) {
                Ok(a) => a,
                Err(e) => {
                    return Err(e);
                },
            };
            code.push(Opcode::PopJumpIfTrue(pop_jump_addr));
            code.push(Opcode::Panic);
            proof {
                let f = emit_expr(*expr, base);
                assert(code@ =~= f.code + seq![
                    Opcode::PopJumpIfTrue(pop_jump_addr),
                    Opcode::Panic,
                ]);
                assert(f.heap + Seq::<ConstVal>::empty() =~= f.heap);
            }
            Ok(code)
        },
    }
}

/// Compiles the body of a function or of a class into a new code object
/// with the parameter names `parms`, makes a string of the name `id`, and
/// returns the instructions that load the two.
fn compile_definition(rt: &mut Runtime, prog: &Program, parms: Vec<Id>, id: &Id) -> (r: Result<
    Code,
    CompileError,
>)
    requires
        old(rt).wf(),
    ensures
        final(rt).wf(),
        final(rt).extends(*old(rt)),
        compiled(
            *old(rt),
            *final(rt),
            match emit_body(prog@, old(rt).objects@.len() as int) {
                Ok(b) => Ok(
                    emit_definition(b, names_of(parms@), id@, old(rt).objects@.len() as int),
                ),
                Err(e) => Err(e),
            },
            r,
        ),
    decreases prog, 2nat,
{
    let ghost base = rt.objects@.len() as int;
    let body_code = match compile(rt, prog) {
        Ok(c) => c,
        Err(e) => {
            return Err(e);
        },
    };
    let ghost b = emit_body(prog@, base)->Ok_0;
    let ghost m1 = *rt;
    let ghost names = names_of(parms@);
    let codeobj = PyObject::pycode_new(rt, body_code, parms);
    let ghost m2 = *rt;
    let nameobj = PyObject::from_string(rt, id.clone());
    let mut code: Code = Vec::new();
    code.push(Opcode::LoadConst(codeobj));
    code.push(Opcode::LoadConst(nameobj));
    proof {
        lemma_extends_trans(*old(rt), m1, m2);
        lemma_extends_trans(*old(rt), m2, *rt);
        let h1 = seq![ConstVal::Code(b.code, names)];
        let h2 = seq![ConstVal::Str(id@)];
        assert(heap_added(m1, m2, h1));
        assert(heap_added(m2, *rt, h2));
        lemma_heap_added(*old(rt), m1, m2, b.heap, h1);
        lemma_heap_added(*old(rt), m2, *rt, b.heap + h1, h2);
        assert(b.heap + h1 + h2 =~= b.heap + seq![ConstVal::Code(b.code, names), ConstVal::Str(id@)]);
        assert(code@ =~= seq![
            Opcode::LoadConst((base + b.heap.len()) as usize),
            Opcode::LoadConst((base + b.heap.len() + 1) as usize),
        ]);
    }
    Ok(code)
}

/// Compiles an `if` statement: the condition, a jump over the first branch
/// where the condition is false, the first branch, a jump over the second
/// branch, and the second branch.
#[verifier::rlimit(60)]
fn compile_if(rt: &mut Runtime, stmt: &CompoundStmt, addr_info: AddrInfo) -> (r: Result<
    Code,
    CompileError,
>)
    requires
        old(rt).wf(),
        stmt is IfStmt,
    ensures
        final(rt).wf(),
        final(rt).extends(*old(rt)),
        compiled(
            *old(rt),
            *final(rt),
            emit_compound(
                *stmt,
                addr_info.start as int,
                addr_info.cont,
                old(rt).objects@.len() as int,
            ),
            r,
        ),
    decreases stmt, 0nat,
{
    let ghost base = rt.objects@.len() as int;
    let ghost start = addr_info.start as int;
    proof {
        lemma_extends_refl(*rt);
    }
    match stmt {
        CompoundStmt::IfStmt(expr, prog_then, prog_else) => {
            let mut expr_code = compile_expr(rt, expr);
            let ghost v = emit_expr(*expr, base);
            let ghost m1 = *rt;
            let a = match offset(addr_info.start, expr_code.len()) {
                Ok(a) => a,
                Err(e) => {
                    return Err(e);
                },
            };
            let a1 = match offset(a, 1) {
                Ok(a) => a,
                Err(e) => {
                    return Err(e);
                },
            };
            let mut then_code = match compile_program(rt, prog_then, addr_info.change_start(a1)) {
                Ok(c) => c,
                Err(e) => {
                    return Err(e);
                },
            };
            let ghost t = emit_prog(
                prog_then@,
                a1 as int,
                addr_info.cont,
                base + v.heap.len(),
                prog_then@.len(),
            )->Ok_0;
            let ghost m2 = *rt;
            let a = match offset(a1, then_code.len()) {
                Ok(a) => a,
                Err(e) => {
                    return Err(e);
                },
            };
            let a2 = match offset(a, 1) {
                Ok(a) => a,
                Err(e) => {
                    return Err(e);
                },
            };
            let mut else_code = match compile_program(rt, prog_else, addr_info.change_start(a2)) {
                Ok(c) => c,
                Err(e) => {
                    return Err(e);
                },
            };
            let ghost l = emit_prog(
                prog_else@,
                a2 as int,
                addr_info.cont,
                base + v.heap.len() + t.heap.len(),
                prog_else@.len(),
            )->Ok_0;
            let a3 = match offset(a2, else_code.len()) {
                Ok(a) => a,
                Err(e) => {
                    return Err(e);
                },
            };
            let mut code: Code = Vec::new();
            code.append(&mut expr_code);
            code.push(Opcode::PopJumpIfFalse(a2));
            code.append(&mut then_code);
            code.push(Opcode::JumpAbsolute(a3));
            code.append(&mut else_code);
            proof {
                lemma_extends_trans(*old(rt), m1, m2);
                lemma_extends_trans(*old(rt), m2, *rt);
                lemma_heap_added(*old(rt), m1, m2, v.heap, t.heap);
                lemma_heap_added(*old(rt), m2, *rt, v.heap + t.heap, l.heap);
                let e0 = Seq::<ConstVal>::empty();
                assert(v.heap + e0 + t.heap + e0 + l.heap =~= v.heap + t.heap + l.heap);
                assert(code@ =~= v.code + seq![Opcode::PopJumpIfFalse(a2)] + t.code + seq![
                    Opcode::JumpAbsolute(a3),
                ] + l.code);
            }
            Ok(code)
        },
        _ => vstd::pervasive::unreached(),
    }
}

/// Compiles a `while` statement: a loop block round the condition, a jump
/// out of the loop where the condition is false, the body, and a jump back
/// to the condition.
#[verifier::rlimit(60)]
fn compile_while(rt: &mut Runtime, stmt: &CompoundStmt, addr_info: AddrInfo) -> (r: Result<
    Code,
    CompileError,
>)
    requires
        old(rt).wf(),
        stmt is WhileStmt,
    ensures
        final(rt).wf(),
        final(rt).extends(*old(rt)),
        compiled(
            *old(rt),
            *final(rt),
            emit_compound(
                *stmt,
                addr_info.start as int,
                addr_info.cont,
                old(rt).objects@.len() as int,
            ),
            r,
        ),
    decreases stmt, 0nat,
{
    let ghost base = rt.objects@.len() as int;
    let ghost start = addr_info.start as int;
    proof {
        lemma_extends_refl(*rt);
    }
    match stmt {
        CompoundStmt::WhileStmt(expr, prog) => {
            let mut expr_code = compile_expr(rt, expr);
            let ghost v = emit_expr(*expr, base);
            let ghost m1 = *rt;
            let a = match offset(addr_info.start, expr_code.len()) {
                Ok(a) => a,
                Err(e) => {
                    return Err(e);
                },
            };
            let body_at = match offset(a, 2) {
                Ok(a) => a,
                Err(e) => {
                    return Err(e);
                },
            };
            let body_addr_info = AddrInfo { start: body_at, cont: Some(addr_info.start + 1) };
            let mut body_code = match compile_program(rt, prog, body_addr_info) {
                Ok(c) => c,
                Err(e) => {
                    return Err(e);
                },
            };
            let ghost b = emit_prog(
                prog@,
                body_at as int,
                Some((start + 1) as usize),
                base + v.heap.len(),
                prog@.len(),
            )->Ok_0;
            let a = match offset(body_at, body_code.len()) {
                Ok(a) => a,
                Err(e) => {
                    return Err(e);
                },
            };
            let end = match offset(a, 1) {
                Ok(a) => a,
                Err(e) => {
                    return Err(e);
                },
            };
            let after = match offset(end, 1) {
                Ok(a) => a,
                Err(e) => {
                    return Err(e);
                },
            };
            let mut code: Code = Vec::new();
            code.push(Opcode::SetupLoop(after - addr_info.start));
            code.append(&mut expr_code);
            code.push(Opcode::PopJumpIfFalse(end));
            code.append(&mut body_code);
            code.push(Opcode::JumpAbsolute(addr_info.start + 1));
            code.push(Opcode::PopBlock);
            proof {
                lemma_extends_trans(*old(rt), m1, *rt);
                lemma_heap_added(*old(rt), m1, *rt, v.heap, b.heap);
                let e0 = Seq::<ConstVal>::empty();
                assert(e0 + v.heap + e0 + b.heap + e0 =~= v.heap + b.heap);
                assert(code@ =~= seq![Opcode::SetupLoop((end - start + 1) as usize)] + v.code
                    + seq![Opcode::PopJumpIfFalse(end)] + b.code + seq![
                    Opcode::JumpAbsolute((start + 1) as usize),
                    Opcode::PopBlock,
                ]);
            }
            Ok(code)
        },
        _ => vstd::pervasive::unreached(),
    }
}

/// Compiles a `for` statement: a loop block round the iterator over the
/// value of the expression, the step of the iterator, which leaves the loop
/// at the end of the iteration, the store into the target, the body, and a
/// jump back to the step.
#[verifier::rlimit(60)]
fn compile_for(rt: &mut Runtime, stmt: &CompoundStmt, addr_info: AddrInfo) -> (r: Result<
    Code,
    CompileError,
>)
    requires
        old(rt).wf(),
        stmt is ForStmt,
    ensures
        final(rt).wf(),
        final(rt).extends(*old(rt)),
        compiled(
            *old(rt),
            *final(rt),
            emit_compound(
                *stmt,
                addr_info.start as int,
                addr_info.cont,
                old(rt).objects@.len() as int,
            ),
            r,
        ),
    decreases stmt, 0nat,
{
    let ghost base = rt.objects@.len() as int;
    let ghost start = addr_info.start as int;
    proof {
        lemma_extends_refl(*rt);
    }
    match stmt {
        CompoundStmt::ForStmt(target, expr, prog) => {
            let mut expr_code = compile_expr(rt, expr);
            let ghost v = emit_expr(*expr, base);
            let ghost m1 = *rt;
            let mut target_code = compile_target(rt, target);
            let ghost t = emit_target(*target, base + v.heap.len());
            let ghost m2 = *rt;
            let a = match offset(addr_info.start, expr_code.len()) {
                Ok(a) => a,
                Err(e) => {
                    return Err(e);
                },
            };
            let for_iter_addr = match offset(a, 2) {
                Ok(a) => a,
                Err(e) => {
                    return Err(e);
                },
            };
            let a = match offset(for_iter_addr, 1) {
                Ok(a) => a,
                Err(e) => {
                    return Err(e);
                },
            };
            let body_at = match offset(a, target_code.len()) {
                Ok(a) => a,
                Err(e) => {
                    return Err(e);
                },
            };
            let body_addr_info = AddrInfo { start: body_at, cont: Some(for_iter_addr) };
            let mut body_code = match compile_program(rt, prog, body_addr_info) {
                Ok(c) => c,
                Err(e) => {
                    return Err(e);
                },
            };
            let ghost b = emit_prog(
                prog@,
                body_at as int,
                Some(for_iter_addr),
                base + v.heap.len() + t.heap.len(),
                prog@.len(),
            )->Ok_0;
            let a = match offset(body_at, body_code.len()) {
                Ok(a) => a,
                Err(e) => {
                    return Err(e);
                },
            };
            let end = match offset(a, 1) {
                Ok(a) => a,
                Err(e) => {
                    return Err(e);
                },
            };
            let after = match offset(end, 1) {
                Ok(a) => a,
                Err(e) => {
                    return Err(e);
                },
            };
            let mut code: Code = Vec::new();
            code.push(Opcode::SetupLoop(after - addr_info.start));
            code.append(&mut expr_code);
            code.push(Opcode::GetIter);
            code.push(Opcode::ForIter(end));
            code.append(&mut target_code);
            code.append(&mut body_code);
            code.push(Opcode::JumpAbsolute(for_iter_addr));
            code.push(Opcode::PopBlock);
            proof {
                lemma_extends_trans(*old(rt), m1, m2);
                lemma_extends_trans(*old(rt), m2, *rt);
                lemma_heap_added(*old(rt), m1, m2, v.heap, t.heap);
                lemma_heap_added(*old(rt), m2, *rt, v.heap + t.heap, b.heap);
                let e0 = Seq::<ConstVal>::empty();
                assert(e0 + v.heap + e0 + t.heap + b.heap + e0 =~= v.heap + t.heap + b.heap);
                assert(code@ =~= seq![Opcode::SetupLoop((end - start + 1) as usize)] + v.code
                    + seq![Opcode::GetIter, Opcode::ForIter(end)] + t.code + b.code + seq![
                    Opcode::JumpAbsolute(for_iter_addr),
                    Opcode::PopBlock,
                ]);
            }
            Ok(code)
        },
        _ => vstd::pervasive::unreached(),
    }
}

/// Compiles a function definition: the code object of the body and the
/// name are loaded, the function is made and bound to its name.
#[verifier::rlimit(60)]
fn compile_def(rt: &mut Runtime, stmt: &CompoundStmt, addr_info: AddrInfo) -> (r: Result<
    Code,
    CompileError,
>)
    requires
        old(rt).wf(),
        stmt is DefStmt,
    ensures
        final(rt).wf(),
        final(rt).extends(*old(rt)),
        compiled(
            *old(rt),
            *final(rt),
            emit_compound(
                *stmt,
                addr_info.start as int,
                addr_info.cont,
                old(rt).objects@.len() as int,
            ),
            r,
        ),
    decreases stmt, 0nat,
{
    let ghost base = rt.objects@.len() as int;
    let ghost start = addr_info.start as int;
    proof {
        lemma_extends_refl(*rt);
    }
    match stmt {
        CompoundStmt::DefStmt(id, parms, prog) => {
            let mut code = match compile_definition(
                rt,
                prog,
                crate::object::codeobj::clone_names(parms),
                id,
            ) {
                Ok(c) => c,
                Err(e) => {
                    return Err(e);
                },
            };
            code.push(Opcode::MakeFunction);
            code.push(Opcode::StoreName(id.clone()));
            proof {
                let b = emit_body(prog@, base)->Ok_0;
                let d = emit_definition(b, names_of(parms@), id@, base);
                assert(code@ =~= d.code + seq![Opcode::MakeFunction, Opcode::StoreName(*id)]);
                assert(d.heap + Seq::<ConstVal>::empty() =~= d.heap);
            }
            Ok(code)
        },
        _ => vstd::pervasive::unreached(),
    }
}

/// Compiles a class definition: the bases, the code object of the body and
/// the name are loaded, the class is made and bound to its name.
#[verifier::rlimit(60)]
fn compile_class(rt: &mut Runtime, stmt: &CompoundStmt, addr_info: AddrInfo) -> (r: Result<
    Code,
    CompileError,
>)
    requires
        old(rt).wf(),
        stmt is ClassStmt,
    ensures
        final(rt).wf(),
        final(rt).extends(*old(rt)),
        compiled(
            *old(rt),
            *final(rt),
            emit_compound(
                *stmt,
                addr_info.start as int,
                addr_info.cont,
                old(rt).objects@.len() as int,
            ),
            r,
        ),
    decreases stmt, 0nat,
{
    let ghost base = rt.objects@.len() as int;
    let ghost start = addr_info.start as int;
    proof {
        lemma_extends_refl(*rt);
    }
    match stmt {
        CompoundStmt::ClassStmt(id, bases, prog) => {
            let mut code = compile_exprs(rt, bases);
            let ghost bs = emit_exprs(bases@, base, bases@.len());
            let ghost m1 = *rt;
            let mut dcode = match compile_definition(rt, prog, Vec::new(), id) {
                Ok(c) => c,
                Err(e) => {
                    return Err(e);
                },
            };
            code.append(&mut dcode);
            code.push(Opcode::MakeClass(bases.len()));
            code.push(Opcode::StoreName(id.clone()));
            proof {
                let b = emit_body(prog@, base + bs.heap.len())->Ok_0;
                let no_names = names_of(Seq::<Id>::empty());
                assert(no_names =~= Seq::<Seq<char>>::empty());
                let d = emit_definition(b, Seq::empty(), id@, base + bs.heap.len());
                lemma_extends_trans(*old(rt), m1, *rt);
                lemma_heap_added(*old(rt), m1, *rt, bs.heap, d.heap);
                assert(code@ =~= bs.code + d.code + seq![
                    Opcode::MakeClass(bases@.len() as usize),
                    Opcode::StoreName(*id),
                ]);
                assert(bs.heap + d.heap + Seq::<ConstVal>::empty() =~= bs.heap + d.heap);
            }
            Ok(code)
        },
        _ => vstd::pervasive::unreached(),
    }
}

/// Compiles a compound statement that will stand at `addr_info.start`.
pub fn compile_compound_stmt(rt: &mut Runtime, stmt: &CompoundStmt, addr_info: AddrInfo) -> (r:
    Result<Code, CompileError>)
    requires
        old(rt).wf(),
    ensures
        final(rt).wf(),
        final(rt).extends(*old(rt)),
        compiled(
            *old(rt),
            *final(rt),
            emit_compound(
                *stmt,
                addr_info.start as int,
                addr_info.cont,
                old(rt).objects@.len() as int,
            ),
            r,
        ),
    decreases stmt, 1nat,
{
    match stmt {
        CompoundStmt::IfStmt(_, _, _) => compile_if(rt, stmt, addr_info),
        CompoundStmt::WhileStmt(_, _) => compile_while(rt, stmt, addr_info),
        CompoundStmt::ForStmt(_, _, _) => compile_for(rt, stmt, addr_info),
        CompoundStmt::DefStmt(_, _, _) => compile_def(rt, stmt, addr_info),
        CompoundStmt::ClassStmt(_, _, _) => compile_class(rt, stmt, addr_info),
    }
}

/// Compiles a statement that will stand at `addr_info.start`.
pub fn compile_stmt(rt: &mut Runtime, stmt: &Stmt, addr_info: AddrInfo) -> (r: Result<
    Code,
    CompileError,
>)
    requires
        old(rt).wf(),
    ensures
        final(rt).wf(),
        final(rt).extends(*old(rt)),
        compiled(
            *old(rt),
            *final(rt),
            emit_stmt(
                *stmt,
                addr_info.start as int,
                addr_info.cont,
                old(rt).objects@.len() as int,
            ),
            r,
        ),
    decreases stmt, 2nat,
{
    match stmt {
        Stmt::StmtSimple(simple_stmt) => compile_simple_stmt(rt, simple_stmt, addr_info),
        Stmt::StmtCompound(compound_stmt) => compile_compound_stmt(rt, compound_stmt, addr_info),
    }
}

/// Compiles statements one after the other, from `addr_info.start` on.
pub fn compile_program(rt: &mut Runtime, prog: &Program, addr_info: AddrInfo) -> (r: Result<
    Code,
    CompileError,
>)
    requires
        old(rt).wf(),
    ensures
        final(rt).wf(),
        final(rt).extends(*old(rt)),
        compiled(
            *old(rt),
            *final(rt),
            emit_prog(
                prog@,
                addr_info.start as int,
                addr_info.cont,
                old(rt).objects@.len() as int,
                prog@.len(),
            ),
            r,
        ),
    decreases prog, 0nat,
{
    let ghost base = rt.objects@.len() as int;
    let ghost start = addr_info.start as int;
    let mut code: Code = Vec::new();
    let mut addr = addr_info.start;
    let mut i: usize = 0;
    proof {
        lemma_extends_refl(*rt);
    }
    while i < prog.len()
        invariant
            i <= prog@.len(),
            base == old(rt).objects@.len(),
            start == addr_info.start,
            rt.wf(),
            rt.extends(*old(rt)),
            emit_prog(prog@, start, addr_info.cont, base, i as nat) is Ok,
            code@ == emit_prog(prog@, start, addr_info.cont, base, i as nat)->Ok_0.code,
            heap_added(
                *old(rt),
                *rt,
                emit_prog(prog@, start, addr_info.cont, base, i as nat)->Ok_0.heap,
            ),
            addr == start + code@.len(),
        decreases prog@.len() - i,
    {
        let ghost before = *rt;
        let ghost done = emit_prog(prog@, start, addr_info.cont, base, i as nat)->Ok_0;
        let new_addr_info = addr_info.change_start(addr);
        let res = compile_stmt(rt, &prog[i], new_addr_info);
        proof {
            lemma_extends_trans(*old(rt), before, *rt);
            lemma_emit_prog_err(prog@, start, addr_info.cont, base, (i + 1) as nat, prog@.len());
        }
        let mut stmt_code = match res {
            Ok(c) => c,
            Err(e) => {
                return Err(e);
            },
        };
        let ghost s = emit_stmt(
            prog@[i as int],
            start + done.code.len(),
            addr_info.cont,
            base + done.heap.len(),
        )->Ok_0;
        addr = match offset(addr, stmt_code.len()) {
            Ok(a) => a,
            Err(e) => {
                return Err(e);
            },
        };
        code.append(&mut stmt_code);
        proof {
            lemma_heap_added(*old(rt), before, *rt, done.heap, s.heap);
        }
        i = i + 1;
    }
    Ok(code)
}

/// Where the first `n` statements have no code, for the error `e`, the
/// first `m` have none either, for the same error, for every `m` from `n`
/// on.
pub proof fn lemma_emit_prog_err(
    stmts: Seq<Stmt>,
    start: int,
    cont: Option<Addr>,
    base: int,
    n: nat,
    m: nat,
)
    requires
        n <= m <= stmts.len(),
    ensures
        emit_prog(stmts, start, cont, base, n) is Err ==> emit_prog(stmts, start, cont, base, m)
            == emit_prog(stmts, start, cont, base, n),
    decreases m,
{
    if n < m {
        lemma_emit_prog_err(stmts, start, cont, base, n, (m - 1) as nat);
    }
}

/// Compiles a program, or the body of a function or of a class, into a code
/// vector of its own, which ends with the return of the `None` object. The
/// constants of the code are put into the arena of `rt`.
pub fn compile(rt: &mut Runtime, prog: &Program) -> (r: Result<Code, CompileError>)
    requires
        old(rt).wf(),
    ensures
        final(rt).wf(),
        final(rt).extends(*old(rt)),
        compiled(*old(rt), *final(rt), emit_body(prog@, old(rt).objects@.len() as int), r),
    decreases prog, 1nat,
{
    let ghost base = rt.objects@.len() as int;
    let mut code = match compile_program(rt, prog, AddrInfo::new()) {
        Ok(c) => c,
        Err(e) => {
            return Err(e);
        },
    };
    code.push(Opcode::LoadConst(PyObject::none_obj()));
    code.push(Opcode::ReturnValue);
    proof {
        let p = emit_prog(prog@, 0, None, base, prog@.len())->Ok_0;
        assert(code@ =~= p.code + seq![
            Opcode::LoadConst(PY_NONE_OBJECT),
            Opcode::ReturnValue,
        ]);
        assert(p.heap + Seq::<ConstVal>::empty() =~= p.heap);
    }
    Ok(code)
}

} // verus!
