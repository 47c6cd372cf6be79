use vstd::prelude::*;
use vstd::string::StringExecFns;

verus! {

broadcast use {
    vstd::std_specs::vec::axiom_vec_index_decreases,
    vstd::std_specs::vec::axiom_vec_decreases_to_view,
};

/// An identifier.
pub type Id = String;

/// A sequence of statements.
pub type Program = Vec<Stmt>;

#[derive(Debug, PartialEq, Eq)]
pub enum Expr {
    VarExpr(Id),
    IntExpr(i32),
    BoolExpr(bool),
    StrExpr(String),
    NoneExpr,
    AddExpr(Box<Expr>, Box<Expr>),
    LtExpr(Box<Expr>, Box<Expr>),
    EqEqExpr(Box<Expr>, Box<Expr>),
    CallExpr(Box<Expr>, Vec<Expr>),
    AttrExpr(Box<Expr>, Id),
    SubscrExpr(Box<Expr>, Box<Expr>),
    ListExpr(Vec<Expr>),
    DictExpr(Vec<(Expr, Expr)>),
}

impl Expr {
    /// The name of the variant of the expression.
    pub open spec fn spec_variant_name(self) -> Seq<char> {
        match self {
            Expr::VarExpr(_) => "VarExpr"@,
            Expr::IntExpr(_) => "IntExpr"@,
            Expr::BoolExpr(_) => "BoolExpr"@,
            Expr::StrExpr(_) => "StrExpr"@,
            Expr::NoneExpr => "NoneExpr"@,
            Expr::AddExpr(_, _) => "AddExpr"@,
            Expr::LtExpr(_, _) => "LtExpr"@,
            Expr::EqEqExpr(_, _) => "EqEqExpr"@,
            Expr::CallExpr(_, _) => "CallExpr"@,
            Expr::AttrExpr(_, _) => "AttrExpr"@,
            Expr::SubscrExpr(_, _) => "SubscrExpr"@,
            Expr::ListExpr(_) => "ListExpr"@,
            Expr::DictExpr(_) => "DictExpr"@,
        }
    }

    /// The name of the variant of the expression, as a string.
    pub fn to_string(&self) -> (s: String)
        ensures
            s@ == self.spec_variant_name(),
    {
        let name = match self {
            Expr::VarExpr(_) => "VarExpr",
            Expr::IntExpr(_) => "IntExpr",
            Expr::BoolExpr(_) => "BoolExpr",
            Expr::StrExpr(_) => "StrExpr",
            Expr::NoneExpr => "NoneExpr",
            Expr::AddExpr(_, _) => "AddExpr",
            Expr::LtExpr(_, _) => "LtExpr",
            Expr::EqEqExpr(_, _) => "EqEqExpr",
            Expr::CallExpr(_, _) => "CallExpr",
            Expr::AttrExpr(_, _) => "AttrExpr",
            Expr::SubscrExpr(_, _) => "SubscrExpr",
            Expr::ListExpr(_) => "ListExpr",
            Expr::DictExpr(_) => "DictExpr",
        };
        String::from_str(name)
    }
}

#[derive(Debug, PartialEq, Eq)]
pub enum Target {
    IdentTarget(Id),
    AttrTarget(Box<Expr>, Id),
    SubscrTarget(Box<Expr>, Box<Expr>),
}

#[derive(Debug, PartialEq, Eq)]
pub enum SimpleStmt {
    ExprStmt(Expr),
    AssignStmt(Target, Expr),
    BreakStmt,
    ContinueStmt,
    ReturnStmt(Expr),
    AssertStmt(Expr),
}

#[derive(Debug, PartialEq, Eq)]
pub enum CompoundStmt {
    IfStmt(Expr, Program, Program),
    WhileStmt(Expr, Program),
    ForStmt(Target, Expr, Program),
    DefStmt(Id, Vec<Id>, Program),
    ClassStmt(Id, Vec<Expr>, Program),
}

#[derive(Debug, PartialEq, Eq)]
pub enum Stmt {
    StmtSimple(SimpleStmt),
    StmtCompound(CompoundStmt),
}

/// An expression as plain values.
pub enum ExprV {
    Var(Seq<char>),
    Int(i32),
    Bool(bool),
    Str(Seq<char>),
    NoneV,
    Add(Box<ExprV>, Box<ExprV>),
    Lt(Box<ExprV>, Box<ExprV>),
    EqEq(Box<ExprV>, Box<ExprV>),
    Call(Box<ExprV>, Seq<ExprV>),
    Attr(Box<ExprV>, Seq<char>),
    Subscr(Box<ExprV>, Box<ExprV>),
    List(Seq<ExprV>),
    Dict(Seq<(ExprV, ExprV)>),
}

/// An assignment target as plain values.
pub enum TargetV {
    Ident(Seq<char>),
    Attr(ExprV, Seq<char>),
    Subscr(ExprV, ExprV),
}

/// A simple statement as plain values.
pub enum SimpleV {
    Expr(ExprV),
    Assign(TargetV, ExprV),
    Break,
    Continue,
    Return(ExprV),
    Assert(ExprV),
}

/// A compound statement as plain values.
pub enum CompoundV {
    If(ExprV, Seq<StmtV>, Seq<StmtV>),
    While(ExprV, Seq<StmtV>),
    For(TargetV, ExprV, Seq<StmtV>),
    Def(Seq<char>, Seq<Seq<char>>, Seq<StmtV>),
    Class(Seq<char>, Seq<ExprV>, Seq<StmtV>),
}

/// A statement as plain values.
pub enum StmtV {
    Simple(SimpleV),
    Compound(CompoundV),
}

/// The expression `e` as plain values.
pub open spec fn expr_view(e: Expr) -> ExprV
    decreases e, 0nat,
{
    match e {
        Expr::VarExpr(id) => ExprV::Var(id@),
        Expr::IntExpr(i) => ExprV::Int(i),
        Expr::BoolExpr(b) => ExprV::Bool(b),
        Expr::StrExpr(s) => ExprV::Str(s@),
        Expr::NoneExpr => ExprV::NoneV,
        Expr::AddExpr(a, b) => ExprV::Add(Box::new(expr_view(*a)), Box::new(expr_view(*b))),
        Expr::LtExpr(a, b) => ExprV::Lt(Box::new(expr_view(*a)), Box::new(expr_view(*b))),
        Expr::EqEqExpr(a, b) => ExprV::EqEq(Box::new(expr_view(*a)), Box::new(expr_view(*b))),
        Expr::CallExpr(f, args) => ExprV::Call(
            Box::new(expr_view(*f)),
            exprs_view(args@, args@.len()),
        ),
        Expr::AttrExpr(o, id) => ExprV::Attr(Box::new(expr_view(*o)), id@),
        Expr::SubscrExpr(a, b) => ExprV::Subscr(Box::new(expr_view(*a)), Box::new(expr_view(*b))),
        Expr::ListExpr(items) => ExprV::List(exprs_view(items@, items@.len())),
        Expr::DictExpr(pairs) => ExprV::Dict(pairs_view(pairs@, pairs@.len())),
    }
}

/// The first `n` of the expressions `es` as plain values.
pub open spec fn exprs_view(es: Seq<Expr>, n: nat) -> Seq<ExprV>
    decreases es, n,
{
    if n == 0 || n > es.len() {
        Seq::empty()
    } else {
        exprs_view(es, (n - 1) as nat).push(expr_view(es[n - 1]))
    }
}

/// The first `n` of the pairs `ps` as plain values.
pub open spec fn pairs_view(ps: Seq<(Expr, Expr)>, n: nat) -> Seq<(ExprV, ExprV)>
    decreases ps, n,
{
    if n == 0 || n > ps.len() {
        Seq::empty()
    } else {
        pairs_view(ps, (n - 1) as nat).push((expr_view(ps[n - 1].0), expr_view(ps[n - 1].1)))
    }
}

/// The target `t` as plain values.
pub open spec fn target_view(t: Target) -> TargetV {
    match t {
        Target::IdentTarget(id) => TargetV::Ident(id@),
        Target::AttrTarget(o, id) => TargetV::Attr(expr_view(*o), id@),
        Target::SubscrTarget(a, b) => TargetV::Subscr(expr_view(*a), expr_view(*b)),
    }
}

/// The simple statement `s` as plain values.
pub open spec fn simple_view(s: SimpleStmt) -> SimpleV {
    match s {
        SimpleStmt::ExprStmt(e) => SimpleV::Expr(expr_view(e)),
        SimpleStmt::AssignStmt(t, e) => SimpleV::Assign(target_view(t), expr_view(e)),
        SimpleStmt::BreakStmt => SimpleV::Break,
        SimpleStmt::ContinueStmt => SimpleV::Continue,
        SimpleStmt::ReturnStmt(e) => SimpleV::Return(expr_view(e)),
        SimpleStmt::AssertStmt(e) => SimpleV::Assert(expr_view(e)),
    }
}

/// The texts of the names `names`.
pub open spec fn ids_view(names: Seq<Id>) -> Seq<Seq<char>> {
    Seq::new(names.len(), |j: int| names[j]@)
}

/// The compound statement `c` as plain values.
pub open spec fn compound_view(c: CompoundStmt) -> CompoundV
    decreases c, 0nat,
{
    match c {
        CompoundStmt::IfStmt(e, a, b) => CompoundV::If(
            expr_view(e),
            stmts_view(a@, a@.len()),
            stmts_view(b@, b@.len()),
        ),
        CompoundStmt::WhileStmt(e, body) => CompoundV::While(
            expr_view(e),
            stmts_view(body@, body@.len()),
        ),
        CompoundStmt::ForStmt(t, e, body) => CompoundV::For(
            target_view(t),
            expr_view(e),
            stmts_view(body@, body@.len()),
        ),
        CompoundStmt::DefStmt(id, parms, body) => CompoundV::Def(
            id@,
            ids_view(parms@),
            stmts_view(body@, body@.len()),
        ),
        CompoundStmt::ClassStmt(id, bases, body) => CompoundV::Class(
            id@,
            exprs_view(bases@, bases@.len()),
            stmts_view(body@, body@.len()),
        ),
    }
}

/// The statement `s` as plain values.
pub open spec fn stmt_view(s: Stmt) -> StmtV
    decreases s, 0nat,
{
    match s {
        Stmt::StmtSimple(simple) => StmtV::Simple(simple_view(simple)),
        Stmt::StmtCompound(compound) => StmtV::Compound(compound_view(compound)),
    }
}

/// The first `n` of the statements `ss` as plain values.
pub open spec fn stmts_view(ss: Seq<Stmt>, n: nat) -> Seq<StmtV>
    decreases ss, n,
{
    if n == 0 || n > ss.len() {
        Seq::empty()
    } else {
        stmts_view(ss, (n - 1) as nat).push(stmt_view(ss[n - 1]))
    }
}

/// The program `p` as plain values.
pub open spec fn program_view(p: Program) -> Seq<StmtV> {
    stmts_view(p@, p@.len())
}

/// The plain values of the first expressions of a sequence do not depend on
/// the expressions behind them.
pub proof fn lemma_exprs_view_prefix(a: Seq<Expr>, b: Seq<Expr>, n: nat)
    requires
        n <= a.len(),
        n <= b.len(),
        forall|i: int| 0 <= i < n ==> a[i] == b[i],
    ensures
        exprs_view(a, n) == exprs_view(b, n),
    decreases n,
{
    if n > 0 {
        lemma_exprs_view_prefix(a, b, (n - 1) as nat);
    }
}

/// The plain values of a sequence with an expression behind it are the
/// plain values of the sequence with those of the expression behind them.
pub proof fn lemma_exprs_view_push(es: Seq<Expr>, e: Expr)
    ensures
        exprs_view(es.push(e), es.len() + 1) == exprs_view(es, es.len()).push(expr_view(e)),
{
    lemma_exprs_view_prefix(es.push(e), es, es.len());
}

pub proof fn lemma_pairs_view_prefix(a: Seq<(Expr, Expr)>, b: Seq<(Expr, Expr)>, n: nat)
    requires
        n <= a.len(),
        n <= b.len(),
        forall|i: int| 0 <= i < n ==> a[i] == b[i],
    ensures
        pairs_view(a, n) == pairs_view(b, n),
    decreases n,
{
    if n > 0 {
        lemma_pairs_view_prefix(a, b, (n - 1) as nat);
    }
}

pub proof fn lemma_pairs_view_push(ps: Seq<(Expr, Expr)>, p: (Expr, Expr))
    ensures
        pairs_view(ps.push(p), ps.len() + 1) == pairs_view(ps, ps.len()).push(
            (expr_view(p.0), expr_view(p.1)),
        ),
{
    lemma_pairs_view_prefix(ps.push(p), ps, ps.len());
}

pub proof fn lemma_stmts_view_prefix(a: Seq<Stmt>, b: Seq<Stmt>, n: nat)
    requires
        n <= a.len(),
        n <= b.len(),
        forall|i: int| 0 <= i < n ==> a[i] == b[i],
    ensures
        stmts_view(a, n) == stmts_view(b, n),
    decreases n,
{
    if n > 0 {
        lemma_stmts_view_prefix(a, b, (n - 1) as nat);
    }
}

pub proof fn lemma_stmts_view_push(ss: Seq<Stmt>, s: Stmt)
    ensures
        stmts_view(ss.push(s), ss.len() + 1) == stmts_view(ss, ss.len()).push(stmt_view(s)),
{
    lemma_stmts_view_prefix(ss.push(s), ss, ss.len());
}

} // verus!
