use vstd::prelude::*;
use vstd::string::StringExecFns;
use crate::lexer::push_decimal;
use crate::syntax::{
    compound_view, expr_view, exprs_view, ids_view, lemma_exprs_view_push, lemma_pairs_view_push,
    lemma_stmts_view_push, pairs_view, program_view, simple_view, stmt_view, stmts_view,
    target_view, CompoundStmt, CompoundV, Expr, ExprV, Id, Program, SimpleStmt, SimpleV, Stmt,
    StmtV, Target, TargetV,
};
use crate::token::{spec_tag, tag, tok_view, toks_view, TokView, Token};

verus! {

/// Why a sequence of tokens is no program, and at which token.
#[derive(Debug, PartialEq, Eq)]
pub struct ParseError {
    pub pos: usize,
    pub msg: &'static str,
}

impl ParseError {
    /// The text of the error: its message and the index of the token.
    pub fn to_string(&self) -> (s: String)
        ensures
            s@ == "Parse Error: "@ + self.msg@ + " at token "@ + crate::lexer::spec_decimal(
                self.pos as nat,
            ),
    {
        let mut s = String::from_str("Parse Error: ");
        s.append(self.msg);
        s.append(" at token ");
        push_decimal(&mut s, self.pos);
        s
    }
}

/// The number of the variant of the token at `pos`; the number of no
/// variant where `pos` is not within the tokens.
pub open spec fn tag_at(toks: Seq<TokView>, pos: int) -> int {
    if 0 <= pos < toks.len() {
        toks[pos].tag
    } else {
        255
    }
}

/// A token of the variant with the number `t` can begin an expression.
pub open spec fn begins_expr(t: int) -> bool {
    t == 21 || t == 25 || t == 23 || t == 4 || t == 5 || t == 0 || t == 1 || t == 2 || t == 3
}

/// A token of the variant with the number `t` begins a compound statement.
pub open spec fn begins_compound(t: int) -> bool {
    t == 6 || t == 8 || t == 9 || t == 13 || t == 16
}

/// The assignment target that the expression `e` stands for.
pub open spec fn spec_to_target(e: ExprV) -> Option<TargetV> {
    match e {
        ExprV::Var(id) => Some(TargetV::Ident(id)),
        ExprV::Attr(o, id) => Some(TargetV::Attr(*o, id)),
        ExprV::Subscr(a, b) => Some(TargetV::Subscr(*a, *b)),
        _ => None,
    }
}

/// aexpr -> LParen expr RParen | LBrace pair_list RBrace
///        | LBracket arg_list RBracket
///        | True | False | None | Ident | Int | Str
pub open spec fn p_aexpr(toks: Seq<TokView>, pos: int) -> Option<(ExprV, int)>
    decreases toks.len() - pos, 1nat,
{
    let t = tag_at(toks, pos);
    if pos < 0 || pos >= toks.len() {
        None
    } else if t == 21 {
        match p_expr(toks, pos + 1) {
            Some((e, at1)) => if tag_at(toks, at1) == 22 {
                Some((e, at1 + 1))
            } else {
                None
            },
            None => None,
        }
    } else if t == 25 {
        match p_pairs(toks, pos + 1) {
            Some((ps, at1)) => if tag_at(toks, at1) == 26 {
                Some((ExprV::Dict(ps), at1 + 1))
            } else {
                None
            },
            None => None,
        }
    } else if t == 23 {
        match p_args(toks, pos + 1) {
            Some((items, at1)) => if tag_at(toks, at1) == 24 {
                Some((ExprV::List(items), at1 + 1))
            } else {
                None
            },
            None => None,
        }
    } else if t == 4 {
        Some((ExprV::Bool(true), pos + 1))
    } else if t == 5 {
        Some((ExprV::Bool(false), pos + 1))
    } else if t == 3 {
        Some((ExprV::NoneV, pos + 1))
    } else if t == 0 {
        Some((ExprV::Var(toks[pos].text), pos + 1))
    } else if t == 1 {
        Some((ExprV::Int(toks[pos].num as i32), pos + 1))
    } else if t == 2 {
        Some((ExprV::Str(toks[pos].text), pos + 1))
    } else {
        None
    }
}

/// The calls, attribute reads and subscripts that follow the expression
/// `acc`, from `pos` on.
pub open spec fn p_cexpr_rest(toks: Seq<TokView>, pos: int, acc: ExprV) -> Option<(ExprV, int)>
    decreases toks.len() - pos, 0nat,
{
    let t = tag_at(toks, pos);
    if pos < 0 || pos >= toks.len() {
        Some((acc, pos))
    } else if t == 21 {
        match p_args(toks, pos + 1) {
            Some((args, at1)) => if tag_at(toks, at1) == 22 && at1 >= pos {
                p_cexpr_rest(toks, at1 + 1, ExprV::Call(Box::new(acc), args))
            } else {
                None
            },
            None => None,
        }
    } else if t == 29 {
        if tag_at(toks, pos + 1) == 0 {
            p_cexpr_rest(toks, pos + 2, ExprV::Attr(Box::new(acc), toks[pos + 1].text))
        } else {
            None
        }
    } else if t == 23 {
        match p_expr(toks, pos + 1) {
            Some((key, at1)) => if tag_at(toks, at1) == 24 && at1 >= pos {
                p_cexpr_rest(toks, at1 + 1, ExprV::Subscr(Box::new(acc), Box::new(key)))
            } else {
                None
            },
            None => None,
        }
    } else {
        Some((acc, pos))
    }
}

/// cexpr -> aexpr (LParen arg_list RParen | Dot Ident | LBracket expr RBracket)*
pub open spec fn p_cexpr(toks: Seq<TokView>, pos: int) -> Option<(ExprV, int)>
    decreases toks.len() - pos, 2nat,
{
    match p_aexpr(toks, pos) {
        Some((e, at1)) => if pos < at1 <= toks.len() {
            p_cexpr_rest(toks, at1, e)
        } else {
            None
        },
        None => None,
    }
}

/// pexpr -> cexpr (Plus pexpr)?
pub open spec fn p_pexpr(toks: Seq<TokView>, pos: int) -> Option<(ExprV, int)>
    decreases toks.len() - pos, 3nat,
{
    match p_cexpr(toks, pos) {
        Some((e1, at1)) => if tag_at(toks, at1) == 17 {
            if at1 < pos {
                None
            } else {
                match p_pexpr(toks, at1 + 1) {
                    Some((e2, at2)) => Some((ExprV::Add(Box::new(e1), Box::new(e2)), at2)),
                    None => None,
                }
            }
        } else {
            Some((e1, at1))
        },
        None => None,
    }
}

/// eexpr -> pexpr (EqEq pexpr)?
pub open spec fn p_eexpr(toks: Seq<TokView>, pos: int) -> Option<(ExprV, int)>
    decreases toks.len() - pos, 4nat,
{
    match p_pexpr(toks, pos) {
        Some((e1, at1)) => if tag_at(toks, at1) == 19 {
            if at1 < pos {
                None
            } else {
                match p_pexpr(toks, at1 + 1) {
                    Some((e2, at2)) => Some((ExprV::EqEq(Box::new(e1), Box::new(e2)), at2)),
                    None => None,
                }
            }
        } else {
            Some((e1, at1))
        },
        None => None,
    }
}

/// expr -> eexpr (Lt eexpr)?
pub open spec fn p_expr(toks: Seq<TokView>, pos: int) -> Option<(ExprV, int)>
    decreases toks.len() - pos, 5nat,
{
    match p_eexpr(toks, pos) {
        Some((e1, at1)) => if tag_at(toks, at1) == 20 {
            if at1 < pos {
                None
            } else {
                match p_eexpr(toks, at1 + 1) {
                    Some((e2, at2)) => Some((ExprV::Lt(Box::new(e1), Box::new(e2)), at2)),
                    None => None,
                }
            }
        } else {
            Some((e1, at1))
        },
        None => None,
    }
}

/// The expressions, each behind a comma, that follow the expressions `acc`.
pub open spec fn p_args_rest(toks: Seq<TokView>, pos: int, acc: Seq<ExprV>) -> Option<
    (Seq<ExprV>, int),
>
    decreases toks.len() - pos, 0nat,
{
    if pos < 0 || pos >= toks.len() || tag_at(toks, pos) != 28 {
        Some((acc, pos))
    } else {
        match p_expr(toks, pos + 1) {
            Some((e, at1)) => if pos < at1 <= toks.len() {
                p_args_rest(toks, at1, acc.push(e))
            } else {
                None
            },
            None => None,
        }
    }
}

/// arg_list -> expr (Comma expr)* | nothing
pub open spec fn p_args(toks: Seq<TokView>, pos: int) -> Option<(Seq<ExprV>, int)>
    decreases toks.len() - pos, 6nat,
{
    if !begins_expr(tag_at(toks, pos)) {
        Some((Seq::empty(), pos))
    } else {
        match p_expr(toks, pos) {
            Some((e, at1)) => if pos < at1 <= toks.len() {
                p_args_rest(toks, at1, seq![e])
            } else {
                None
            },
            None => None,
        }
    }
}

/// bases -> (LParen arg_list RParen)?
pub open spec fn p_bases(toks: Seq<TokView>, pos: int) -> Option<(Seq<ExprV>, int)>
    decreases toks.len() - pos, 7nat,
{
    if pos < 0 || pos >= toks.len() || tag_at(toks, pos) != 21 {
        Some((Seq::empty(), pos))
    } else {
        match p_args(toks, pos + 1) {
            Some((bases, at1)) => if tag_at(toks, at1) == 22 && at1 > pos {
                Some((bases, at1 + 1))
            } else {
                None
            },
            None => None,
        }
    }
}

/// pair -> expr Colon expr
pub open spec fn p_pair(toks: Seq<TokView>, pos: int) -> Option<((ExprV, ExprV), int)>
    decreases toks.len() - pos, 6nat,
{
    match p_expr(toks, pos) {
        Some((k, at1)) => if tag_at(toks, at1) == 27 && at1 >= pos {
            match p_expr(toks, at1 + 1) {
                Some((v, at2)) => Some(((k, v), at2)),
                None => None,
            }
        } else {
            None
        },
        None => None,
    }
}

/// The pairs, each behind a comma, that follow the pairs `acc`.
pub open spec fn p_pairs_rest(toks: Seq<TokView>, pos: int, acc: Seq<(ExprV, ExprV)>) -> Option<
    (Seq<(ExprV, ExprV)>, int),
>
    decreases toks.len() - pos, 0nat,
{
    if pos < 0 || pos >= toks.len() || tag_at(toks, pos) != 28 {
        Some((acc, pos))
    } else {
        match p_pair(toks, pos + 1) {
            Some((p, at1)) => if pos < at1 <= toks.len() {
                p_pairs_rest(toks, at1, acc.push(p))
            } else {
                None
            },
            None => None,
        }
    }
}

/// pair_list -> pair (Comma pair)* | nothing
pub open spec fn p_pairs(toks: Seq<TokView>, pos: int) -> Option<(Seq<(ExprV, ExprV)>, int)>
    decreases toks.len() - pos, 7nat,
{
    if !begins_expr(tag_at(toks, pos)) {
        Some((Seq::empty(), pos))
    } else {
        match p_pair(toks, pos) {
            Some((p, at1)) => if pos < at1 <= toks.len() {
                p_pairs_rest(toks, at1, seq![p])
            } else {
                None
            },
            None => None,
        }
    }
}

/// The names, each behind a comma, that follow the names `acc`.
pub open spec fn p_parms_rest(toks: Seq<TokView>, pos: int, acc: Seq<Seq<char>>) -> Option<
    (Seq<Seq<char>>, int),
>
    decreases toks.len() - pos,
{
    if pos < 0 || pos >= toks.len() || tag_at(toks, pos) != 28 {
        Some((acc, pos))
    } else if tag_at(toks, pos + 1) == 0 {
        p_parms_rest(toks, pos + 2, acc.push(toks[pos + 1].text))
    } else {
        None
    }
}

/// parm_list -> Ident (Comma Ident)* | nothing
pub open spec fn p_parms(toks: Seq<TokView>, pos: int) -> Option<(Seq<Seq<char>>, int)> {
    if tag_at(toks, pos) != 0 {
        Some((Seq::empty(), pos))
    } else {
        p_parms_rest(toks, pos + 1, seq![toks[pos].text])
    }
}

/// simple_stmt -> Break | Continue | Return expr? | Assert expr
///              | expr | target Eq expr
pub open spec fn p_simple(toks: Seq<TokView>, pos: int) -> Option<(SimpleV, int)> {
    let t = tag_at(toks, pos);
    if t == 11 {
        Some((SimpleV::Break, pos + 1))
    } else if t == 12 {
        Some((SimpleV::Continue, pos + 1))
    } else if t == 14 {
        if tag_at(toks, pos + 1) == 30 {
            Some((SimpleV::Return(ExprV::NoneV), pos + 1))
        } else {
            match p_expr(toks, pos + 1) {
                Some((e, at1)) => Some((SimpleV::Return(e), at1)),
                None => None,
            }
        }
    } else if t == 15 {
        match p_expr(toks, pos + 1) {
            Some((e, at1)) => Some((SimpleV::Assert(e), at1)),
            None => None,
        }
    } else {
        match p_expr(toks, pos) {
            Some((e, at1)) => if tag_at(toks, at1) == 18 {
                match spec_to_target(e) {
                    Some(target) => match p_expr(toks, at1 + 1) {
                        Some((v, at2)) => Some((SimpleV::Assign(target, v), at2)),
                        None => None,
                    },
                    None => None,
                }
            } else if tag_at(toks, at1) == 30 {
                Some((SimpleV::Expr(e), at1))
            } else {
                None
            },
            None => None,
        }
    }
}

/// The statements that follow the statements `acc` in a block, up to the
/// `Dedent` that ends the block.
pub open spec fn p_block_rest(toks: Seq<TokView>, pos: int, acc: Seq<StmtV>) -> Option<
    (Seq<StmtV>, int),
>
    decreases toks.len() - pos, 13nat,
{
    let t = tag_at(toks, pos);
    if t == 32 {
        Some((acc, pos + 1))
    } else if t == 255 {
        None
    } else {
        match p_statement(toks, pos) {
            Some((s, at1)) => if pos < at1 <= toks.len() {
                p_block_rest(toks, at1, acc.push(s))
            } else {
                None
            },
            None => None,
        }
    }
}

/// block -> Indent statement+ Dedent | nothing
pub open spec fn p_block(toks: Seq<TokView>, pos: int) -> Option<(Seq<StmtV>, int)>
    decreases toks.len() - pos, 11nat,
{
    if tag_at(toks, pos) != 31 {
        Some((Seq::empty(), pos))
    } else {
        match p_statement(toks, pos + 1) {
            Some((s, at1)) => if pos < at1 <= toks.len() {
                p_block_rest(toks, at1, seq![s])
            } else {
                None
            },
            None => None,
        }
    }
}

/// Colon NewLine block
pub open spec fn p_suite(toks: Seq<TokView>, pos: int) -> Option<(Seq<StmtV>, int)>
    decreases toks.len() - pos, 12nat,
{
    if tag_at(toks, pos) == 27 && tag_at(toks, pos + 1) == 30 {
        p_block(toks, pos + 2)
    } else {
        None
    }
}

/// compound_stmt -> if_stmt | while_stmt | for_stmt | def_stmt | class_stmt
///
/// if_stmt -> If expr Colon NewLine block (Else Colon NewLine block)?
/// while_stmt -> While expr Colon NewLine block
/// for_stmt -> For target In expr Colon NewLine block
/// def_stmt -> Def Ident LParen parm_list RParen Colon NewLine block
/// class_stmt -> Class Ident bases Colon NewLine block
pub open spec fn p_compound(toks: Seq<TokView>, pos: int) -> Option<(CompoundV, int)>
    decreases toks.len() - pos, 9nat,
{
    let t = tag_at(toks, pos);
    if pos < 0 || pos >= toks.len() {
        None
    } else if t == 6 {
        match p_expr(toks, pos + 1) {
            Some((e, at1)) => if at1 <= pos || at1 > toks.len() {
                None
            } else {
                match p_suite(toks, at1) {
                    Some((a, at2)) => if at2 < at1 || at2 > toks.len() {
                        None
                    } else if tag_at(toks, at2) == 7 {
                        match p_suite(toks, at2 + 1) {
                            Some((b, at3)) => Some((CompoundV::If(e, a, b), at3)),
                            None => None,
                        }
                    } else {
                        Some((CompoundV::If(e, a, Seq::empty()), at2))
                    },
                    None => None,
                }
            },
            None => None,
        }
    } else if t == 8 {
        match p_expr(toks, pos + 1) {
            Some((e, at1)) => if at1 <= pos || at1 > toks.len() {
                None
            } else {
                match p_suite(toks, at1) {
                    Some((body, at2)) => Some((CompoundV::While(e, body), at2)),
                    None => None,
                }
            },
            None => None,
        }
    } else if t == 9 {
        match p_cexpr(toks, pos + 1) {
            Some((te, at1)) => match spec_to_target(te) {
                Some(target) => if tag_at(toks, at1) == 10 && at1 > pos {
                    match p_expr(toks, at1 + 1) {
                        Some((e, at2)) => if at2 <= pos || at2 > toks.len() {
                            None
                        } else {
                            match p_suite(toks, at2) {
                                Some((body, at3)) => Some((CompoundV::For(target, e, body), at3)),
                                None => None,
                            }
                        },
                        None => None,
                    }
                } else {
                    None
                },
                None => None,
            },
            None => None,
        }
    } else if t == 13 {
        if tag_at(toks, pos + 1) == 0 && tag_at(toks, pos + 2) == 21 {
            match p_parms(toks, pos + 3) {
                Some((parms, at1)) => if tag_at(toks, at1) == 22 && at1 > pos {
                    match p_suite(toks, at1 + 1) {
                        Some((body, at2)) => Some(
                            (CompoundV::Def(toks[pos + 1].text, parms, body), at2),
                        ),
                        None => None,
                    }
                } else {
                    None
                },
                None => None,
            }
        } else {
            None
        }
    } else if t == 16 {
        if tag_at(toks, pos + 1) != 0 {
            None
        } else {
            match p_bases(toks, pos + 2) {
                Some((bases, at1)) => if at1 <= pos || at1 > toks.len() {
                    None
                } else {
                    match p_suite(toks, at1) {
                        Some((body, at2)) => Some(
                            (CompoundV::Class(toks[pos + 1].text, bases, body), at2),
                        ),
                        None => None,
                    }
                },
                None => None,
            }
        }
    } else {
        None
    }
}

/// statement -> compound_stmt | simple_stmt NewLine
pub open spec fn p_statement(toks: Seq<TokView>, pos: int) -> Option<(StmtV, int)>
    decreases toks.len() - pos, 10nat,
{
    if begins_compound(tag_at(toks, pos)) {
        match p_compound(toks, pos) {
            Some((c, at1)) => Some((StmtV::Compound(c), at1)),
            None => None,
        }
    } else {
        match p_simple(toks, pos) {
            Some((s, at1)) => if tag_at(toks, at1) == 30 {
                Some((StmtV::Simple(s), at1 + 1))
            } else {
                None
            },
            None => None,
        }
    }
}

/// The statements that follow the statements `acc`, up to the end-of-text
/// token.
pub open spec fn p_program_rest(toks: Seq<TokView>, pos: int, acc: Seq<StmtV>) -> Option<
    (Seq<StmtV>, int),
>
    decreases toks.len() - pos, 14nat,
{
    let t = tag_at(toks, pos);
    if t == 33 {
        Some((acc, pos))
    } else if t == 255 {
        None
    } else {
        match p_statement(toks, pos) {
            Some((s, at1)) => if pos < at1 <= toks.len() {
                p_program_rest(toks, at1, acc.push(s))
            } else {
                None
            },
            None => None,
        }
    }
}

/// program -> statement* EOF
pub open spec fn p_program(toks: Seq<TokView>, pos: int) -> Option<(Seq<StmtV>, int)> {
    p_program_rest(toks, pos, Seq::empty())
}

/// The result of a parser agrees with the grammar: where the grammar gives a
/// value and a position, the parser succeeded with that value, at that
/// position; where it gives none, the parser failed.
pub open spec fn agrees<V>(grammar: Option<(V, int)>, ok: bool, v: V, pos: int) -> bool {
    match grammar {
        Some((gv, gp)) => ok && v == gv && pos == gp,
        None => !ok,
    }
}

/// A source of tokens that can be parsed into a program.
pub trait TokenStream {
    /// The tokens, as plain values.
    spec fn tokens(&self) -> Seq<TokView>;

    /// The index of the token that is read next.
    spec fn position(&self) -> int;

    /// Parses a whole program, up to the end-of-text token, as the grammar
    /// [`p_program`] says.
    fn parse(&mut self) -> (r: Result<Program, ParseError>)
        ensures
            final(self).tokens() == old(self).tokens(),
            agrees(
                p_program(old(self).tokens(), old(self).position()),
                r is Ok,
                program_view(r->Ok_0),
                final(self).position(),
            ),
    ;
}

/// A cursor over a vector of tokens.
pub struct Parser {
    pub tokens: Vec<Token>,
    pub pos: usize,
}

impl TokenStream for Parser {
    open spec fn tokens(&self) -> Seq<TokView> {
        toks_view(self.tokens@)
    }

    open spec fn position(&self) -> int {
        self.pos as int
    }

    fn parse(&mut self) -> (r: Result<Program, ParseError>) {
        if self.pos > self.tokens.len() {
            return Err(ParseError { pos: self.pos, msg: "position is behind the tokens" });
        }
        self.program()
    }
}

impl Parser {
    /// A cursor at the first of the tokens.
    pub fn new(tokens: Vec<Token>) -> (p: Parser)
        ensures
            p.tokens == tokens,
            p.pos == 0,
    {
        Parser { tokens: tokens, pos: 0 }
    }

    pub open spec fn wf(&self) -> bool {
        self.pos <= self.tokens@.len()
    }

    /// The tokens, as plain values.
    pub open spec fn toks(&self) -> Seq<TokView> {
        toks_view(self.tokens@)
    }

    /// The number of tokens that are still to be read.
    pub open spec fn left(&self) -> nat {
        (self.tokens@.len() - self.pos) as nat
    }

    /// `self` is `prev` further on in the same tokens.
    pub open spec fn after(&self, prev: Parser) -> bool {
        self.tokens == prev.tokens && prev.pos <= self.pos <= self.tokens@.len()
    }

    /// The number of the variant of the token at the cursor; the number of
    /// no variant where the tokens have ended.
    pub fn peek_tag(&self) -> (n: u8)
        requires
            self.wf(),
        ensures
            n == tag_at(self.toks(), self.pos as int),
            n == 255 <==> self.pos >= self.tokens@.len(),
    {
        if self.pos < self.tokens.len() {
            tag(&self.tokens[self.pos])
        } else {
            255
        }
    }

    /// Moves the cursor over the token it is at.
    pub fn advance(&mut self)
        requires
            old(self).pos < old(self).tokens@.len(),
        ensures
            final(self).tokens == old(self).tokens,
            final(self).pos == old(self).pos + 1,
    {
        let n = self.tokens.len();
        self.pos = self.pos + 1;
    }

    fn fail<T>(&self, msg: &'static str) -> (r: Result<T, ParseError>)
        ensures
            r is Err,
    {
        Err(ParseError { pos: self.pos, msg: msg })
    }

    /// Whether the token at the cursor is of the variant of `token`.
    pub fn match_token(&self, token: &Token) -> (r: bool)
        requires
            self.wf(),
        ensures
            r == (tag_at(self.toks(), self.pos as int) == spec_tag(*token)),
    {
        self.peek_tag() == tag(token)
    }

    /// Reads the token at the cursor, which must be of the variant of `token`.
    pub fn consume(&mut self, token: Token) -> (r: Result<(), ParseError>)
        requires
            old(self).wf(),
        ensures
            final(self).after(*old(self)),
            if tag_at(old(self).toks(), old(self).pos as int) == spec_tag(token) {
                r is Ok && final(self).pos == old(self).pos + 1
            } else {
                r is Err && final(self).pos == old(self).pos
            },
    {
        if self.match_token(&token) {
            self.advance();
            Ok(())
        } else {
            self.fail("unexpected token")
        }
    }

    /// Reads the identifier at the cursor.
    pub fn consume_ident(&mut self) -> (r: Result<String, ParseError>)
        requires
            old(self).wf(),
        ensures
            final(self).after(*old(self)),
            if tag_at(old(self).toks(), old(self).pos as int) == 0 {
                r is Ok && r->Ok_0@ == old(self).toks()[old(self).pos as int].text && final(self).pos == old(self).pos + 1
            } else {
                r is Err && final(self).pos == old(self).pos
            },
    {
        if self.pos < self.tokens.len() {
            match &self.tokens[self.pos] {
                Token::Ident(s) => {
                    let s = s.clone();
                    self.advance();
                    return Ok(s);
                },
                _ => {},
            }
        }
        self.fail("identifier expected")
    }

    /// Reads the integer literal at the cursor.
    pub fn consume_int(&mut self) -> (r: Result<i32, ParseError>)
        requires
            old(self).wf(),
        ensures
            final(self).after(*old(self)),
            if tag_at(old(self).toks(), old(self).pos as int) == 1 {
                r is Ok && r->Ok_0 == old(self).toks()[old(self).pos as int].num && final(self).pos == old(self).pos + 1
            } else {
                r is Err && final(self).pos == old(self).pos
            },
    {
        if self.pos < self.tokens.len() {
            match &self.tokens[self.pos] {
                Token::Int(i) => {
                    let i = *i;
                    self.advance();
                    return Ok(i);
                },
                _ => {},
            }
        }
        self.fail("integer expected")
    }

    /// Reads the string literal at the cursor.
    pub fn consume_str(&mut self) -> (r: Result<String, ParseError>)
        requires
            old(self).wf(),
        ensures
            final(self).after(*old(self)),
            if tag_at(old(self).toks(), old(self).pos as int) == 2 {
                r is Ok && r->Ok_0@ == old(self).toks()[old(self).pos as int].text && final(self).pos == old(self).pos + 1
            } else {
                r is Err && final(self).pos == old(self).pos
            },
    {
        if self.pos < self.tokens.len() {
            match &self.tokens[self.pos] {
                Token::Str(s) => {
                    let s = s.clone();
                    self.advance();
                    return Ok(s);
                },
                _ => {},
            }
        }
        self.fail("string expected")
    }

    /// program -> statement* EOF
    pub fn program(&mut self) -> (r: Result<Program, ParseError>)
        requires
            old(self).wf(),
        ensures
            final(self).after(*old(self)),
            agrees(
                p_program(old(self).toks(), old(self).pos as int),
                r is Ok,
                program_view(r->Ok_0),
                final(self).pos as int,
            ),
    {
        let mut prog: Program = Vec::new();
        let ghost toks = self.toks();
        let ghost goal = p_program(toks, self.pos as int);
        loop
            invariant
                self.after(*old(self)),
                toks == self.toks(),
                goal == p_program(toks, old(self).pos as int),
                p_program_rest(toks, self.pos as int, program_view(prog)) == goal,
            decreases self.left(),
        {
            let t = self.peek_tag();
            if t == 33 {
                return Ok(prog);
            } else if t == 255 {
                return self.fail("end of text expected");
            }
            match self.statement() {
                Ok(s) => {
                    proof {
                        lemma_stmts_view_push(prog@, s);
                    }
                    prog.push(s);
                },
                Err(e) => {
                    return Err(e);
                },
            }
        }
    }

    /// block -> Indent statement+ Dedent | nothing
    pub fn block(&mut self) -> (r: Result<Program, ParseError>)
        requires
            old(self).wf(),
        ensures
            final(self).after(*old(self)),
            agrees(
                p_block(old(self).toks(), old(self).pos as int),
                r is Ok,
                program_view(r->Ok_0),
                final(self).pos as int,
            ),
        decreases old(self).left(), 11nat,
    {
        let mut prog: Program = Vec::new();
        let ghost toks = self.toks();
        let ghost goal = p_block(toks, self.pos as int);
        if self.peek_tag() != 31 {
            return Ok(prog);
        }
        self.advance();
        match self.statement() {
            Ok(s) => {
                proof {
                    lemma_stmts_view_push(prog@, s);
                }
                prog.push(s);
            },
            Err(e) => {
                return Err(e);
            },
        }
        loop
            invariant
                self.after(*old(self)),
                self.pos > old(self).pos,
                toks == self.toks(),
                goal == p_block(toks, old(self).pos as int),
                p_block_rest(toks, self.pos as int, program_view(prog)) == goal,
            decreases self.left(),
        {
            let t = self.peek_tag();
            if t == 32 {
                self.advance();
                return Ok(prog);
            } else if t == 255 {
                return self.fail("dedent expected");
            }
            match self.statement() {
                Ok(s) => {
                    proof {
                        lemma_stmts_view_push(prog@, s);
                    }
                    prog.push(s);
                },
                Err(e) => {
                    return Err(e);
                },
            }
        }
    }

    /// statement -> compound_stmt | simple_stmt NewLine
    pub fn statement(&mut self) -> (r: Result<Stmt, ParseError>)
        requires
            old(self).wf(),
        ensures
            final(self).after(*old(self)),
            r is Ok ==> final(self).pos > old(self).pos,
            agrees(
                p_statement(old(self).toks(), old(self).pos as int),
                r is Ok,
                stmt_view(r->Ok_0),
                final(self).pos as int,
            ),
        decreases old(self).left(), 10nat,
    {
        if self.is_compound() {
            match self.compound_stmt() {
                Ok(s) => Ok(Stmt::StmtCompound(s)),
                Err(e) => Err(e),
            }
        } else {
            let stmt = match self.simple_stmt() {
                Ok(s) => s,
                Err(e) => {
                    return Err(e);
                },
            };
            match self.consume(Token::NewLine) {
                Ok(()) => Ok(Stmt::StmtSimple(stmt)),
                Err(e) => Err(e),
            }
        }
    }

    /// simple_stmt -> Break | Continue | Return expr? | Assert expr
    ///              | expr | target Eq expr
    pub fn simple_stmt(&mut self) -> (r: Result<SimpleStmt, ParseError>)
        requires
            old(self).wf(),
        ensures
            final(self).after(*old(self)),
            r is Ok ==> final(self).pos > old(self).pos,
            agrees(
                p_simple(old(self).toks(), old(self).pos as int),
                r is Ok,
                simple_view(r->Ok_0),
                final(self).pos as int,
            ),
        decreases old(self).left(), 9nat,
    {
        let t = self.peek_tag();
        if t == 11 {
            self.advance();
            Ok(SimpleStmt::BreakStmt)
        } else if t == 12 {
            self.advance();
            Ok(SimpleStmt::ContinueStmt)
        } else if t == 14 {
            self.advance();
            if self.match_token(&Token::NewLine) {
                Ok(SimpleStmt::ReturnStmt(Expr::NoneExpr))
            } else {
                match self.expr() {
                    Ok(e) => Ok(SimpleStmt::ReturnStmt(e)),
                    Err(e) => Err(e),
                }
            }
        } else if t == 15 {
            self.advance();
            match self.expr() {
                Ok(e) => Ok(SimpleStmt::AssertStmt(e)),
                Err(e) => Err(e),
            }
        } else {
            let expr = match self.expr() {
                Ok(e) => e,
                Err(e) => {
                    return Err(e);
                },
            };
            let t = self.peek_tag();
            if t == 18 {
                let target = match to_target(expr) {
                    Some(t) => t,
                    None => {
                        return self.fail("cannot assign to this expression");
                    },
                };
                self.advance();
                match self.expr() {
                    Ok(e) => Ok(SimpleStmt::AssignStmt(target, e)),
                    Err(e) => Err(e),
                }
            } else if t == 30 {
                Ok(SimpleStmt::ExprStmt(expr))
            } else {
                self.fail("end of line expected")
            }
        }
    }

    /// Whether a compound statement begins at the cursor.
    pub fn is_compound(&self) -> (r: bool)
        requires
            self.wf(),
        ensures
            r == begins_compound(tag_at(self.toks(), self.pos as int)),
    {
        let t = self.peek_tag();
        t == 6 || t == 8 || t == 9 || t == 13 || t == 16
    }

    /// compound_stmt -> if_stmt | while_stmt | for_stmt | def_stmt | class_stmt
    pub fn compound_stmt(&mut self) -> (r: Result<CompoundStmt, ParseError>)
        requires
            old(self).wf(),
        ensures
            final(self).after(*old(self)),
            r is Ok ==> final(self).pos > old(self).pos,
            agrees(
                p_compound(old(self).toks(), old(self).pos as int),
                r is Ok,
                compound_view(r->Ok_0),
                final(self).pos as int,
            ),
        decreases old(self).left(), 9nat,
    {
        let t = self.peek_tag();
        if t == 6 {
            self.if_stmt()
        } else if t == 8 {
            self.while_stmt()
        } else if t == 9 {
            self.for_stmt()
        } else if t == 13 {
            self.def_stmt()
        } else if t == 16 {
            self.class_stmt()
        } else {
            self.fail("compound statement expected")
        }
    }

    /// Colon NewLine block
    pub fn suite(&mut self) -> (r: Result<Program, ParseError>)
        requires
            old(self).wf(),
        ensures
            final(self).after(*old(self)),
            agrees(
                p_suite(old(self).toks(), old(self).pos as int),
                r is Ok,
                program_view(r->Ok_0),
                final(self).pos as int,
            ),
        decreases old(self).left(), 12nat,
    {
        match self.consume(Token::Colon) {
            Ok(()) => {},
            Err(e) => {
                return Err(e);
            },
        }
        match self.consume(Token::NewLine) {
            Ok(()) => {},
            Err(e) => {
                return Err(e);
            },
        }
        self.block()
    }

    /// if_stmt -> If expr Colon NewLine block (Else Colon NewLine block)?
    pub fn if_stmt(&mut self) -> (r: Result<CompoundStmt, ParseError>)
        requires
            old(self).wf(),
            tag_at(old(self).toks(), old(self).pos as int) == 6,
        ensures
            final(self).after(*old(self)),
            r is Ok ==> final(self).pos > old(self).pos,
            agrees(
                p_compound(old(self).toks(), old(self).pos as int),
                r is Ok,
                compound_view(r->Ok_0),
                final(self).pos as int,
            ),
        decreases old(self).left(), 8nat,
    {
        match self.consume(Token::If) {
            Ok(()) => {},
            Err(e) => {
                return Err(e);
            },
        }
        let expr = match self.expr() {
            Ok(e) => e,
            Err(e) => {
                return Err(e);
            },
        };
        let prog_then = match self.suite() {
            Ok(p) => p,
            Err(e) => {
                return Err(e);
            },
        };
        let prog_else = if self.match_token(&Token::Else) {
            self.advance();
            match self.suite() {
                Ok(p) => p,
                Err(e) => {
                    return Err(e);
                },
            }
        } else {
            Vec::new()
        };
        Ok(CompoundStmt::IfStmt(expr, prog_then, prog_else))
    }

    /// while_stmt -> While expr Colon NewLine block
    pub fn while_stmt(&mut self) -> (r: Result<CompoundStmt, ParseError>)
        requires
            old(self).wf(),
            tag_at(old(self).toks(), old(self).pos as int) == 8,
        ensures
            final(self).after(*old(self)),
            r is Ok ==> final(self).pos > old(self).pos,
            agrees(
                p_compound(old(self).toks(), old(self).pos as int),
                r is Ok,
                compound_view(r->Ok_0),
                final(self).pos as int,
            ),
        decreases old(self).left(), 8nat,
    {
        match self.consume(Token::While) {
            Ok(()) => {},
            Err(e) => {
                return Err(e);
            },
        }
        let expr = match self.expr() {
            Ok(e) => e,
            Err(e) => {
                return Err(e);
            },
        };
        match self.suite() {
            Ok(prog) => Ok(CompoundStmt::WhileStmt(expr, prog)),
            Err(e) => Err(e),
        }
    }

    /// for_stmt -> For target In expr Colon NewLine block
    #[verifier::rlimit(80)]
    pub fn for_stmt(&mut self) -> (r: Result<CompoundStmt, ParseError>)
        requires
            old(self).wf(),
            tag_at(old(self).toks(), old(self).pos as int) == 9,
        ensures
            final(self).after(*old(self)),
            r is Ok ==> final(self).pos > old(self).pos,
            agrees(
                p_compound(old(self).toks(), old(self).pos as int),
                r is Ok,
                compound_view(r->Ok_0),
                final(self).pos as int,
            ),
        decreases old(self).left(), 8nat,
    {
        match self.consume(Token::For) {
            Ok(()) => {},
            Err(e) => {
                return Err(e);
            },
        }
        let texpr = match self.cexpr() {
            Ok(e) => e,
            Err(e) => {
                return Err(e);
            },
        };
        let target = match to_target(texpr) {
            Some(t) => t,
            None => {
                return self.fail("cannot assign to this expression");
            },
        };
        match self.consume(Token::In) {
            Ok(()) => {},
            Err(e) => {
                return Err(e);
            },
        }
        let expr = match self.expr() {
            Ok(e) => e,
            Err(e) => {
                return Err(e);
            },
        };
        match self.suite() {
            Ok(prog) => Ok(CompoundStmt::ForStmt(target, expr, prog)),
            Err(e) => Err(e),
        }
    }

    /// def_stmt -> Def Ident LParen parm_list RParen Colon NewLine block
    pub fn def_stmt(&mut self) -> (r: Result<CompoundStmt, ParseError>)
        requires
            old(self).wf(),
            tag_at(old(self).toks(), old(self).pos as int) == 13,
        ensures
            final(self).after(*old(self)),
            r is Ok ==> final(self).pos > old(self).pos,
            agrees(
                p_compound(old(self).toks(), old(self).pos as int),
                r is Ok,
                compound_view(r->Ok_0),
                final(self).pos as int,
            ),
        decreases old(self).left(), 8nat,
    {
        match self.consume(Token::Def) {
            Ok(()) => {},
            Err(e) => {
                return Err(e);
            },
        }
        let fun_name = match self.consume_ident() {
            Ok(s) => s,
            Err(e) => {
                return Err(e);
            },
        };
        match self.consume(Token::LParen) {
            Ok(()) => {},
            Err(e) => {
                return Err(e);
            },
        }
        let parm_list = match self.parm_list() {
            Ok(p) => p,
            Err(e) => {
                return Err(e);
            },
        };
        match self.consume(Token::RParen) {
            Ok(()) => {},
            Err(e) => {
                return Err(e);
            },
        }
        match self.suite() {
            Ok(prog) => Ok(CompoundStmt::DefStmt(fun_name, parm_list, prog)),
            Err(e) => Err(e),
        }
    }

    /// class_stmt -> Class Ident bases Colon NewLine block
    pub fn class_stmt(&mut self) -> (r: Result<CompoundStmt, ParseError>)
        requires
            old(self).wf(),
            tag_at(old(self).toks(), old(self).pos as int) == 16,
        ensures
            final(self).after(*old(self)),
            r is Ok ==> final(self).pos > old(self).pos,
            agrees(
                p_compound(old(self).toks(), old(self).pos as int),
                r is Ok,
                compound_view(r->Ok_0),
                final(self).pos as int,
            ),
        decreases old(self).left(), 8nat,
    {
        match self.consume(Token::Class) {
            Ok(()) => {},
            Err(e) => {
                return Err(e);
            },
        }
        let class_name = match self.consume_ident() {
            Ok(s) => s,
            Err(e) => {
                return Err(e);
            },
        };
        let bases = match self.bases() {
            Ok(b) => b,
            Err(e) => {
                return Err(e);
            },
        };
        match self.suite() {
            Ok(prog) => Ok(CompoundStmt::ClassStmt(class_name, bases, prog)),
            Err(e) => Err(e),
        }
    }

    /// bases -> (LParen arg_list RParen)?
    pub fn bases(&mut self) -> (r: Result<Vec<Expr>, ParseError>)
        requires
            old(self).wf(),
        ensures
            final(self).after(*old(self)),
            agrees(
                p_bases(old(self).toks(), old(self).pos as int),
                r is Ok,
                exprs_view(r->Ok_0@, r->Ok_0@.len()),
                final(self).pos as int,
            ),
        decreases old(self).left(), 7nat,
    {
        if self.match_token(&Token::LParen) {
            self.advance();
            let bases = match self.arg_list() {
                Ok(b) => b,
                Err(e) => {
                    return Err(e);
                },
            };
            match self.consume(Token::RParen) {
                Ok(()) => {},
                Err(e) => {
                    return Err(e);
                },
            }
            Ok(bases)
        } else {
            let bases: Vec<Expr> = Vec::new();
            proof {
                assert(exprs_view(bases@, bases@.len()) =~= Seq::<ExprV>::empty());
            }
            Ok(bases)
        }
    }

    /// parm_list -> Ident (Comma Ident)* | nothing
    pub fn parm_list(&mut self) -> (r: Result<Vec<Id>, ParseError>)
        requires
            old(self).wf(),
        ensures
            final(self).after(*old(self)),
            agrees(
                p_parms(old(self).toks(), old(self).pos as int),
                r is Ok,
                ids_view(r->Ok_0@),
                final(self).pos as int,
            ),
    {
        let mut pl: Vec<Id> = Vec::new();
        let ghost toks = self.toks();
        let ghost goal = p_parms(toks, self.pos as int);
        if self.peek_tag() != 0 {
            proof {
                assert(ids_view(pl@) =~= Seq::<Seq<char>>::empty());
            }
            return Ok(pl);
        }
        match self.consume_ident() {
            Ok(s) => {
                pl.push(s);
            },
            Err(e) => {
                return Err(e);
            },
        }
        proof {
            assert(ids_view(pl@) =~= seq![toks[old(self).pos as int].text]);
        }
        loop
            invariant
                self.after(*old(self)),
                toks == self.toks(),
                goal == p_parms(toks, old(self).pos as int),
                p_parms_rest(toks, self.pos as int, ids_view(pl@)) == goal,
            decreases self.left(),
        {
            if self.peek_tag() != 28 {
                return Ok(pl);
            }
            self.advance();
            let ghost before = ids_view(pl@);
            match self.consume_ident() {
                Ok(s) => {
                    pl.push(s);
                    proof {
                        assert(ids_view(pl@) =~= before.push(s@));
                    }
                },
                Err(e) => {
                    return Err(e);
                },
            }
        }
    }

    /// expr -> eexpr (Lt eexpr)?
    pub fn expr(&mut self) -> (r: Result<Expr, ParseError>)
        requires
            old(self).wf(),
        ensures
            final(self).after(*old(self)),
            r is Ok ==> final(self).pos > old(self).pos,
            agrees(
                p_expr(old(self).toks(), old(self).pos as int),
                r is Ok,
                expr_view(r->Ok_0),
                final(self).pos as int,
            ),
        decreases old(self).left(), 5nat,
    {
        let expr1 = match self.eexpr() {
            Ok(e) => e,
            Err(e) => {
                return Err(e);
            },
        };
        if self.peek_tag() == 20 {
            self.advance();
            match self.eexpr() {
                Ok(expr2) => Ok(Expr::LtExpr(Box::new(expr1), Box::new(expr2))),
                Err(e) => Err(e),
            }
        } else {
            Ok(expr1)
        }
    }

    /// eexpr -> pexpr (EqEq pexpr)?
    pub fn eexpr(&mut self) -> (r: Result<Expr, ParseError>)
        requires
            old(self).wf(),
        ensures
            final(self).after(*old(self)),
            r is Ok ==> final(self).pos > old(self).pos,
            agrees(
                p_eexpr(old(self).toks(), old(self).pos as int),
                r is Ok,
                expr_view(r->Ok_0),
                final(self).pos as int,
            ),
        decreases old(self).left(), 4nat,
    {
        let expr1 = match self.pexpr() {
            Ok(e) => e,
            Err(e) => {
                return Err(e);
            },
        };
        if self.peek_tag() == 19 {
            self.advance();
            match self.pexpr() {
                Ok(expr2) => Ok(Expr::EqEqExpr(Box::new(expr1), Box::new(expr2))),
                Err(e) => Err(e),
            }
        } else {
            Ok(expr1)
        }
    }

    /// pexpr -> cexpr (Plus pexpr)?
    pub fn pexpr(&mut self) -> (r: Result<Expr, ParseError>)
        requires
            old(self).wf(),
        ensures
            final(self).after(*old(self)),
            r is Ok ==> final(self).pos > old(self).pos,
            agrees(
                p_pexpr(old(self).toks(), old(self).pos as int),
                r is Ok,
                expr_view(r->Ok_0),
                final(self).pos as int,
            ),
        decreases old(self).left(), 3nat,
    {
        let expr1 = match self.cexpr() {
            Ok(e) => e,
            Err(e) => {
                return Err(e);
            },
        };
        if self.peek_tag() == 17 {
            self.advance();
            match self.pexpr() {
                Ok(expr2) => Ok(Expr::AddExpr(Box::new(expr1), Box::new(expr2))),
                Err(e) => Err(e),
            }
        } else {
            Ok(expr1)
        }
    }

    /// cexpr -> aexpr (LParen arg_list RParen | Dot Ident | LBracket expr RBracket)*
    pub fn cexpr(&mut self) -> (r: Result<Expr, ParseError>)
        requires
            old(self).wf(),
        ensures
            final(self).after(*old(self)),
            r is Ok ==> final(self).pos > old(self).pos,
            agrees(
                p_cexpr(old(self).toks(), old(self).pos as int),
                r is Ok,
                expr_view(r->Ok_0),
                final(self).pos as int,
            ),
        decreases old(self).left(), 2nat,
    {
        let ghost toks = self.toks();
        let ghost goal = p_cexpr(toks, self.pos as int);
        let mut expr = match self.aexpr() {
            Ok(e) => e,
            Err(e) => {
                return Err(e);
            },
        };
        loop
            invariant
                self.after(*old(self)),
                self.pos > old(self).pos,
                toks == self.toks(),
                goal == p_cexpr(toks, old(self).pos as int),
                p_cexpr_rest(toks, self.pos as int, expr_view(expr)) == goal,
            decreases self.left(),
        {
            let t = self.peek_tag();
            if t == 21 {
                self.advance();
                let arg_list = match self.arg_list() {
                    Ok(a) => a,
                    Err(e) => {
                        return Err(e);
                    },
                };
                match self.consume(Token::RParen) {
                    Ok(()) => {},
                    Err(e) => {
                        return Err(e);
                    },
                }
                expr = Expr::CallExpr(Box::new(expr), arg_list);
            } else if t == 29 {
                self.advance();
                let ident = match self.consume_ident() {
                    Ok(s) => s,
                    Err(e) => {
                        return Err(e);
                    },
                };
                expr = Expr::AttrExpr(Box::new(expr), ident);
            } else if t == 23 {
                self.advance();
                let key_expr = match self.expr() {
                    Ok(e) => e,
                    Err(e) => {
                        return Err(e);
                    },
                };
                match self.consume(Token::RBracket) {
                    Ok(()) => {},
                    Err(e) => {
                        return Err(e);
                    },
                }
                expr = Expr::SubscrExpr(Box::new(expr), Box::new(key_expr));
            } else {
                return Ok(expr);
            }
        }
    }

    /// aexpr -> LParen expr RParen | LBrace pair_list RBrace
    ///        | LBracket arg_list RBracket
    ///        | True | False | None | Ident | Int | Str
    pub fn aexpr(&mut self) -> (r: Result<Expr, ParseError>)
        requires
            old(self).wf(),
        ensures
            final(self).after(*old(self)),
            r is Ok ==> final(self).pos > old(self).pos,
            agrees(
                p_aexpr(old(self).toks(), old(self).pos as int),
                r is Ok,
                expr_view(r->Ok_0),
                final(self).pos as int,
            ),
        decreases old(self).left(), 1nat,
    {
        let t = self.peek_tag();
        if t == 21 {
            self.advance();
            let expr = match self.expr() {
                Ok(e) => e,
                Err(e) => {
                    return Err(e);
                },
            };
            match self.consume(Token::RParen) {
                Ok(()) => Ok(expr),
                Err(e) => Err(e),
            }
        } else if t == 25 {
            self.advance();
            let pl = match self.pair_list() {
                Ok(p) => p,
                Err(e) => {
                    return Err(e);
                },
            };
            match self.consume(Token::RBrace) {
                Ok(()) => Ok(Expr::DictExpr(pl)),
                Err(e) => Err(e),
            }
        } else if t == 23 {
            self.advance();
            let items = match self.arg_list() {
                Ok(a) => a,
                Err(e) => {
                    return Err(e);
                },
            };
            match self.consume(Token::RBracket) {
                Ok(()) => Ok(Expr::ListExpr(items)),
                Err(e) => Err(e),
            }
        } else if t == 4 {
            self.advance();
            Ok(Expr::BoolExpr(true))
        } else if t == 5 {
            self.advance();
            Ok(Expr::BoolExpr(false))
        } else if t == 3 {
            self.advance();
            Ok(Expr::NoneExpr)
        } else if t == 0 {
            match self.consume_ident() {
                Ok(s) => Ok(Expr::VarExpr(s)),
                Err(e) => Err(e),
            }
        } else if t == 1 {
            match self.consume_int() {
                Ok(i) => Ok(Expr::IntExpr(i)),
                Err(e) => Err(e),
            }
        } else if t == 2 {
            match self.consume_str() {
                Ok(s) => Ok(Expr::StrExpr(s)),
                Err(e) => Err(e),
            }
        } else {
            self.fail("expression expected")
        }
    }

    /// Whether an expression can begin at the cursor.
    pub fn is_expr(&self) -> (r: bool)
        requires
            self.wf(),
        ensures
            r == begins_expr(tag_at(self.toks(), self.pos as int)),
    {
        let t = self.peek_tag();
        t == 21 || t == 25 || t == 23 || t == 4 || t == 5 || t == 0 || t == 1 || t == 2
            || t == 3
    }

    /// arg_list -> expr (Comma expr)* | nothing
    pub fn arg_list(&mut self) -> (r: Result<Vec<Expr>, ParseError>)
        requires
            old(self).wf(),
        ensures
            final(self).after(*old(self)),
            agrees(
                p_args(old(self).toks(), old(self).pos as int),
                r is Ok,
                exprs_view(r->Ok_0@, r->Ok_0@.len()),
                final(self).pos as int,
            ),
        decreases old(self).left(), 6nat,
    {
        let mut al: Vec<Expr> = Vec::new();
        let ghost toks = self.toks();
        let ghost goal = p_args(toks, self.pos as int);
        if !self.is_expr() {
            return Ok(al);
        }
        match self.expr() {
            Ok(e) => {
                proof {
                    lemma_exprs_view_push(al@, e);
                    assert(Seq::<ExprV>::empty().push(expr_view(e)) =~= seq![expr_view(e)]);
                }
                al.push(e);
            },
            Err(e) => {
                return Err(e);
            },
        }
        loop
            invariant
                self.after(*old(self)),
                self.pos > old(self).pos,
                toks == self.toks(),
                goal == p_args(toks, old(self).pos as int),
                p_args_rest(toks, self.pos as int, exprs_view(al@, al@.len())) == goal,
            decreases self.left(),
        {
            if self.peek_tag() != 28 {
                return Ok(al);
            }
            self.advance();
            match self.expr() {
                Ok(e) => {
                    proof {
                        lemma_exprs_view_push(al@, e);
                    }
                    al.push(e);
                },
                Err(e) => {
                    return Err(e);
                },
            }
        }
    }

    /// pair -> expr Colon expr
    pub fn pair(&mut self) -> (r: Result<(Expr, Expr), ParseError>)
        requires
            old(self).wf(),
        ensures
            final(self).after(*old(self)),
            r is Ok ==> final(self).pos > old(self).pos,
            agrees(
                p_pair(old(self).toks(), old(self).pos as int),
                r is Ok,
                (expr_view(r->Ok_0.0), expr_view(r->Ok_0.1)),
                final(self).pos as int,
            ),
        decreases old(self).left(), 6nat,
    {
        let e1 = match self.expr() {
            Ok(e) => e,
            Err(e) => {
                return Err(e);
            },
        };
        match self.consume(Token::Colon) {
            Ok(()) => {},
            Err(e) => {
                return Err(e);
            },
        }
        match self.expr() {
            Ok(e2) => Ok((e1, e2)),
            Err(e) => Err(e),
        }
    }

    /// pair_list -> pair (Comma pair)* | nothing
    pub fn pair_list(&mut self) -> (r: Result<Vec<(Expr, Expr)>, ParseError>)
        requires
            old(self).wf(),
        ensures
            final(self).after(*old(self)),
            agrees(
                p_pairs(old(self).toks(), old(self).pos as int),
                r is Ok,
                pairs_view(r->Ok_0@, r->Ok_0@.len()),
                final(self).pos as int,
            ),
        decreases old(self).left(), 7nat,
    {
        let mut pl: Vec<(Expr, Expr)> = Vec::new();
        let ghost toks = self.toks();
        let ghost goal = p_pairs(toks, self.pos as int);
        if !self.is_expr() {
            return Ok(pl);
        }
        match self.pair() {
            Ok(p) => {
                proof {
                    lemma_pairs_view_push(pl@, p);
                    assert(Seq::<(ExprV, ExprV)>::empty().push((expr_view(p.0), expr_view(p.1)))
                        =~= seq![(expr_view(p.0), expr_view(p.1))]);
                }
                pl.push(p);
            },
            Err(e) => {
                return Err(e);
            },
        }
        loop
            invariant
                self.after(*old(self)),
                self.pos > old(self).pos,
                toks == self.toks(),
                goal == p_pairs(toks, old(self).pos as int),
                p_pairs_rest(toks, self.pos as int, pairs_view(pl@, pl@.len())) == goal,
            decreases self.left(),
        {
            if self.peek_tag() != 28 {
                return Ok(pl);
            }
            self.advance();
            match self.pair() {
                Ok(p) => {
                    proof {
                        lemma_pairs_view_push(pl@, p);
                    }
                    pl.push(p);
                },
                Err(e) => {
                    return Err(e);
                },
            }
        }
    }
}

/// The assignment target that the expression `e` stands for: a variable, an
/// attribute or a subscript; `None` for any other expression.
pub fn to_target(e: Expr) -> (t: Option<Target>)
    ensures
        match e {
            Expr::VarExpr(id) => t == Some(Target::IdentTarget(id)),
            Expr::AttrExpr(obj, id) => t == Some(Target::AttrTarget(obj, id)),
            Expr::SubscrExpr(obj, key) => t == Some(Target::SubscrTarget(obj, key)),
            _ => t.is_none(),
        },
        match spec_to_target(expr_view(e)) {
            Some(tv) => t is Some && target_view(t->Some_0) == tv,
            None => t is None,
        },
{
    match e {
        Expr::VarExpr(id) => Some(Target::IdentTarget(id)),
        Expr::AttrExpr(expr, id) => Some(Target::AttrTarget(expr, id)),
        Expr::SubscrExpr(expr1, expr2) => Some(Target::SubscrTarget(expr1, expr2)),
        _ => None,
    }
}

} // verus!
