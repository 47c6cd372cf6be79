use pyinterp::builtinmodule::load_builtins;
use pyinterp::compile::{compile, compile_expr, AddrInfo, CompileError};
use pyinterp::env::Env;
use pyinterp::error::PyErr;
use pyinterp::eval::{eval, raise, Block, BlockType, Flow, StackMachine, Why};
use pyinterp::lexer::{
    chars_of, ident_to_token, is_alphabet, is_alphanumeric, is_not_dquote, is_not_quote,
    is_number, is_whitespace, parse_number, symbol_to_token, tokenize, CharClass, Lexer,
    LexingError,
};
use pyinterp::object::generic::pyobj_to_i32;
use pyinterp::object::{
    PyInnerObject, PyObject, Runtime, PY_BOOL_TYPE, PY_BUILTIN_LEN, PY_EXC_TYPE, PY_FALSE,
    PY_LONG_TYPE, PY_NONE_OBJECT, PY_TRUE, PY_TYPEERROR_TYPE, PY_TYPE_TYPE,
};
use pyinterp::opcode::{clone_code, Opcode};
use pyinterp::parser::{to_target, Parser, TokenStream};
use pyinterp::syntax::{CompoundStmt, Expr, SimpleStmt, Stmt, Target};
use pyinterp::token::Token;

fn rt() -> Runtime {
    Runtime::new(100_000)
}

fn lex(s: &str) -> Vec<Token> {
    tokenize(s.to_string()).unwrap()
}

fn parse(s: &str) -> Vec<Stmt> {
    Parser::new(lex(s)).parse().unwrap()
}

fn id(s: &str) -> String {
    s.to_string()
}

fn var(s: &str) -> Expr {
    Expr::VarExpr(id(s))
}

#[test]
fn machine_stack_operations() {
    let mut m = StackMachine::new();
    assert_eq!(m.pc, 0);
    m.push(1);
    m.push(2);
    m.push(3);
    assert_eq!(m.top(), 3);
    assert_eq!(m.pop(), 3);
    m.push(4);
    m.push(5);
    assert_eq!(m.pop_as_vec(2), vec![4, 5]);
    assert_eq!(m.stack, vec![1, 2]);
    m.unwind_stack(5);
    assert_eq!(m.stack, vec![1, 2]);
    m.unwind_stack(1);
    assert_eq!(m.stack, vec![1]);
    assert_eq!(m.pop_value(), Ok(1));
    assert_eq!(m.pop_value(), Err(PyErr::InvalidCode));
    assert_eq!(m.pop_values(1), Err(PyErr::InvalidCode));
}

#[test]
fn break_unwinds_to_the_loop_block() {
    let mut rt = rt();
    let mut m = StackMachine::new();
    m.stack = vec![1, 2, 3, 4, 5];
    m.blocks = vec![
        Block { b_type: BlockType::LoopBlock, b_handler: 50, b_level: 1 },
        Block { b_type: BlockType::TryBlock, b_handler: 60, b_level: 3 },
    ];
    let w = m.unwind(&mut rt, Why::WhyBreak, 0);
    assert_eq!(w, Why::WhyNot);
    assert_eq!(m.pc, 50);
    assert_eq!(m.stack, vec![1]);
    assert!(m.blocks.is_empty());
}

#[test]
fn exception_unwinds_to_the_try_block_and_is_dropped() {
    let mut rt = rt();
    assert_eq!(raise(&mut rt, PyErr::TypeError("boom")), PyErr::Raised);
    assert!(rt.exc.is_some());
    let mut m = StackMachine::new();
    m.stack = vec![1, 2, 3, 4, 5];
    m.blocks = vec![
        Block { b_type: BlockType::TryBlock, b_handler: 60, b_level: 2 },
        Block { b_type: BlockType::LoopBlock, b_handler: 50, b_level: 4 },
    ];
    let w = m.unwind(&mut rt, Why::WhyException, 0);
    assert_eq!(w, Why::WhyNot);
    assert_eq!(m.pc, 60);
    assert_eq!(m.stack, vec![1, 2]);
    assert!(m.blocks.is_empty());
    assert!(rt.exc.is_none());
}

#[test]
fn continue_keeps_the_loop_block() {
    let mut rt = rt();
    let mut m = StackMachine::new();
    m.stack = vec![1, 2, 3];
    m.blocks = vec![
        Block { b_type: BlockType::LoopBlock, b_handler: 50, b_level: 1 },
        Block { b_type: BlockType::TryBlock, b_handler: 60, b_level: 2 },
    ];
    let w = m.unwind(&mut rt, Why::WhyContinue, 7);
    assert_eq!(w, Why::WhyNot);
    assert_eq!(m.pc, 7);
    assert_eq!(m.stack, vec![1, 2]);
    assert_eq!(m.blocks.len(), 1);
}

#[test]
fn return_unwinds_every_block() {
    let mut rt = rt();
    let mut m = StackMachine::new();
    m.pc = 9;
    m.stack = vec![1, 2, 3];
    m.blocks = vec![
        Block { b_type: BlockType::LoopBlock, b_handler: 50, b_level: 1 },
        Block { b_type: BlockType::TryBlock, b_handler: 60, b_level: 2 },
    ];
    let w = m.unwind(&mut rt, Why::WhyReturn, 0);
    assert_eq!(w, Why::WhyReturn);
    assert_eq!(m.pc, 9);
    assert_eq!(m.stack, vec![1]);
    assert!(m.blocks.is_empty());
    let w = m.unwind(&mut rt, Why::WhyException, 0);
    assert_eq!(w, Why::WhyException);
}

#[test]
fn single_instructions() {
    let mut rt = rt();
    let env = Env::new(&mut rt);
    let mut m = StackMachine::new();
    assert_eq!(m.op_load_const(&rt, PY_TRUE), Ok(Flow::Next));
    assert_eq!(m.op_load_const(&rt, 1_000_000), Err(PyErr::InvalidCode));
    assert_eq!(m.op_store_name(&mut rt, env, &id("t")), Ok(Flow::Next));
    assert_eq!(m.op_load_name(&rt, env, &id("t")), Ok(Flow::Next));
    assert_eq!(m.op_load_name(&rt, env, &id("u")), Err(PyErr::NameError));
    assert_eq!(m.stack, vec![PY_TRUE]);
    assert_eq!(m.pc, 3);
    assert_eq!(m.op_setup(BlockType::LoopBlock, 10), Ok(Flow::Next));
    assert_eq!(m.blocks, vec![Block { b_type: BlockType::LoopBlock, b_handler: 13, b_level: 1 }]);
    assert_eq!(m.op_setup(BlockType::TryBlock, usize::MAX), Err(PyErr::InvalidCode));
    m.push(PY_FALSE);
    assert_eq!(m.op_pop_block(), Ok(Flow::Next));
    assert_eq!(m.stack, vec![PY_TRUE]);
    assert_eq!(m.op_pop_block(), Err(PyErr::InvalidCode));
    assert_eq!(m.op_jump_absolute(40), Ok(Flow::Next));
    assert_eq!(m.pc, 40);
    assert_eq!(m.op_pop_jump_if(&mut rt, 3, true), Ok(Flow::Next));
    assert_eq!(m.pc, 3);
    m.push(PY_TRUE);
    assert_eq!(m.op_pop_jump_if(&mut rt, 30, false), Ok(Flow::Next));
    assert_eq!(m.pc, 4);
    assert_eq!(m.op_pop_top(), Err(PyErr::InvalidCode));
    m.push(PY_TRUE);
    assert_eq!(m.op_return_value(), Ok(Flow::Return(PY_TRUE)));
    assert_eq!(m.op_return_value(), Err(PyErr::InvalidCode));
}

#[test]
fn for_iter_pushes_items_and_then_leaves_the_loop() {
    let mut rt = rt();
    let a = PyObject::from_i32(&mut rt, 1);
    let b = PyObject::from_i32(&mut rt, 2);
    let l = PyObject::pylist_from_vec(&mut rt, &vec![a, b]);
    let mut m = StackMachine::new();
    m.push(PY_NONE_OBJECT);
    m.push(l);
    assert_eq!(m.op_get_iter(&mut rt), Ok(Flow::Next));
    let it = m.top();
    assert_eq!(m.op_for_iter(&mut rt, 99), Ok(Flow::Next));
    assert_eq!(m.stack, vec![PY_NONE_OBJECT, it, a]);
    m.pop();
    assert_eq!(m.op_for_iter(&mut rt, 99), Ok(Flow::Next));
    assert_eq!(m.stack, vec![PY_NONE_OBJECT, it, b]);
    assert_eq!(m.pc, 3);
    m.pop();
    assert_eq!(m.op_for_iter(&mut rt, 99), Ok(Flow::Next));
    assert_eq!(m.stack, vec![PY_NONE_OBJECT]);
    assert_eq!(m.pc, 99);
    assert!(m.blocks.is_empty());
    assert!(matches!(m.op_for_iter(&mut rt, 99), Err(PyErr::TypeError(_))));
    assert!(matches!(m.op_get_iter(&mut rt), Err(PyErr::TypeError(_))));
    assert_eq!(m.op_get_iter(&mut rt), Err(PyErr::InvalidCode));
}

#[test]
fn subscripts() {
    let mut rt = rt();
    let a = PyObject::from_i32(&mut rt, 7);
    let zero = PyObject::from_i32(&mut rt, 0);
    let minus = PyObject::from_i32(&mut rt, -1);
    let l = PyObject::pylist_from_vec(&mut rt, &vec![a]);
    let mut m = StackMachine::new();
    m.stack = vec![l, zero];
    assert_eq!(m.op_binary_subscr(&rt), Ok(Flow::Next));
    assert_eq!(m.stack, vec![a]);
    m.stack = vec![l, minus];
    assert!(matches!(m.op_binary_subscr(&rt), Err(PyErr::IndexError(_))));
    m.stack = vec![l, a];
    assert!(matches!(m.op_binary_subscr(&rt), Err(PyErr::IndexError(_))));
    m.stack = vec![l, l];
    assert!(matches!(m.op_binary_subscr(&rt), Err(PyErr::TypeError(_))));
    m.stack = vec![a, zero];
    assert!(matches!(m.op_binary_subscr(&rt), Err(PyErr::TypeError(_))));
    let d = PyObject::pydict_new(&mut rt);
    m.stack = vec![a, d, zero];
    assert_eq!(m.op_store_subscr(&mut rt), Ok(Flow::Next));
    m.stack = vec![d, zero];
    assert_eq!(m.op_binary_subscr(&rt), Ok(Flow::Next));
    assert_eq!(m.stack, vec![a]);
    m.stack = vec![d, a];
    assert!(matches!(m.op_binary_subscr(&rt), Err(PyErr::TypeError(_))));
    m.stack = vec![a, l, zero];
    assert!(matches!(m.op_store_subscr(&mut rt), Err(PyErr::TypeError(_))));
}

#[test]
fn handcrafted_try_block_catches_a_type_error() {
    let mut rt = rt();
    let env = Env::new(&mut rt);
    let one = PyObject::from_i32(&mut rt, 1);
    let s = PyObject::from_str(&mut rt, "a");
    let seven = PyObject::from_i32(&mut rt, 7);
    let code = vec![
        Opcode::SetupExcept(5),
        Opcode::LoadConst(one),
        Opcode::LoadConst(s),
        Opcode::BinaryAdd,
        Opcode::ReturnValue,
        Opcode::LoadConst(seven),
        Opcode::ReturnValue,
    ];
    assert_eq!(eval(&mut rt, &code, env), Ok(seven));
    assert!(rt.exc.is_none());
}

#[test]
fn handcrafted_raise() {
    let mut rt = rt();
    let env = Env::new(&mut rt);
    let code = vec![Opcode::LoadConst(PY_EXC_TYPE), Opcode::Raise];
    assert_eq!(eval(&mut rt, &code, env), Err(PyErr::Raised));
    let exc = rt.exc.unwrap();
    assert_eq!(rt.objects[exc].ob_type(), PY_EXC_TYPE);
    let code = vec![Opcode::LoadConst(exc), Opcode::Raise];
    assert_eq!(eval(&mut rt, &code, env), Err(PyErr::Raised));
    assert_eq!(rt.exc, Some(exc));
    let code = vec![Opcode::LoadConst(PY_TRUE), Opcode::Raise];
    assert_eq!(eval(&mut rt, &code, env), Err(PyErr::Raised));
    let exc = rt.exc.unwrap();
    assert_eq!(rt.objects[exc].ob_type(), PY_TYPEERROR_TYPE);
}

#[test]
fn code_that_asks_too_much_of_its_stacks() {
    let mut rt = rt();
    let env = Env::new(&mut rt);
    assert_eq!(eval(&mut rt, &vec![Opcode::PopTop], env), Err(PyErr::InvalidCode));
    assert_eq!(eval(&mut rt, &vec![Opcode::BinaryAdd], env), Err(PyErr::InvalidCode));
    assert_eq!(eval(&mut rt, &vec![Opcode::BreakLoop], env), Err(PyErr::InvalidCode));
    assert_eq!(eval(&mut rt, &vec![Opcode::ContinueLoop(0)], env), Err(PyErr::InvalidCode));
    assert_eq!(eval(&mut rt, &vec![Opcode::PopBlock], env), Err(PyErr::InvalidCode));
    assert_eq!(eval(&mut rt, &vec![Opcode::CallFunction(0)], env), Err(PyErr::InvalidCode));
    assert_eq!(eval(&mut rt, &vec![Opcode::BuildList(1)], env), Err(PyErr::InvalidCode));
    assert_eq!(eval(&mut rt, &vec![Opcode::BuildMap(1)], env), Err(PyErr::InvalidCode));
    assert_eq!(eval(&mut rt, &vec![Opcode::MakeClass(0)], env), Err(PyErr::InvalidCode));
    assert_eq!(eval(&mut rt, &vec![Opcode::Panic], env), Err(PyErr::AssertionError));
}

#[test]
fn running_off_the_end_returns_none() {
    let mut rt = rt();
    let env = Env::new(&mut rt);
    assert_eq!(eval(&mut rt, &vec![], env), Ok(PY_NONE_OBJECT));
    assert_eq!(eval(&mut rt, &vec![Opcode::JumpAbsolute(5)], env), Ok(PY_NONE_OBJECT));
}

#[test]
fn every_instruction_uses_up_a_step() {
    let mut rt = Runtime::new(2);
    let env = Env::new(&mut rt);
    let code = vec![
        Opcode::LoadConst(PY_TRUE),
        Opcode::PopTop,
        Opcode::LoadConst(PY_TRUE),
    ];
    assert_eq!(eval(&mut rt, &code, env), Err(PyErr::OutOfFuel));
    assert_eq!(rt.fuel, 0);
}

#[test]
fn loading_the_builtins_twice_changes_nothing() {
    let mut rt = rt();
    let env = Env::new(&mut rt);
    assert_eq!(load_builtins(&mut rt, env), Ok(()));
    let objects = rt.objects.len();
    let bindings = rt.envs[env].map.clone();
    assert_eq!(
        bindings,
        vec![
            (id("len"), PY_BUILTIN_LEN),
            (id("type"), PY_TYPE_TYPE),
            (id("int"), PY_LONG_TYPE),
            (id("bool"), PY_BOOL_TYPE),
            (id("Exception"), PY_EXC_TYPE),
        ]
    );
    let order = rt.objects[PY_BOOL_TYPE].pytype_tp_mro();
    let slots = rt.typeobj(PY_EXC_TYPE).slots();
    assert_eq!(load_builtins(&mut rt, env), Ok(()));
    assert_eq!(rt.objects.len(), objects);
    assert_eq!(rt.envs[env].map, bindings);
    assert_eq!(rt.objects[PY_BOOL_TYPE].pytype_tp_mro(), order);
    assert_eq!(rt.typeobj(PY_EXC_TYPE).slots(), slots);
    assert!(rt.exc.is_none());
}

#[test]
fn character_classes() {
    assert!(is_number('0') && is_number('9') && !is_number('a'));
    assert!(is_alphabet('_') && is_alphabet('a') && is_alphabet('Z') && !is_alphabet('1'));
    assert!(is_alphanumeric('1') && is_alphanumeric('b') && !is_alphanumeric('-'));
    assert!(is_whitespace(' ') && !is_whitespace('\t'));
    assert!(is_not_quote('"') && !is_not_quote('\''));
    assert!(is_not_dquote('\'') && !is_not_dquote('"'));
    assert!(CharClass::Number.has('5') && !CharClass::Whitespace.has('5'));
    assert_eq!(chars_of("añb"), vec!['a', 'ñ', 'b']);
}

#[test]
fn symbols_and_words() {
    assert_eq!(symbol_to_token('+'), Some(Token::Plus));
    assert_eq!(symbol_to_token('<'), Some(Token::Lt));
    assert_eq!(symbol_to_token('('), Some(Token::LParen));
    assert_eq!(symbol_to_token(')'), Some(Token::RParen));
    assert_eq!(symbol_to_token('['), Some(Token::LBracket));
    assert_eq!(symbol_to_token(']'), Some(Token::RBracket));
    assert_eq!(symbol_to_token('{'), Some(Token::LBrace));
    assert_eq!(symbol_to_token('}'), Some(Token::RBrace));
    assert_eq!(symbol_to_token(':'), Some(Token::Colon));
    assert_eq!(symbol_to_token(','), Some(Token::Comma));
    assert_eq!(symbol_to_token('.'), Some(Token::Dot));
    assert_eq!(symbol_to_token('-'), None);
    assert_eq!(ident_to_token(id("None")), Token::NoneLit);
    assert_eq!(ident_to_token(id("True")), Token::True);
    assert_eq!(ident_to_token(id("False")), Token::False);
    assert_eq!(ident_to_token(id("if")), Token::If);
    assert_eq!(ident_to_token(id("else")), Token::Else);
    assert_eq!(ident_to_token(id("while")), Token::While);
    assert_eq!(ident_to_token(id("for")), Token::For);
    assert_eq!(ident_to_token(id("in")), Token::In);
    assert_eq!(ident_to_token(id("break")), Token::Break);
    assert_eq!(ident_to_token(id("continue")), Token::Continue);
    assert_eq!(ident_to_token(id("def")), Token::Def);
    assert_eq!(ident_to_token(id("return")), Token::Return);
    assert_eq!(ident_to_token(id("assert")), Token::Assert);
    assert_eq!(ident_to_token(id("class")), Token::Class);
    assert_eq!(ident_to_token(id("iff")), Token::Ident(id("iff")));
}

#[test]
fn numbers() {
    let c = chars_of("x2147483647y");
    assert_eq!(parse_number(&c, 1, 11), Some(2147483647));
    assert_eq!(parse_number(&c, 1, 1), Some(0));
    let c = chars_of("2147483648");
    assert_eq!(parse_number(&c, 0, 10), None);
    let c = chars_of("007");
    assert_eq!(parse_number(&c, 0, 3), Some(7));
}

#[test]
fn tokens_of_a_line() {
    assert_eq!(
        lex("assert f(x1, 'a b') == [1]\n"),
        vec![
            Token::Assert,
            Token::Ident(id("f")),
            Token::LParen,
            Token::Ident(id("x1")),
            Token::Comma,
            Token::Str(id("a b")),
            Token::RParen,
            Token::EqEq,
            Token::LBracket,
            Token::Int(1),
            Token::RBracket,
            Token::NewLine,
            Token::EOF,
        ]
    );
    assert_eq!(lex(""), vec![Token::EOF]);
    assert_eq!(lex("x ="), vec![Token::Ident(id("x")), Token::Eq, Token::EOF]);
    assert_eq!(
        lex("d.k<{\"s\":None}"),
        vec![
            Token::Ident(id("d")),
            Token::Dot,
            Token::Ident(id("k")),
            Token::Lt,
            Token::LBrace,
            Token::Str(id("s")),
            Token::Colon,
            Token::NoneLit,
            Token::RBrace,
            Token::EOF,
        ]
    );
}

#[test]
fn indentation_becomes_tokens() {
    assert_eq!(
        lex("if a:\n  b\n    c\nd\n"),
        vec![
            Token::If,
            Token::Ident(id("a")),
            Token::Colon,
            Token::NewLine,
            Token::Indent,
            Token::Ident(id("b")),
            Token::NewLine,
            Token::Indent,
            Token::Ident(id("c")),
            Token::NewLine,
            Token::Dedent,
            Token::Dedent,
            Token::Ident(id("d")),
            Token::NewLine,
            Token::EOF,
        ]
    );
    assert_eq!(
        lex("while a:\n  b"),
        vec![
            Token::While,
            Token::Ident(id("a")),
            Token::Colon,
            Token::NewLine,
            Token::Indent,
            Token::Ident(id("b")),
            Token::Dedent,
            Token::EOF,
        ]
    );
}

#[test]
fn lexing_errors() {
    let e = tokenize(id("x = 1 - 2\n")).unwrap_err();
    assert_eq!((e.line, e.row), (1, 7));
    assert_eq!(e.to_string(), "Lexing Error: line 1, row 7, Invalid character used");
    let e = tokenize(id("s = 'abc")).unwrap_err();
    assert_eq!(e.msg, "' expected");
    let e = tokenize(id("s = \"abc")).unwrap_err();
    assert_eq!(e.msg, "\" expected");
    let e = tokenize(id("x = 99999999999\n")).unwrap_err();
    assert_eq!(e.msg, "integer literal too large");
    let e = tokenize(id("a:\n    b\n  c\n")).unwrap_err();
    assert_eq!(e.msg, "Invalid indentation");
    let e = LexingError::new(12, 0, id("m"));
    assert_eq!(e.to_string(), "Lexing Error: line 12, row 0, m");
}

#[test]
fn lexer_steps() {
    let s = id("ab  'c'\nd");
    let mut l = Lexer::new(&s);
    assert_eq!(l.peek(), Some('a'));
    assert_eq!(l.consume_while(CharClass::Alphanumeric), 0);
    assert_eq!(l.pos, 2);
    assert_eq!(l.text(0, 2), "ab");
    assert_eq!(l.consume_while(CharClass::Whitespace), 2);
    assert_eq!(l.consume('x'), None);
    assert_eq!(l.consume('c'), Some('c'));
    assert_eq!(l.next(), Some('\''));
    assert_eq!((l.line, l.row), (1, 8));
    assert_eq!(l.next(), Some('\n'));
    assert_eq!((l.line, l.row), (2, 0));
    assert_eq!(l.calc_indent(4), Ok(()));
    assert_eq!(l.calc_indent(8), Ok(()));
    assert_eq!(l.calc_indent(0), Ok(()));
    assert_eq!(l.tokens, vec![Token::Indent, Token::Indent, Token::Dedent, Token::Dedent]);
    assert_eq!(l.next(), Some('d'));
    assert_eq!(l.next(), None);
    assert_eq!(l.peek(), None);
    assert_eq!(l.error("m"), LexingError::new(2, 1, id("m")));
}

#[test]
fn expressions_parse_by_precedence() {
    assert_eq!(
        parse("a + b == c < d\n"),
        vec![Stmt::StmtSimple(SimpleStmt::ExprStmt(Expr::LtExpr(
            Box::new(Expr::EqEqExpr(
                Box::new(Expr::AddExpr(Box::new(var("a")), Box::new(var("b")))),
                Box::new(var("c"))
            )),
            Box::new(var("d"))
        )))]
    );
    assert_eq!(
        parse("a + b + c\n"),
        vec![Stmt::StmtSimple(SimpleStmt::ExprStmt(Expr::AddExpr(
            Box::new(var("a")),
            Box::new(Expr::AddExpr(Box::new(var("b")), Box::new(var("c"))))
        )))]
    );
    assert_eq!(
        parse("(a + b) + c\n"),
        vec![Stmt::StmtSimple(SimpleStmt::ExprStmt(Expr::AddExpr(
            Box::new(Expr::AddExpr(Box::new(var("a")), Box::new(var("b")))),
            Box::new(var("c"))
        )))]
    );
}

#[test]
fn calls_attributes_and_subscripts_chain() {
    assert_eq!(
        parse("f(1, x).a[2]()\n"),
        vec![Stmt::StmtSimple(SimpleStmt::ExprStmt(Expr::CallExpr(
            Box::new(Expr::SubscrExpr(
                Box::new(Expr::AttrExpr(
                    Box::new(Expr::CallExpr(
                        Box::new(var("f")),
                        vec![Expr::IntExpr(1), var("x")]
                    )),
                    id("a")
                )),
                Box::new(Expr::IntExpr(2))
            )),
            vec![]
        )))]
    );
}

#[test]
fn literals_parse() {
    assert_eq!(
        parse("[1, 'a', None, True, False, {}, {1: 2, 3: 4}, []]\n"),
        vec![Stmt::StmtSimple(SimpleStmt::ExprStmt(Expr::ListExpr(vec![
            Expr::IntExpr(1),
            Expr::StrExpr(id("a")),
            Expr::NoneExpr,
            Expr::BoolExpr(true),
            Expr::BoolExpr(false),
            Expr::DictExpr(vec![]),
            Expr::DictExpr(vec![
                (Expr::IntExpr(1), Expr::IntExpr(2)),
                (Expr::IntExpr(3), Expr::IntExpr(4))
            ]),
            Expr::ListExpr(vec![]),
        ])))]
    );
}

#[test]
fn simple_statements_parse() {
    assert_eq!(
        parse("x = 1\na.b = 2\nc[0] = 3\nreturn\nreturn x\nassert x\nbreak\ncontinue\n"),
        vec![
            Stmt::StmtSimple(SimpleStmt::AssignStmt(Target::IdentTarget(id("x")), Expr::IntExpr(1))),
            Stmt::StmtSimple(SimpleStmt::AssignStmt(
                Target::AttrTarget(Box::new(var("a")), id("b")),
                Expr::IntExpr(2)
            )),
            Stmt::StmtSimple(SimpleStmt::AssignStmt(
                Target::SubscrTarget(Box::new(var("c")), Box::new(Expr::IntExpr(0))),
                Expr::IntExpr(3)
            )),
            Stmt::StmtSimple(SimpleStmt::ReturnStmt(Expr::NoneExpr)),
            Stmt::StmtSimple(SimpleStmt::ReturnStmt(var("x"))),
            Stmt::StmtSimple(SimpleStmt::AssertStmt(var("x"))),
            Stmt::StmtSimple(SimpleStmt::BreakStmt),
            Stmt::StmtSimple(SimpleStmt::ContinueStmt),
        ]
    );
    assert_eq!(to_target(Expr::IntExpr(1)), None);
}

#[test]
fn compound_statements_parse() {
    assert_eq!(
        parse("if a:\n    b\nelse:\n    c\nwhile a:\n    b\nfor x in l:\n    b\ndef f(p, q):\n    b\nclass A(B, C):\n    b\nclass D:\n    b\nif a:\n    b\n"),
        vec![
            Stmt::StmtCompound(CompoundStmt::IfStmt(
                var("a"),
                vec![Stmt::StmtSimple(SimpleStmt::ExprStmt(var("b")))],
                vec![Stmt::StmtSimple(SimpleStmt::ExprStmt(var("c")))]
            )),
            Stmt::StmtCompound(CompoundStmt::WhileStmt(
                var("a"),
                vec![Stmt::StmtSimple(SimpleStmt::ExprStmt(var("b")))]
            )),
            Stmt::StmtCompound(CompoundStmt::ForStmt(
                Target::IdentTarget(id("x")),
                var("l"),
                vec![Stmt::StmtSimple(SimpleStmt::ExprStmt(var("b")))]
            )),
            Stmt::StmtCompound(CompoundStmt::DefStmt(
                id("f"),
                vec![id("p"), id("q")],
                vec![Stmt::StmtSimple(SimpleStmt::ExprStmt(var("b")))]
            )),
            Stmt::StmtCompound(CompoundStmt::ClassStmt(
                id("A"),
                vec![var("B"), var("C")],
                vec![Stmt::StmtSimple(SimpleStmt::ExprStmt(var("b")))]
            )),
            Stmt::StmtCompound(CompoundStmt::ClassStmt(
                id("D"),
                vec![],
                vec![Stmt::StmtSimple(SimpleStmt::ExprStmt(var("b")))]
            )),
            Stmt::StmtCompound(CompoundStmt::IfStmt(
                var("a"),
                vec![Stmt::StmtSimple(SimpleStmt::ExprStmt(var("b")))],
                vec![]
            )),
        ]
    );
}

#[test]
fn parse_errors() {
    let bad = vec![
        "x = \n",
        "1 = 2\n",
        "f(1\n",
        "x y\n",
        "def (a):\n    b\n",
        "def f(a,):\n    b\n",
        "class :\n    b\n",
        "for 1 in l:\n    b\n",
        "for x l:\n    b\n",
        "if a\n    b\n",
        "{1 2}\n",
        "[1\n",
        "a.1\n",
        "x = )\n",
    ];
    for s in bad {
        assert!(Parser::new(lex(s)).parse().is_err());
    }
    let e = Parser::new(lex("x y\n")).parse().unwrap_err();
    assert_eq!(e.to_string(), "Parse Error: end of line expected at token 1");
    assert!(Parser::new(vec![]).parse().is_err());
    let mut p = Parser::new(vec![Token::EOF]);
    p.pos = 5;
    assert!(p.parse().is_err());
}

#[test]
fn parser_steps() {
    let mut p = Parser::new(vec![Token::Ident(id("a")), Token::Int(3), Token::Str(id("s")), Token::If]);
    assert!(p.match_token(&Token::Ident(id("zzz"))));
    assert!(!p.match_token(&Token::If));
    assert!(p.is_expr() && !p.is_compound());
    assert!(p.consume_int().is_err());
    assert_eq!(p.consume_ident(), Ok(id("a")));
    assert!(p.consume_ident().is_err());
    assert_eq!(p.consume_int(), Ok(3));
    assert!(p.consume_str().is_ok());
    assert!(p.is_compound() && !p.is_expr());
    assert!(p.consume(Token::Else).is_err());
    assert_eq!(p.consume(Token::If), Ok(()));
    assert_eq!(p.peek_tag(), 255);
    assert!(p.consume(Token::If).is_err());
}

#[test]
fn code_of_an_assertion() {
    let mut rt = rt();
    let base = rt.objects.len();
    let code = compile(&mut rt, &parse("assert 42 == 42\n")).unwrap();
    assert_eq!(
        code,
        vec![
            Opcode::LoadConst(base),
            Opcode::LoadConst(base + 1),
            Opcode::BinaryEq,
            Opcode::PopJumpIfTrue(5),
            Opcode::Panic,
            Opcode::LoadConst(PY_NONE_OBJECT),
            Opcode::ReturnValue,
        ]
    );
    assert_eq!(rt.objects.len(), base + 2);
    assert_eq!(pyobj_to_i32(&rt, base).unwrap(), 42);
    assert_eq!(clone_code(&code), code);
}

#[test]
fn code_of_a_while_loop() {
    let mut rt = rt();
    let code = compile(&mut rt, &parse("while a:\n    if b:\n        break\n    continue\nc\n")).unwrap();
    assert_eq!(
        code,
        vec![
            Opcode::SetupLoop(10),
            Opcode::LoadName(id("a")),
            Opcode::PopJumpIfFalse(9),
            Opcode::LoadName(id("b")),
            Opcode::PopJumpIfFalse(7),
            Opcode::BreakLoop,
            Opcode::JumpAbsolute(7),
            Opcode::ContinueLoop(1),
            Opcode::JumpAbsolute(1),
            Opcode::PopBlock,
            Opcode::LoadName(id("c")),
            Opcode::PopTop,
            Opcode::LoadConst(PY_NONE_OBJECT),
            Opcode::ReturnValue,
        ]
    );
}

#[test]
fn code_of_a_for_loop() {
    let mut rt = rt();
    let code = compile(&mut rt, &parse("for x in l:\n    continue\n")).unwrap();
    assert_eq!(
        code,
        vec![
            Opcode::SetupLoop(8),
            Opcode::LoadName(id("l")),
            Opcode::GetIter,
            Opcode::ForIter(7),
            Opcode::StoreName(id("x")),
            Opcode::ContinueLoop(3),
            Opcode::JumpAbsolute(3),
            Opcode::PopBlock,
            Opcode::LoadConst(PY_NONE_OBJECT),
            Opcode::ReturnValue,
        ]
    );
}

#[test]
fn code_of_definitions() {
    let mut rt = rt();
    let base = rt.objects.len();
    let code = compile(&mut rt, &parse("def f(a):\n    return 1\nclass A(f):\n    x = 'y'\n")).unwrap();
    assert_eq!(
        code,
        vec![
            Opcode::LoadConst(base + 1),
            Opcode::LoadConst(base + 2),
            Opcode::MakeFunction,
            Opcode::StoreName(id("f")),
            Opcode::LoadName(id("f")),
            Opcode::LoadConst(base + 4),
            Opcode::LoadConst(base + 5),
            Opcode::MakeClass(1),
            Opcode::StoreName(id("A")),
            Opcode::LoadConst(PY_NONE_OBJECT),
            Opcode::ReturnValue,
        ]
    );
    assert_eq!(rt.objects.len(), base + 6);
    assert_eq!(pyobj_to_i32(&rt, base).unwrap(), 1);
    assert_eq!(
        rt.objects[base + 1].pycode_code(),
        vec![
            Opcode::LoadConst(base),
            Opcode::ReturnValue,
            Opcode::LoadConst(PY_NONE_OBJECT),
            Opcode::ReturnValue,
        ]
    );
    assert_eq!(rt.objects[base + 1].pycode_argnames(), vec![id("a")]);
    assert_eq!(rt.objects[base + 4].pycode_argnames(), Vec::<String>::new());
    match &rt.objects[base + 5].inner {
        PyInnerObject::StrObj(s) => assert_eq!(s.s, "A"),
        _ => panic!("string expected"),
    }
    let f = PyObject::pyfun_new(&mut rt, 0, base + 1);
    assert_eq!(PyObject::pyfun_argnames(&rt, f), vec![id("a")]);
    assert_eq!(PyObject::pyfun_code(&rt, f).len(), 4);
}

#[test]
fn code_of_expressions() {
    let mut rt = rt();
    let base = rt.objects.len();
    let e = Expr::CallExpr(
        Box::new(Expr::AttrExpr(Box::new(var("o")), id("m"))),
        vec![
            Expr::BoolExpr(true),
            Expr::NoneExpr,
            Expr::ListExpr(vec![Expr::IntExpr(5)]),
            Expr::DictExpr(vec![(Expr::StrExpr(id("k")), Expr::BoolExpr(false))]),
            Expr::SubscrExpr(Box::new(var("a")), Box::new(Expr::IntExpr(0))),
        ],
    );
    assert_eq!(
        compile_expr(&mut rt, &e),
        vec![
            Opcode::LoadName(id("o")),
            Opcode::LoadAttr(id("m")),
            Opcode::LoadConst(PY_TRUE),
            Opcode::LoadConst(PY_NONE_OBJECT),
            Opcode::LoadConst(base),
            Opcode::BuildList(1),
            Opcode::LoadConst(base + 1),
            Opcode::LoadConst(PY_FALSE),
            Opcode::BuildMap(1),
            Opcode::LoadName(id("a")),
            Opcode::LoadConst(base + 2),
            Opcode::BinarySubScr,
            Opcode::CallFunction(5),
        ]
    );
}

#[test]
fn continue_needs_a_loop() {
    let mut rt = rt();
    assert_eq!(compile(&mut rt, &parse("continue\n")), Err(CompileError::ContinueOutsideLoop));
    assert_eq!(
        compile(&mut rt, &parse("while a:\n    def f():\n        continue\n")),
        Err(CompileError::ContinueOutsideLoop)
    );
    assert!(compile(&mut rt, &parse("while a:\n    if b:\n        continue\n")).is_ok());
    let a = AddrInfo::new();
    assert_eq!((a.start, a.cont), (0, None));
    let b = AddrInfo { start: 3, cont: Some(1) }.change_start(9);
    assert_eq!((b.start, b.cont), (9, Some(1)));
}
