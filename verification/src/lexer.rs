use vstd::prelude::*;
use vstd::std_specs::iter::IteratorSpec;
use vstd::string::{StrSliceExecFns, StringExecFns};
use crate::token::{plain_tok, spec_tag, tok_view, toks_view, TokView, Token};

verus! {

broadcast use vstd::string::group_string_axioms;

/// Why a source text is no sequence of tokens, and where.
#[derive(Debug, PartialEq, Eq)]
pub struct LexingError {
    pub line: usize,
    pub row: usize,
    pub msg: String,
}

/// The decimal digits of `n`, most significant first; none for zero.
pub open spec fn spec_digits(n: nat) -> Seq<char>
    decreases n,
{
    if n == 0 {
        Seq::empty()
    } else {
        spec_digits(n / 10).push(spec_digit_char(n % 10))
    }
}

/// The character of the decimal digit `d`.
pub open spec fn spec_digit_char(d: nat) -> char {
    if d == 0 {
        '0'
    } else if d == 1 {
        '1'
    } else if d == 2 {
        '2'
    } else if d == 3 {
        '3'
    } else if d == 4 {
        '4'
    } else if d == 5 {
        '5'
    } else if d == 6 {
        '6'
    } else if d == 7 {
        '7'
    } else if d == 8 {
        '8'
    } else {
        '9'
    }
}

/// The decimal numeral of `n`.
pub open spec fn spec_decimal(n: nat) -> Seq<char> {
    if n == 0 {
        seq!['0']
    } else {
        spec_digits(n)
    }
}

/// The one-character text of the decimal digit `d`.
fn digit_str(d: usize) -> (s: &'static str)
    requires
        d < 10,
    ensures
        s@ == seq![spec_digit_char(d as nat)],
{
    proof {
        reveal_strlit("0");
        reveal_strlit("1");
        reveal_strlit("2");
        reveal_strlit("3");
        reveal_strlit("4");
        reveal_strlit("5");
        reveal_strlit("6");
        reveal_strlit("7");
        reveal_strlit("8");
        reveal_strlit("9");
    }
    let s = if d == 0 {
        "0"
    } else if d == 1 {
        "1"
    } else if d == 2 {
        "2"
    } else if d == 3 {
        "3"
    } else if d == 4 {
        "4"
    } else if d == 5 {
        "5"
    } else if d == 6 {
        "6"
    } else if d == 7 {
        "7"
    } else if d == 8 {
        "8"
    } else {
        "9"
    };
    proof {
        assert(s@ =~= seq![spec_digit_char(d as nat)]);
    }
    s
}

/// Appends the decimal digits of `n` to `out`.
fn push_digits(out: &mut String, n: usize)
    ensures
        final(out)@ == old(out)@ + spec_digits(n as nat),
    decreases n,
{
    if n == 0 {
        proof {
            assert(out@ + spec_digits(0) =~= out@);
        }
    } else {
        push_digits(out, n / 10);
        out.append(digit_str(n % 10));
        proof {
            assert(old(out)@ + spec_digits((n / 10) as nat) + seq![
                spec_digit_char((n % 10) as nat),
            ] =~= old(out)@ + spec_digits(n as nat));
        }
    }
}

/// Appends the decimal numeral of `n` to `out`.
pub fn push_decimal(out: &mut String, n: usize)
    ensures
        final(out)@ == old(out)@ + spec_decimal(n as nat),
{
    if n == 0 {
        out.append(digit_str(0));
    } else {
        push_digits(out, n);
    }
}

impl LexingError {
    pub fn new(line: usize, row: usize, msg: String) -> (e: LexingError)
        ensures
            e.line == line,
            e.row == row,
            e.msg == msg,
    {
        LexingError { line: line, row: row, msg: msg }
    }

    /// The text of the error: its place and its message.
    pub fn to_string(self) -> (s: String)
        ensures
            s@ == "Lexing Error: line "@ + spec_decimal(self.line as nat) + ", row "@
                + spec_decimal(self.row as nat) + ", "@ + self.msg@,
    {
        let mut s = String::from_str("Lexing Error: line ");
        push_decimal(&mut s, self.line);
        s.append(", row ");
        push_decimal(&mut s, self.row);
        s.append(", ");
        s.append(self.msg.as_str());
        s
    }
}

/// The token of the punctuation character `ch`.
pub open spec fn spec_symbol_to_token(ch: char) -> Option<Token> {
    if ch == '+' {
        Some(Token::Plus)
    } else if ch == '<' {
        Some(Token::Lt)
    } else if ch == '(' {
        Some(Token::LParen)
    } else if ch == ')' {
        Some(Token::RParen)
    } else if ch == '[' {
        Some(Token::LBracket)
    } else if ch == ']' {
        Some(Token::RBracket)
    } else if ch == '{' {
        Some(Token::LBrace)
    } else if ch == '}' {
        Some(Token::RBrace)
    } else if ch == ':' {
        Some(Token::Colon)
    } else if ch == ',' {
        Some(Token::Comma)
    } else if ch == '.' {
        Some(Token::Dot)
    } else {
        None
    }
}

/// The token of a punctuation character; `None` for any other character.
pub fn symbol_to_token(ch: char) -> (t: Option<Token>)
    ensures
        t == spec_symbol_to_token(ch),
{
    if ch == '+' {
        Some(Token::Plus)
    } else if ch == '<' {
        Some(Token::Lt)
    } else if ch == '(' {
        Some(Token::LParen)
    } else if ch == ')' {
        Some(Token::RParen)
    } else if ch == '[' {
        Some(Token::LBracket)
    } else if ch == ']' {
        Some(Token::RBracket)
    } else if ch == '{' {
        Some(Token::LBrace)
    } else if ch == '}' {
        Some(Token::RBrace)
    } else if ch == ':' {
        Some(Token::Colon)
    } else if ch == ',' {
        Some(Token::Comma)
    } else if ch == '.' {
        Some(Token::Dot)
    } else {
        None
    }
}

/// The keyword that the word `s` is, if it is one.
pub open spec fn spec_keyword(s: Seq<char>) -> Option<Token> {
    if s == "None"@ {
        Some(Token::NoneLit)
    } else if s == "True"@ {
        Some(Token::True)
    } else if s == "False"@ {
        Some(Token::False)
    } else if s == "if"@ {
        Some(Token::If)
    } else if s == "else"@ {
        Some(Token::Else)
    } else if s == "while"@ {
        Some(Token::While)
    } else if s == "for"@ {
        Some(Token::For)
    } else if s == "in"@ {
        Some(Token::In)
    } else if s == "break"@ {
        Some(Token::Break)
    } else if s == "continue"@ {
        Some(Token::Continue)
    } else if s == "def"@ {
        Some(Token::Def)
    } else if s == "return"@ {
        Some(Token::Return)
    } else if s == "assert"@ {
        Some(Token::Assert)
    } else if s == "class"@ {
        Some(Token::Class)
    } else {
        None
    }
}

/// Whether `a` holds the text `b`.
fn is_word(a: &String, b: &str) -> (r: bool)
    ensures
        r == (a@ == b@),
{
    let y = String::from_str(b);
    *a == y
}

/// The token of the word `s`: a keyword, or an identifier.
pub fn ident_to_token(s: String) -> (t: Token)
    ensures
        match spec_keyword(s@) {
            Some(k) => t == k,
            None => t == Token::Ident(s),
        },
{
    if is_word(&s, "None") {
        Token::NoneLit
    } else if is_word(&s, "True") {
        Token::True
    } else if is_word(&s, "False") {
        Token::False
    } else if is_word(&s, "if") {
        Token::If
    } else if is_word(&s, "else") {
        Token::Else
    } else if is_word(&s, "while") {
        Token::While
    } else if is_word(&s, "for") {
        Token::For
    } else if is_word(&s, "in") {
        Token::In
    } else if is_word(&s, "break") {
        Token::Break
    } else if is_word(&s, "continue") {
        Token::Continue
    } else if is_word(&s, "def") {
        Token::Def
    } else if is_word(&s, "return") {
        Token::Return
    } else if is_word(&s, "assert") {
        Token::Assert
    } else if is_word(&s, "class") {
        Token::Class
    } else {
        Token::Ident(s)
    }
}

pub open spec fn spec_is_number(ch: char) -> bool {
    '0' <= ch <= '9'
}

pub open spec fn spec_is_alphabet(ch: char) -> bool {
    ch == '_' || 'a' <= ch <= 'z' || 'A' <= ch <= 'Z'
}

/// Whether `ch` is a decimal digit.
pub fn is_number(ch: char) -> (r: bool)
    ensures
        r == spec_is_number(ch),
{
    '0' <= ch && ch <= '9'
}

/// Whether `ch` is a letter or an underscore.
pub fn is_alphabet(ch: char) -> (r: bool)
    ensures
        r == spec_is_alphabet(ch),
{
    ch == '_' || ('a' <= ch && ch <= 'z') || ('A' <= ch && ch <= 'Z')
}

/// Whether `ch` is a digit, a letter or an underscore.
pub fn is_alphanumeric(ch: char) -> (r: bool)
    ensures
        r == (spec_is_number(ch) || spec_is_alphabet(ch)),
{
    is_number(ch) || is_alphabet(ch)
}

/// Whether `ch` is a blank.
pub fn is_whitespace(ch: char) -> (r: bool)
    ensures
        r == (ch == ' '),
{
    ch == ' '
}

/// Whether `ch` is no single quote.
pub fn is_not_quote(ch: char) -> (r: bool)
    ensures
        r == (ch != '\''),
{
    ch != '\''
}

/// Whether `ch` is no double quote.
pub fn is_not_dquote(ch: char) -> (r: bool)
    ensures
        r == (ch != '"'),
{
    ch != '"'
}

/// The classes of characters that the lexer reads runs of.
#[derive(Clone, Copy, Debug, PartialEq, Eq, Structural)]
pub enum CharClass {
    Number,
    Alphanumeric,
    Whitespace,
    NotQuote,
    NotDquote,
}

impl CharClass {
    /// The character `ch` is of the class.
    pub open spec fn spec_has(self, ch: char) -> bool {
        match self {
            CharClass::Number => spec_is_number(ch),
            CharClass::Alphanumeric => spec_is_number(ch) || spec_is_alphabet(ch),
            CharClass::Whitespace => ch == ' ',
            CharClass::NotQuote => ch != '\'',
            CharClass::NotDquote => ch != '"',
        }
    }

    /// Whether the character `ch` is of the class.
    pub fn has(self, ch: char) -> (r: bool)
        ensures
            r == self.spec_has(ch),
    {
        match self {
            CharClass::Number => is_number(ch),
            CharClass::Alphanumeric => is_alphanumeric(ch),
            CharClass::Whitespace => is_whitespace(ch),
            CharClass::NotQuote => is_not_quote(ch),
            CharClass::NotDquote => is_not_dquote(ch),
        }
    }
}

/// The end of the longest run of characters of the class `class` that
/// begins at `from`.
pub open spec fn spec_run_end(chars: Seq<char>, from: int, class: CharClass) -> int
    decreases chars.len() - from,
{
    if from < 0 || from >= chars.len() || !class.spec_has(chars[from]) {
        from
    } else {
        spec_run_end(chars, from + 1, class)
    }
}

/// The characters of a text.
pub fn chars_of(s: &str) -> (v: Vec<char>)
    ensures
        v@ == s@,
{
    let mut v: Vec<char> = Vec::new();
    let mut it = s.chars();
    loop
        invariant
            v@ + it.remaining() == s@,
            it.obeys_prophetic_iter_laws(),
            it.decrease() is Some,
        ensures
            v@ == s@,
        decreases it.decrease()->0,
    {
        let ghost rem = it.remaining();
        match it.next() {
            Some(c) => {
                assert(v@.push(c) + rem.drop_first() =~= v@ + rem);
                v.push(c);
            },
            None => {
                assert(v@ + rem =~= v@);
                assert(v@ == s@);
                break ;
            },
        }
    }
    v
}

/// One more than `n`, or `n` where the machine's word holds no more.
pub open spec fn spec_next_count(n: usize) -> usize {
    if n < usize::MAX {
        (n + 1) as usize
    } else {
        n
    }
}

/// The line and the row of the position `pos` of the text `chars`. The
/// text begins in line 1 at row 1; a line feed begins a new line at row 0,
/// and every other character is one row on.
pub open spec fn spec_place(chars: Seq<char>, pos: int) -> (usize, usize)
    decreases pos,
{
    if pos <= 0 {
        (1, 1)
    } else {
        let before = spec_place(chars, pos - 1);
        if chars[pos - 1] == '\n' {
            (spec_next_count(before.0), 0)
        } else {
            (before.0, spec_next_count(before.1))
        }
    }
}

/// Why a text is no sequence of tokens: the position at which the lexer
/// gives up, and the message of the error.
pub struct LexFault {
    pub pos: int,
    pub msg: Seq<char>,
}

/// The error `e` is the error of the fault `f` in the text `chars`: it has
/// the message of the fault, and the line and the row of its position.
pub open spec fn error_of(e: LexingError, chars: Seq<char>, f: LexFault) -> bool {
    e.msg@ == f.msg && (e.line, e.row) == spec_place(chars, f.pos)
}

/// The state of the lexer: the source, the position in it, the stack of
/// indentation widths and the tokens made so far.
pub struct Lexer<'a> {
    pub src: &'a str,
    pub chars: Vec<char>,
    pub pos: usize,
    pub line: usize,
    pub row: usize,
    pub stack: Vec<usize>,
    pub is_line_head: bool,
    pub tokens: Vec<Token>,
}

impl<'a> Lexer<'a> {
    /// The lexer holds the characters of its source text, is within them,
    /// knows the line and the row of its position, and has an indentation
    /// width on its stack.
    pub open spec fn wf(&self) -> bool {
        &&& self.chars@ == self.src@
        &&& self.pos <= self.chars@.len()
        &&& self.stack@.len() > 0
        &&& (self.line, self.row) == spec_place(self.chars@, self.pos as int)
    }

    /// A lexer at the start of the text `s`.
    pub fn new(s: &'a String) -> (l: Lexer<'a>)
        ensures
            l.wf(),
            l.src@ == s@,
            l.pos == 0,
            l.line == 1,
            l.row == 1,
            l.stack@ == seq![0usize],
            l.is_line_head,
            l.tokens@.len() == 0,
    {
        let src = s.as_str();
        let mut stack: Vec<usize> = Vec::new();
        stack.push(0);
        proof {
            assert(stack@ =~= seq![0usize]);
        }
        Lexer {
            src: src,
            chars: chars_of(src),
            pos: 0,
            line: 1,
            row: 1,
            stack: stack,
            is_line_head: true,
            tokens: Vec::new(),
        }
    }

    /// The character at the position, if the text has not ended.
    pub fn peek(&self) -> (c: Option<char>)
        requires
            self.wf(),
        ensures
            c == if self.pos < self.chars@.len() {
                Some(self.chars@[self.pos as int])
            } else {
                None::<char>
            },
    {
        if self.pos < self.chars.len() {
            Some(self.chars[self.pos])
        } else {
            None
        }
    }

    /// Reads the character at the position and moves on. A line feed begins
    /// a new line.
    pub fn next(&mut self) -> (c: Option<char>)
        requires
            old(self).wf(),
        ensures
            final(self).wf(),
            final(self).src == old(self).src,
            final(self).chars == old(self).chars,
            final(self).stack == old(self).stack,
            final(self).tokens == old(self).tokens,
            final(self).is_line_head == old(self).is_line_head,
            if old(self).pos < old(self).chars@.len() {
                &&& c == Some(old(self).chars@[old(self).pos as int])
                &&& final(self).pos == old(self).pos + 1
            } else {
                c.is_none() && final(self).pos == old(self).pos && final(self).line == old(self).line && final(self).row == old(self).row
            },
    {
        if self.pos >= self.chars.len() {
            return None;
        }
        let c = self.chars[self.pos];
        self.pos = self.pos + 1;
        if c == '\n' {
            self.line = self.line.saturating_add(1);
            self.row = 0;
        } else {
            self.row = self.row.saturating_add(1);
        }
        Some(c)
    }

    /// Compares the width of the indentation of a line with the widths on
    /// the stack: a greater width opens a level, and a smaller one closes
    /// levels until a level of that width is reached; no such level is an
    /// error.
    pub fn calc_indent(&mut self, indent_level: usize) -> (r: Result<(), LexingError>)
        requires
            old(self).wf(),
        ensures
            final(self).wf(),
            final(self).src == old(self).src,
            final(self).chars == old(self).chars,
            final(self).pos == old(self).pos,
            final(self).is_line_head == old(self).is_line_head,
            match spec_indent(old(self).stack@, indent_level, toks_view(old(self).tokens@)) {
                Some((stack, out)) => r is Ok && final(self).stack@ == stack && toks_view(
                    final(self).tokens@,
                ) == out,
                None => r is Err && error_of(
                    r->Err_0,
                    old(self).chars@,
                    LexFault { pos: old(self).pos as int, msg: "Invalid indentation"@ },
                ),
            },
    {
        let mut last_indent_level = self.stack[self.stack.len() - 1];
        let ghost out0 = toks_view(self.tokens@);
        if indent_level > last_indent_level {
            self.stack.push(indent_level);
            self.tokens.push(Token::Indent);
            proof {
                assert(toks_view(self.tokens@) =~= out0.push(plain_tok(31)));
            }
        } else if indent_level < last_indent_level {
            loop
                invariant_except_break
                    indent_level < self.stack@.last(),
                    spec_dedent_to(self.stack@, indent_level, toks_view(self.tokens@))
                        == spec_indent(old(self).stack@, indent_level, out0),
                invariant
                    self.wf(),
                    self.src == old(self).src,
                    self.chars == old(self).chars,
                    self.pos == old(self).pos,
                    self.is_line_head == old(self).is_line_head,
                    out0 == toks_view(old(self).tokens@),
                ensures
                    spec_indent(old(self).stack@, indent_level, out0) == Some(
                        (self.stack@, toks_view(self.tokens@)),
                    ),
                decreases self.stack@.len(),
            {
                if self.stack.len() < 2 {
                    return Err(self.error("Invalid indentation"));
                }
                let ghost before = toks_view(self.tokens@);
                self.stack.pop();
                self.tokens.push(Token::Dedent);
                proof {
                    assert(toks_view(self.tokens@) =~= before.push(plain_tok(32)));
                }
                last_indent_level = self.stack[self.stack.len() - 1];
                if indent_level == last_indent_level {
                    break ;
                } else if indent_level > last_indent_level {
                    return Err(self.error("Invalid indentation"));
                }
            }
        }
        Ok(())
    }

    /// Reads the next character if it is `c1`.
    pub fn consume(&mut self, c1: char) -> (c: Option<char>)
        requires
            old(self).wf(),
        ensures
            final(self).wf(),
            final(self).src == old(self).src,
            final(self).chars == old(self).chars,
            final(self).stack == old(self).stack,
            final(self).tokens == old(self).tokens,
            final(self).is_line_head == old(self).is_line_head,
            final(self).pos == if old(self).pos < old(self).chars@.len() {
                old(self).pos + 1
            } else {
                old(self).pos as int
            },
            c == if old(self).pos < old(self).chars@.len() && old(self).chars@[old(self).pos as int] == c1 {
                Some(c1)
            } else {
                None::<char>
            },
    {
        match self.next() {
            Some(c2) => if c1 == c2 {
                Some(c1)
            } else {
                None
            },
            None => None,
        }
    }

    /// Reads the longest run of characters of the class `class` at the
    /// position, and returns where it began.
    pub fn consume_while(&mut self, class: CharClass) -> (start: usize)
        requires
            old(self).wf(),
        ensures
            final(self).wf(),
            final(self).src == old(self).src,
            final(self).chars == old(self).chars,
            final(self).stack == old(self).stack,
            final(self).tokens == old(self).tokens,
            final(self).is_line_head == old(self).is_line_head,
            start == old(self).pos,
            final(self).pos == spec_run_end(old(self).chars@, old(self).pos as int, class),
            start <= final(self).pos <= final(self).chars@.len(),
            forall|j: int| start <= j < final(self).pos ==> class.spec_has(final(self).chars@[j]),
            old(self).pos < old(self).chars@.len() && class.spec_has(
                old(self).chars@[old(self).pos as int],
            ) ==> final(self).pos > old(self).pos,
    {
        let start = self.pos;
        while self.pos < self.chars.len() && class.has(self.chars[self.pos])
            invariant
                self.wf(),
                self.src == old(self).src,
                self.chars == old(self).chars,
                self.stack == old(self).stack,
                self.tokens == old(self).tokens,
                self.is_line_head == old(self).is_line_head,
                start == old(self).pos,
                start <= self.pos,
                spec_run_end(self.chars@, start as int, class) == spec_run_end(
                    self.chars@,
                    self.pos as int,
                    class,
                ),
                forall|j: int| start <= j < self.pos ==> class.spec_has(self.chars@[j]),
            decreases self.chars@.len() - self.pos,
        {
            self.next();
        }
        start
    }

    /// The text between two positions of the source.
    pub fn text(&self, from: usize, to: usize) -> (s: String)
        requires
            self.wf(),
            from <= to <= self.chars@.len(),
        ensures
            s@ == self.chars@.subrange(from as int, to as int),
    {
        String::from_str(self.src.substring_char(from, to))
    }

    /// An error at the position of the lexer.
    pub fn error(&self, s: &str) -> (e: LexingError)
        ensures
            e.line == self.line,
            e.row == self.row,
            e.msg@ == s@,
    {
        LexingError::new(self.line, self.row, String::from_str(s))
    }
}

/// The value of the decimal numeral `digits`.
pub open spec fn spec_number(digits: Seq<char>) -> nat
    decreases digits.len(),
{
    if digits.len() == 0 {
        0
    } else {
        spec_number(digits.drop_last()) * 10 + (digits.last() as nat - '0' as nat) as nat
    }
}

/// The value of the decimal numeral between two positions, if it is at most
/// the greatest 32-bit integer.
pub fn parse_number(chars: &Vec<char>, from: usize, to: usize) -> (r: Option<i32>)
    requires
        from <= to <= chars@.len(),
        forall|j: int| from <= j < to ==> spec_is_number(chars@[j]),
    ensures
        match r {
            Some(n) => n == spec_number(chars@.subrange(from as int, to as int)),
            None => spec_number(chars@.subrange(from as int, to as int)) > i32::MAX,
        },
{
    let mut n: i32 = 0;
    let mut i = from;
    proof {
        assert(chars@.subrange(from as int, from as int) =~= Seq::<char>::empty());
    }
    while i < to
        invariant
            from <= i <= to <= chars@.len(),
            forall|j: int| from <= j < to ==> spec_is_number(chars@[j]),
            0 <= n,
            n == spec_number(chars@.subrange(from as int, i as int)),
        decreases to - i,
    {
        let d = (chars[i] as u32 - '0' as u32) as i32;
        proof {
            assert(chars@.subrange(from as int, i + 1).drop_last() =~= chars@.subrange(
                from as int,
                i as int,
            ));
            assert(chars@.subrange(from as int, i + 1).last() == chars@[i as int]);
            assert(spec_is_number(chars@[i as int]));
        }
        if n > (i32::MAX - d) / 10 {
            proof {
                lemma_number_grows(chars@, from as int, i + 1, to as int);
            }
            return None;
        }
        n = n * 10 + d;
        i = i + 1;
    }
    Some(n)
}

/// A numeral is worth at least as much as each of its beginnings.
pub proof fn lemma_number_grows(chars: Seq<char>, from: int, mid: int, to: int)
    requires
        0 <= from <= mid <= to <= chars.len(),
        forall|j: int| from <= j < to ==> spec_is_number(chars[j]),
    ensures
        spec_number(chars.subrange(from, mid)) <= spec_number(chars.subrange(from, to)),
    decreases to - mid,
{
    if mid < to {
        lemma_number_grows(chars, from, mid, to - 1);
        assert(chars.subrange(from, to).drop_last() =~= chars.subrange(from, to - 1));
        assert(chars.subrange(from, to).last() == chars[to - 1]);
        assert(spec_is_number(chars[to - 1]));
    }
}

/// The stack of indentation widths and the tokens after levels were
/// closed down to the width `level`, which is less than the width on top
/// of the stack: `None` where no level has that width.
pub open spec fn spec_dedent_to(stack: Seq<usize>, level: usize, out: Seq<TokView>) -> Option<
    (Seq<usize>, Seq<TokView>),
>
    decreases stack.len(),
{
    if stack.len() < 2 {
        None
    } else {
        let rest = stack.drop_last();
        let closed = out.push(plain_tok(32));
        if level == rest.last() {
            Some((rest, closed))
        } else if level > rest.last() {
            None
        } else {
            spec_dedent_to(rest, level, closed)
        }
    }
}

/// The stack of indentation widths and the tokens after a line of the
/// width `level` began: a greater width than the one on top of the stack
/// opens a level with an `Indent`, a smaller one closes levels with a
/// `Dedent` each.
pub open spec fn spec_indent(stack: Seq<usize>, level: usize, out: Seq<TokView>) -> Option<
    (Seq<usize>, Seq<TokView>),
> {
    if level > stack.last() {
        Some((stack.push(level), out.push(plain_tok(31))))
    } else if level == stack.last() {
        Some((stack, out))
    } else {
        spec_dedent_to(stack, level, out)
    }
}

/// The tokens after the levels that are open at the end of the text were
/// closed: a `Dedent` for every width on the stack down to the first that
/// is zero.
pub open spec fn spec_close(stack: Seq<usize>, out: Seq<TokView>) -> Seq<TokView>
    decreases stack.len(),
{
    if stack.len() == 0 || stack.last() == 0 {
        out
    } else {
        spec_close(stack.drop_last(), out.push(plain_tok(32)))
    }
}

/// The token of the word `s`: a keyword, or an identifier.
pub open spec fn spec_word(s: Seq<char>) -> TokView {
    match spec_keyword(s) {
        Some(k) => tok_view(k),
        None => TokView { tag: 0, text: s, num: 0 },
    }
}

/// What one step of the lexer reads at `pos`, which is within the text:
/// the token, if the step gives one, the position behind it, and whether a
/// line begins there; or why nothing can be read.
pub open spec fn spec_token(chars: Seq<char>, pos: int) -> Result<
    (Option<TokView>, int, bool),
    LexFault,
> {
    let ch = chars[pos];
    if spec_is_number(ch) {
        let e = spec_run_end(chars, pos, CharClass::Number);
        let n = spec_number(chars.subrange(pos, e));
        if n > i32::MAX {
            Err(LexFault { pos: e, msg: "integer literal too large"@ })
        } else {
            Ok((Some(TokView { tag: 1, text: Seq::empty(), num: n as int }), e, false))
        }
    } else if ch == '\'' {
        let e = spec_run_end(chars, pos + 1, CharClass::NotQuote);
        if e < chars.len() {
            Ok((Some(TokView { tag: 2, text: chars.subrange(pos + 1, e), num: 0 }), e + 1, false))
        } else {
            Err(LexFault { pos: chars.len() as int, msg: "' expected"@ })
        }
    } else if ch == '"' {
        let e = spec_run_end(chars, pos + 1, CharClass::NotDquote);
        if e < chars.len() {
            Ok((Some(TokView { tag: 2, text: chars.subrange(pos + 1, e), num: 0 }), e + 1, false))
        } else {
            Err(LexFault { pos: chars.len() as int, msg: "\" expected"@ })
        }
    } else if ch == '=' {
        if pos + 1 < chars.len() && chars[pos + 1] == '=' {
            Ok((Some(plain_tok(19)), pos + 2, false))
        } else {
            Ok((Some(plain_tok(18)), pos + 1, false))
        }
    } else if ch == '\n' {
        Ok((Some(plain_tok(30)), pos + 1, true))
    } else if spec_is_alphabet(ch) {
        let e = spec_run_end(chars, pos, CharClass::Alphanumeric);
        Ok((Some(spec_word(chars.subrange(pos, e))), e, false))
    } else if ch == ' ' {
        Ok((None, spec_run_end(chars, pos, CharClass::Whitespace), false))
    } else {
        match spec_symbol_to_token(ch) {
            Some(t) => Ok((Some(tok_view(t)), pos + 1, false)),
            None => Err(LexFault { pos: pos, msg: "Invalid character used"@ }),
        }
    }
}

/// The tokens of the text `chars` from `pos` on, behind the tokens `out`,
/// with the indentation widths `stack`; `head` says that a line begins at
/// `pos`. Where the text is no sequence of tokens, the fault says why.
///
/// At the head of a line the blanks are counted. A line of blanks alone is
/// skipped. On any other line the count is compared with the widths on the
/// stack, which opens or closes levels; a width that no open level has is
/// a fault behind the blanks. Within a line one token is read after the
/// other. At the end of the text the open levels are closed, and the
/// end-of-text token ends the tokens.
pub open spec fn spec_lex(
    chars: Seq<char>,
    pos: int,
    head: bool,
    stack: Seq<usize>,
    out: Seq<TokView>,
) -> Result<Seq<TokView>, LexFault>
    decreases chars.len() - pos, if head {
        1nat
    } else {
        0nat
    },
{
    if pos < 0 || pos > chars.len() {
        Err(LexFault { pos: pos, msg: Seq::empty() })
    } else if head {
        let e = spec_run_end(chars, pos, CharClass::Whitespace);
        if e < pos || e > chars.len() {
            Err(LexFault { pos: pos, msg: Seq::empty() })
        } else if e == chars.len() {
            Ok(spec_close(stack, out).push(plain_tok(33)))
        } else if chars[e] == '\n' {
            spec_lex(chars, e + 1, true, stack, out)
        } else {
            match spec_indent(stack, (e - pos) as usize, out) {
                Some((stack2, out2)) => spec_lex(chars, e, false, stack2, out2),
                None => Err(LexFault { pos: e, msg: "Invalid indentation"@ }),
            }
        }
    } else if pos == chars.len() {
        Ok(spec_close(stack, out).push(plain_tok(33)))
    } else {
        match spec_token(chars, pos) {
            Ok((t, next, h)) => if next <= pos || next > chars.len() {
                Err(LexFault { pos: pos, msg: Seq::empty() })
            } else {
                spec_lex(
                    chars,
                    next,
                    h,
                    stack,
                    match t {
                        Some(t) => out.push(t),
                        None => out,
                    },
                )
            },
            Err(f) => Err(f),
        }
    }
}

/// The tokens of the text `chars`, or why it is no sequence of tokens.
pub open spec fn spec_tokenize(chars: Seq<char>) -> Result<Seq<TokView>, LexFault> {
    spec_lex(chars, 0, true, seq![0usize], Seq::empty())
}

/// A run of characters ends within the text, at or behind its beginning.
pub proof fn lemma_run_end(chars: Seq<char>, from: int, class: CharClass)
    requires
        0 <= from <= chars.len(),
    ensures
        from <= spec_run_end(chars, from, class) <= chars.len(),
        spec_run_end(chars, from, class) < chars.len() ==> !class.spec_has(
            chars[spec_run_end(chars, from, class)],
        ),
        from < chars.len() && class.spec_has(chars[from]) ==> from < spec_run_end(
            chars,
            from,
            class,
        ),
    decreases chars.len() - from,
{
    if from < chars.len() && class.spec_has(chars[from]) {
        lemma_run_end(chars, from + 1, class);
    }
}

impl<'a> Lexer<'a> {
    /// Puts `t` behind the tokens.
    fn emit(&mut self, t: Token)
        ensures
            final(self).src == old(self).src,
            final(self).chars == old(self).chars,
            final(self).pos == old(self).pos,
            final(self).line == old(self).line,
            final(self).row == old(self).row,
            final(self).stack == old(self).stack,
            final(self).is_line_head == old(self).is_line_head,
            final(self).tokens@ == old(self).tokens@.push(t),
            toks_view(final(self).tokens@) == toks_view(old(self).tokens@).push(tok_view(t)),
    {
        self.tokens.push(t);
        proof {
            assert(toks_view(self.tokens@) =~= toks_view(old(self).tokens@).push(tok_view(t)));
        }
    }

    /// Reads one token, or a run of blanks, at the position, which is
    /// within the text and not at the head of a line.
    pub fn token(&mut self) -> (r: Result<(), LexingError>)
        requires
            old(self).wf(),
            old(self).pos < old(self).chars@.len(),
            !old(self).is_line_head,
        ensures
            final(self).wf(),
            final(self).src == old(self).src,
            final(self).chars == old(self).chars,
            final(self).stack == old(self).stack,
            match spec_token(old(self).chars@, old(self).pos as int) {
                Ok((t, next, head)) => {
                    &&& r is Ok
                    &&& final(self).pos == next
                    &&& next > old(self).pos
                    &&& final(self).is_line_head == head
                    &&& toks_view(final(self).tokens@) == match t {
                        Some(t) => toks_view(old(self).tokens@).push(t),
                        None => toks_view(old(self).tokens@),
                    }
                },
                Err(f) => r is Err && error_of(r->Err_0, old(self).chars@, f),
            },
    {
        let ch = self.chars[self.pos];
        let ghost chars = self.chars@;
        let ghost pos = self.pos as int;
        proof {
            lemma_run_end(chars, pos, CharClass::Number);
            lemma_run_end(chars, pos, CharClass::Alphanumeric);
            lemma_run_end(chars, pos, CharClass::Whitespace);
            lemma_run_end(chars, pos + 1, CharClass::NotQuote);
            lemma_run_end(chars, pos + 1, CharClass::NotDquote);
        }
        if is_number(ch) {
            let start = self.consume_while(CharClass::Number);
            match parse_number(&self.chars, start, self.pos) {
                Some(n) => {
                    self.emit(Token::Int(n));
                },
                None => {
                    return Err(self.error("integer literal too large"));
                },
            }
        } else if ch == '\'' {
            self.next();
            let start = self.consume_while(CharClass::NotQuote);
            let text = self.text(start, self.pos);
            self.emit(Token::Str(text));
            if self.consume('\'').is_none() {
                return Err(self.error("' expected"));
            }
        } else if ch == '"' {
            self.next();
            let start = self.consume_while(CharClass::NotDquote);
            let text = self.text(start, self.pos);
            self.emit(Token::Str(text));
            if self.consume('"').is_none() {
                return Err(self.error("\" expected"));
            }
        } else if ch == '=' {
            self.next();
            match self.peek() {
                Some('=') => {
                    self.next();
                    self.emit(Token::EqEq);
                },
                _ => {
                    self.emit(Token::Eq);
                },
            }
        } else if ch == '\n' {
            self.next();
            self.emit(Token::NewLine);
            self.is_line_head = true;
        } else if is_alphabet(ch) {
            let start = self.consume_while(CharClass::Alphanumeric);
            let word = self.text(start, self.pos);
            let token = ident_to_token(word);
            self.emit(token);
        } else if is_whitespace(ch) {
            self.consume_while(CharClass::Whitespace);
        } else {
            match symbol_to_token(ch) {
                Some(t) => {
                    self.next();
                    self.emit(t);
                },
                None => {
                    return Err(self.error("Invalid character used"));
                },
            }
        }
        Ok(())
    }
}

/// Turns a source text into tokens, as [`spec_lex`] says.
pub fn tokenize(s: String) -> (r: Result<Vec<Token>, LexingError>)
    ensures
        match spec_tokenize(s@) {
            Ok(tokens) => r is Ok && toks_view(r->Ok_0@) == tokens,
            Err(f) => r is Err && error_of(r->Err_0, s@, f),
        },
{
    let mut lexer = Lexer::new(&s);
    let ghost chars = s@;
    let ghost goal = spec_tokenize(chars);
    proof {
        assert(toks_view(lexer.tokens@) =~= Seq::<TokView>::empty());
    }
    loop
        invariant_except_break
            spec_lex(
                chars,
                lexer.pos as int,
                lexer.is_line_head,
                lexer.stack@,
                toks_view(lexer.tokens@),
            ) == goal,
        invariant
            lexer.wf(),
            lexer.chars@ == chars,
            chars == s@,
            goal == spec_tokenize(chars),
        ensures
            goal == Ok::<Seq<TokView>, LexFault>(
                spec_close(lexer.stack@, toks_view(lexer.tokens@)).push(plain_tok(33)),
            ),
        decreases
                lexer.chars@.len() - lexer.pos,
                if lexer.is_line_head {
                    1nat
                } else {
                    0nat
                },
    {
        if lexer.is_line_head {
            let ghost from = lexer.pos as int;
            proof {
                lemma_run_end(chars, from, CharClass::Whitespace);
            }
            let start = lexer.consume_while(CharClass::Whitespace);
            let indent_level = lexer.pos - start;
            match lexer.peek() {
                Some('\n') => {
                    lexer.next();
                    continue ;
                },
                Some(_) => {
                    match lexer.calc_indent(indent_level) {
                        Ok(()) => {},
                        Err(e) => {
                            return Err(e);
                        },
                    }
                    lexer.is_line_head = false;
                },
                None => {
                    break ;
                },
            }
        }
        assert(spec_lex(
            chars,
            lexer.pos as int,
            lexer.is_line_head,
            lexer.stack@,
            toks_view(lexer.tokens@),
        ) == goal);
        if lexer.pos >= lexer.chars.len() {
            break ;
        }
        match lexer.token() {
            Ok(()) => {},
            Err(e) => {
                return Err(e);
            },
        }
    }
    let mut tokens = lexer.tokens;
    let mut stack = lexer.stack;
    let ghost stack0 = stack@;
    let ghost out0 = toks_view(tokens@);
    loop
        invariant_except_break
            spec_close(stack@, toks_view(tokens@)) == spec_close(stack0, out0),
        ensures
            toks_view(tokens@) == spec_close(stack0, out0),
        decreases stack@.len(),
    {
        let ghost before = toks_view(tokens@);
        match stack.pop() {
            Some(i) => {
                if i != 0 {
                    tokens.push(Token::Dedent);
                    proof {
                        assert(toks_view(tokens@) =~= before.push(plain_tok(32)));
                    }
                } else {
                    break ;
                }
            },
            None => {
                break ;
            },
        }
    }
    let ghost before = toks_view(tokens@);
    tokens.push(Token::EOF);
    proof {
        assert(toks_view(tokens@) =~= before.push(plain_tok(33)));
    }
    Ok(tokens)
}

} // verus!
