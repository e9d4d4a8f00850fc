//! The parser of hook `when` rules: precedence climbing over the tokens of the lexer.

use vstd::prelude::*;

use crate::hooks::lexer::{
    RuleError, Token, TokenView, lemma_lex_identifier, lemma_lex_spaced_symbol, lex, lex_from, lex_spec, plain_identifier,
    tokens_view,
};
use crate::text::{eq_str, owned, push_str};

verus! {

/// Unary operators.
#[derive(Clone, Copy, Debug, PartialEq, Eq, Structural)]
pub enum UnaryOp {
    /// Logical not.
    Not,
    /// Numeric negation.
    Neg,
}

/// Binary operators.
#[derive(Clone, Copy, Debug, PartialEq, Eq, Structural)]
pub enum BinaryOp {
    /// Equality.
    Eq,
    /// Inequality.
    Ne,
    /// Greater than.
    Gt,
    /// Greater or equal.
    Ge,
    /// Less than.
    Lt,
    /// Less or equal.
    Le,
    /// Logical and.
    And,
    /// Logical or.
    Or,
    /// Addition.
    Add,
    /// Subtraction.
    Sub,
    /// Multiplication.
    Mul,
    /// Division.
    Div,
    /// Membership.
    In,
    /// String contains.
    Contains,
    /// String prefix.
    StartsWith,
    /// String suffix.
    EndsWith,
    /// Regex match.
    Matches,
}

/// A literal value of a rule. A number keeps its digits and unit as written.
#[derive(Clone, Debug, PartialEq, Eq)]
pub enum Literal {
    /// Null.
    Null,
    /// Boolean.
    Bool(bool),
    /// Number: digits (with at most one dot) and a unit (possibly empty).
    Number {
        /// Digits and dot.
        digits: String,
        /// Unit letters.
        unit: String,
    },
    /// String.
    Str(String),
}

/// Expression node.
#[derive(Debug)]
pub enum Expr {
    /// Literal value.
    Literal(Literal),
    /// Variable path such as `file.ext`.
    Variable(String),
    /// Unary expression.
    Unary {
        /// Operator.
        op: UnaryOp,
        /// Inner expression.
        expr: Box<Expr>,
    },
    /// Binary expression.
    Binary {
        /// Left expression.
        left: Box<Expr>,
        /// Operator.
        op: BinaryOp,
        /// Right expression.
        right: Box<Expr>,
    },
    /// Array literal.
    Array(Vec<Expr>),
}

pub enum LiteralView {
    Null,
    Bool(bool),
    Number { digits: Seq<char>, unit: Seq<char> },
    Str(Seq<char>),
}

pub enum ExprView {
    Literal(LiteralView),
    Variable(Seq<char>),
    Unary { op: UnaryOp, expr: Box<ExprView> },
    Binary { left: Box<ExprView>, op: BinaryOp, right: Box<ExprView> },
    Array(Seq<ExprView>),
}

/// The mathematical content of a literal.
pub open spec fn literal_view(l: Literal) -> LiteralView {
    match l {
        Literal::Null => LiteralView::Null,
        Literal::Bool(b) => LiteralView::Bool(b),
        Literal::Number { digits, unit } => LiteralView::Number { digits: digits@, unit: unit@ },
        Literal::Str(s) => LiteralView::Str(s@),
    }
}

/// The mathematical content of an expression.
pub open spec fn expr_view(e: Expr) -> ExprView
    decreases e,
{
    match e {
        Expr::Literal(l) => ExprView::Literal(literal_view(l)),
        Expr::Variable(v) => ExprView::Variable(v@),
        Expr::Unary { op, expr } => ExprView::Unary { op, expr: Box::new(expr_view(*expr)) },
        Expr::Binary { left, op, right } => ExprView::Binary {
            left: Box::new(expr_view(*left)),
            op,
            right: Box::new(expr_view(*right)),
        },
        Expr::Array(items) => ExprView::Array(exprs_view(items@)),
    }
}

/// The mathematical content of a sequence of expressions.
pub open spec fn exprs_view(items: Seq<Expr>) -> Seq<ExprView>
    decreases items,
{
    if items.len() == 0 {
        Seq::empty()
    } else {
        exprs_view(items.drop_last()).push(expr_view(items.last()))
    }
}

/// The token at position `p`; past the end, `Eof`.
pub open spec fn tok(ts: Seq<TokenView>, p: nat) -> TokenView {
    if p < ts.len() {
        ts[p as int]
    } else {
        TokenView::Eof
    }
}

/// Whether the token at `p` is the symbol `s`.
pub open spec fn is_sym(ts: Seq<TokenView>, p: nat, s: Seq<char>) -> bool {
    tok(ts, p) matches TokenView::Symbol(x) && x == s
}

/// The binary operator a symbol names, with its precedence (higher binds tighter).
pub open spec fn binary_op_of(s: Seq<char>) -> Option<(BinaryOp, nat)> {
    if s == "||"@ {
        Some((BinaryOp::Or, 1))
    } else if s == "&&"@ {
        Some((BinaryOp::And, 2))
    } else if s == "=="@ {
        Some((BinaryOp::Eq, 3))
    } else if s == "!="@ {
        Some((BinaryOp::Ne, 3))
    } else if s == ">"@ {
        Some((BinaryOp::Gt, 3))
    } else if s == ">="@ {
        Some((BinaryOp::Ge, 3))
    } else if s == "<"@ {
        Some((BinaryOp::Lt, 3))
    } else if s == "<="@ {
        Some((BinaryOp::Le, 3))
    } else if s == "in"@ {
        Some((BinaryOp::In, 3))
    } else if s == "contains"@ {
        Some((BinaryOp::Contains, 3))
    } else if s == "starts_with"@ {
        Some((BinaryOp::StartsWith, 3))
    } else if s == "ends_with"@ {
        Some((BinaryOp::EndsWith, 3))
    } else if s == "matches"@ {
        Some((BinaryOp::Matches, 3))
    } else if s == "+"@ {
        Some((BinaryOp::Add, 4))
    } else if s == "-"@ {
        Some((BinaryOp::Sub, 4))
    } else if s == "*"@ {
        Some((BinaryOp::Mul, 5))
    } else if s == "/"@ {
        Some((BinaryOp::Div, 5))
    } else {
        None
    }
}

/// The binary operator at `p`, if the token there is one.
pub open spec fn bin_op_at(ts: Seq<TokenView>, p: nat) -> Option<(BinaryOp, nat)> {
    match tok(ts, p) {
        TokenView::Symbol(x) => binary_op_of(x),
        _ => None,
    }
}

/// A token as `{:?}` shows the tokens that cannot start an expression.
pub open spec fn token_debug(t: TokenView) -> Seq<char> {
    match t {
        TokenView::Symbol(s) => "Symbol(\""@ + s + "\")"@,
        TokenView::Eof => "Eof"@,
        _ => "token"@,
    }
}

/// A parse result: the expression and the position after it.
pub type ParseResult = Result<(ExprView, nat), Seq<char>>;

/// An expression from `p` on whose operators bind at least as tightly as `min`.
pub open spec fn p_expr(ts: Seq<TokenView>, p: nat, min: nat) -> Result<(ExprView, nat), Seq<char>>
    decreases ts.len() - p, 2nat,
{
    match p_unary(ts, p) {
        Err(m) => Err(m),
        Ok((left, q)) => if p < q <= ts.len() {
            p_loop(ts, left, q, min)
        } else {
            Err(Seq::empty())
        },
    }
}

/// The binary operators that follow `left` at `p`: each one binding at least as tightly as
/// `min` takes the expression of tighter operators on its right.
pub open spec fn p_loop(ts: Seq<TokenView>, left: ExprView, p: nat, min: nat) -> Result<(ExprView, nat), Seq<char>>
    decreases ts.len() - p, 0nat,
{
    match bin_op_at(ts, p) {
        Some((op, prec)) => if prec < min {
            Ok((left, p))
        } else if p < ts.len() {
            match p_expr(ts, p + 1, prec + 1) {
                Err(m) => Err(m),
                Ok((right, q)) => if p + 1 < q <= ts.len() {
                    p_loop(ts, ExprView::Binary { left: Box::new(left), op, right: Box::new(right) }, q, min)
                } else {
                    Err(Seq::empty())
                },
            }
        } else {
            Ok((left, p))
        },
        None => Ok((left, p)),
    }
}

/// A unary expression at `p`: `!` and `-` prefixes, then a primary expression.
pub open spec fn p_unary(ts: Seq<TokenView>, p: nat) -> Result<(ExprView, nat), Seq<char>>
    decreases ts.len() - p, 1nat,
{
    if p < ts.len() && (is_sym(ts, p, "!"@) || is_sym(ts, p, "-"@)) {
        let op = if is_sym(ts, p, "!"@) { UnaryOp::Not } else { UnaryOp::Neg };
        match p_unary(ts, p + 1) {
            Err(m) => Err(m),
            Ok((e, q)) => Ok((ExprView::Unary { op, expr: Box::new(e) }, q)),
        }
    } else {
        p_primary(ts, p)
    }
}

/// A primary expression at `p`: a variable, a literal, a parenthesised expression or an
/// array.
pub open spec fn p_primary(ts: Seq<TokenView>, p: nat) -> Result<(ExprView, nat), Seq<char>>
    decreases ts.len() - p, 0nat,
{
    match tok(ts, p) {
        TokenView::Ident(v) => Ok((ExprView::Variable(v), p + 1)),
        TokenView::Str(s) => Ok((ExprView::Literal(LiteralView::Str(s)), p + 1)),
        TokenView::Number { digits, unit } => Ok((ExprView::Literal(LiteralView::Number { digits, unit }), p + 1)),
        TokenView::Bool(b) => Ok((ExprView::Literal(LiteralView::Bool(b)), p + 1)),
        TokenView::Null => Ok((ExprView::Literal(LiteralView::Null), p + 1)),
        TokenView::Symbol(s) => if s == "("@ && p < ts.len() {
            match p_expr(ts, p + 1, 0) {
                Err(m) => Err(m),
                Ok((e, q)) => if is_sym(ts, q, ")"@) {
                    Ok((e, q + 1))
                } else {
                    Err("expected ')'"@)
                },
            }
        } else if s == "["@ && p < ts.len() {
            if is_sym(ts, p + 1, "]"@) {
                Ok((ExprView::Array(Seq::empty()), p + 2))
            } else {
                p_items(ts, p + 1, Seq::empty())
            }
        } else {
            Err("expected expression, got "@ + token_debug(tok(ts, p)))
        },
        TokenView::Eof => Err("expected expression, got "@ + token_debug(TokenView::Eof)),
    }
}

/// The items of an array from `p` on, after `acc`: expressions separated by commas, up to
/// the closing bracket.
pub open spec fn p_items(ts: Seq<TokenView>, p: nat, acc: Seq<ExprView>) -> Result<(ExprView, nat), Seq<char>>
    decreases ts.len() - p, 3nat,
{
    match p_expr(ts, p, 0) {
        Err(m) => Err(m),
        Ok((e, q)) => if p < q <= ts.len() {
            if is_sym(ts, q, "]"@) {
                Ok((ExprView::Array(acc.push(e)), q + 1))
            } else if is_sym(ts, q, ","@) {
                p_items(ts, q + 1, acc.push(e))
            } else {
                Err("expected ','"@)
            }
        } else {
            Err(Seq::empty())
        },
    }
}

/// The expression of a rule, or the first error: lexing errors, then parsing errors, then
/// tokens left over.
pub open spec fn parse_rule_spec(input: Seq<char>) -> Result<ExprView, Seq<char>> {
    match lex_spec(input) {
        Err(m) => Err(m),
        Ok(ts) => match p_expr(ts, 0, 0) {
            Err(m) => Err(m),
            Ok((e, q)) => if tok(ts, q) is Eof {
                Ok(e)
            } else {
                Err("unexpected trailing tokens"@)
            },
        },
    }
}

fn sym_at(ts: &Vec<Token>, p: usize, s: &str) -> (b: bool)
    ensures
        b == is_sym(tokens_view(ts@), p as nat, s@),
{
    if p < ts.len() {
        match &ts[p] {
            Token::Symbol(x) => crate::text::eq_str(x.as_str(), s),
            _ => false,
        }
    } else {
        false
    }
}

fn op_of(s: &str) -> (r: Option<(BinaryOp, u8)>)
    ensures
        match r {
            Some((op, prec)) => binary_op_of(s@) == Some((op, prec as nat)),
            None => binary_op_of(s@) is None,
        },
{
    if eq_str(s, "||") {
        Some((BinaryOp::Or, 1))
    } else if eq_str(s, "&&") {
        Some((BinaryOp::And, 2))
    } else if eq_str(s, "==") {
        Some((BinaryOp::Eq, 3))
    } else if eq_str(s, "!=") {
        Some((BinaryOp::Ne, 3))
    } else if eq_str(s, ">") {
        Some((BinaryOp::Gt, 3))
    } else if eq_str(s, ">=") {
        Some((BinaryOp::Ge, 3))
    } else if eq_str(s, "<") {
        Some((BinaryOp::Lt, 3))
    } else if eq_str(s, "<=") {
        Some((BinaryOp::Le, 3))
    } else if eq_str(s, "in") {
        Some((BinaryOp::In, 3))
    } else if eq_str(s, "contains") {
        Some((BinaryOp::Contains, 3))
    } else if eq_str(s, "starts_with") {
        Some((BinaryOp::StartsWith, 3))
    } else if eq_str(s, "ends_with") {
        Some((BinaryOp::EndsWith, 3))
    } else if eq_str(s, "matches") {
        Some((BinaryOp::Matches, 3))
    } else if eq_str(s, "+") {
        Some((BinaryOp::Add, 4))
    } else if eq_str(s, "-") {
        Some((BinaryOp::Sub, 4))
    } else if eq_str(s, "*") {
        Some((BinaryOp::Mul, 5))
    } else if eq_str(s, "/") {
        Some((BinaryOp::Div, 5))
    } else {
        None
    }
}

/// The binary operator at `p` with its precedence, if the token there is one.
fn current_binary_op(ts: &Vec<Token>, p: usize) -> (r: Option<(BinaryOp, u8)>)
    ensures
        match r {
            Some((op, prec)) => bin_op_at(tokens_view(ts@), p as nat) == Some((op, prec as nat)),
            None => bin_op_at(tokens_view(ts@), p as nat) is None,
        },
{
    if p < ts.len() {
        match &ts[p] {
            Token::Symbol(x) => op_of(x.as_str()),
            _ => None,
        }
    } else {
        None
    }
}

/// Whether `r` is the parse result that `expected` describes.
pub open spec fn parsed(r: Result<(Expr, usize), RuleError>, expected: Result<(ExprView, nat), Seq<char>>) -> bool {
    match expected {
        Ok((e, q)) => r matches Ok((x, k)) && expr_view(x) == e && k == q,
        Err(m) => r matches Err(x) && x.message@ == m,
    }
}

fn parse_expression(ts: &Vec<Token>, p: usize, min: u8) -> (r: Result<(Expr, usize), RuleError>)
    requires
        p <= ts.len(),
        min <= 6,
    ensures
        parsed(r, p_expr(tokens_view(ts@), p as nat, min as nat)),
        r matches Ok((_, k)) ==> p < k <= ts.len(),
    decreases ts.len() - p, 2nat,
{
    let (left, q) = parse_unary(ts, p)?;
    parse_loop(ts, left, q, min, p)
}

fn parse_loop(ts: &Vec<Token>, left: Expr, p: usize, min: u8, start: usize) -> (r: Result<(Expr, usize), RuleError>)
    requires
        start < p <= ts.len(),
        min <= 6,
    ensures
        parsed(r, p_loop(tokens_view(ts@), expr_view(left), p as nat, min as nat)),
        r matches Ok((_, k)) ==> p <= k <= ts.len(),
    decreases ts.len() - p, 0nat,
{
    match current_binary_op(ts, p) {
        Some((op, prec)) => {
            if prec < min {
                return Ok((left, p));
            }
            if p >= ts.len() {
                return Ok((left, p));
            }
            let (right, q) = parse_expression(ts, p + 1, prec + 1)?;
            let combined = Expr::Binary { left: Box::new(left), op, right: Box::new(right) };
            parse_loop(ts, combined, q, min, start)
        },
        None => Ok((left, p)),
    }
}

fn parse_unary(ts: &Vec<Token>, p: usize) -> (r: Result<(Expr, usize), RuleError>)
    requires
        p <= ts.len(),
    ensures
        parsed(r, p_unary(tokens_view(ts@), p as nat)),
        r matches Ok((_, k)) ==> p < k <= ts.len(),
    decreases ts.len() - p, 1nat,
{
    if p < ts.len() && (sym_at(ts, p, "!") || sym_at(ts, p, "-")) {
        let op = if sym_at(ts, p, "!") { UnaryOp::Not } else { UnaryOp::Neg };
        let (e, q) = parse_unary(ts, p + 1)?;
        Ok((Expr::Unary { op, expr: Box::new(e) }, q))
    } else {
        parse_primary(ts, p)
    }
}

fn primary_error(ts: &Vec<Token>, p: usize) -> (e: RuleError)
    ensures
        e.message@ == "expected expression, got "@ + token_debug(tok(tokens_view(ts@), p as nat)),
{
    let mut m = owned("expected expression, got ");
    if p < ts.len() {
        match &ts[p] {
            Token::Symbol(x) => {
                push_str(&mut m, "Symbol(\"");
                push_str(&mut m, x.as_str());
                push_str(&mut m, "\")");
            },
            Token::Eof => {
                push_str(&mut m, "Eof");
            },
            _ => {
                push_str(&mut m, "token");
            },
        }
    } else {
        push_str(&mut m, "Eof");
    }
    RuleError::new(m)
}

fn parse_primary(ts: &Vec<Token>, p: usize) -> (r: Result<(Expr, usize), RuleError>)
    requires
        p <= ts.len(),
    ensures
        parsed(r, p_primary(tokens_view(ts@), p as nat)),
        r matches Ok((_, k)) ==> p < k <= ts.len(),
    decreases ts.len() - p, 0nat,
{
    if p >= ts.len() {
        return Err(primary_error(ts, p));
    }
    match &ts[p] {
        Token::Ident(v) => Ok((Expr::Variable(v.clone()), p + 1)),
        Token::Str(v) => Ok((Expr::Literal(Literal::Str(v.clone())), p + 1)),
        Token::Number { digits, unit } => Ok((
            Expr::Literal(Literal::Number { digits: digits.clone(), unit: unit.clone() }),
            p + 1,
        )),
        Token::Bool(b) => Ok((Expr::Literal(Literal::Bool(*b)), p + 1)),
        Token::Null => Ok((Expr::Literal(Literal::Null), p + 1)),
        Token::Symbol(x) => {
            if crate::text::eq_str(x.as_str(), "(") {
                let (e, q) = parse_expression(ts, p + 1, 0)?;
                if sym_at(ts, q, ")") {
                    Ok((e, q + 1))
                } else {
                    Err(RuleError::new(owned("expected ')'")))
                }
            } else if crate::text::eq_str(x.as_str(), "[") {
                if sym_at(ts, p + 1, "]") {
                    let items: Vec<Expr> = Vec::new();
                    assert(exprs_view(items@) =~= Seq::<ExprView>::empty());
                    Ok((Expr::Array(items), p + 2))
                } else {
                    let items: Vec<Expr> = Vec::new();
                    assert(exprs_view(items@) =~= Seq::<ExprView>::empty());
                    parse_items(ts, p + 1, items)
                }
            } else {
                Err(primary_error(ts, p))
            }
        },
        Token::Eof => Err(primary_error(ts, p)),
    }
}

fn parse_items(ts: &Vec<Token>, p: usize, acc: Vec<Expr>) -> (r: Result<(Expr, usize), RuleError>)
    requires
        p <= ts.len(),
    ensures
        parsed(r, p_items(tokens_view(ts@), p as nat, exprs_view(acc@))),
        r matches Ok((_, k)) ==> p < k <= ts.len(),
    decreases ts.len() - p, 3nat,
{
    let (e, q) = parse_expression(ts, p, 0)?;
    let mut items = acc;
    let ghost before = items@;
    items.push(e);
    assert(items@.drop_last() == before);
    assert(exprs_view(items@) == exprs_view(before).push(expr_view(items@.last())));
    if sym_at(ts, q, "]") {
        Ok((Expr::Array(items), q + 1))
    } else if sym_at(ts, q, ",") {
        parse_items(ts, q + 1, items)
    } else {
        Err(RuleError::new(owned("expected ','")))
    }
}

/// Parses a rule expression; fails when the rule does not lex, its syntax is invalid, or
/// tokens are left over.
pub fn parse_rule(input: &str) -> (r: Result<Expr, RuleError>)
    ensures
        match parse_rule_spec(input@) {
            Ok(e) => r matches Ok(x) && expr_view(x) == e,
            Err(m) => r matches Err(x) && x.message@ == m,
        },
{
    let tokens = lex(input)?;
    let (expr, q) = parse_expression(&tokens, 0, 0)?;
    let at_end = if q < tokens.len() {
        match &tokens[q] {
            Token::Eof => true,
            _ => false,
        }
    } else {
        true
    };
    if at_end {
        Ok(expr)
    } else {
        Err(RuleError::new(owned("unexpected trailing tokens")))
    }
}

/// The arithmetic operator that a character writes.
pub open spec fn arith_op(c: char) -> BinaryOp {
    if c == '+' {
        BinaryOp::Add
    } else if c == '-' {
        BinaryOp::Sub
    } else if c == '*' {
        BinaryOp::Mul
    } else {
        BinaryOp::Div
    }
}

/// Whether a character writes an additive operator.
pub open spec fn additive(c: char) -> bool {
    c == '+' || c == '-'
}

/// Whether a character writes a multiplicative operator.
pub open spec fn multiplicative(c: char) -> bool {
    c == '*' || c == '/'
}

/// The rule `x o1 y o2 z`, operators set off by single spaces.
pub open spec fn three_operands(x: Seq<char>, o1: char, y: Seq<char>, o2: char, z: Seq<char>) -> Seq<char> {
    x + seq![' ', o1, ' '] + y + seq![' ', o2, ' '] + z
}

proof fn lemma_arith_precedence(c: char)
    requires
        additive(c) || multiplicative(c),
    ensures
        binary_op_of(seq![c]) == Some((arith_op(c), if additive(c) { 4nat } else { 5nat })),
{
    reveal_strlit("||");
    reveal_strlit("&&");
    reveal_strlit("==");
    reveal_strlit("!=");
    reveal_strlit(">");
    reveal_strlit(">=");
    reveal_strlit("<");
    reveal_strlit("<=");
    reveal_strlit("in");
    reveal_strlit("contains");
    reveal_strlit("starts_with");
    reveal_strlit("ends_with");
    reveal_strlit("matches");
    reveal_strlit("+");
    reveal_strlit("-");
    reveal_strlit("*");
    reveal_strlit("/");
    assert(seq![c].len() == 1 && seq![c][0] == c);
    assert("+"@ =~= seq!['+']);
    assert("-"@ =~= seq!['-']);
    assert("*"@ =~= seq!['*']);
    assert("/"@ =~= seq!['/']);
}

proof fn lemma_lex_three(x: Seq<char>, o1: char, y: Seq<char>, o2: char, z: Seq<char>)
    requires
        plain_identifier(x),
        plain_identifier(y),
        plain_identifier(z),
        additive(o1) || multiplicative(o1),
        additive(o2) || multiplicative(o2),
    ensures
        lex_spec(three_operands(x, o1, y, o2, z)) == Ok::<Seq<TokenView>, Seq<char>>(
            seq![
                TokenView::Ident(x),
                TokenView::Symbol(seq![o1]),
                TokenView::Ident(y),
                TokenView::Symbol(seq![o2]),
                TokenView::Ident(z),
                TokenView::Eof,
            ],
        ),
{
    let s = three_operands(x, o1, y, o2, z);
    let i1: int = x.len() as int + 3;
    let i2: int = i1 + y.len() + 3;
    assert(s.len() == i2 + z.len());
    assert(s.subrange(0, x.len() as int) =~= x);
    assert(s[x.len() as int] == ' ');
    assert(s[x.len() as int + 1] == o1);
    assert(s[x.len() as int + 2] == ' ');
    assert(s.subrange(i1, i1 + y.len()) =~= y);
    assert(s[i1 + y.len()] == ' ');
    assert(s[i1 + y.len() + 1] == o2);
    assert(s[i1 + y.len() + 2] == ' ');
    assert(s.subrange(i2, i2 + z.len()) =~= z);
    let t0 = Seq::<TokenView>::empty();
    let t1 = t0.push(TokenView::Ident(x));
    let t2 = t1.push(TokenView::Symbol(seq![o1]));
    let t3 = t2.push(TokenView::Ident(y));
    let t4 = t3.push(TokenView::Symbol(seq![o2]));
    let t5 = t4.push(TokenView::Ident(z));
    lemma_lex_identifier(s, 0, x, t0);
    lemma_lex_spaced_symbol(s, x.len(), o1, t1);
    lemma_lex_identifier(s, i1 as nat, y, t2);
    lemma_lex_spaced_symbol(s, (i1 + y.len()) as nat, o2, t3);
    lemma_lex_identifier(s, i2 as nat, z, t4);
    assert(lex_from(s, s.len(), t5) == Ok::<Seq<TokenView>, Seq<char>>(t5.push(TokenView::Eof)));
    assert(t5.push(TokenView::Eof) =~= seq![
        TokenView::Ident(x),
        TokenView::Symbol(seq![o1]),
        TokenView::Ident(y),
        TokenView::Symbol(seq![o2]),
        TokenView::Ident(z),
        TokenView::Eof,
    ]);
}

/// Multiplication and division bind tighter than addition and subtraction: for any
/// variables `x`, `y`, `z`, additive `+`/`-` and multiplicative `*`/`/`, the rule
/// `x + y * z` reads as `x + (y * z)` and `x * y + z` as `(x * y) + z`.
pub proof fn law_multiplicative_binds_tighter(x: Seq<char>, y: Seq<char>, z: Seq<char>, a: char, m: char)
    requires
        plain_identifier(x),
        plain_identifier(y),
        plain_identifier(z),
        additive(a),
        multiplicative(m),
    ensures
        parse_rule_spec(three_operands(x, a, y, m, z)) == Ok::<ExprView, Seq<char>>(
            ExprView::Binary {
                left: Box::new(ExprView::Variable(x)),
                op: arith_op(a),
                right: Box::new(
                    ExprView::Binary {
                        left: Box::new(ExprView::Variable(y)),
                        op: arith_op(m),
                        right: Box::new(ExprView::Variable(z)),
                    },
                ),
            },
        ),
        parse_rule_spec(three_operands(x, m, y, a, z)) == Ok::<ExprView, Seq<char>>(
            ExprView::Binary {
                left: Box::new(
                    ExprView::Binary {
                        left: Box::new(ExprView::Variable(x)),
                        op: arith_op(m),
                        right: Box::new(ExprView::Variable(y)),
                    },
                ),
                op: arith_op(a),
                right: Box::new(ExprView::Variable(z)),
            },
        ),
{
    lemma_arith_precedence(a);
    lemma_arith_precedence(m);
    let vx = ExprView::Variable(x);
    let vy = ExprView::Variable(y);
    let vz = ExprView::Variable(z);
    lemma_lex_three(x, a, y, m, z);
    let ts = seq![
        TokenView::Ident(x),
        TokenView::Symbol(seq![a]),
        TokenView::Ident(y),
        TokenView::Symbol(seq![m]),
        TokenView::Ident(z),
        TokenView::Eof,
    ];
    assert(ts.len() == 6 && ts[0] == TokenView::Ident(x) && ts[2] == TokenView::Ident(y) && ts[4] == TokenView::Ident(z));
    assert(tok(ts, 4) == TokenView::Ident(z) && !is_sym(ts, 4, "!"@) && !is_sym(ts, 4, "-"@));
    assert(p_primary(ts, 4) == Ok::<(ExprView, nat), Seq<char>>((vz, 5nat)));
    assert(p_unary(ts, 4) == Ok::<(ExprView, nat), Seq<char>>((vz, 5nat)));
    assert(p_loop(ts, vz, 5, 6) == Ok::<(ExprView, nat), Seq<char>>((vz, 5nat)));
    assert(p_expr(ts, 4, 6) == Ok::<(ExprView, nat), Seq<char>>((vz, 5nat)));
    let ymz = ExprView::Binary { left: Box::new(vy), op: arith_op(m), right: Box::new(vz) };
    assert(p_loop(ts, ymz, 5, 5) == Ok::<(ExprView, nat), Seq<char>>((ymz, 5nat)));
    assert(p_loop(ts, vy, 3, 5) == Ok::<(ExprView, nat), Seq<char>>((ymz, 5nat)));
    assert(tok(ts, 2) == TokenView::Ident(y) && !is_sym(ts, 2, "!"@) && !is_sym(ts, 2, "-"@));
    assert(p_primary(ts, 2) == Ok::<(ExprView, nat), Seq<char>>((vy, 3nat)));
    assert(p_unary(ts, 2) == Ok::<(ExprView, nat), Seq<char>>((vy, 3nat)));
    assert(p_expr(ts, 2, 5) == Ok::<(ExprView, nat), Seq<char>>((ymz, 5nat)));
    let whole = ExprView::Binary { left: Box::new(vx), op: arith_op(a), right: Box::new(ymz) };
    assert(p_loop(ts, whole, 5, 0) == Ok::<(ExprView, nat), Seq<char>>((whole, 5nat)));
    assert(p_loop(ts, vx, 1, 0) == Ok::<(ExprView, nat), Seq<char>>((whole, 5nat)));
    assert(tok(ts, 0) == TokenView::Ident(x) && !is_sym(ts, 0, "!"@) && !is_sym(ts, 0, "-"@));
    assert(p_primary(ts, 0) == Ok::<(ExprView, nat), Seq<char>>((vx, 1nat)));
    assert(p_unary(ts, 0) == Ok::<(ExprView, nat), Seq<char>>((vx, 1nat)));
    assert(p_expr(ts, 0, 0) == Ok::<(ExprView, nat), Seq<char>>((whole, 5nat)));

    lemma_lex_three(x, m, y, a, z);
    let us = seq![
        TokenView::Ident(x),
        TokenView::Symbol(seq![m]),
        TokenView::Ident(y),
        TokenView::Symbol(seq![a]),
        TokenView::Ident(z),
        TokenView::Eof,
    ];
    assert(tok(us, 4) == us[4] && !is_sym(us, 4, "!"@) && !is_sym(us, 4, "-"@));
    assert(p_primary(us, 4) == Ok::<(ExprView, nat), Seq<char>>((vz, 5nat)));
    assert(p_unary(us, 4) == Ok::<(ExprView, nat), Seq<char>>((vz, 5nat)));
    assert(p_loop(us, vz, 5, 5) == Ok::<(ExprView, nat), Seq<char>>((vz, 5nat)));
    assert(p_expr(us, 4, 5) == Ok::<(ExprView, nat), Seq<char>>((vz, 5nat)));
    assert(p_loop(us, vy, 3, 6) == Ok::<(ExprView, nat), Seq<char>>((vy, 3nat)));
    assert(tok(us, 2) == us[2] && !is_sym(us, 2, "!"@) && !is_sym(us, 2, "-"@));
    assert(p_primary(us, 2) == Ok::<(ExprView, nat), Seq<char>>((vy, 3nat)));
    assert(p_unary(us, 2) == Ok::<(ExprView, nat), Seq<char>>((vy, 3nat)));
    assert(p_expr(us, 2, 6) == Ok::<(ExprView, nat), Seq<char>>((vy, 3nat)));
    let xmy = ExprView::Binary { left: Box::new(vx), op: arith_op(m), right: Box::new(vy) };
    let all = ExprView::Binary { left: Box::new(xmy), op: arith_op(a), right: Box::new(vz) };
    assert(p_loop(us, all, 5, 0) == Ok::<(ExprView, nat), Seq<char>>((all, 5nat)));
    assert(p_loop(us, xmy, 3, 0) == Ok::<(ExprView, nat), Seq<char>>((all, 5nat)));
    assert(p_loop(us, vx, 1, 0) == Ok::<(ExprView, nat), Seq<char>>((all, 5nat)));
    assert(tok(us, 0) == us[0] && !is_sym(us, 0, "!"@) && !is_sym(us, 0, "-"@));
    assert(p_primary(us, 0) == Ok::<(ExprView, nat), Seq<char>>((vx, 1nat)));
    assert(p_unary(us, 0) == Ok::<(ExprView, nat), Seq<char>>((vx, 1nat)));
    assert(p_expr(us, 0, 0) == Ok::<(ExprView, nat), Seq<char>>((all, 5nat)));
}

/// Operators of one level group to the left: for any variables `x`, `y`, `z` and two
/// additive or two multiplicative operators, the rule `x o1 y o2 z` reads as
/// `(x o1 y) o2 z`, so `a - b - c` is `(a - b) - c` and `a / b / c` is `(a / b) / c`.
pub proof fn law_same_level_groups_left(x: Seq<char>, y: Seq<char>, z: Seq<char>, o1: char, o2: char)
    requires
        plain_identifier(x),
        plain_identifier(y),
        plain_identifier(z),
        (additive(o1) && additive(o2)) || (multiplicative(o1) && multiplicative(o2)),
    ensures
        parse_rule_spec(three_operands(x, o1, y, o2, z)) == Ok::<ExprView, Seq<char>>(
            ExprView::Binary {
                left: Box::new(
                    ExprView::Binary {
                        left: Box::new(ExprView::Variable(x)),
                        op: arith_op(o1),
                        right: Box::new(ExprView::Variable(y)),
                    },
                ),
                op: arith_op(o2),
                right: Box::new(ExprView::Variable(z)),
            },
        ),
{
    lemma_arith_precedence(o1);
    lemma_arith_precedence(o2);
    let q: nat = if additive(o1) { 4nat } else { 5nat };
    let vx = ExprView::Variable(x);
    let vy = ExprView::Variable(y);
    let vz = ExprView::Variable(z);
    lemma_lex_three(x, o1, y, o2, z);
    let us = seq![
        TokenView::Ident(x),
        TokenView::Symbol(seq![o1]),
        TokenView::Ident(y),
        TokenView::Symbol(seq![o2]),
        TokenView::Ident(z),
        TokenView::Eof,
    ];
    assert(tok(us, 4) == us[4] && !is_sym(us, 4, "!"@) && !is_sym(us, 4, "-"@));
    assert(p_primary(us, 4) == Ok::<(ExprView, nat), Seq<char>>((vz, 5nat)));
    assert(p_unary(us, 4) == Ok::<(ExprView, nat), Seq<char>>((vz, 5nat)));
    assert(p_loop(us, vz, 5, q + 1) == Ok::<(ExprView, nat), Seq<char>>((vz, 5nat)));
    assert(p_expr(us, 4, q + 1) == Ok::<(ExprView, nat), Seq<char>>((vz, 5nat)));
    assert(p_loop(us, vy, 3, q + 1) == Ok::<(ExprView, nat), Seq<char>>((vy, 3nat)));
    assert(tok(us, 2) == us[2] && !is_sym(us, 2, "!"@) && !is_sym(us, 2, "-"@));
    assert(p_primary(us, 2) == Ok::<(ExprView, nat), Seq<char>>((vy, 3nat)));
    assert(p_unary(us, 2) == Ok::<(ExprView, nat), Seq<char>>((vy, 3nat)));
    assert(p_expr(us, 2, q + 1) == Ok::<(ExprView, nat), Seq<char>>((vy, 3nat)));
    let xy = ExprView::Binary { left: Box::new(vx), op: arith_op(o1), right: Box::new(vy) };
    let all = ExprView::Binary { left: Box::new(xy), op: arith_op(o2), right: Box::new(vz) };
    assert(p_loop(us, all, 5, 0) == Ok::<(ExprView, nat), Seq<char>>((all, 5nat)));
    assert(p_loop(us, xy, 3, 0) == Ok::<(ExprView, nat), Seq<char>>((all, 5nat)));
    assert(p_loop(us, vx, 1, 0) == Ok::<(ExprView, nat), Seq<char>>((all, 5nat)));
    assert(tok(us, 0) == us[0] && !is_sym(us, 0, "!"@) && !is_sym(us, 0, "-"@));
    assert(p_primary(us, 0) == Ok::<(ExprView, nat), Seq<char>>((vx, 1nat)));
    assert(p_unary(us, 0) == Ok::<(ExprView, nat), Seq<char>>((vx, 1nat)));
    assert(p_expr(us, 0, 0) == Ok::<(ExprView, nat), Seq<char>>((all, 5nat)));
}

} // verus!
