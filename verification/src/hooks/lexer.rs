//! The lexer of hook `when` rules.

use vstd::prelude::*;

use crate::text::{chars_eq_str, chars_of, is_digit, owned, push_char, push_str, string_from_chars};

verus! {

/// Error produced while parsing or evaluating a rule expression.
#[derive(Clone, Debug, PartialEq, Eq)]
pub struct RuleError {
    /// Human-readable error message.
    pub message: String,
}

impl RuleError {
    /// Creates a rule error.
    pub fn new(message: String) -> (e: Self)
        ensures
            e.message@ == message@,
    {
        RuleError { message }
    }
}

/// Token emitted by the rule lexer. A number keeps its digits and its unit as written; its
/// value is the digits read as a decimal number times the unit's multiplier.
#[derive(Clone, Debug, PartialEq, Eq)]
pub enum Token {
    /// Identifier or dotted variable path.
    Ident(String),
    /// String literal.
    Str(String),
    /// Number literal: digits (with at most one dot) and a unit (possibly empty).
    Number {
        /// Digits and dot.
        digits: String,
        /// Unit letters.
        unit: String,
    },
    /// Boolean literal.
    Bool(bool),
    /// Null literal.
    Null,
    /// Symbol/operator.
    Symbol(String),
    /// End of input.
    Eof,
}

pub enum TokenView {
    Ident(Seq<char>),
    Str(Seq<char>),
    Number { digits: Seq<char>, unit: Seq<char> },
    Bool(bool),
    Null,
    Symbol(Seq<char>),
    Eof,
}

impl View for Token {
    type V = TokenView;

    open spec fn view(&self) -> TokenView {
        match self {
            Token::Ident(s) => TokenView::Ident(s@),
            Token::Str(s) => TokenView::Str(s@),
            Token::Number { digits, unit } => TokenView::Number { digits: digits@, unit: unit@ },
            Token::Bool(b) => TokenView::Bool(*b),
            Token::Null => TokenView::Null,
            Token::Symbol(s) => TokenView::Symbol(s@),
            Token::Eof => TokenView::Eof,
        }
    }
}

/// Views of a sequence of tokens.
pub open spec fn tokens_view(v: Seq<Token>) -> Seq<TokenView> {
    v.map_values(|t: Token| t@)
}

/// An ASCII letter.
pub open spec fn is_ascii_alpha(c: char) -> bool {
    ('a' <= c && c <= 'z') || ('A' <= c && c <= 'Z')
}

/// A character that may start an identifier.
pub open spec fn ident_start(c: char) -> bool {
    is_ascii_alpha(c) || c == '_'
}

/// A character that may continue an identifier.
pub open spec fn ident_char(c: char) -> bool {
    is_ascii_alpha(c) || is_digit(c) || c == '_' || c == '.'
}

/// A character of a number's digits.
pub open spec fn number_char(c: char) -> bool {
    is_digit(c) || c == '.'
}

/// The end of the run of number characters from `i`.
pub open spec fn number_end(s: Seq<char>, i: nat) -> nat
    decreases s.len() - i,
{
    if i < s.len() && number_char(s[i as int]) {
        number_end(s, i + 1)
    } else {
        i
    }
}

/// The end of the run of ASCII letters from `i`.
pub open spec fn alpha_end(s: Seq<char>, i: nat) -> nat
    decreases s.len() - i,
{
    if i < s.len() && is_ascii_alpha(s[i as int]) {
        alpha_end(s, i + 1)
    } else {
        i
    }
}

/// The end of the run of identifier characters from `i`.
pub open spec fn ident_end(s: Seq<char>, i: nat) -> nat
    decreases s.len() - i,
{
    if i < s.len() && ident_char(s[i as int]) {
        ident_end(s, i + 1)
    } else {
        i
    }
}

pub proof fn lemma_run_ends(s: Seq<char>, i: nat)
    requires
        i <= s.len(),
    ensures
        i <= number_end(s, i) <= s.len(),
        i <= alpha_end(s, i) <= s.len(),
        i <= ident_end(s, i) <= s.len(),
        i < s.len() && number_char(s[i as int]) ==> i < number_end(s, i),
        i < s.len() && ident_char(s[i as int]) ==> i < ident_end(s, i),
    decreases s.len() - i,
{
    if i < s.len() {
        lemma_run_ends(s, i + 1);
    }
}

/// The number of dots in `s`.
pub open spec fn dots(s: Seq<char>) -> nat
    decreases s.len(),
{
    if s.len() == 0 {
        0
    } else {
        dots(s.drop_last()) + if s.last() == '.' { 1nat } else { 0nat }
    }
}

/// The units a number may carry: none or seconds, kilo-, mega- and gigabytes,
/// milliseconds, minutes and hours.
pub open spec fn unit_known(u: Seq<char>) -> bool {
    ||| u.len() == 0
    ||| u == "s"@
    ||| u == "kb"@
    ||| u == "mb"@
    ||| u == "gb"@
    ||| u == "ms"@
    ||| u == "m"@
    ||| u == "h"@
}

/// The body of a string literal from `j` on: a backslash takes the next character as it
/// is; the closing quote ends it. Gives the text and the index after the quote, or nothing
/// when the input ends first.
pub open spec fn string_body(s: Seq<char>, j: nat, acc: Seq<char>) -> Option<(Seq<char>, nat)>
    decreases s.len() - j,
{
    if j >= s.len() {
        None
    } else if s[j as int] == '"' {
        Some((acc, j + 1))
    } else if s[j as int] == '\\' {
        if j + 1 < s.len() {
            string_body(s, j + 2, acc.push(s[(j + 1) as int]))
        } else {
            None
        }
    } else {
        string_body(s, j + 1, acc.push(s[j as int]))
    }
}

pub proof fn lemma_string_body_bounds(s: Seq<char>, j: nat, acc: Seq<char>)
    ensures
        string_body(s, j, acc) matches Some((_, k)) ==> j < k <= s.len(),
    decreases s.len() - j,
{
    if j < s.len() && s[j as int] != '"' {
        if s[j as int] == '\\' {
            if j + 1 < s.len() {
                lemma_string_body_bounds(s, j + 2, acc.push(s[(j + 1) as int]));
            }
        } else {
            lemma_string_body_bounds(s, j + 1, acc.push(s[j as int]));
        }
    }
}

/// A symbol of one character.
pub open spec fn single_symbol(c: char) -> bool {
    c == '[' || c == ']' || c == '(' || c == ')' || c == ',' || c == '+' || c == '-' || c == '*'
        || c == '/'
}

/// A character that starts a comparison or logical operator.
pub open spec fn operator_start(c: char) -> bool {
    c == '!' || c == '=' || c == '>' || c == '<' || c == '&' || c == '|'
}

/// The operator at `i`: `==`, `!=`, `>=`, `<=`, `&&`, `||`, or `!`, `>`, `<` alone; gives
/// the operator and the index after it.
pub open spec fn operator_spec(s: Seq<char>, i: nat) -> Result<(Seq<char>, nat), Seq<char>> {
    let first = s[i as int];
    let second = if i + 1 < s.len() { Some(s[(i + 1) as int]) } else { None };
    if (first == '=' || first == '!' || first == '>' || first == '<') && second == Some('=') {
        Ok((seq![first, '='], i + 2))
    } else if (first == '&' && second == Some('&')) || (first == '|' && second == Some('|')) {
        Ok((seq![first, first], i + 2))
    } else if first == '!' || first == '>' || first == '<' {
        Ok((seq![first], i + 1))
    } else {
        Err("invalid operator '"@ + seq![first] + "'"@)
    }
}

/// The token of a word: the literals `true`, `false`, `null`, the word operators, or an
/// identifier.
pub open spec fn word_token(w: Seq<char>) -> TokenView {
    if w == "true"@ {
        TokenView::Bool(true)
    } else if w == "false"@ {
        TokenView::Bool(false)
    } else if w == "null"@ {
        TokenView::Null
    } else if w == "in"@ || w == "contains"@ || w == "starts_with"@ || w == "ends_with"@ || w
        == "matches"@ {
        TokenView::Symbol(w)
    } else {
        TokenView::Ident(w)
    }
}

/// The tokens of `s` from `i` on, after `toks`: white space separates; strings, numbers
/// with their units, symbols, operators and words make tokens; the input ends with `Eof`.
pub open spec fn lex_from(s: Seq<char>, i: nat, toks: Seq<TokenView>) -> Result<Seq<TokenView>, Seq<char>>
    decreases s.len() - i,
{
    if i >= s.len() {
        Ok(toks.push(TokenView::Eof))
    } else {
        let c = s[i as int];
        if c == ' ' || c == '\t' || c == '\r' || c == '\n' {
            lex_from(s, i + 1, toks)
        } else if c == '"' {
            proof {
                lemma_string_body_bounds(s, i + 1, Seq::empty());
            }
            match string_body(s, i + 1, Seq::empty()) {
                Some((v, j)) => lex_from(s, j, toks.push(TokenView::Str(v))),
                None => Err("unterminated string literal"@),
            }
        } else if is_digit(c) {
            proof {
                lemma_run_ends(s, i);
                lemma_run_ends(s, number_end(s, i));
            }
            let e = number_end(s, i);
            let raw = s.subrange(i as int, e as int);
            let ue = alpha_end(s, e);
            let unit = s.subrange(e as int, ue as int);
            if dots(raw) > 1 {
                Err("invalid number '"@ + raw + "'"@)
            } else if !unit_known(unit) {
                Err("unsupported unit '"@ + unit + "'"@)
            } else {
                lex_from(s, ue, toks.push(TokenView::Number { digits: raw, unit }))
            }
        } else if single_symbol(c) {
            lex_from(s, i + 1, toks.push(TokenView::Symbol(seq![c])))
        } else if operator_start(c) {
            match operator_spec(s, i) {
                Ok((op, j)) => lex_from(s, j, toks.push(TokenView::Symbol(op))),
                Err(m) => Err(m),
            }
        } else if ident_start(c) {
            proof {
                lemma_run_ends(s, i);
            }
            let e = ident_end(s, i);
            lex_from(s, e, toks.push(word_token(s.subrange(i as int, e as int))))
        } else {
            Err("unexpected character '"@ + seq![c] + "'"@)
        }
    }
}

/// The tokens of a rule, or the lexing error.
pub open spec fn lex_spec(s: Seq<char>) -> Result<Seq<TokenView>, Seq<char>> {
    lex_from(s, 0, Seq::empty())
}

/// Whether `w` is a word the lexer reads as one identifier: it starts with a letter or `_`,
/// continues with identifier characters, and is no keyword.
pub open spec fn plain_identifier(w: Seq<char>) -> bool {
    &&& w.len() > 0
    &&& ident_start(w[0])
    &&& forall|k: int| 0 <= k < w.len() ==> ident_char(#[trigger] w[k])
    &&& word_token(w) == TokenView::Ident(w)
}

proof fn lemma_ident_run(s: Seq<char>, i: nat, j: nat)
    requires
        i <= j <= s.len(),
        forall|k: int| i <= k < j ==> ident_char(#[trigger] s[k]),
        j == s.len() || !ident_char(s[j as int]),
    ensures
        ident_end(s, i) == j,
    decreases j - i,
{
    if i < j {
        lemma_ident_run(s, i + 1, j);
    }
}

/// Lexing a plain identifier that ends before a non-identifier character (or the end).
pub proof fn lemma_lex_identifier(s: Seq<char>, i: nat, w: Seq<char>, toks: Seq<TokenView>)
    requires
        plain_identifier(w),
        i + w.len() <= s.len(),
        s.subrange(i as int, i as int + w.len()) == w,
        i + w.len() == s.len() || !ident_char(s[i as int + w.len()]),
    ensures
        lex_from(s, i, toks) == lex_from(s, i + w.len(), toks.push(TokenView::Ident(w))),
{
    assert forall|k: int| i <= k < i + w.len() implies ident_char(#[trigger] s[k]) by {
        assert(s[k] == s.subrange(i as int, i as int + w.len())[k - i]);
    }
    lemma_ident_run(s, i, (i + w.len()) as nat);
    assert(s[i as int] == w[0]);
}

/// Lexing ` c ` for a one-character symbol `c`.
pub proof fn lemma_lex_spaced_symbol(s: Seq<char>, i: nat, c: char, toks: Seq<TokenView>)
    requires
        single_symbol(c),
        i + 3 <= s.len(),
        s[i as int] == ' ',
        s[i as int + 1] == c,
        s[i as int + 2] == ' ',
    ensures
        lex_from(s, i, toks) == lex_from(s, i + 3, toks.push(TokenView::Symbol(seq![c]))),
{
    assert(lex_from(s, i, toks) == lex_from(s, i + 1, toks));
    assert(!is_digit(c));
    assert(lex_from(s, i + 1, toks) == lex_from(s, i + 2, toks.push(TokenView::Symbol(seq![c]))));
}

fn is_digit_char(c: char) -> (b: bool)
    ensures
        b == is_digit(c),
{
    '0' <= c && c <= '9'
}

fn is_alpha_char(c: char) -> (b: bool)
    ensures
        b == is_ascii_alpha(c),
{
    ('a' <= c && c <= 'z') || ('A' <= c && c <= 'Z')
}

/// Whether a character may start an identifier.
pub fn is_ident_start(c: char) -> (b: bool)
    ensures
        b == ident_start(c),
{
    is_alpha_char(c) || c == '_'
}

fn quoted_error(prefix: &str, middle: &Vec<char>) -> (e: RuleError)
    ensures
        e.message@ == prefix@ + middle@ + "'"@,
{
    let mut m = owned(prefix);
    push_str(&mut m, string_from_chars(middle.as_slice()).as_str());
    push_str(&mut m, "'");
    RuleError::new(m)
}

/// Reads a string literal whose opening quote is at `i`.
pub fn read_string(s: &Vec<char>, i: usize) -> (r: Option<(String, usize)>)
    requires
        i < s.len(),
    ensures
        match string_body(s@, (i + 1) as nat, Seq::empty()) {
            Some((v, j)) => r matches Some((x, k)) && x@ == v && k == j,
            None => r is None,
        },
{
    let mut out = String::new();
    let mut j = i + 1;
    while j < s.len()
        invariant
            i < j <= s.len() + 1,
            string_body(s@, j as nat, out@) == string_body(s@, (i + 1) as nat, Seq::empty()),
        decreases s.len() - j,
    {
        let c = s[j];
        if c == '"' {
            return Some((out, j + 1));
        }
        if c == '\\' {
            if j + 1 < s.len() {
                push_char(&mut out, s[j + 1]);
                j = j + 2;
            } else {
                return None;
            }
        } else {
            push_char(&mut out, c);
            j = j + 1;
        }
    }
    None
}

fn in_class(c: char, kind: u8) -> (b: bool)
    ensures
        kind == 0 ==> b == number_char(c),
        kind == 1 ==> b == is_ascii_alpha(c),
        kind >= 2 ==> b == ident_char(c),
{
    if kind == 0 {
        is_digit_char(c) || c == '.'
    } else if kind == 1 {
        is_alpha_char(c)
    } else {
        is_alpha_char(c) || is_digit_char(c) || c == '_' || c == '.'
    }
}

fn run_end(s: &Vec<char>, i: usize, kind: u8) -> (e: usize)
    requires
        i <= s.len(),
        kind < 3,
    ensures
        kind == 0 ==> e == number_end(s@, i as nat),
        kind == 1 ==> e == alpha_end(s@, i as nat),
        kind == 2 ==> e == ident_end(s@, i as nat),
{
    let mut e = i;
    while e < s.len() && in_class(s[e], kind)
        invariant
            i <= e <= s.len(),
            kind < 3,
            kind == 0 ==> number_end(s@, i as nat) == number_end(s@, e as nat),
            kind == 1 ==> alpha_end(s@, i as nat) == alpha_end(s@, e as nat),
            kind == 2 ==> ident_end(s@, i as nat) == ident_end(s@, e as nat),
        decreases s.len() - e,
    {
        e = e + 1;
    }
    e
}

fn dot_count(v: &Vec<char>) -> (n: usize)
    ensures
        n == dots(v@),
{
    let mut n: usize = 0;
    let mut i: usize = 0;
    while i < v.len()
        invariant
            i <= v.len(),
            n == dots(v@.take(i as int)),
            n <= i,
        decreases v.len() - i,
    {
        assert(v@.take(i + 1).drop_last() == v@.take(i as int));
        if v[i] == '.' {
            n = n + 1;
        }
        i = i + 1;
    }
    assert(v@.take(v.len() as int) == v@);
    n
}

fn is_known_unit(u: &Vec<char>) -> (b: bool)
    ensures
        b == unit_known(u@),
{
    u.len() == 0 || chars_eq_str(u, "s") || chars_eq_str(u, "kb") || chars_eq_str(u, "mb")
        || chars_eq_str(u, "gb") || chars_eq_str(u, "ms") || chars_eq_str(u, "m") || chars_eq_str(u, "h")
}

/// Reads a number and its unit starting at `i`; gives the token and the index after it.
pub fn read_number(s: &Vec<char>, i: usize) -> (r: Result<(Token, usize), RuleError>)
    requires
        i < s.len(),
    ensures
        ({
            let e = number_end(s@, i as nat);
            let raw = s@.subrange(i as int, e as int);
            let ue = alpha_end(s@, e);
            let unit = s@.subrange(e as int, ue as int);
            if dots(raw) > 1 {
                r matches Err(x) && x.message@ == "invalid number '"@ + raw + "'"@
            } else if !unit_known(unit) {
                r matches Err(x) && x.message@ == "unsupported unit '"@ + unit + "'"@
            } else {
                r matches Ok((t, k)) && t@ == (TokenView::Number { digits: raw, unit }) && k == ue
            }
        }),
{
    proof {
        lemma_run_ends(s@, i as nat);
    }
    let e = run_end(s, i, 0);
    proof {
        lemma_run_ends(s@, e as nat);
    }
    let ue = run_end(s, e, 1);
    let raw = crate::text::copy_chars(s, i, e);
    let unit = crate::text::copy_chars(s, e, ue);
    if dot_count(&raw) > 1 {
        return Err(quoted_error("invalid number '", &raw));
    }
    if !is_known_unit(&unit) {
        return Err(quoted_error("unsupported unit '", &unit));
    }
    Ok((
        Token::Number {
            digits: string_from_chars(raw.as_slice()),
            unit: string_from_chars(unit.as_slice()),
        },
        ue,
    ))
}

/// Reads the operator at `i`; gives it and the index after it.
pub fn read_operator(s: &Vec<char>, i: usize) -> (r: Result<(String, usize), RuleError>)
    requires
        i < s.len(),
    ensures
        match operator_spec(s@, i as nat) {
            Ok((op, j)) => r matches Ok((x, k)) && x@ == op && k == j,
            Err(m) => r matches Err(e) && e.message@ == m,
        },
{
    let first = s[i];
    let second: Option<char> = if i + 1 < s.len() { Some(s[i + 1]) } else { None };
    let mut op = String::new();
    if (first == '=' || first == '!' || first == '>' || first == '<') && second == Some('=') {
        push_char(&mut op, first);
        push_char(&mut op, '=');
        assert(op@ =~= seq![first, '=']);
        Ok((op, i + 2))
    } else if (first == '&' && second == Some('&')) || (first == '|' && second == Some('|')) {
        push_char(&mut op, first);
        push_char(&mut op, first);
        assert(op@ =~= seq![first, first]);
        Ok((op, i + 2))
    } else if first == '!' || first == '>' || first == '<' {
        push_char(&mut op, first);
        assert(op@ =~= seq![first]);
        Ok((op, i + 1))
    } else {
        let mut m = owned("invalid operator '");
        push_char(&mut m, first);
        push_str(&mut m, "'");
        assert(m@ =~= "invalid operator '"@ + seq![first] + "'"@);
        Err(RuleError::new(m))
    }
}

/// Reads the word starting at `i`; gives its characters and the index after it.
pub fn read_ident(s: &Vec<char>, i: usize) -> (r: (Vec<char>, usize))
    requires
        i <= s.len(),
    ensures
        r.1 == ident_end(s@, i as nat),
        r.0@ == s@.subrange(i as int, r.1 as int),
{
    proof {
        lemma_run_ends(s@, i as nat);
    }
    let e = run_end(s, i, 2);
    (crate::text::copy_chars(s, i, e), e)
}

fn word(w: &Vec<char>) -> (t: Token)
    ensures
        t@ == word_token(w@),
{
    if chars_eq_str(w, "true") {
        Token::Bool(true)
    } else if chars_eq_str(w, "false") {
        Token::Bool(false)
    } else if chars_eq_str(w, "null") {
        Token::Null
    } else if chars_eq_str(w, "in") || chars_eq_str(w, "contains") || chars_eq_str(w, "starts_with")
        || chars_eq_str(w, "ends_with") || chars_eq_str(w, "matches") {
        Token::Symbol(string_from_chars(w.as_slice()))
    } else {
        Token::Ident(string_from_chars(w.as_slice()))
    }
}

fn push_token(tokens: &mut Vec<Token>, t: Token)
    ensures
        tokens_view(final(tokens)@) == tokens_view(old(tokens)@).push(t@),
{
    let ghost prev = tokens@;
    tokens.push(t);
    assert(tokens_view(tokens@) =~= tokens_view(prev).push(t@));
}

/// Tokenizes a rule expression; fails on an invalid string, number, unit, operator or
/// character.
pub fn lex(input: &str) -> (r: Result<Vec<Token>, RuleError>)
    ensures
        match lex_spec(input@) {
            Ok(ts) => r matches Ok(v) && tokens_view(v@) == ts,
            Err(m) => r matches Err(e) && e.message@ == m,
        },
{
    let s = chars_of(input);
    let mut tokens: Vec<Token> = Vec::new();
    assert(tokens_view(tokens@) =~= Seq::<TokenView>::empty());
    let mut i: usize = 0;
    while i < s.len()
        invariant
            i <= s.len(),
            s@ == input@,
            lex_from(s@, i as nat, tokens_view(tokens@)) == lex_spec(input@),
        decreases s.len() - i,
    {
        let c = s[i];
        if c == ' ' || c == '\t' || c == '\r' || c == '\n' {
            i = i + 1;
        } else if c == '"' {
            proof {
                lemma_string_body_bounds(s@, (i + 1) as nat, Seq::empty());
            }
            match read_string(&s, i) {
                Some((v, j)) => {
                    push_token(&mut tokens, Token::Str(v));
                    i = j;
                },
                None => {
                    return Err(RuleError::new(owned("unterminated string literal")));
                },
            }
        } else if is_digit_char(c) {
            let (t, j) = read_number(&s, i)?;
            push_token(&mut tokens, t);
            proof {
                lemma_run_ends(s@, i as nat);
                lemma_run_ends(s@, number_end(s@, i as nat));
            }
            i = j;
        } else if c == '[' || c == ']' || c == '(' || c == ')' || c == ',' || c == '+' || c == '-' || c
            == '*' || c == '/' {
            let mut sym = String::new();
            push_char(&mut sym, c);
            assert(sym@ =~= seq![c]);
            push_token(&mut tokens, Token::Symbol(sym));
            i = i + 1;
        } else if c == '!' || c == '=' || c == '>' || c == '<' || c == '&' || c == '|' {
            let (op, j) = read_operator(&s, i)?;
            push_token(&mut tokens, Token::Symbol(op));
            i = j;
        } else if is_ident_start(c) {
            let (w, j) = read_ident(&s, i);
            push_token(&mut tokens, word(&w));
            proof {
                lemma_run_ends(s@, i as nat);
            }
            i = j;
        } else {
            let mut m = owned("unexpected character '");
            push_char(&mut m, c);
            push_str(&mut m, "'");
            assert(m@ =~= "unexpected character '"@ + seq![c] + "'"@);
            return Err(RuleError::new(m));
        }
    }
    push_token(&mut tokens, Token::Eof);
    Ok(tokens)
}

} // verus!
