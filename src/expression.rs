use vstd::prelude::*;
use vstd::string::*;

verus! {

/// Why an arithmetic expression was rejected.
#[derive(Debug, Clone, Copy, PartialEq, Eq, Structural)]
pub enum ExpressionError {
    InvalidCharacter(char),
    InvalidNumber,
    UnexpectedEnd,
    DivisionByZero,
}

/// A parsed arithmetic expression. A number keeps the characters of its
/// decimal literal.
pub enum Expr {
    Number(Vec<char>),
    Add(Box<Expr>, Box<Expr>),
    Sub(Box<Expr>, Box<Expr>),
    Mul(Box<Expr>, Box<Expr>),
    Div(Box<Expr>, Box<Expr>),
}

/// The mathematical form of an `Expr`.
pub enum ExprModel {
    Number(Seq<char>),
    Add(Box<ExprModel>, Box<ExprModel>),
    Sub(Box<ExprModel>, Box<ExprModel>),
    Mul(Box<ExprModel>, Box<ExprModel>),
    Div(Box<ExprModel>, Box<ExprModel>),
}

impl Expr {
    pub open spec fn model(&self) -> ExprModel
        decreases self,
    {
        match self {
            Expr::Number(d) => ExprModel::Number(d@),
            Expr::Add(a, b) => ExprModel::Add(Box::new(a.model()), Box::new(b.model())),
            Expr::Sub(a, b) => ExprModel::Sub(Box::new(a.model()), Box::new(b.model())),
            Expr::Mul(a, b) => ExprModel::Mul(Box::new(a.model()), Box::new(b.model())),
            Expr::Div(a, b) => ExprModel::Div(Box::new(a.model()), Box::new(b.model())),
        }
    }
}

/// Whether `c` has the Unicode White_Space property.
pub open spec fn is_white_space(c: char) -> bool {
    ('\t' <= c && c <= '\r') || c == ' ' || c == '\u{85}' || c == '\u{a0}' || c == '\u{1680}' || (
    '\u{2000}' <= c && c <= '\u{200a}') || c == '\u{2028}' || c == '\u{2029}' || c == '\u{202f}'
        || c == '\u{205f}' || c == '\u{3000}'
}

/// Whether `c` has the Unicode White_Space property.
pub fn is_whitespace_char(c: char) -> (r: bool)
    ensures
        r == is_white_space(c),
{
    ('\t' <= c && c <= '\r') || c == ' ' || c == '\u{85}' || c == '\u{a0}' || c == '\u{1680}' || (
    '\u{2000}' <= c && c <= '\u{200a}') || c == '\u{2028}' || c == '\u{2029}' || c == '\u{202f}'
        || c == '\u{205f}' || c == '\u{3000}'
}

/// `s` with every white-space character removed.
pub open spec fn strip_whitespace(s: Seq<char>) -> Seq<char>
    decreases s.len(),
{
    if s.len() == 0 {
        s
    } else if is_white_space(s.last()) {
        strip_whitespace(s.drop_last())
    } else {
        strip_whitespace(s.drop_last()).push(s.last())
    }
}

pub open spec fn is_digit(c: char) -> bool {
    '0' <= c && c <= '9'
}

/// Whether `c` may stand in a number: a decimal digit or a point.
pub open spec fn is_number_char(c: char) -> bool {
    is_digit(c) || c == '.'
}

/// How many points `d` holds.
pub open spec fn point_count(d: Seq<char>) -> int
    decreases d.len(),
{
    if d.len() == 0 {
        0
    } else {
        point_count(d.drop_last()) + if d.last() == '.' {
            1int
        } else {
            0int
        }
    }
}

/// Whether a run of digits and points is a decimal literal: at most one point
/// and at least one digit.
pub open spec fn is_decimal_literal(d: Seq<char>) -> bool {
    point_count(d) <= 1 && exists|k: int| 0 <= k < d.len() && is_digit(#[trigger] d[k])
}

/// Where the run of number characters that starts at `i` ends.
pub open spec fn number_end(t: Seq<char>, i: int) -> int
    decreases t.len() - i,
{
    if 0 <= i < t.len() && is_number_char(t[i]) {
        number_end(t, i + 1)
    } else {
        i
    }
}

pub type ParseResult = Result<(ExprModel, int), ExpressionError>;

/// `F → number | '(' E ')'` at position `i`.
pub open spec fn parse_factor(t: Seq<char>, i: int) -> ParseResult
    decreases t.len() - i, 0int,
{
    if i < 0 || i >= t.len() {
        Err(ExpressionError::UnexpectedEnd)
    } else if is_number_char(t[i]) {
        let j = number_end(t, i);
        if is_decimal_literal(t.subrange(i, j)) {
            Ok((ExprModel::Number(t.subrange(i, j)), j))
        } else {
            Err(ExpressionError::InvalidNumber)
        }
    } else if t[i] == '(' {
        match parse_sum(t, i + 1) {
            Err(e) => Err(e),
            Ok((e, j)) => if 0 <= j < t.len() && t[j] == ')' {
                Ok((e, j + 1))
            } else {
                Err(ExpressionError::UnexpectedEnd)
            },
        }
    } else {
        Err(ExpressionError::InvalidCharacter(t[i]))
    }
}

/// `(('*'|'/') F)*` at position `i`, after the operand `acc`: left-associative.
pub open spec fn parse_product_rest(t: Seq<char>, i: int, acc: ExprModel) -> ParseResult
    decreases t.len() - i, 1int,
{
    if 0 <= i < t.len() && (t[i] == '*' || t[i] == '/') {
        match parse_factor(t, i + 1) {
            Err(e) => Err(e),
            Ok((rhs, k)) => if i < k <= t.len() {
                parse_product_rest(
                    t,
                    k,
                    if t[i] == '*' {
                        ExprModel::Mul(Box::new(acc), Box::new(rhs))
                    } else {
                        ExprModel::Div(Box::new(acc), Box::new(rhs))
                    },
                )
            } else {
                Err(ExpressionError::UnexpectedEnd)
            },
        }
    } else {
        Ok((acc, i))
    }
}

/// `T → F (('*'|'/') F)*` at position `i`.
pub open spec fn parse_product(t: Seq<char>, i: int) -> ParseResult
    decreases t.len() - i, 2int,
{
    match parse_factor(t, i) {
        Err(e) => Err(e),
        Ok((lhs, j)) => if 0 <= i < j <= t.len() {
            parse_product_rest(t, j, lhs)
        } else {
            Err(ExpressionError::UnexpectedEnd)
        },
    }
}

/// `(('+'|'-') T)*` at position `i`, after the operand `acc`: left-associative.
pub open spec fn parse_sum_rest(t: Seq<char>, i: int, acc: ExprModel) -> ParseResult
    decreases t.len() - i, 1int,
{
    if 0 <= i < t.len() && (t[i] == '+' || t[i] == '-') {
        match parse_product(t, i + 1) {
            Err(e) => Err(e),
            Ok((rhs, k)) => if i < k <= t.len() {
                parse_sum_rest(
                    t,
                    k,
                    if t[i] == '+' {
                        ExprModel::Add(Box::new(acc), Box::new(rhs))
                    } else {
                        ExprModel::Sub(Box::new(acc), Box::new(rhs))
                    },
                )
            } else {
                Err(ExpressionError::UnexpectedEnd)
            },
        }
    } else {
        Ok((acc, i))
    }
}

/// `E → T (('+'|'-') T)*` at position `i`.
pub open spec fn parse_sum(t: Seq<char>, i: int) -> ParseResult
    decreases t.len() - i, 3int,
{
    match parse_product(t, i) {
        Err(e) => Err(e),
        Ok((lhs, j)) => if 0 <= i < j <= t.len() {
            parse_sum_rest(t, j, lhs)
        } else {
            Err(ExpressionError::UnexpectedEnd)
        },
    }
}

/// The expression that the whole of `t` spells, or why there is none; a
/// character left over after a complete expression is refused.
pub open spec fn parse_all(t: Seq<char>) -> Result<ExprModel, ExpressionError> {
    match parse_sum(t, 0) {
        Err(e) => Err(e),
        Ok((e, j)) => if 0 <= j < t.len() {
            Err(ExpressionError::InvalidCharacter(t[j]))
        } else {
            Ok(e)
        },
    }
}

/// Whether the executable result `r` of parsing from position `i` is the
/// grammar's result `s`; a parse that succeeds moves past `i`.
pub open spec fn parsed_as(
    r: Result<(Expr, usize), ExpressionError>,
    s: ParseResult,
    i: int,
    len: int,
) -> bool {
    match s {
        Ok((m, j)) => r is Ok && r->Ok_0.0.model() == m && r->Ok_0.1 == j && i < j <= len,
        Err(e) => r is Err && r->Err_0 == e,
    }
}

fn is_number_char_exec(c: char) -> (r: bool)
    ensures
        r == is_number_char(c),
{
    ('0' <= c && c <= '9') || c == '.'
}

fn parse_factor_at(t: &Vec<char>, i: usize) -> (r: Result<(Expr, usize), ExpressionError>)
    requires
        i <= t@.len(),
    ensures
        parsed_as(r, parse_factor(t@, i as int), i as int, t@.len() as int),
    decreases t@.len() - i, 0int,
{
    if i >= t.len() {
        return Err(ExpressionError::UnexpectedEnd);
    }
    let c = t[i];
    if is_number_char_exec(c) {
        let mut digits: Vec<char> = Vec::new();
        let mut pos: usize = i;
        let mut points: usize = 0;
        let mut saw_digit = false;
        while pos < t.len() && is_number_char_exec(t[pos])
            invariant
                i <= pos <= t@.len(),
                number_end(t@, i as int) == number_end(t@, pos as int),
                digits@ == t@.subrange(i as int, pos as int),
                points == point_count(digits@),
                points <= pos - i,
                saw_digit == exists|k: int| 0 <= k < digits@.len() && is_digit(#[trigger] digits@[k]),
            decreases t@.len() - pos,
        {
            let d = t[pos];
            let ghost before = digits@;
            if d == '.' {
                points = points + 1;
            } else {
                saw_digit = true;
            }
            digits.push(d);
            pos = pos + 1;
            proof {
                assert(digits@.drop_last() =~= before);
                assert(digits@ =~= t@.subrange(i as int, pos as int));
                assert(forall|k: int| 0 <= k < before.len() ==> digits@[k] == before[k]);
                if d != '.' {
                    assert(is_digit(digits@[before.len() as int]));
                }
            }
        }
        if points <= 1 && saw_digit {
            Ok((Expr::Number(digits), pos))
        } else {
            Err(ExpressionError::InvalidNumber)
        }
    } else if c == '(' {
        match parse_sum_at(t, i + 1) {
            Err(e) => Err(e),
            Ok((e, j)) => {
                if j < t.len() && t[j] == ')' {
                    Ok((e, j + 1))
                } else {
                    Err(ExpressionError::UnexpectedEnd)
                }
            },
        }
    } else {
        Err(ExpressionError::InvalidCharacter(c))
    }
}

fn parse_product_at(t: &Vec<char>, i: usize) -> (r: Result<(Expr, usize), ExpressionError>)
    requires
        i <= t@.len(),
    ensures
        parsed_as(r, parse_product(t@, i as int), i as int, t@.len() as int),
    decreases t@.len() - i, 2int,
{
    let (mut acc, mut pos) = match parse_factor_at(t, i) {
        Err(e) => {
            return Err(e);
        },
        Ok(p) => p,
    };
    while pos < t.len() && (t[pos] == '*' || t[pos] == '/')
        invariant
            i < pos <= t@.len(),
            parse_product(t@, i as int) == parse_product_rest(t@, pos as int, acc.model()),
        decreases t@.len() - pos,
    {
        let op = t[pos];
        match parse_factor_at(t, pos + 1) {
            Err(e) => {
                return Err(e);
            },
            Ok((rhs, k)) => {
                acc = if op == '*' {
                    Expr::Mul(Box::new(acc), Box::new(rhs))
                } else {
                    Expr::Div(Box::new(acc), Box::new(rhs))
                };
                pos = k;
            },
        }
    }
    Ok((acc, pos))
}

fn parse_sum_at(t: &Vec<char>, i: usize) -> (r: Result<(Expr, usize), ExpressionError>)
    requires
        i <= t@.len(),
    ensures
        parsed_as(r, parse_sum(t@, i as int), i as int, t@.len() as int),
    decreases t@.len() - i, 3int,
{
    let (mut acc, mut pos) = match parse_product_at(t, i) {
        Err(e) => {
            return Err(e);
        },
        Ok(p) => p,
    };
    while pos < t.len() && (t[pos] == '+' || t[pos] == '-')
        invariant
            i < pos <= t@.len(),
            parse_sum(t@, i as int) == parse_sum_rest(t@, pos as int, acc.model()),
        decreases t@.len() - pos,
    {
        let op = t[pos];
        match parse_product_at(t, pos + 1) {
            Err(e) => {
                return Err(e);
            },
            Ok((rhs, k)) => {
                acc = if op == '+' {
                    Expr::Add(Box::new(acc), Box::new(rhs))
                } else {
                    Expr::Sub(Box::new(acc), Box::new(rhs))
                };
                pos = k;
            },
        }
    }
    Ok((acc, pos))
}

/// The characters of `s` without its white space.
pub fn strip_whitespace_chars(s: &str) -> (r: Vec<char>)
    ensures
        r@ == strip_whitespace(s@),
{
    let n = s.unicode_len();
    let mut out: Vec<char> = Vec::new();
    let mut i: usize = 0;
    while i < n
        invariant
            n == s@.len(),
            i <= n,
            out@ == strip_whitespace(s@.subrange(0, i as int)),
        decreases n - i,
    {
        let c = s.get_char(i);
        proof {
            assert(s@.subrange(0, i + 1).drop_last() =~= s@.subrange(0, i as int));
        }
        if !is_whitespace_char(c) {
            out.push(c);
        }
        i = i + 1;
    }
    proof {
        assert(s@.subrange(0, n as int) =~= s@);
    }
    out
}

/// Parses an arithmetic expression over `+ - * / ( )` and decimal numbers,
/// with white space ignored; `*` and `/` bind tighter than `+` and `-`, and
/// operators of one level associate to the left.
pub fn parse_expression(expr: &str) -> (r: Result<Expr, ExpressionError>)
    ensures
        match parse_all(strip_whitespace(expr@)) {
            Ok(m) => r is Ok && r->Ok_0.model() == m,
            Err(e) => r is Err && r->Err_0 == e,
        },
{
    let t = strip_whitespace_chars(expr);
    match parse_sum_at(&t, 0) {
        Err(e) => Err(e),
        Ok((e, j)) => {
            if j < t.len() {
                Err(ExpressionError::InvalidCharacter(t[j]))
            } else {
                Ok(e)
            }
        },
    }
}

} // verus!
