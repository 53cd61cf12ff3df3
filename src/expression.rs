use vstd::prelude::*;
use vstd::string::*;

use crate::error::{decimal, decimal_text, expected_at, texts, Error, ErrorKind};
use crate::scanner::{chars_of, find_char, find_from, lemma_find_char_bounds, Scanner};
use crate::token::{lemma_alnum_end_bounds, token_end, token_error, token_ok, Asterisk, Ident, Pipe, Token};
use crate::url::Url;
use crate::canon::{ecanon, ipos, item_ok, lemma_group_canon, lcanon, lchain, lit_canon, lpos, vcanon, vchain, vpos, wcanon, wchain, wpos};

verus! {

/// A single token that must match exactly.
#[derive(Debug)]
pub struct Literal(pub Token);

/// Two alternatives; the one with the longer span in the pattern is tried
/// first.
#[derive(Debug)]
pub struct Logical {
    pub left: Box<Expression>,
    pub op: Pipe,
    pub right: Box<Expression>,
}

/// A run of any characters between two optional neighbours; the run is not
/// kept.
#[derive(Debug)]
pub struct Wildcard {
    pub left: Option<Box<Expression>>,
    pub token: Asterisk,
    pub right: Option<Box<Expression>>,
}

/// A run of any characters between two optional neighbours, kept under
/// `name`.
#[derive(Debug)]
pub struct Var {
    pub left: Option<Box<Expression>>,
    pub name: Ident,
    pub right: Option<Box<Expression>>,
}

/// Expressions in parentheses, matched one after the other; `start` and `end`
/// enclose both parentheses.
#[derive(Debug)]
pub struct Group {
    pub start: usize,
    pub end: usize,
    pub items: Vec<Expression>,
}

/// A node of a compiled pattern.
#[derive(Debug)]
pub enum Expression {
    Var(Var),
    Group(Group),
    Logical(Logical),
    Literal(Literal),
    Wildcard(Wildcard),
}

/// The pattern text that an expression stands for.
pub open spec fn render(e: Expression) -> Seq<char>
    decreases e,
{
    match e {
        Expression::Literal(l) => l.0.text(),
        Expression::Logical(l) => render(*l.left) + seq!['|'] + render(*l.right),
        Expression::Wildcard(w) => (match w.left {
            Some(b) => render(*b),
            None => Seq::empty(),
        }) + seq!['*'] + (match w.right {
            Some(b) => render(*b),
            None => Seq::empty(),
        }),
        Expression::Var(v) => (match v.left {
            Some(b) => render(*b),
            None => Seq::empty(),
        }) + (seq!['{'] + v.name.name@ + seq!['}']) + (match v.right {
            Some(b) => render(*b),
            None => Seq::empty(),
        }),
        Expression::Group(g) => seq!['('] + render_all(g.items@) + seq![')'],
    }
}

/// The pattern text of a sequence of expressions, one after the other.
pub open spec fn render_all(es: Seq<Expression>) -> Seq<char>
    decreases es,
{
    if es.len() == 0 {
        Seq::empty()
    } else {
        render_all(es.drop_last()) + render(es.last())
    }
}

/// Where an expression starts in its pattern: at its leftmost token.
pub open spec fn start_of(e: Expression) -> int
    decreases e,
{
    match e {
        Expression::Literal(l) => l.0.spec_start(),
        Expression::Logical(l) => start_of(*l.left),
        Expression::Wildcard(w) => match w.left {
            Some(b) => start_of(*b),
            None => w.token.start as int,
        },
        Expression::Var(v) => match v.left {
            Some(b) => start_of(*b),
            None => v.name.start as int,
        },
        Expression::Group(g) => g.start as int,
    }
}

/// Where an expression ends in its pattern: at the end of its rightmost
/// token.
pub open spec fn end_of(e: Expression) -> int
    decreases e,
{
    match e {
        Expression::Literal(l) => l.0.spec_end(),
        Expression::Logical(l) => end_of(*l.right),
        Expression::Wildcard(w) => match w.right {
            Some(b) => end_of(*b),
            None => w.token.end as int,
        },
        Expression::Var(v) => match v.right {
            Some(b) => end_of(*b),
            None => v.name.end as int,
        },
        Expression::Group(g) => g.end as int,
    }
}

/// The length of the span of an expression in its pattern; none if its end
/// comes before its start.
pub open spec fn span(e: Expression) -> int {
    if end_of(e) >= start_of(e) {
        end_of(e) - start_of(e)
    } else {
        0
    }
}

/// An alternation layer: a literal, or alternations folded from the left
/// with a literal on the right.
pub open spec fn logical_shape(e: Expression) -> bool
    decreases e,
{
    match e {
        Expression::Literal(_) => true,
        Expression::Logical(l) => logical_shape(*l.left) && match *l.right {
            Expression::Literal(_) => true,
            _ => false,
        },
        _ => false,
    }
}

/// A wildcard layer: an alternation layer, or wildcards folded from the
/// left with an optional alternation layer on the right.
pub open spec fn wildcard_shape(e: Expression) -> bool
    decreases e,
{
    match e {
        Expression::Wildcard(w) => match w.left {
            Some(b) => wildcard_shape(*b) && match w.right {
                Some(r) => logical_shape(*r),
                None => true,
            },
            None => false,
        },
        _ => logical_shape(e),
    }
}

/// A variable layer: a wildcard layer, or variables folded from the left
/// with an optional wildcard layer on the right.
pub open spec fn var_shape(e: Expression) -> bool
    decreases e,
{
    match e {
        Expression::Var(v) => match v.left {
            Some(b) => var_shape(*b) && match v.right {
                Some(r) => wildcard_shape(*r),
                None => true,
            },
            None => false,
        },
        _ => wildcard_shape(e),
    }
}

/// Whether `e` was read from `s` between `p` and `q`.
pub open spec fn parsed(e: Expression, s: Seq<char>, p: int, q: int) -> bool {
    &&& 0 <= p < q <= s.len()
    &&& render(e) == s.subrange(p, q)
    &&& start_of(e) == p
    &&& end_of(e) == q
}

/// Where a literal that starts at `p` ends, if one can be read there.
pub open spec fn literal_end(s: Seq<char>, p: int) -> Option<int> {
    if token_ok(s, p) {
        Some(token_end(s, p))
    } else {
        None
    }
}

/// Where the `|`-separated literals that follow `q` end.
pub open spec fn logical_rest(s: Seq<char>, q: int) -> Option<int>
    decreases s.len() - q,
{
    if 0 <= q < s.len() && s[q] == '|' {
        match literal_end(s, q + 1) {
            Some(r) => if q < r <= s.len() {
                logical_rest(s, r)
            } else {
                None
            },
            None => None,
        }
    } else {
        Some(q)
    }
}

/// Where an alternation that starts at `p` ends, if one can be read there.
pub open spec fn logical_end(s: Seq<char>, p: int) -> Option<int> {
    match literal_end(s, p) {
        Some(q) => logical_rest(s, q),
        None => None,
    }
}

/// Where the `*`-separated alternations that follow `q` end.
pub open spec fn wildcard_rest(s: Seq<char>, q: int) -> Option<int>
    decreases s.len() - q,
{
    if 0 <= q < s.len() && s[q] == '*' {
        if q + 1 == s.len() {
            Some(q + 1)
        } else {
            match logical_end(s, q + 1) {
                Some(r) => if q < r <= s.len() {
                    wildcard_rest(s, r)
                } else {
                    None
                },
                None => None,
            }
        }
    } else {
        Some(q)
    }
}

/// Where a wildcard layer that starts at `p` ends, if one can be read there.
pub open spec fn wildcard_end(s: Seq<char>, p: int) -> Option<int> {
    match logical_end(s, p) {
        Some(q) => wildcard_rest(s, q),
        None => None,
    }
}

/// Where the identifiers and wildcard layers that follow `q` end.
pub open spec fn var_rest(s: Seq<char>, q: int) -> Option<int>
    decreases s.len() - q,
{
    if 0 <= q < s.len() && s[q] == '{' {
        let c = find_char(s, q + 1, '}');
        if c < s.len() {
            if c + 1 == s.len() {
                Some(c + 1)
            } else {
                match wildcard_end(s, c + 1) {
                    Some(r) => if q < r <= s.len() {
                        var_rest(s, r)
                    } else {
                        None
                    },
                    None => None,
                }
            }
        } else {
            None
        }
    } else {
        Some(q)
    }
}

/// Where a variable layer that starts at `p` ends, if one can be read there.
pub open spec fn var_end(s: Seq<char>, p: int) -> Option<int> {
    match wildcard_end(s, p) {
        Some(q) => var_rest(s, q),
        None => None,
    }
}

/// Where an expression that starts at `p` ends, if one can be read there.
pub open spec fn expr_end(s: Seq<char>, p: int) -> Option<int>
    decreases s.len() - p, 1int,
{
    if 0 <= p < s.len() && s[p] == '(' {
        group_end(s, p)
    } else {
        var_end(s, p)
    }
}

/// Where a group that starts at `p` ends, if one can be read there.
pub open spec fn group_end(s: Seq<char>, p: int) -> Option<int>
    decreases s.len() - p, 0int,
{
    if 0 <= p < s.len() && s[p] == '(' {
        items_end(s, p + 1)
    } else {
        None
    }
}

/// Where the expressions of a group from `q` on, and its `)`, end.
pub open spec fn items_end(s: Seq<char>, q: int) -> Option<int>
    decreases s.len() - q, 2int,
{
    if q < 0 || q >= s.len() {
        None
    } else if s[q] == ')' {
        Some(q + 1)
    } else {
        match expr_end(s, q) {
            Some(r) => if q < r <= s.len() {
                items_end(s, r)
            } else {
                None
            },
            None => None,
        }
    }
}

/// Where the `i`-th top-level expression of a pattern starts, if the ones
/// before it can be read.
pub open spec fn expr_pos(s: Seq<char>, i: nat) -> Option<int>
    decreases i,
{
    if i == 0 {
        Some(0)
    } else {
        match expr_pos(s, (i - 1) as nat) {
            Some(q) => if q < s.len() {
                expr_end(s, q)
            } else {
                None
            },
            None => None,
        }
    }
}

/// Whether the expressions from `q` on can be read up to the end of `s`.
pub open spec fn pattern_ok(s: Seq<char>, q: int) -> bool
    decreases s.len() - q,
{
    if q < 0 || q >= s.len() {
        q == s.len()
    } else {
        match expr_end(s, q) {
            Some(r) => q < r <= s.len() && pattern_ok(s, r),
            None => false,
        }
    }
}

/// What matching `e` against `s` from `p` gives, with the captures `m` so far:
/// the position after the match, or `None` when it fails, and the captures
/// after the attempt.
pub open spec fn eval(e: Expression, s: Seq<char>, p: int, m: Map<Seq<char>, Seq<char>>) -> (
    Option<int>,
    Map<Seq<char>, Seq<char>>,
)
    decreases e,
{
    match e {
        Expression::Literal(l) => {
            let t = l.0.text();
            if p + t.len() <= s.len() && s.subrange(p, p + t.len()) == t {
                (Some(p + t.len()), m)
            } else {
                (None, m)
            }
        },
        Expression::Logical(l) => {
            if span(*l.left) < span(*l.right) {
                let (r1, m1) = eval(*l.right, s, p, m);
                if r1 is Some {
                    (r1, m1)
                } else {
                    eval(*l.left, s, p, m1)
                }
            } else {
                let (r1, m1) = eval(*l.left, s, p, m);
                if r1 is Some {
                    (r1, m1)
                } else {
                    eval(*l.right, s, p, m1)
                }
            }
        },
        Expression::Wildcard(w) => {
            let (r1, m1) = match w.left {
                Some(b) => eval(*b, s, p, m),
                None => (Some(p), m),
            };
            match r1 {
                None => (None, m1),
                Some(p1) => match w.right {
                    Some(b) => eval(*b, s, find_from(s, p1, render(*b)), m1),
                    None => (Some(s.len() as int), m1),
                },
            }
        },
        Expression::Var(v) => {
            let (r1, m1) = match v.left {
                Some(b) => eval(*b, s, p, m),
                None => (Some(p), m),
            };
            match r1 {
                None => (None, m1),
                Some(p1) => match v.right {
                    Some(b) => {
                        let q = find_from(s, p1, render(*b));
                        eval(*b, s, q, m1.insert(v.name.name@, s.subrange(p1, q)))
                    },
                    None => (
                        Some(s.len() as int),
                        m1.insert(v.name.name@, s.subrange(p1, s.len() as int)),
                    ),
                },
            }
        },
        Expression::Group(g) => eval_all(g.items@, s, p, m),
    }
}

/// Matching a sequence of expressions one after the other; the first failure
/// ends it.
pub open spec fn eval_all(es: Seq<Expression>, s: Seq<char>, p: int, m: Map<Seq<char>, Seq<char>>) -> (
    Option<int>,
    Map<Seq<char>, Seq<char>>,
)
    decreases es,
{
    if es.len() == 0 {
        (Some(p), m)
    } else {
        let (r, m1) = eval_all(es.drop_last(), s, p, m);
        match r {
            None => (None, m1),
            Some(q) => eval(es.last(), s, q, m1),
        }
    }
}

fn opt_to_string(e: &Option<Box<Expression>>) -> (r: String)
    ensures
        r@ == match *e {
            Some(b) => render(*b),
            None => Seq::<char>::empty(),
        },
    decreases *e,
{
    match e {
        Some(b) => b.to_string(),
        None => String::new(),
    }
}

impl Literal {
    pub fn start(&self) -> (r: usize)
        ensures
            r == self.0.spec_start(),
    {
        self.0.start()
    }

    pub fn end(&self) -> (r: usize)
        ensures
            r == self.0.spec_end(),
    {
        self.0.end()
    }

    pub fn len(&self) -> (r: usize)
        ensures
            r == span(Expression::Literal(*self)),
    {
        let s = self.start();
        let e = self.end();
        if e >= s {
            e - s
        } else {
            0
        }
    }
}

impl Logical {
    pub fn start(&self) -> (r: usize)
        ensures
            r == start_of(Expression::Logical(*self)),
        decreases self,
    {
        self.left.start()
    }

    pub fn end(&self) -> (r: usize)
        ensures
            r == end_of(Expression::Logical(*self)),
        decreases self,
    {
        self.right.end()
    }

    pub fn len(&self) -> (r: usize)
        ensures
            r == span(Expression::Logical(*self)),
    {
        let s = self.start();
        let e = self.end();
        if e >= s {
            e - s
        } else {
            0
        }
    }
}

impl Wildcard {
    pub fn start(&self) -> (r: usize)
        ensures
            r == start_of(Expression::Wildcard(*self)),
        decreases self,
    {
        match &self.left {
            Some(b) => b.start(),
            None => self.token.start,
        }
    }

    pub fn end(&self) -> (r: usize)
        ensures
            r == end_of(Expression::Wildcard(*self)),
        decreases self,
    {
        match &self.right {
            Some(b) => b.end(),
            None => self.token.end,
        }
    }

    pub fn len(&self) -> (r: usize)
        ensures
            r == span(Expression::Wildcard(*self)),
    {
        let s = self.start();
        let e = self.end();
        if e >= s {
            e - s
        } else {
            0
        }
    }
}

impl Var {
    pub fn start(&self) -> (r: usize)
        ensures
            r == start_of(Expression::Var(*self)),
        decreases self,
    {
        match &self.left {
            Some(b) => b.start(),
            None => self.name.start,
        }
    }

    pub fn end(&self) -> (r: usize)
        ensures
            r == end_of(Expression::Var(*self)),
        decreases self,
    {
        match &self.right {
            Some(b) => b.end(),
            None => self.name.end,
        }
    }

    pub fn len(&self) -> (r: usize)
        ensures
            r == span(Expression::Var(*self)),
    {
        let s = self.start();
        let e = self.end();
        if e >= s {
            e - s
        } else {
            0
        }
    }
}

impl Expression {
    pub fn is_var(&self) -> (r: bool)
        ensures
            r == self is Var,
    {
        match self {
            Expression::Var(_) => true,
            _ => false,
        }
    }

    pub fn is_group(&self) -> (r: bool)
        ensures
            r == self is Group,
    {
        match self {
            Expression::Group(_) => true,
            _ => false,
        }
    }

    pub fn is_logical(&self) -> (r: bool)
        ensures
            r == self is Logical,
    {
        match self {
            Expression::Logical(_) => true,
            _ => false,
        }
    }

    pub fn is_literal(&self) -> (r: bool)
        ensures
            r == self is Literal,
    {
        match self {
            Expression::Literal(_) => true,
            _ => false,
        }
    }

    pub fn is_wildcard(&self) -> (r: bool)
        ensures
            r == self is Wildcard,
    {
        match self {
            Expression::Wildcard(_) => true,
            _ => false,
        }
    }

    /// Where the expression starts in its pattern.
    pub fn start(&self) -> (r: usize)
        ensures
            r == start_of(*self),
        decreases self,
    {
        match self {
            Expression::Group(g) => g.start,
            Expression::Literal(l) => l.start(),
            Expression::Logical(l) => l.start(),
            Expression::Var(v) => v.start(),
            Expression::Wildcard(w) => w.start(),
        }
    }

    /// Where the expression ends in its pattern.
    pub fn end(&self) -> (r: usize)
        ensures
            r == end_of(*self),
        decreases self,
    {
        match self {
            Expression::Group(g) => g.end,
            Expression::Literal(l) => l.end(),
            Expression::Logical(l) => l.end(),
            Expression::Var(v) => v.end(),
            Expression::Wildcard(w) => w.end(),
        }
    }

    /// The length of the expression's span in its pattern.
    pub fn len(&self) -> (r: usize)
        ensures
            r == span(*self),
    {
        let s = self.start();
        let e = self.end();
        if e >= s {
            e - s
        } else {
            0
        }
    }

    /// The pattern text that the expression stands for.
    pub fn to_string(&self) -> (r: String)
        ensures
            r@ == render(*self),
        decreases self,
    {
        proof {
            reveal_strlit("|");
            reveal_strlit("*");
            reveal_strlit("{");
            reveal_strlit("}");
            reveal_strlit("(");
            reveal_strlit(")");
        }
        match self {
            Expression::Literal(l) => l.0.to_string(),
            Expression::Logical(l) => l.left.to_string().concat("|").concat(
                l.right.to_string().as_str(),
            ),
            Expression::Wildcard(w) => opt_to_string(&w.left).concat("*").concat(
                opt_to_string(&w.right).as_str(),
            ),
            Expression::Var(v) => {
                let a = opt_to_string(&v.left);
                let b = opt_to_string(&v.right);
                let out = a.concat("{").concat(v.name.name.as_str()).concat("}");
                assert(out@ == a@ + (seq!['{'] + v.name.name@ + seq!['}']));
                out.concat(b.as_str())
            },
            Expression::Group(g) => {
                let inner = to_string_all(&g.items);
                String::from_str("(").concat(inner.as_str()).concat(")")
            },
        }
    }
}

/// The pattern text of `es`, one expression after the other.
pub fn to_string_all(es: &Vec<Expression>) -> (r: String)
    ensures
        r@ == render_all(es@),
    decreases es,
{
    let mut out = String::new();
    let mut i: usize = 0;
    while i < es.len()
        invariant
            i <= es@.len(),
            out@ == render_all(es@.take(i as int)),
        decreases es@.len() - i,
    {
        assert(decreases_to!(es => es@[i as int]));
        let part = es[i].to_string();
        assert(es@.take(i as int + 1).drop_last() == es@.take(i as int));
        out = out.concat(part.as_str());
        i = i + 1;
    }
    assert(es@.take(es@.len() as int) == es@);
    out
}

proof fn lemma_split3(s: Seq<char>, p: int, a: int, b: int, q: int)
    requires
        0 <= p <= a <= b <= q <= s.len(),
    ensures
        s.subrange(p, q) == s.subrange(p, a) + s.subrange(a, b) + s.subrange(b, q),
{
    assert(s.subrange(p, q) =~= s.subrange(p, a) + s.subrange(a, b) + s.subrange(b, q));
}

proof fn lemma_one(s: Seq<char>, a: int)
    requires
        0 <= a < s.len(),
    ensures
        s.subrange(a, a + 1) == seq![s[a]],
{
    assert(s.subrange(a, a + 1) =~= seq![s[a]]);
}

impl Literal {
    /// Reads one token as a literal.
    pub fn parse(scan: &mut Scanner) -> (r: Result<Expression, Error>)
        requires
            old(scan).settled(),
        ensures
            final(scan).wf(),
            final(scan).text() == old(scan).text(),
            (r is Ok) == token_ok(old(scan).text(), old(scan).position()),
            r is Ok ==> r->Ok_0 is Literal && final(scan).settled() && parsed(
                r->Ok_0,
                old(scan).text(),
                old(scan).position(),
                final(scan).position(),
            ),
            (r is Ok) == (literal_end(old(scan).text(), old(scan).position()) is Some),
            r is Err ==> final(scan).same_place(*old(scan)),
            r is Err ==> r->Err_0.says(ErrorKind::Syntax, token_error(old(scan).text(), old(scan).position())),
            r is Ok ==> final(scan).position() == literal_end(old(scan).text(), old(scan).position())->Some_0,
            r is Ok ==> lit_canon(r->Ok_0, old(scan).text(), old(scan).position()),
    {
        let ghost s = scan.text();
        let ghost p = scan.position();
        let t = match Token::parse(scan) {
                Ok(v) => v,
                Err(e) => {
                    return Err(e);
                },
            };
        proof {
            if s[p] == '{' {
                lemma_find_char_bounds(s, p + 1, '}');
            }
            lemma_alnum_end_bounds(s, p + 1);
        }
        Ok(Expression::Literal(Literal(t)))
    }
}

impl Logical {
    /// Reads literals separated by `|`, grouping them from the left:
    /// `a|b|c` is `(a|b)|c`.
    pub fn parse(scan: &mut Scanner) -> (r: Result<Expression, Error>)
        requires
            old(scan).settled(),
        ensures
            r is Err ==> r->Err_0.kind == ErrorKind::Syntax,
            final(scan).wf(),
            final(scan).text() == old(scan).text(),
            r is Ok ==> final(scan).settled() && parsed(
                r->Ok_0,
                old(scan).text(),
                old(scan).position(),
                final(scan).position(),
            ),
            (r is Ok) == (logical_end(old(scan).text(), old(scan).position()) is Some),
            r is Ok ==> final(scan).position() == logical_end(old(scan).text(), old(scan).position())->Some_0,
            r is Ok ==> logical_shape(r->Ok_0),
            r is Ok ==> lcanon(r->Ok_0, old(scan).text(), old(scan).position()),
    {
        let ghost s = scan.text();
        let ghost p = scan.position();
        let mut expr = match Literal::parse(scan) {
                Ok(v) => v,
                Err(e) => {
                    return Err(e);
                },
            };
        let ghost mut k: nat = 0;
        while scan.at('|')
            invariant
                scan.settled(),
                scan.text() == s,
                s == old(scan).text(),
                p == old(scan).position(),
                parsed(expr, s, p, scan.position()),
                logical_end(s, p) == logical_rest(s, scan.position()),
                logical_shape(expr),
                lchain(expr, s, p, k),
                scan.position() == lpos(s, p, k),
            decreases s.len() - scan.position(),
        {
            let ghost a = scan.position();
            let op = match Pipe::parse(scan) {
                Ok(v) => v,
                Err(e) => {
                    return Err(e);
                },
            };
            let right = match Literal::parse(scan) {
                Ok(v) => v,
                Err(e) => {
                    return Err(e);
                },
            };
            proof {
                lemma_split3(s, p, a, a + 1, scan.position());
                lemma_one(s, a);
            }
            expr = Expression::Logical(Logical { left: Box::new(expr), op, right: Box::new(right) });
            proof {
                k = k + 1;
            }
        }
        assert(lchain(expr, s, p, k));
        Ok(expr)
    }
}

impl Wildcard {
    /// Reads alternations separated by `*`; the last `*` may end the input.
    pub fn parse(scan: &mut Scanner) -> (r: Result<Expression, Error>)
        requires
            old(scan).settled(),
        ensures
            r is Err ==> r->Err_0.kind == ErrorKind::Syntax,
            final(scan).wf(),
            final(scan).text() == old(scan).text(),
            r is Ok ==> final(scan).settled() && parsed(
                r->Ok_0,
                old(scan).text(),
                old(scan).position(),
                final(scan).position(),
            ),
            (r is Ok) == (wildcard_end(old(scan).text(), old(scan).position()) is Some),
            r is Ok ==> final(scan).position() == wildcard_end(old(scan).text(), old(scan).position())->Some_0,
            r is Ok ==> wildcard_shape(r->Ok_0),
            r is Ok ==> wcanon(r->Ok_0, old(scan).text(), old(scan).position()),
    {
        let ghost s = scan.text();
        let ghost p = scan.position();
        let mut expr = match Logical::parse(scan) {
                Ok(v) => v,
                Err(e) => {
                    return Err(e);
                },
            };
        let ghost mut k: nat = 0;
        assert(wchain(expr, s, p, 0));
        while scan.at('*')
            invariant
                scan.settled(),
                scan.text() == s,
                s == old(scan).text(),
                p == old(scan).position(),
                parsed(expr, s, p, scan.position()),
                wildcard_end(s, p) == wildcard_rest(s, scan.position()),
                wildcard_shape(expr),
                wchain(expr, s, p, k),
                scan.position() == wpos(s, p, k),
            decreases s.len() - scan.position(),
        {
            let ghost a = scan.position();
            let token = match Asterisk::parse(scan) {
                Ok(v) => v,
                Err(e) => {
                    return Err(e);
                },
            };
            let mut right: Option<Box<Expression>> = None;
            if !scan.is_eof() {
                right = Some(Box::new(match Logical::parse(scan) {
                Ok(v) => v,
                Err(e) => {
                    return Err(e);
                },
            }));
            }
            proof {
                lemma_split3(s, p, a, a + 1, scan.position());
                lemma_one(s, a);
                if right is None {
                    assert(s.subrange(a + 1, scan.position()) =~= Seq::<char>::empty());
                }
            }
            expr = Expression::Wildcard(Wildcard { left: Some(Box::new(expr)), token, right });
            proof {
                k = k + 1;
            }
        }
        assert(wchain(expr, s, p, k));
        Ok(expr)
    }
}

impl Var {
    /// Reads wildcards separated by identifiers `{name}`; the last identifier
    /// may end the input.
    pub fn parse(scan: &mut Scanner) -> (r: Result<Expression, Error>)
        requires
            old(scan).settled(),
        ensures
            r is Err ==> r->Err_0.kind == ErrorKind::Syntax,
            final(scan).wf(),
            final(scan).text() == old(scan).text(),
            r is Ok ==> final(scan).settled() && parsed(
                r->Ok_0,
                old(scan).text(),
                old(scan).position(),
                final(scan).position(),
            ),
            (r is Ok) == (var_end(old(scan).text(), old(scan).position()) is Some),
            r is Ok ==> final(scan).position() == var_end(old(scan).text(), old(scan).position())->Some_0,
            r is Ok ==> var_shape(r->Ok_0),
            r is Ok ==> vcanon(r->Ok_0, old(scan).text(), old(scan).position()),
    {
        let ghost s = scan.text();
        let ghost p = scan.position();
        let mut expr = match Wildcard::parse(scan) {
                Ok(v) => v,
                Err(e) => {
                    return Err(e);
                },
            };
        let ghost mut k: nat = 0;
        assert(vchain(expr, s, p, 0));
        while scan.at('{')
            invariant
                scan.settled(),
                scan.text() == s,
                s == old(scan).text(),
                p == old(scan).position(),
                parsed(expr, s, p, scan.position()),
                var_end(s, p) == var_rest(s, scan.position()),
                var_shape(expr),
                vchain(expr, s, p, k),
                scan.position() == vpos(s, p, k),
            decreases s.len() - scan.position(),
        {
            let ghost a = scan.position();
            proof {
                lemma_find_char_bounds(s, a + 1, '}');
            }
            let name = match Ident::parse(scan) {
                Ok(v) => v,
                Err(e) => {
                    return Err(e);
                },
            };
            let ghost b = scan.position();
            let mut right: Option<Box<Expression>> = None;
            if !scan.is_eof() {
                right = Some(Box::new(match Wildcard::parse(scan) {
                Ok(v) => v,
                Err(e) => {
                    return Err(e);
                },
            }));
            }
            proof {
                lemma_split3(s, p, a, b, scan.position());
                lemma_split3(s, a, a + 1, b - 1, b);
                lemma_one(s, a);
                lemma_one(s, b - 1);
                if right is None {
                    assert(s.subrange(b, scan.position()) =~= Seq::<char>::empty());
                }
            }
            expr = Expression::Var(Var { left: Some(Box::new(expr)), name, right });
            proof {
                k = k + 1;
            }
        }
        assert(vchain(expr, s, p, k));
        Ok(expr)
    }
}

impl Group {
    /// Reads `(`, the expressions up to the matching `)`, and `)`; fails when
    /// the position holds no `(` or the input ends before the `)`.
    pub fn parse(scan: &mut Scanner) -> (r: Result<Expression, Error>)
        requires
            old(scan).settled(),
        ensures
            r is Err ==> r->Err_0.kind == ErrorKind::Syntax,
            final(scan).wf(),
            final(scan).text() == old(scan).text(),
            r is Ok ==> r->Ok_0 is Group && final(scan).settled() && parsed(
                r->Ok_0,
                old(scan).text(),
                old(scan).position(),
                final(scan).position(),
            ),
            (r is Ok) == (group_end(old(scan).text(), old(scan).position()) is Some),
            r is Ok ==> final(scan).position() == group_end(old(scan).text(), old(scan).position())->Some_0,
            r is Ok ==> ecanon(r->Ok_0, old(scan).text(), old(scan).position()),
        decreases old(scan).text().len() - old(scan).position(), 0int,
    {
        let ghost s = scan.text();
        let ghost p = scan.position();
        if !scan.at('(') {
            return Err(expected_at("'('", scan.right()));
        }
        let start = scan.right();
        scan.skip(1);
        let mut items: Vec<Expression> = Vec::new();
        while !scan.is_eof() && !scan.at(')')
            invariant
                scan.settled(),
                scan.text() == s,
                s == old(scan).text(),
                p == old(scan).position(),
                0 <= p < scan.position() <= s.len(),
                render_all(items@) == s.subrange(p + 1, scan.position()),
                group_end(s, p) == items_end(s, scan.position()),
                scan.position() == ipos(s, p + 1, items@.len()),
                s[p] == '(',
                start == p,
                forall|i: int| 0 <= i < items@.len() ==> item_ok(#[trigger] items@[i], s, p + 1, i as nat),
            decreases s.len() - scan.position(),
        {
            let ghost a = scan.position();
            let ghost before = items@;
            let e = match Expression::parse(scan) {
                Ok(v) => v,
                Err(e) => {
                    return Err(e);
                },
            };
            items.push(e);
            proof {
                assert(items@.drop_last() == before);
                assert(item_ok(e, s, p + 1, before.len()));
                assert forall|i: int| 0 <= i < items@.len() implies item_ok(#[trigger] items@[i], s, p + 1, i as nat) by {
                    if i < before.len() {
                        assert(items@[i] == before[i]);
                    } else {
                        assert(items@[i] == e);
                    }
                }
                lemma_split3(s, p + 1, a, scan.position(), scan.position());
                assert(s.subrange(scan.position(), scan.position()) =~= Seq::<char>::empty());
            }
        }
        if scan.is_eof() {
            return Err(expected_at("')' to close the group", scan.right()));
        }
        let b = scan.right();
        scan.skip(1);
        proof {
            lemma_split3(s, p, p + 1, b as int, b + 1);
            lemma_one(s, p);
            lemma_one(s, b as int);
        }
        let result = Expression::Group(Group { start, end: b + 1, items });
        proof {
            lemma_group_canon(result, s, p);
        }
        Ok(result)
    }
}

impl Expression {
    /// Reads one expression: a group when the position holds `(`, else a
    /// variable layer.
    pub fn parse(scan: &mut Scanner) -> (r: Result<Expression, Error>)
        requires
            old(scan).settled(),
        ensures
            r is Err ==> r->Err_0.kind == ErrorKind::Syntax,
            final(scan).wf(),
            final(scan).text() == old(scan).text(),
            r is Ok ==> final(scan).settled() && parsed(
                r->Ok_0,
                old(scan).text(),
                old(scan).position(),
                final(scan).position(),
            ),
            (r is Ok) == (expr_end(old(scan).text(), old(scan).position()) is Some),
            r is Ok ==> final(scan).position() == expr_end(old(scan).text(), old(scan).position())->Some_0,
            r is Ok ==> r->Ok_0 is Group || var_shape(r->Ok_0),
            r is Ok ==> ecanon(r->Ok_0, old(scan).text(), old(scan).position()),
        decreases old(scan).text().len() - old(scan).position(), 1int,
    {
        if scan.at('(') {
            Group::parse(scan)
        } else {
            Var::parse(scan)
        }
    }
}

/// The message of a literal that does not match: the text expected, the
/// text found, and where.
pub open spec fn mismatch_text(t: Seq<char>, found: Seq<char>, at: nat) -> Seq<char> {
    "expected '"@ + t + "', found '"@ + found + "' at "@ + decimal_text(at) + "; "@
}

/// The text of the error that a failed match of `e` against `s` from `p`
/// gives, with the captures `m` so far.
pub open spec fn eval_error(e: Expression, s: Seq<char>, p: int, m: Map<Seq<char>, Seq<char>>) -> Seq<char>
    decreases e,
{
    match e {
        Expression::Literal(l) => {
            let t = l.0.text();
            let end = if p + t.len() <= s.len() { p + t.len() } else { s.len() as int };
            mismatch_text(t, s.subrange(p, end), p as nat)
        },
        Expression::Logical(l) => {
            if span(*l.left) < span(*l.right) {
                "no alternative matched: "@ + eval_error(*l.right, s, p, m) + eval_error(
                    *l.left,
                    s,
                    p,
                    eval(*l.right, s, p, m).1,
                )
            } else {
                "no alternative matched: "@ + eval_error(*l.left, s, p, m) + eval_error(
                    *l.right,
                    s,
                    p,
                    eval(*l.left, s, p, m).1,
                )
            }
        },
        Expression::Wildcard(w) => {
            let (r1, m1) = match w.left {
                Some(b) => eval(*b, s, p, m),
                None => (Some(p), m),
            };
            match r1 {
                None => match w.left {
                    Some(b) => eval_error(*b, s, p, m),
                    None => Seq::empty(),
                },
                Some(p1) => match w.right {
                    Some(b) => eval_error(*b, s, find_from(s, p1, render(*b)), m1),
                    None => Seq::empty(),
                },
            }
        },
        Expression::Var(v) => {
            let (r1, m1) = match v.left {
                Some(b) => eval(*b, s, p, m),
                None => (Some(p), m),
            };
            match r1 {
                None => match v.left {
                    Some(b) => eval_error(*b, s, p, m),
                    None => Seq::empty(),
                },
                Some(p1) => match v.right {
                    Some(b) => {
                        let q = find_from(s, p1, render(*b));
                        eval_error(*b, s, q, m1.insert(v.name.name@, s.subrange(p1, q)))
                    },
                    None => Seq::empty(),
                },
            }
        },
        Expression::Group(g) => eval_all_error(g.items@, s, p, m),
    }
}

/// The text of the error that a failed match of a sequence gives: that of
/// the first expression that fails.
pub open spec fn eval_all_error(es: Seq<Expression>, s: Seq<char>, p: int, m: Map<Seq<char>, Seq<char>>) -> Seq<char>
    decreases es,
{
    if es.len() == 0 {
        Seq::empty()
    } else {
        let (r, m1) = eval_all(es.drop_last(), s, p, m);
        match r {
            None => eval_all_error(es.drop_last(), s, p, m),
            Some(q) => eval_error(es.last(), s, q, m1),
        }
    }
}

/// What evaluating `e` owes: the scanner and the captures after it are those
/// that the model `eval` gives, and it succeeds exactly when the model does.
pub open spec fn eval_post(
    e: Expression,
    scan0: Scanner,
    scan1: Scanner,
    url0: Url,
    url1: Url,
    r: Result<(), Error>,
) -> bool {
    let ok = r is Ok;
    let (res, m) = eval(e, scan0.text(), scan0.position(), url0.params@);
    &&& scan1.wf()
    &&& scan1.text() == scan0.text()
    &&& url1.wf()
    &&& url1.same_but_params(url0)
    &&& url1.params@ == m
    &&& ok == (res is Some)
    &&& ok ==> scan1.settled() && scan1.position() == res->Some_0
    &&& r is Err ==> r->Err_0.kind == ErrorKind::Mismatch && r->Err_0.text() == eval_error(
        e,
        scan0.text(),
        scan0.position(),
        url0.params@,
    )
}

/// Once a sequence of expressions fails, the expressions after the failure
/// change nothing.
pub proof fn lemma_eval_all_fails(es: Seq<Expression>, i: int, s: Seq<char>, p: int, m: Map<Seq<char>, Seq<char>>)
    requires
        0 <= i <= es.len(),
        eval_all(es.take(i), s, p, m).0 is None,
    ensures
        eval_all(es, s, p, m) == eval_all(es.take(i), s, p, m),
        eval_all_error(es, s, p, m) == eval_all_error(es.take(i), s, p, m),
    decreases es.len() - i,
{
    if i < es.len() {
        assert(es.take(i + 1).drop_last() == es.take(i));
        lemma_eval_all_fails(es, i + 1, s, p, m);
    } else {
        assert(es.take(i) == es);
    }
}

impl Literal {
    /// Matches the token's text exactly at the position, and commits it.
    pub fn eval(&self, scan: &mut Scanner, url: &mut Url) -> (r: Result<(), Error>)
        requires
            old(scan).settled(),
            old(url).wf(),
        ensures
            eval_post(Expression::Literal(*self), *old(scan), *final(scan), *old(url), *final(url), r),
            r is Err ==> final(scan).same_place(*old(scan)),
    {
        let t = self.0.to_string();
        let needle = chars_of(t.as_str());
        if scan.looking_at(&needle) {
            scan.skip(needle.len());
            return Ok(());
        }
        let p = scan.right();
        let rest = scan.len() - p;
        let n = if needle.len() < rest { needle.len() } else { rest };
        let found = scan.span(p, p + n);
        let message = String::from_str("expected '").concat(t.as_str()).concat("', found '").concat(
            found.as_str(),
        ).concat("' at ").concat(decimal(p).as_str()).concat("; ");
        Err(Error::with_kind(ErrorKind::Mismatch, message))
    }
}

impl Logical {
    /// Tries the alternative with the longer span first, then, from the same
    /// position, the other; fails with both failures when neither matches.
    /// A failed alternative leaves the scanner where it was before it.
    pub fn eval(&self, scan: &mut Scanner, url: &mut Url) -> (r: Result<(), Error>)
        requires
            old(scan).settled(),
            old(url).wf(),
        ensures
            eval_post(Expression::Logical(*self), *old(scan), *final(scan), *old(url), *final(url), r),
            r is Err ==> final(scan).settled() && final(scan).position() == old(scan).position(),
            r is Err ==> r->Err_0.errors@.len() == 2,
            r is Err ==> {
                let (first, second) = if span(*self.left) < span(*self.right) {
                    (*self.right, *self.left)
                } else {
                    (*self.left, *self.right)
                };
                let s = old(scan).text();
                let p = old(scan).position();
                let m = old(url).params@;
                &&& r->Err_0.errors@[0].text() == eval_error(first, s, p, m)
                &&& r->Err_0.errors@[1].text() == eval_error(second, s, p, eval(first, s, p, m).1)
            },
        decreases self,
    {
        let mark = scan.right();
        let swap = self.left.len() < self.right.len();
        let first: &Expression = if swap { &self.right } else { &self.left };
        let second: &Expression = if swap { &self.left } else { &self.right };
        let e1 = match first.eval(scan, url) {
            Ok(()) => {
                return Ok(());
            },
            Err(e) => e,
        };
        scan.restore(mark);
        let e2 = match second.eval(scan, url) {
            Ok(()) => {
                return Ok(());
            },
            Err(e) => e,
        };
        scan.restore(mark);
        let mut error = Error::with_kind(ErrorKind::Mismatch, String::from_str("no alternative matched: "));
        let ghost c1 = e1;
        let ghost c2 = e2;
        error.push(e1);
        error.push(e2);
        proof {
            assert(error.errors@ == seq![c1, c2]);
            assert(seq![c1, c2].drop_last() == seq![c1]);
            assert(seq![c1].drop_last() == Seq::<Error>::empty());
            assert(texts(Seq::<Error>::empty()) == Seq::<char>::empty());
            assert(texts(seq![c1]) =~= c1.text());
            assert(texts(seq![c1, c2]) =~= c1.text() + c2.text());
            assert(error.text() =~= "no alternative matched: "@ + c1.text() + c2.text());
        }
        Err(error)
    }
}

impl Wildcard {
    /// Matches the left neighbour, skips up to the first place where the text
    /// of the right neighbour occurs (or to the end), then matches the right
    /// neighbour there.
    pub fn eval(&self, scan: &mut Scanner, url: &mut Url) -> (r: Result<(), Error>)
        requires
            old(scan).settled(),
            old(url).wf(),
        ensures
            eval_post(Expression::Wildcard(*self), *old(scan), *final(scan), *old(url), *final(url), r),
        decreases self,
    {
        match &self.left {
            Some(left) => {
                match left.eval(scan, url) {
                Ok(v) => v,
                Err(e) => {
                    return Err(e);
                },
            };
            },
            None => {},
        }
        match &self.right {
            Some(right) => {
                let t = right.to_string();
                let needle = chars_of(t.as_str());
                scan.seek_text(&needle);
            },
            None => {
                scan.seek_end();
            },
        }
        scan.commit();
        match &self.right {
            Some(right) => right.eval(scan, url),
            None => Ok(()),
        }
    }
}

impl Var {
    /// As a wildcard, but the skipped run is bound to the variable's name,
    /// in place of any earlier value.
    pub fn eval(&self, scan: &mut Scanner, url: &mut Url) -> (r: Result<(), Error>)
        requires
            old(scan).settled(),
            old(url).wf(),
        ensures
            eval_post(Expression::Var(*self), *old(scan), *final(scan), *old(url), *final(url), r),
        decreases self,
    {
        match &self.left {
            Some(left) => {
                match left.eval(scan, url) {
                Ok(v) => v,
                Err(e) => {
                    return Err(e);
                },
            };
            },
            None => {},
        }
        match &self.right {
            Some(right) => {
                let t = right.to_string();
                let needle = chars_of(t.as_str());
                scan.seek_text(&needle);
            },
            None => {
                scan.seek_end();
            },
        }
        let value = scan.commit();
        url.params.set(self.name.name.as_str(), &value);
        match &self.right {
            Some(right) => right.eval(scan, url),
            None => Ok(()),
        }
    }
}

impl Group {
    /// Matches the expressions one after the other; the first failure ends
    /// the match.
    pub fn eval(&self, scan: &mut Scanner, url: &mut Url) -> (r: Result<(), Error>)
        requires
            old(scan).settled(),
            old(url).wf(),
        ensures
            eval_post(Expression::Group(*self), *old(scan), *final(scan), *old(url), *final(url), r),
        decreases self,
    {
        let ghost s = scan.text();
        let ghost p = scan.position();
        let ghost m = url.params@;
        let mut i: usize = 0;
        while i < self.items.len()
            invariant
                i <= self.items@.len(),
                scan.settled(),
                scan.text() == s,
                s == old(scan).text(),
                p == old(scan).position(),
                m == old(url).params@,
                url.wf(),
                url.same_but_params(*old(url)),
                eval_all(self.items@.take(i as int), s, p, m) == (Some(scan.position()), url.params@),
            decreases self.items@.len() - i,
        {
            assert(self.items@.take(i as int + 1).drop_last() == self.items@.take(i as int));
            assert(decreases_to!(self => self.items));
            match self.items[i].eval(scan, url) {
                Ok(()) => {},
                Err(e) => {
                    proof {
                        lemma_eval_all_fails(self.items@, i + 1, s, p, m);
                    }
                    return Err(e);
                },
            }
            i = i + 1;
        }
        assert(self.items@.take(self.items@.len() as int) == self.items@);
        Ok(())
    }
}

impl Expression {
    /// Matches the expression against the scanner's text from its position,
    /// binding the captures into `url`.
    pub fn eval(&self, scan: &mut Scanner, url: &mut Url) -> (r: Result<(), Error>)
        requires
            old(scan).settled(),
            old(url).wf(),
        ensures
            eval_post(*self, *old(scan), *final(scan), *old(url), *final(url), r),
            self is Logical && r is Err ==> final(scan).settled() && final(scan).position()
                == old(scan).position(),
        decreases self,
    {
        match self {
            Expression::Group(v) => v.eval(scan, url),
            Expression::Literal(v) => v.eval(scan, url),
            Expression::Logical(v) => v.eval(scan, url),
            Expression::Var(v) => v.eval(scan, url),
            Expression::Wildcard(v) => v.eval(scan, url),
        }
    }
}

/// Whether a match succeeds, and where it ends, does not depend on the
/// captures made before it.
pub proof fn lemma_eval_ignores_captures(
    e: Expression,
    s: Seq<char>,
    p: int,
    m1: Map<Seq<char>, Seq<char>>,
    m2: Map<Seq<char>, Seq<char>>,
)
    ensures
        eval(e, s, p, m1).0 == eval(e, s, p, m2).0,
    decreases e,
{
    match e {
        Expression::Literal(_) => {},
        Expression::Logical(l) => {
            lemma_eval_ignores_captures(*l.left, s, p, m1, m2);
            lemma_eval_ignores_captures(*l.right, s, p, m1, m2);
            let a1 = eval(*l.left, s, p, m1).1;
            let a2 = eval(*l.left, s, p, m2).1;
            let b1 = eval(*l.right, s, p, m1).1;
            let b2 = eval(*l.right, s, p, m2).1;
            lemma_eval_ignores_captures(*l.right, s, p, a1, a2);
            lemma_eval_ignores_captures(*l.left, s, p, b1, b2);
        },
        Expression::Wildcard(w) => {
            let (r1, n1) = match w.left {
                Some(b) => eval(*b, s, p, m1),
                None => (Some(p), m1),
            };
            let n2 = match w.left {
                Some(b) => eval(*b, s, p, m2).1,
                None => m2,
            };
            if let Some(b) = w.left {
                lemma_eval_ignores_captures(*b, s, p, m1, m2);
            }
            if let (Some(p1), Some(b)) = (r1, w.right) {
                lemma_eval_ignores_captures(*b, s, find_from(s, p1, render(*b)), n1, n2);
            }
        },
        Expression::Var(v) => {
            let (r1, n1) = match v.left {
                Some(b) => eval(*b, s, p, m1),
                None => (Some(p), m1),
            };
            let n2 = match v.left {
                Some(b) => eval(*b, s, p, m2).1,
                None => m2,
            };
            if let Some(b) = v.left {
                lemma_eval_ignores_captures(*b, s, p, m1, m2);
            }
            if let (Some(p1), Some(b)) = (r1, v.right) {
                let q = find_from(s, p1, render(*b));
                lemma_eval_ignores_captures(
                    *b,
                    s,
                    q,
                    n1.insert(v.name.name@, s.subrange(p1, q)),
                    n2.insert(v.name.name@, s.subrange(p1, q)),
                );
            }
        },
        Expression::Group(g) => {
            lemma_eval_all_ignores_captures(g.items@, s, p, m1, m2);
        },
    }
}

/// Whether a sequence of expressions matches, and where it ends, does not
/// depend on the captures made before it.
pub proof fn lemma_eval_all_ignores_captures(
    es: Seq<Expression>,
    s: Seq<char>,
    p: int,
    m1: Map<Seq<char>, Seq<char>>,
    m2: Map<Seq<char>, Seq<char>>,
)
    ensures
        eval_all(es, s, p, m1).0 == eval_all(es, s, p, m2).0,
    decreases es,
{
    if es.len() > 0 {
        lemma_eval_all_ignores_captures(es.drop_last(), s, p, m1, m2);
        let (r1, n1) = eval_all(es.drop_last(), s, p, m1);
        let n2 = eval_all(es.drop_last(), s, p, m2).1;
        if let Some(q) = r1 {
            lemma_eval_ignores_captures(es.last(), s, q, n1, n2);
        }
    }
}

/// An alternation matches exactly when one of its branches, tried alone,
/// matches.
pub proof fn lemma_alternation_total(l: Logical, s: Seq<char>, p: int, m: Map<Seq<char>, Seq<char>>)
    ensures
        (eval(Expression::Logical(l), s, p, m).0 is Some) == (eval(*l.left, s, p, m).0 is Some
            || eval(*l.right, s, p, m).0 is Some),
{
    lemma_eval_ignores_captures(*l.left, s, p, eval(*l.right, s, p, m).1, m);
    lemma_eval_ignores_captures(*l.right, s, p, eval(*l.left, s, p, m).1, m);
}

/// When the branch with the longer span matches, its match is the match of
/// the alternation; the other branch is not tried.
pub proof fn lemma_longer_branch_wins(l: Logical, s: Seq<char>, p: int, m: Map<Seq<char>, Seq<char>>)
    ensures
        span(*l.left) >= span(*l.right) && eval(*l.left, s, p, m).0 is Some ==> eval(
            Expression::Logical(l),
            s,
            p,
            m,
        ) == eval(*l.left, s, p, m),
        span(*l.left) < span(*l.right) && eval(*l.right, s, p, m).0 is Some ==> eval(
            Expression::Logical(l),
            s,
            p,
            m,
        ) == eval(*l.right, s, p, m),
{
}

/// When the branch tried first fails, the other branch starts from the same
/// position the first one started from.
pub proof fn lemma_failed_branch_restarts(l: Logical, s: Seq<char>, p: int, m: Map<Seq<char>, Seq<char>>)
    ensures
        span(*l.left) >= span(*l.right) && eval(*l.left, s, p, m).0 is None ==> eval(
            Expression::Logical(l),
            s,
            p,
            m,
        ) == eval(*l.right, s, p, eval(*l.left, s, p, m).1),
        span(*l.left) < span(*l.right) && eval(*l.right, s, p, m).0 is None ==> eval(
            Expression::Logical(l),
            s,
            p,
            m,
        ) == eval(*l.left, s, p, eval(*l.right, s, p, m).1),
{
}

} // verus!
