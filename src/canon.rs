use vstd::prelude::*;

use crate::expression::{
    eval, eval_all, eval_all_error, eval_error, expr_end, render, render_all, span, end_of,
    start_of, logical_end, wildcard_end, Expression,
};
use crate::scanner::{find_char, find_from};
use crate::token::{is_structural, token_end, token_ok};

verus! {

/// Whether two expressions are the same tree: the same variant at every node,
/// the same children, the same token texts, names and positions.
pub open spec fn same(a: Expression, b: Expression) -> bool
    decreases a,
{
    match a {
        Expression::Literal(x) => match b {
            Expression::Literal(y) => x.0.text() == y.0.text() && x.0.lead() == y.0.lead()
                && x.0.spec_start() == y.0.spec_start() && x.0.spec_end() == y.0.spec_end(),
            _ => false,
        },
        Expression::Logical(x) => match b {
            Expression::Logical(y) => same(*x.left, *y.left) && same(*x.right, *y.right),
            _ => false,
        },
        Expression::Wildcard(x) => match b {
            Expression::Wildcard(y) => x.token == y.token && (match x.left {
                Some(l1) => match y.left {
                    Some(l2) => same(*l1, *l2),
                    None => false,
                },
                None => y.left is None,
            }) && (match x.right {
                Some(r1) => match y.right {
                    Some(r2) => same(*r1, *r2),
                    None => false,
                },
                None => y.right is None,
            }),
            _ => false,
        },
        Expression::Var(x) => match b {
            Expression::Var(y) => x.name.name@ == y.name.name@ && x.name.start == y.name.start
                && x.name.end == y.name.end && (match x.left {
                Some(l1) => match y.left {
                    Some(l2) => same(*l1, *l2),
                    None => false,
                },
                None => y.left is None,
            }) && (match x.right {
                Some(r1) => match y.right {
                    Some(r2) => same(*r1, *r2),
                    None => false,
                },
                None => y.right is None,
            }),
            _ => false,
        },
        Expression::Group(x) => match b {
            Expression::Group(y) => x.start == y.start && x.end == y.end && x.items@.len()
                == y.items@.len() && forall|i: int|
                0 <= i < x.items@.len() ==> same(#[trigger] x.items@[i], y.items@[i]),
            _ => false,
        },
    }
}

/// Whether two sequences of expressions are the same trees, one by one.
pub open spec fn same_all(a: Seq<Expression>, b: Seq<Expression>) -> bool {
    a.len() == b.len() && forall|i: int| 0 <= i < a.len() ==> same(#[trigger] a[i], b[i])
}

/// The same trees read as the same text, from the same place to the same
/// place.
pub proof fn lemma_same_static(a: Expression, b: Expression)
    requires
        same(a, b),
    ensures
        render(a) == render(b),
        start_of(a) == start_of(b),
        end_of(a) == end_of(b),
        span(a) == span(b),
    decreases a,
{
    match a {
        Expression::Literal(_) => {},
        Expression::Logical(x) => {
            let y = b->Logical_0;
            lemma_same_static(*x.left, *y.left);
            lemma_same_static(*x.right, *y.right);
        },
        Expression::Wildcard(x) => {
            let y = b->Wildcard_0;
            if let Some(l1) = x.left {
                lemma_same_static(*l1, *y.left->Some_0);
            }
            if let Some(r1) = x.right {
                lemma_same_static(*r1, *y.right->Some_0);
            }
        },
        Expression::Var(x) => {
            let y = b->Var_0;
            if let Some(l1) = x.left {
                lemma_same_static(*l1, *y.left->Some_0);
            }
            if let Some(r1) = x.right {
                lemma_same_static(*r1, *y.right->Some_0);
            }
        },
        Expression::Group(x) => {
            let y = b->Group_0;
            assert(decreases_to!(a => x.items@));
            lemma_same_all_static(x.items@, y.items@);
        },
    }
}

pub proof fn lemma_same_all_static(a: Seq<Expression>, b: Seq<Expression>)
    requires
        same_all(a, b),
    ensures
        render_all(a) == render_all(b),
    decreases a,
{
    if a.len() > 0 {
        assert(same_all(a.drop_last(), b.drop_last()));
        lemma_same_all_static(a.drop_last(), b.drop_last());
        lemma_same_static(a.last(), b.last());
    }
}

/// The same trees match, and fail, alike.
pub proof fn lemma_same_eval(a: Expression, b: Expression, s: Seq<char>, p: int, m: Map<Seq<char>, Seq<char>>)
    requires
        same(a, b),
    ensures
        eval(a, s, p, m) == eval(b, s, p, m),
        eval_error(a, s, p, m) == eval_error(b, s, p, m),
    decreases a,
{
    lemma_same_static(a, b);
    match a {
        Expression::Literal(_) => {},
        Expression::Logical(x) => {
            let y = b->Logical_0;
            lemma_same_static(*x.left, *y.left);
            lemma_same_static(*x.right, *y.right);
            lemma_same_eval(*x.left, *y.left, s, p, m);
            lemma_same_eval(*x.right, *y.right, s, p, m);
            lemma_same_eval(*x.left, *y.left, s, p, eval(*x.right, s, p, m).1);
            lemma_same_eval(*x.right, *y.right, s, p, eval(*x.left, s, p, m).1);
        },
        Expression::Wildcard(x) => {
            let y = b->Wildcard_0;
            if let Some(l1) = x.left {
                lemma_same_eval(*l1, *y.left->Some_0, s, p, m);
            }
            let (r1, m1) = match x.left {
                Some(l) => eval(*l, s, p, m),
                None => (Some(p), m),
            };
            if let (Some(p1), Some(rt)) = (r1, x.right) {
                lemma_same_static(*rt, *y.right->Some_0);
                lemma_same_eval(*rt, *y.right->Some_0, s, find_from(s, p1, render(*rt)), m1);
            }
        },
        Expression::Var(x) => {
            let y = b->Var_0;
            if let Some(l1) = x.left {
                lemma_same_eval(*l1, *y.left->Some_0, s, p, m);
            }
            let (r1, m1) = match x.left {
                Some(l) => eval(*l, s, p, m),
                None => (Some(p), m),
            };
            if let (Some(p1), Some(rt)) = (r1, x.right) {
                lemma_same_static(*rt, *y.right->Some_0);
                let q = find_from(s, p1, render(*rt));
                lemma_same_eval(*rt, *y.right->Some_0, s, q, m1.insert(x.name.name@, s.subrange(p1, q)));
            }
        },
        Expression::Group(x) => {
            let y = b->Group_0;
            assert(decreases_to!(a => x.items@));
            lemma_same_all_eval(x.items@, y.items@, s, p, m);
        },
    }
}

/// The same sequences match, and fail, alike.
pub proof fn lemma_same_all_eval(a: Seq<Expression>, b: Seq<Expression>, s: Seq<char>, p: int, m: Map<Seq<char>, Seq<char>>)
    requires
        same_all(a, b),
    ensures
        eval_all(a, s, p, m) == eval_all(b, s, p, m),
        eval_all_error(a, s, p, m) == eval_all_error(b, s, p, m),
    decreases a,
{
    if a.len() > 0 {
        assert(same_all(a.drop_last(), b.drop_last()));
        lemma_same_all_eval(a.drop_last(), b.drop_last(), s, p, m);
        let (r, m1) = eval_all(a.drop_last(), s, p, m);
        if let Some(q) = r {
            lemma_same_eval(a.last(), b.last(), s, q, m1);
        }
    }
}

/// The character that decides the kind of a token that starts with `c`.
pub open spec fn lead_of(c: char) -> Option<char> {
    if is_structural(c) || c == '{' {
        Some(c)
    } else {
        None
    }
}

/// `e` is the literal read at `p`: the token that starts there.
pub open spec fn lit_canon(e: Expression, s: Seq<char>, p: int) -> bool {
    match e {
        Expression::Literal(l) => {
            &&& token_ok(s, p)
            &&& l.0.text() == s.subrange(p, token_end(s, p))
            &&& l.0.lead() == lead_of(s[p])
            &&& l.0.spec_start() == p
            &&& l.0.spec_end() == token_end(s, p)
        },
        _ => false,
    }
}

/// Where the literal after the `k`-th `|` of an alternation read from `p`
/// ends.
pub open spec fn lpos(s: Seq<char>, p: int, k: nat) -> int
    decreases k,
{
    if k == 0 {
        token_end(s, p)
    } else {
        token_end(s, lpos(s, p, (k - 1) as nat) + 1)
    }
}

/// `e` is the alternation of the `k + 1` literals read from `p`, folded from
/// the left.
pub open spec fn lchain(e: Expression, s: Seq<char>, p: int, k: nat) -> bool
    decreases k,
{
    if k == 0 {
        lit_canon(e, s, p)
    } else {
        let a = lpos(s, p, (k - 1) as nat);
        match e {
            Expression::Logical(l) => {
                &&& 0 <= a < s.len()
                &&& s[a] == '|'
                &&& lchain(*l.left, s, p, (k - 1) as nat)
                &&& lit_canon(*l.right, s, a + 1)
            },
            _ => false,
        }
    }
}

/// `e` is the alternation layer that the parser reads from `p`.
pub open spec fn lcanon(e: Expression, s: Seq<char>, p: int) -> bool {
    exists|k: nat|
        #[trigger] lchain(e, s, p, k) && !(0 <= lpos(s, p, k) < s.len() && s[lpos(s, p, k)] == '|')
}

/// Where the part after the `k`-th `*` of a wildcard layer read from `p`
/// ends.
pub open spec fn wpos(s: Seq<char>, p: int, k: nat) -> int
    decreases k,
{
    if k == 0 {
        logical_end(s, p)->Some_0
    } else {
        let a = wpos(s, p, (k - 1) as nat);
        if a + 1 == s.len() {
            a + 1
        } else {
            logical_end(s, a + 1)->Some_0
        }
    }
}

/// `e` is the wildcard layer of `k` wildcards read from `p`, folded from the
/// left.
pub open spec fn wchain(e: Expression, s: Seq<char>, p: int, k: nat) -> bool
    decreases k,
{
    if k == 0 {
        lcanon(e, s, p)
    } else {
        let a = wpos(s, p, (k - 1) as nat);
        match e {
            Expression::Wildcard(w) => {
                &&& 0 <= a < s.len()
                &&& s[a] == '*'
                &&& w.token.start == a
                &&& w.token.end == a + 1
                &&& match w.left {
                    Some(b) => wchain(*b, s, p, (k - 1) as nat),
                    None => false,
                }
                &&& if a + 1 == s.len() {
                    w.right is None
                } else {
                    match w.right {
                        Some(r) => lcanon(*r, s, a + 1),
                        None => false,
                    }
                }
            },
            _ => false,
        }
    }
}

/// `e` is the wildcard layer that the parser reads from `p`.
pub open spec fn wcanon(e: Expression, s: Seq<char>, p: int) -> bool {
    exists|k: nat|
        #[trigger] wchain(e, s, p, k) && !(0 <= wpos(s, p, k) < s.len() && s[wpos(s, p, k)] == '*')
}

/// Where the part after the `k`-th identifier of a variable layer read from
/// `p` ends.
pub open spec fn vpos(s: Seq<char>, p: int, k: nat) -> int
    decreases k,
{
    if k == 0 {
        wildcard_end(s, p)->Some_0
    } else {
        let a = vpos(s, p, (k - 1) as nat);
        let c = find_char(s, a + 1, '}');
        if c + 1 == s.len() {
            c + 1
        } else {
            wildcard_end(s, c + 1)->Some_0
        }
    }
}

/// `e` is the variable layer of `k` identifiers read from `p`, folded from
/// the left.
pub open spec fn vchain(e: Expression, s: Seq<char>, p: int, k: nat) -> bool
    decreases k,
{
    if k == 0 {
        wcanon(e, s, p)
    } else {
        let a = vpos(s, p, (k - 1) as nat);
        let c = find_char(s, a + 1, '}');
        match e {
            Expression::Var(v) => {
                &&& 0 <= a < s.len()
                &&& s[a] == '{'
                &&& c < s.len()
                &&& v.name.start == a
                &&& v.name.end == c + 1
                &&& v.name.name@ == s.subrange(a + 1, c)
                &&& match v.left {
                    Some(b) => vchain(*b, s, p, (k - 1) as nat),
                    None => false,
                }
                &&& if c + 1 == s.len() {
                    v.right is None
                } else {
                    match v.right {
                        Some(r) => wcanon(*r, s, c + 1),
                        None => false,
                    }
                }
            },
            _ => false,
        }
    }
}

/// `e` is the variable layer that the parser reads from `p`.
pub open spec fn vcanon(e: Expression, s: Seq<char>, p: int) -> bool {
    exists|k: nat|
        #[trigger] vchain(e, s, p, k) && !(0 <= vpos(s, p, k) < s.len() && s[vpos(s, p, k)] == '{')
}

/// Where the `i`-th expression read from `q` starts.
pub open spec fn ipos(s: Seq<char>, q: int, i: nat) -> int
    decreases i,
{
    if i == 0 {
        q
    } else {
        expr_end(s, ipos(s, q, (i - 1) as nat))->Some_0
    }
}

/// `e` is the `i`-th expression of a group whose expressions start at `q`:
/// it stands before the `)` and is what the parser reads there.
pub open spec fn item_ok(e: Expression, s: Seq<char>, q: int, i: nat) -> bool
    decreases e, 1int,
{
    let at = ipos(s, q, i);
    &&& 0 <= at < s.len()
    &&& s[at] != ')'
    &&& ecanon(e, s, at)
}

/// `e` is the expression that the parser reads from `p`: a group when `p`
/// holds `(`, else a variable layer.
pub open spec fn ecanon(e: Expression, s: Seq<char>, p: int) -> bool
    decreases e, 0int,
{
    if 0 <= p < s.len() && s[p] == '(' {
        match e {
            Expression::Group(g) => {
                let n = g.items@.len();
                let close = ipos(s, p + 1, n);
                &&& g.start == p
                &&& 0 <= close < s.len()
                &&& s[close] == ')'
                &&& g.end == close + 1
                &&& forall|i: int| 0 <= i < n ==> item_ok(#[trigger] g.items@[i], s, p + 1, i as nat)
            },
            _ => false,
        }
    } else {
        vcanon(e, s, p)
    }
}

/// A group whose expressions are each the one the parser reads, and which
/// ends at the `)` after them, is the group the parser reads.
pub proof fn lemma_group_canon(e: Expression, s: Seq<char>, p: int)
    requires
        e is Group,
        0 <= p < s.len(),
        s[p] == '(',
        e->Group_0.start == p,
        0 <= ipos(s, p + 1, e->Group_0.items@.len()) < s.len(),
        s[ipos(s, p + 1, e->Group_0.items@.len())] == ')',
        e->Group_0.end == ipos(s, p + 1, e->Group_0.items@.len()) + 1,
        forall|i: int|
            0 <= i < e->Group_0.items@.len() ==> item_ok(
                #[trigger] e->Group_0.items@[i],
                s,
                p + 1,
                i as nat,
            ),
    ensures
        ecanon(e, s, p),
{
}

/// `es` are the top-level expressions that the parser reads from `s`, up to
/// its end.
pub open spec fn template_canon(es: Seq<Expression>, s: Seq<char>) -> bool {
    &&& ipos(s, 0, es.len()) == s.len()
    &&& forall|i: int| 0 <= i < es.len() ==> top_ok(#[trigger] es[i], s, i as nat)
}

/// `e` is the `i`-th top-level expression that the parser reads from `s`.
pub open spec fn top_ok(e: Expression, s: Seq<char>, i: nat) -> bool {
    let at = ipos(s, 0, i);
    &&& 0 <= at < s.len()
    &&& ecanon(e, s, at)
}

proof fn lemma_lit_same(a: Expression, b: Expression, s: Seq<char>, p: int)
    requires
        lit_canon(a, s, p),
        lit_canon(b, s, p),
    ensures
        same(a, b),
{
}

proof fn lemma_lchain_seps(e: Expression, s: Seq<char>, p: int, k: nat, j: nat)
    requires
        lchain(e, s, p, k),
        j < k,
    ensures
        0 <= lpos(s, p, j) < s.len() && s[lpos(s, p, j)] == '|',
    decreases k,
{
    if j < k - 1 {
        lemma_lchain_seps(*e->Logical_0.left, s, p, (k - 1) as nat, j);
    }
}

proof fn lemma_lchain_same(a: Expression, b: Expression, s: Seq<char>, p: int, k: nat)
    requires
        lchain(a, s, p, k),
        lchain(b, s, p, k),
    ensures
        same(a, b),
    decreases k,
{
    if k == 0 {
        lemma_lit_same(a, b, s, p);
    } else {
        let x = a->Logical_0;
        let y = b->Logical_0;
        lemma_lchain_same(*x.left, *y.left, s, p, (k - 1) as nat);
        lemma_lit_same(*x.right, *y.right, s, lpos(s, p, (k - 1) as nat) + 1);
    }
}

/// Two alternation layers read from one place are the same tree.
pub proof fn lemma_lcanon_same(a: Expression, b: Expression, s: Seq<char>, p: int)
    requires
        lcanon(a, s, p),
        lcanon(b, s, p),
    ensures
        same(a, b),
{
    let ka = choose|k: nat| #[trigger] lchain(a, s, p, k) && !(0 <= lpos(s, p, k) < s.len() && s[lpos(s, p, k)] == '|');
    let kb = choose|k: nat| #[trigger] lchain(b, s, p, k) && !(0 <= lpos(s, p, k) < s.len() && s[lpos(s, p, k)] == '|');
    if ka < kb {
        lemma_lchain_seps(b, s, p, kb, ka);
    } else if kb < ka {
        lemma_lchain_seps(a, s, p, ka, kb);
    } else {
        lemma_lchain_same(a, b, s, p, ka);
    }
}

proof fn lemma_wchain_seps(e: Expression, s: Seq<char>, p: int, k: nat, j: nat)
    requires
        wchain(e, s, p, k),
        j < k,
    ensures
        0 <= wpos(s, p, j) < s.len() && s[wpos(s, p, j)] == '*',
    decreases k,
{
    if j < k - 1 {
        lemma_wchain_seps(*e->Wildcard_0.left->Some_0, s, p, (k - 1) as nat, j);
    }
}

proof fn lemma_wchain_same(a: Expression, b: Expression, s: Seq<char>, p: int, k: nat)
    requires
        wchain(a, s, p, k),
        wchain(b, s, p, k),
    ensures
        same(a, b),
    decreases k,
{
    if k == 0 {
        lemma_lcanon_same(a, b, s, p);
    } else {
        let x = a->Wildcard_0;
        let y = b->Wildcard_0;
        let at = wpos(s, p, (k - 1) as nat);
        lemma_wchain_same(*x.left->Some_0, *y.left->Some_0, s, p, (k - 1) as nat);
        if at + 1 != s.len() {
            lemma_lcanon_same(*x.right->Some_0, *y.right->Some_0, s, at + 1);
        }
    }
}

/// Two wildcard layers read from one place are the same tree.
pub proof fn lemma_wcanon_same(a: Expression, b: Expression, s: Seq<char>, p: int)
    requires
        wcanon(a, s, p),
        wcanon(b, s, p),
    ensures
        same(a, b),
{
    let ka = choose|k: nat| #[trigger] wchain(a, s, p, k) && !(0 <= wpos(s, p, k) < s.len() && s[wpos(s, p, k)] == '*');
    let kb = choose|k: nat| #[trigger] wchain(b, s, p, k) && !(0 <= wpos(s, p, k) < s.len() && s[wpos(s, p, k)] == '*');
    if ka < kb {
        lemma_wchain_seps(b, s, p, kb, ka);
    } else if kb < ka {
        lemma_wchain_seps(a, s, p, ka, kb);
    } else {
        lemma_wchain_same(a, b, s, p, ka);
    }
}

proof fn lemma_vchain_seps(e: Expression, s: Seq<char>, p: int, k: nat, j: nat)
    requires
        vchain(e, s, p, k),
        j < k,
    ensures
        0 <= vpos(s, p, j) < s.len() && s[vpos(s, p, j)] == '{',
    decreases k,
{
    if j < k - 1 {
        lemma_vchain_seps(*e->Var_0.left->Some_0, s, p, (k - 1) as nat, j);
    }
}

proof fn lemma_vchain_same(a: Expression, b: Expression, s: Seq<char>, p: int, k: nat)
    requires
        vchain(a, s, p, k),
        vchain(b, s, p, k),
    ensures
        same(a, b),
    decreases k,
{
    if k == 0 {
        lemma_wcanon_same(a, b, s, p);
    } else {
        let x = a->Var_0;
        let y = b->Var_0;
        let at = vpos(s, p, (k - 1) as nat);
        let c = find_char(s, at + 1, '}');
        lemma_vchain_same(*x.left->Some_0, *y.left->Some_0, s, p, (k - 1) as nat);
        if c + 1 != s.len() {
            lemma_wcanon_same(*x.right->Some_0, *y.right->Some_0, s, c + 1);
        }
    }
}

/// Two variable layers read from one place are the same tree.
pub proof fn lemma_vcanon_same(a: Expression, b: Expression, s: Seq<char>, p: int)
    requires
        vcanon(a, s, p),
        vcanon(b, s, p),
    ensures
        same(a, b),
{
    let ka = choose|k: nat| #[trigger] vchain(a, s, p, k) && !(0 <= vpos(s, p, k) < s.len() && s[vpos(s, p, k)] == '{');
    let kb = choose|k: nat| #[trigger] vchain(b, s, p, k) && !(0 <= vpos(s, p, k) < s.len() && s[vpos(s, p, k)] == '{');
    if ka < kb {
        lemma_vchain_seps(b, s, p, kb, ka);
    } else if kb < ka {
        lemma_vchain_seps(a, s, p, ka, kb);
    } else {
        lemma_vchain_same(a, b, s, p, ka);
    }
}

/// Two expressions read from one place are the same tree.
pub proof fn lemma_ecanon_same(a: Expression, b: Expression, s: Seq<char>, p: int)
    requires
        ecanon(a, s, p),
        ecanon(b, s, p),
    ensures
        same(a, b),
    decreases a,
{
    if 0 <= p < s.len() && s[p] == '(' {
        let x = a->Group_0;
        let y = b->Group_0;
        let na = x.items@.len();
        let nb = y.items@.len();
        if na < nb {
            assert(ecanon(y.items@[na as int], s, ipos(s, p + 1, na)));
        } else if nb < na {
            assert(ecanon(x.items@[nb as int], s, ipos(s, p + 1, nb)));
        } else {
            assert forall|i: int| 0 <= i < na implies same(#[trigger] x.items@[i], y.items@[i]) by {
                assert(decreases_to!(a => x.items@[i]));
                lemma_ecanon_same(x.items@[i], y.items@[i], s, ipos(s, p + 1, i as nat));
            }
        }
    } else {
        lemma_vcanon_same(a, b, s, p);
    }
}

/// Two sequences of top-level expressions read from one text are the same
/// trees.
pub proof fn lemma_template_canon_same(a: Seq<Expression>, b: Seq<Expression>, s: Seq<char>)
    requires
        template_canon(a, s),
        template_canon(b, s),
    ensures
        same_all(a, b),
{
    if a.len() < b.len() {
        assert(top_ok(b[a.len() as int], s, a.len()));
    } else if b.len() < a.len() {
        assert(top_ok(a[b.len() as int], s, b.len()));
    } else {
        assert forall|i: int| 0 <= i < a.len() implies same(#[trigger] a[i], b[i]) by {
            assert(top_ok(a[i], s, i as nat));
            assert(top_ok(b[i], s, i as nat));
            lemma_ecanon_same(a[i], b[i], s, ipos(s, 0, i as nat));
        }
    }
}

} // verus!
