use vstd::prelude::*;

use crate::error::{decimal, decimal_text, texts, Error, ErrorKind};
use crate::expression::{eval, eval_all, eval_all_error, expr_end, expr_pos, lemma_eval_all_fails, parsed, pattern_ok, var_shape, render_all, to_string_all, Expression, Var};
use crate::scanner::Scanner;
use crate::canon::{ipos, top_ok, lemma_same_all_eval, lemma_same_all_static, lemma_template_canon_same, same_all, template_canon};
use crate::url::{url_ok, Url};

verus! {

/// A compiled pattern: its top-level expressions, in order.
#[derive(Debug)]
pub struct Template(pub Vec<Expression>);

/// `e` is the `i`-th top-level expression of `s`: it is read from where the
/// one before it ended to where `expr_end` says, and is a group or a
/// variable layer.
pub open spec fn top_parsed(e: Expression, s: Seq<char>, i: nat) -> bool {
    &&& expr_pos(s, i) is Some
    &&& expr_pos(s, i + 1) is Some
    &&& parsed(e, s, expr_pos(s, i)->Some_0, expr_pos(s, i + 1)->Some_0)
    &&& (e is Group || var_shape(e))
}

/// The message for input left over after the last expression matched.
pub open spec fn leftover_text(at: nat) -> Seq<char> {
    "unmatched input at "@ + decimal_text(at)
}

impl Template {
    /// Compiles `pattern`: expressions are read until the input ends. It
    /// fails exactly when one of them cannot be read. The expressions,
    /// written back one after the other, give `pattern` again.
    pub fn parse(pattern: &str) -> (r: Result<Self, Error>)
        ensures
            (r is Ok) == pattern_ok(pattern@, 0),
            r is Ok ==> render_all(r->Ok_0.0@) == pattern@,
            r is Ok ==> expr_pos(pattern@, r->Ok_0.0@.len()) == Some(pattern@.len() as int),
            r is Ok ==> forall|i: int|
                0 <= i < r->Ok_0.0@.len() ==> top_parsed(#[trigger] r->Ok_0.0@[i], pattern@, i as nat),
            r is Ok ==> template_canon(r->Ok_0.0@, pattern@),
            r is Err ==> r->Err_0.kind == ErrorKind::Syntax,
    {
        let mut scan = Scanner::from(pattern);
        let mut expressions: Vec<Expression> = Vec::new();
        let ghost s = pattern@;
        while !scan.is_eof()
            invariant
                scan.settled(),
                scan.text() == s,
                render_all(expressions@) == s.subrange(0, scan.position()),
                s == pattern@,
                pattern_ok(s, 0) == pattern_ok(s, scan.position()),
                expr_pos(s, expressions@.len()) == Some(scan.position()),
                scan.position() == ipos(s, 0, expressions@.len()),
                forall|i: int| 0 <= i < expressions@.len() ==> top_ok(#[trigger] expressions@[i], s, i as nat),
                forall|i: int| 0 <= i < expressions@.len() ==> top_parsed(#[trigger] expressions@[i], s, i as nat),
            decreases s.len() - scan.position(),
        {
            let ghost a = scan.position();
            let ghost before = expressions@;
            let e = match Expression::parse(&mut scan) {
                Ok(v) => v,
                Err(e) => {
                    return Err(e);
                },
            };
            expressions.push(e);
            proof {
                assert(expressions@.drop_last() == before);
                assert(expr_pos(s, expressions@.len()) == expr_end(s, a));
                assert(top_parsed(e, s, before.len()));
                assert forall|i: int| 0 <= i < expressions@.len() implies top_parsed(#[trigger] expressions@[i], s, i as nat) by {
                    if i < before.len() {
                        assert(expressions@[i] == before[i]);
                    }
                }
                assert(top_ok(e, s, before.len()));
                assert forall|i: int| 0 <= i < expressions@.len() implies top_ok(#[trigger] expressions@[i], s, i as nat) by {
                    if i < before.len() {
                        assert(expressions@[i] == before[i]);
                    } else {
                        assert(expressions@[i] == e);
                    }
                }
                assert(s.subrange(0, scan.position()) =~= s.subrange(0, a) + s.subrange(
                    a,
                    scan.position(),
                ));
            }
        }
        assert(s.subrange(0, s.len() as int) == s);
        Ok(Template(expressions))
    }

    /// The pattern text of the template.
    pub fn to_string(&self) -> (r: String)
        ensures
            r@ == render_all(self.0@),
    {
        to_string_all(&self.0)
    }

    /// Matches `url` against the template: `url` is taken apart, then the
    /// expressions are matched one after the other from the start of its
    /// text. Fails when `url` cannot be taken apart or an expression does
    /// not match.
    pub fn eval(&self, url: &str) -> (r: Result<Url, Error>)
        ensures
            (r is Ok) == (url_ok(url@) && eval_all(self.0@, url@, 0, Map::empty()).0 == Some(
                url@.len() as int,
            )),
            r is Err && !url_ok(url@) ==> r->Err_0.kind == ErrorKind::MalformedUrl,
            r is Err && url_ok(url@) ==> r->Err_0.kind == ErrorKind::Mismatch,
            r is Err && url_ok(url@) && eval_all(self.0@, url@, 0, Map::empty()).0 is None ==> r->Err_0.text()
                == eval_all_error(self.0@, url@, 0, Map::empty()),
            r is Err && url_ok(url@) && eval_all(self.0@, url@, 0, Map::empty()).0 is Some ==> r->Err_0.text()
                == leftover_text(eval_all(self.0@, url@, 0, Map::empty()).0->Some_0 as nat),
            r is Ok ==> r->Ok_0.wf() && r->Ok_0.describes(url@) && r->Ok_0.params@ == eval_all(
                self.0@,
                url@,
                0,
                Map::empty(),
            ).1,
    {
        let mut uri = match Url::parse(url) {
            Ok(u) => u,
            Err(e) => {
                return Err(e);
            },
        };
        let mut scan = Scanner::from(url);
        let ghost s = url@;
        let ghost m0 = uri.params@;
        let mut i: usize = 0;
        while i < self.0.len()
            invariant
                i <= self.0@.len(),
                scan.settled(),
                scan.text() == s,
                s == url@,
                url_ok(s),
                m0 == Map::<Seq<char>, Seq<char>>::empty(),
                uri.wf(),
                uri.describes(s),
                eval_all(self.0@.take(i as int), s, 0, m0) == (Some(scan.position()), uri.params@),
            decreases self.0@.len() - i,
        {
            assert(self.0@.take(i as int + 1).drop_last() == self.0@.take(i as int));
            match self.0[i].eval(&mut scan, &mut uri) {
                Ok(()) => {},
                Err(e) => {
                    proof {
                        lemma_eval_all_fails(self.0@, i + 1, s, 0, m0);
                    }
                    return Err(e);
                },
            }
            i = i + 1;
        }
        assert(self.0@.take(self.0@.len() as int) == self.0@);
        if !scan.is_eof() {
            let at = scan.right();
            let text = String::from_str("unmatched input at ").concat(decimal(at).as_str());
            let error = Error::with_kind(ErrorKind::Mismatch, text);
            proof {
                assert(texts(Seq::<Error>::empty()) == Seq::<char>::empty());
                assert(error.text() =~= leftover_text(at as nat));
            }
            return Err(error);
        }
        Ok(uri)
    }
}

/// Compiling one pattern twice gives the same templates: the same
/// expressions, node by node, which match every URL alike and fail alike.
pub proof fn lemma_compile_deterministic(a: Template, b: Template, pattern: Seq<char>)
    requires
        template_canon(a.0@, pattern),
        template_canon(b.0@, pattern),
    ensures
        same_all(a.0@, b.0@),
        render_all(a.0@) == render_all(b.0@),
        forall|u: Seq<char>, m: Map<Seq<char>, Seq<char>>|
            #[trigger] eval_all(a.0@, u, 0, m) == eval_all(b.0@, u, 0, m) && eval_all_error(
                a.0@,
                u,
                0,
                m,
            ) == eval_all_error(b.0@, u, 0, m),
{
    lemma_template_canon_same(a.0@, b.0@, pattern);
    lemma_same_all_static(a.0@, b.0@);
    assert forall|u: Seq<char>, m: Map<Seq<char>, Seq<char>>|
        #[trigger] eval_all(a.0@, u, 0, m) == eval_all(b.0@, u, 0, m) && eval_all_error(
            a.0@,
            u,
            0,
            m,
        ) == eval_all_error(b.0@, u, 0, m) by {
        lemma_same_all_eval(a.0@, b.0@, u, 0, m);
    }
}

/// Writing a compiled template back as text and compiling that text again
/// gives the same template, node by node.
pub proof fn lemma_round_trip(a: Template, b: Template, pattern: Seq<char>)
    requires
        template_canon(a.0@, pattern),
        render_all(a.0@) == pattern,
        template_canon(b.0@, render_all(a.0@)),
    ensures
        same_all(a.0@, b.0@),
{
    lemma_template_canon_same(a.0@, b.0@, pattern);
}

/// A variable with nothing after it, reached at the end of the input, matches
/// the empty rest and binds its name to the empty text.
pub proof fn lemma_var_empty_tail(v: Var, s: Seq<char>, p: int, m: Map<Seq<char>, Seq<char>>)
    requires
        v.right is None,
        v.left is None ==> p == s.len(),
        v.left is Some ==> eval(*v.left->Some_0, s, p, m).0 == Some(s.len() as int),
    ensures
        eval(Expression::Var(v), s, p, m).0 == Some(s.len() as int),
        eval(Expression::Var(v), s, p, m).1 == (match v.left {
            Some(b) => eval(*b, s, p, m).1,
            None => m,
        }).insert(v.name.name@, Seq::<char>::empty()),
{
    assert(s.subrange(s.len() as int, s.len() as int) =~= Seq::<char>::empty());
}

} // verus!
