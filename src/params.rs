use vstd::prelude::*;

use crate::entries::Entries;
use crate::error::Error;
use crate::scanner::{find_char, lemma_find_char_bounds, Scanner};

verus! {

/// The values that the named captures of a template took.
#[derive(Debug)]
pub struct Params {
    data: Entries,
}

impl View for Params {
    type V = Map<Seq<char>, Seq<char>>;

    closed spec fn view(&self) -> Map<Seq<char>, Seq<char>> {
        self.data@
    }
}

impl Params {
    pub closed spec fn wf(&self) -> bool {
        self.data.wf()
    }

    pub fn new() -> (r: Self)
        ensures
            r.wf(),
            r@ == Map::<Seq<char>, Seq<char>>::empty(),
            r@.dom().finite(),
    {
        Params { data: Entries::new() }
    }

    pub fn len(&self) -> (r: usize)
        requires
            self.wf(),
        ensures
            r == self@.dom().len(),
            self@.dom().finite(),
    {
        self.data.len()
    }

    pub fn has(&self, name: &str) -> (r: bool)
        requires
            self.wf(),
        ensures
            r == self@.contains_key(name@),
    {
        self.data.has(name)
    }

    pub fn get(&self, name: &str) -> (r: Option<&String>)
        requires
            self.wf(),
        ensures
            r is Some == self@.contains_key(name@),
            r is Some ==> r->Some_0@ == self@[name@],
    {
        self.data.get(name)
    }

    /// Binds `name` to `value`, in place of any earlier value.
    pub fn set(&mut self, name: &str, value: &String)
        requires
            old(self).wf(),
        ensures
            final(self).wf(),
            final(self)@ == old(self)@.insert(name@, value@),
            final(self)@.dom().finite(),
    {
        self.data.set(name, value)
    }

    pub fn del(&mut self, name: &str)
        requires
            old(self).wf(),
        ensures
            final(self).wf(),
            final(self)@ == old(self)@.remove(name@),
            final(self)@.dom().finite(),
    {
        self.data.del(name)
    }

    /// Every pair once, in the order in which its key was first set.
    pub fn pairs(&self) -> (r: &Vec<(String, String)>)
        requires
            self.wf(),
        ensures
            r@.len() == self@.dom().len(),
            forall|i: int| 0 <= i < r@.len() ==> #[trigger] self@.contains_key(r@[i].0@) && self@[r@[i].0@] == r@[i].1@,
            forall|i: int, j: int| 0 <= i < j < r@.len() ==> r@[i].0@ != r@[j].0@,
    {
        self.data.pairs()
    }
}

/// The pairs of the query string that follows the first `?` of a URL.
#[derive(Debug)]
pub struct Query {
    data: Entries,
}

impl View for Query {
    type V = Map<Seq<char>, Seq<char>>;

    closed spec fn view(&self) -> Map<Seq<char>, Seq<char>> {
        self.data@
    }
}

/// Where the pair of a query string that starts at `at` ends, separator
/// included.
pub open spec fn pair_end(s: Seq<char>, at: int) -> int {
    let key_end = find_char(s, at, '=');
    let value_start = if key_end < s.len() { key_end + 1 } else { key_end };
    let value_end = find_char(s, value_start, '&');
    if value_end < s.len() { value_end + 1 } else { value_end }
}

/// The pairs of `s` from `at` on, added to `m` one after the other: each pair
/// is a key up to `=` and a value up to `&`.
pub open spec fn query_map(s: Seq<char>, at: int, m: Map<Seq<char>, Seq<char>>) -> Map<
    Seq<char>,
    Seq<char>,
>
    decreases s.len() - at,
{
    if at < 0 || at >= s.len() {
        m
    } else {
        let key_end = find_char(s, at, '=');
        let value_start = if key_end < s.len() { key_end + 1 } else { key_end };
        let value_end = find_char(s, value_start, '&');
        let next = pair_end(s, at);
        if next <= at || next > s.len() {
            m
        } else {
            query_map(s, next, m.insert(s.subrange(at, key_end), s.subrange(value_start, value_end)))
        }
    }
}

/// The query that a URL holds: the pairs after its first `?`, none if it has
/// no `?`.
pub open spec fn query_of(s: Seq<char>) -> Map<Seq<char>, Seq<char>> {
    let q = find_char(s, 0, '?');
    if q < s.len() {
        query_map(s, q + 1, Map::empty())
    } else {
        Map::empty()
    }
}

impl Query {
    pub closed spec fn wf(&self) -> bool {
        self.data.wf()
    }

    pub fn new() -> (r: Self)
        ensures
            r.wf(),
            r@ == Map::<Seq<char>, Seq<char>>::empty(),
            r@.dom().finite(),
    {
        Query { data: Entries::new() }
    }

    pub fn len(&self) -> (r: usize)
        requires
            self.wf(),
        ensures
            r == self@.dom().len(),
            self@.dom().finite(),
    {
        self.data.len()
    }

    pub fn has(&self, name: &str) -> (r: bool)
        requires
            self.wf(),
        ensures
            r == self@.contains_key(name@),
    {
        self.data.has(name)
    }

    pub fn get(&self, name: &str) -> (r: Option<&String>)
        requires
            self.wf(),
        ensures
            r is Some == self@.contains_key(name@),
            r is Some ==> r->Some_0@ == self@[name@],
    {
        self.data.get(name)
    }

    /// Sets `name` to `value`, in place of any earlier value.
    pub fn set(&mut self, name: &str, value: &String)
        requires
            old(self).wf(),
        ensures
            final(self).wf(),
            final(self)@ == old(self)@.insert(name@, value@),
            final(self)@.dom().finite(),
    {
        self.data.set(name, value)
    }

    pub fn del(&mut self, name: &str)
        requires
            old(self).wf(),
        ensures
            final(self).wf(),
            final(self)@ == old(self)@.remove(name@),
            final(self)@.dom().finite(),
    {
        self.data.del(name)
    }

    /// Every pair once, in the order in which its key was first set.
    pub fn pairs(&self) -> (r: &Vec<(String, String)>)
        requires
            self.wf(),
        ensures
            r@.len() == self@.dom().len(),
            forall|i: int| 0 <= i < r@.len() ==> #[trigger] self@.contains_key(r@[i].0@) && self@[r@[i].0@] == r@[i].1@,
            forall|i: int, j: int| 0 <= i < j < r@.len() ==> r@[i].0@ != r@[j].0@,
    {
        self.data.pairs()
    }

    /// Reads the query string of `url`: what follows its first `?`, as pairs
    /// `key=value` separated by `&`. A later pair wins over an earlier one
    /// with the same key.
    pub fn parse(url: &str) -> (r: Result<Self, Error>)
        ensures
            r is Ok,
            r->Ok_0.wf(),
            r->Ok_0@ == query_of(url@),
            r->Ok_0@.dom().finite(),
    {
        let mut query = Query::new();
        let mut scan = Scanner::from(url);
        proof {
            lemma_find_char_bounds(url@, 0, '?');
        }
        if !scan.seek('?') {
            return Ok(query);
        }
        scan.skip(1);
        let ghost s = scan.text();
        while !scan.is_eof()
            invariant
                scan.settled(),
                scan.text() == s,
                s == url@,
                query.wf(),
                query@.dom().finite(),
                query_of(url@) == query_map(s, scan.position(), query@),
            decreases s.len() - scan.position(),
        {
            let ghost at = scan.position();
            proof {
                lemma_find_char_bounds(s, at, '=');
            }
            scan.seek('=');
            let key = scan.commit();
            scan.skip(1);
            proof {
                lemma_find_char_bounds(s, scan.position(), '&');
            }
            scan.seek('&');
            let value = scan.commit();
            scan.skip(1);
            query.set(key.as_str(), &value);
            assert(scan.position() == pair_end(s, at));
        }
        Ok(query)
    }
}

} // verus!
