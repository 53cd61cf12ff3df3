use vstd::prelude::*;
use vstd::string::*;

verus! {

/// Where `needle` first occurs in `text` at or after `from`; the end of
/// `text` when it does not occur there.
pub open spec fn find_from(text: Seq<char>, from: int, needle: Seq<char>) -> int
    decreases text.len() - from,
{
    if from < 0 || from >= text.len() || from + needle.len() > text.len() {
        text.len() as int
    } else if text.subrange(from, from + needle.len()) == needle {
        from
    } else {
        find_from(text, from + 1, needle)
    }
}

/// Where the character `c` first occurs in `text` at or after `from`; the end
/// of `text` when it does not occur there.
pub open spec fn find_char(text: Seq<char>, from: int, c: char) -> int
    decreases text.len() - from,
{
    if from < 0 || from >= text.len() {
        text.len() as int
    } else if text[from] == c {
        from
    } else {
        find_char(text, from + 1, c)
    }
}

pub proof fn lemma_find_from_bounds(text: Seq<char>, from: int, needle: Seq<char>)
    requires
        0 <= from <= text.len(),
    ensures
        from <= find_from(text, from, needle) <= text.len(),
        find_from(text, from, needle) < text.len() ==> find_from(text, from, needle)
            + needle.len() <= text.len() && text.subrange(
            find_from(text, from, needle),
            find_from(text, from, needle) + needle.len(),
        ) == needle,
    decreases text.len() - from,
{
    if from < text.len() && from + needle.len() <= text.len() && text.subrange(
        from,
        from + needle.len(),
    ) != needle {
        lemma_find_from_bounds(text, from + 1, needle);
    }
}

pub proof fn lemma_find_char_bounds(text: Seq<char>, from: int, c: char)
    requires
        0 <= from <= text.len(),
    ensures
        from <= find_char(text, from, c) <= text.len(),
        find_char(text, from, c) < text.len() ==> text[find_char(text, from, c)] == c,
    decreases text.len() - from,
{
    if from < text.len() && text[from] != c {
        lemma_find_char_bounds(text, from + 1, c);
    }
}

/// The characters of `s`, one by one.
pub fn chars_of(s: &str) -> (r: Vec<char>)
    ensures
        r@ == s@,
{
    let n = s.unicode_len();
    let mut chars: Vec<char> = Vec::new();
    let mut i: usize = 0;
    while i < n
        invariant
            n == s@.len(),
            i <= n,
            chars@ == s@.take(i as int),
        decreases n - i,
    {
        let c = s.get_char(i);
        chars.push(c);
        i = i + 1;
        assert(chars@ == s@.take(i as int));
    }
    assert(s@.take(n as int) == s@);
    chars
}

/// A read position and an anchor over a fixed text.
///
/// The characters between the anchor and the position are the pending span:
/// `commit` hands it out and moves the anchor up to the position, `reset`
/// moves the position back to the anchor.
#[derive(Debug, Clone)]
pub struct Scanner {
    source: String,
    chars: Vec<char>,
    anchor: usize,
    position: usize,
}

impl Scanner {
    /// The text scanned.
    pub closed spec fn text(&self) -> Seq<char> {
        self.chars@
    }

    /// The start of the pending span.
    pub closed spec fn anchor(&self) -> int {
        self.anchor as int
    }

    /// The read position.
    pub closed spec fn position(&self) -> int {
        self.position as int
    }

    pub closed spec fn inner_ok(&self) -> bool {
        self.chars@ == self.source@
    }

    pub open spec fn wf(&self) -> bool {
        &&& self.inner_ok()
        &&& 0 <= self.anchor() <= self.position() <= self.text().len()
        &&& self.text().len() <= usize::MAX
    }

    /// Both scanners read the same text and stand at the same anchor and
    /// position.
    pub open spec fn same_place(&self, other: Scanner) -> bool {
        &&& self.text() == other.text()
        &&& self.anchor() == other.anchor()
        &&& self.position() == other.position()
    }

    /// No span is pending: the anchor stands at the position.
    pub open spec fn settled(&self) -> bool {
        self.wf() && self.anchor() == self.position()
    }

    /// The pending span.
    pub open spec fn pending(&self) -> Seq<char> {
        self.text().subrange(self.anchor(), self.position())
    }

    /// A scanner at the start of `s`.
    pub fn from(s: &str) -> (r: Scanner)
        ensures
            r.settled(),
            r.text() == s@,
            r.position() == 0,
    {
        let chars = chars_of(s);
        let n = chars.len();
        assert(n == chars@.len());
        Scanner { source: s.to_owned(), chars, anchor: 0, position: 0 }
    }

    /// The character at the position, `None` at the end.
    pub fn peek(&self) -> (r: Option<char>)
        requires
            self.wf(),
        ensures
            self.position() < self.text().len() ==> r == Some(self.text()[self.position()]),
            self.position() >= self.text().len() ==> r is None,
    {
        if self.position < self.chars.len() {
            Some(self.chars[self.position])
        } else {
            None
        }
    }

    /// Whether the character at the position is `c`; false at the end.
    pub fn at(&self, c: char) -> (r: bool)
        requires
            self.wf(),
        ensures
            r == (self.position() < self.text().len() && self.text()[self.position()] == c),
    {
        self.position < self.chars.len() && self.chars[self.position] == c
    }

    pub fn is_eof(&self) -> (r: bool)
        requires
            self.wf(),
        ensures
            r == (self.position() == self.text().len()),
    {
        self.position == self.chars.len()
    }

    /// The start of the pending span.
    pub fn left(&self) -> (r: usize)
        ensures
            r == self.anchor(),
    {
        self.anchor
    }

    /// The read position.
    pub fn right(&self) -> (r: usize)
        ensures
            r == self.position(),
    {
        self.position
    }

    /// The number of characters in the text.
    pub fn len(&self) -> (r: usize)
        requires
            self.wf(),
        ensures
            r == self.text().len(),
    {
        self.chars.len()
    }

    /// The length of the pending span.
    pub fn count(&self) -> (r: usize)
        requires
            self.wf(),
        ensures
            r == self.position() - self.anchor(),
    {
        self.position - self.anchor
    }

    /// Moves the position one character on; does nothing at the end.
    pub fn advance(&mut self)
        requires
            old(self).wf(),
        ensures
            final(self).wf(),
            final(self).text() == old(self).text(),
            final(self).anchor() == old(self).anchor(),
            final(self).position() == if old(self).position() < old(self).text().len() {
                old(self).position() + 1
            } else {
                old(self).position()
            },
    {
        if self.position < self.chars.len() {
            self.position = self.position + 1;
        }
    }

    /// The pending span, left pending.
    pub fn to_string(&self) -> (r: String)
        requires
            self.wf(),
        ensures
            r@ == self.pending(),
    {
        self.source.as_str().substring_char(self.anchor, self.position).to_owned()
    }

    /// The characters from `from` up to `to`, whatever is pending.
    pub fn span(&self, from: usize, to: usize) -> (r: String)
        requires
            self.wf(),
            from <= to <= self.text().len(),
        ensures
            r@ == self.text().subrange(from as int, to as int),
    {
        self.source.as_str().substring_char(from, to).to_owned()
    }

    /// Hands out the pending span and moves the anchor up to the position.
    pub fn commit(&mut self) -> (r: String)
        requires
            old(self).wf(),
        ensures
            final(self).settled(),
            final(self).text() == old(self).text(),
            final(self).position() == old(self).position(),
            r@ == old(self).pending(),
    {
        let r = self.to_string();
        self.anchor = self.position;
        r
    }

    /// Moves the position back to the anchor, dropping what was read since the
    /// last commit.
    pub fn reset(&mut self)
        requires
            old(self).wf(),
        ensures
            final(self).settled(),
            final(self).text() == old(self).text(),
            final(self).anchor() == old(self).anchor(),
    {
        self.position = self.anchor;
    }

    /// Moves both the anchor and the position back to `mark`.
    pub fn restore(&mut self, mark: usize)
        requires
            old(self).wf(),
            mark <= old(self).text().len(),
        ensures
            final(self).settled(),
            final(self).text() == old(self).text(),
            final(self).position() == mark,
    {
        self.anchor = mark;
        self.position = mark;
    }

    /// Moves the position `n` characters on, at most to the end, and commits.
    pub fn skip(&mut self, n: usize)
        requires
            old(self).wf(),
        ensures
            final(self).settled(),
            final(self).text() == old(self).text(),
            final(self).position() == if old(self).position() + n <= old(self).text().len() {
                old(self).position() + n
            } else {
                old(self).text().len() as int
            },
    {
        if n <= self.chars.len() - self.position {
            self.position = self.position + n;
        } else {
            self.position = self.chars.len();
        }
        self.anchor = self.position;
    }

    /// Moves the position up to the next `c`, or to the end; true when `c` was
    /// found. Nothing is committed.
    pub fn seek(&mut self, c: char) -> (r: bool)
        requires
            old(self).wf(),
        ensures
            final(self).wf(),
            final(self).text() == old(self).text(),
            final(self).anchor() == old(self).anchor(),
            final(self).position() == find_char(old(self).text(), old(self).position(), c),
            r == (final(self).position() < final(self).text().len()),
    {
        proof {
            lemma_find_char_bounds(self.chars@, self.position as int, c);
        }
        while self.position < self.chars.len() && self.chars[self.position] != c
            invariant
                self.wf(),
                self.text() == old(self).text(),
                self.anchor() == old(self).anchor(),
                old(self).position() <= self.position(),
                find_char(self.text(), self.position(), c) == find_char(
                    old(self).text(),
                    old(self).position(),
                    c,
                ),
            decreases self.chars@.len() - self.position,
        {
            self.position = self.position + 1;
        }
        self.position < self.chars.len()
    }

    /// Moves the position to the end of the text.
    pub fn seek_end(&mut self)
        requires
            old(self).wf(),
        ensures
            final(self).wf(),
            final(self).text() == old(self).text(),
            final(self).anchor() == old(self).anchor(),
            final(self).position() == old(self).text().len(),
    {
        self.position = self.chars.len();
    }

    /// Whether `needle` occurs at the position.
    pub fn looking_at(&self, needle: &Vec<char>) -> (r: bool)
        requires
            self.wf(),
        ensures
            r == (self.position() + needle@.len() <= self.text().len() && self.text().subrange(
                self.position(),
                self.position() + needle@.len(),
            ) == needle@),
    {
        if needle.len() > self.chars.len() - self.position {
            return false;
        }
        let mut k: usize = 0;
        while k < needle.len()
            invariant
                self.wf(),
                self.position + needle@.len() <= self.chars@.len(),
                k <= needle@.len(),
                forall|j: int| 0 <= j < k ==> self.text()[self.position() + j] == needle@[j],
            decreases needle@.len() - k,
        {
            assert(self.position + k < self.chars.len());
            if self.chars[self.position + k] != needle[k] {
                assert(self.text().subrange(self.position(), self.position() + needle@.len())[k as int]
                    != needle@[k as int]);
                return false;
            }
            k = k + 1;
        }
        assert(self.text().subrange(self.position(), self.position() + needle@.len()) =~= needle@);
        true
    }

    /// Moves the position up to the next occurrence of `needle`, or to the
    /// end; true when it was found. Nothing is committed.
    pub fn seek_text(&mut self, needle: &Vec<char>) -> (r: bool)
        requires
            old(self).wf(),
        ensures
            final(self).wf(),
            final(self).text() == old(self).text(),
            final(self).anchor() == old(self).anchor(),
            final(self).position() == find_from(old(self).text(), old(self).position(), needle@),
            r == (final(self).position() + needle@.len() <= final(self).text().len()
                && final(self).text().subrange(
                final(self).position(),
                final(self).position() + needle@.len(),
            ) == needle@),
    {
        loop
            invariant
                self.wf(),
                self.text() == old(self).text(),
                self.anchor() == old(self).anchor(),
                find_from(self.text(), self.position(), needle@) == find_from(
                    old(self).text(),
                    old(self).position(),
                    needle@,
                ),
            decreases self.chars@.len() - self.position,
        {
            if self.looking_at(needle) {
                return true;
            }
            if self.position == self.chars.len() {
                return false;
            }
            self.position = self.position + 1;
        }
    }
}

} // verus!
