use vstd::prelude::*;
use vstd::string::*;

verus! {

/// What went wrong.
#[derive(Debug, Clone, Copy, PartialEq, Eq, Structural)]
pub enum ErrorKind {
    /// A pattern could not be compiled.
    Syntax,
    /// A URL does not match a pattern.
    Mismatch,
    /// A text cannot be taken apart as a URL.
    MalformedUrl,
    /// Anything else.
    Other,
}

/// A failure: its kind, an optional message and the failures that led to it.
///
/// An alternation that fails keeps the failure of each of its branches in
/// `errors`, in the order in which they were tried.
#[derive(Debug)]
pub struct Error {
    pub kind: ErrorKind,
    pub message: Option<String>,
    pub errors: Vec<Error>,
}

impl Error {
    pub fn new() -> (r: Self)
        ensures
            r.kind == ErrorKind::Other,
            r.message is None,
            r.errors@.len() == 0,
    {
        Self { kind: ErrorKind::Other, message: None, errors: Vec::new() }
    }

    /// An error that carries `text` as its message and has no causes.
    pub fn from_text(text: String) -> (r: Self)
        ensures
            r.kind == ErrorKind::Other,
            r.message == Some(text),
            r.errors@.len() == 0,
    {
        Self { kind: ErrorKind::Other, message: Some(text), errors: Vec::new() }
    }

    /// An error of `kind` that carries `text` as its message and has no
    /// causes.
    pub fn with_kind(kind: ErrorKind, text: String) -> (r: Self)
        ensures
            r.says(kind, text@),
    {
        Self { kind, message: Some(text), errors: Vec::new() }
    }

    /// Whether this error is of `kind`, has the message `t` and no causes.
    pub open spec fn says(&self, kind: ErrorKind, t: Seq<char>) -> bool {
        &&& self.kind == kind
        &&& self.message is Some
        &&& self.message->Some_0@ == t
        &&& self.errors@.len() == 0
    }

    /// Appends `error` to the causes.
    pub fn push(&mut self, error: Error)
        ensures
            final(self).kind == old(self).kind,
            final(self).message == old(self).message,
            final(self).errors@ == old(self).errors@.push(error),
    {
        self.errors.push(error);
    }

    /// The message followed by the text of each cause, in order.
    pub fn to_string(&self) -> (r: String)
        ensures
            r@ == self.text(),
        decreases self,
    {
        let mut out = match &self.message {
            Some(m) => m.clone(),
            None => String::new(),
        };
        let mut i: usize = 0;
        while i < self.errors.len()
            invariant
                0 <= i <= self.errors@.len(),
                out@ == self.message_text() + texts(self.errors@.take(i as int)),
            decreases self.errors@.len() - i,
        {
            assert(decreases_to!(self => self.errors));
            let part = self.errors[i].to_string();
            proof {
                let s = self.errors@;
                assert(s.take(i as int + 1).drop_last() == s.take(i as int));
            }
            out = out.concat(part.as_str());
            i = i + 1;
        }
        assert(self.errors@.take(self.errors@.len() as int) == self.errors@);
        out
    }

    pub open spec fn message_text(&self) -> Seq<char> {
        match self.message {
            Some(m) => m@,
            None => Seq::empty(),
        }
    }

    /// The text of an error: its message, then the text of each cause.
    pub open spec fn text(&self) -> Seq<char>
        decreases self,
    {
        self.message_text() + texts(self.errors@)
    }
}

/// The texts of `errors`, one after the other.
pub open spec fn texts(errors: Seq<Error>) -> Seq<char>
    decreases errors,
{
    if errors.len() == 0 {
        Seq::empty()
    } else {
        texts(errors.drop_last()) + errors.last().text()
    }
}

/// The decimal digit for `d`, which is below ten.
pub open spec fn digit_char(d: nat) -> char {
    if d == 0 { '0' } else if d == 1 { '1' } else if d == 2 { '2' } else if d == 3 { '3' }
    else if d == 4 { '4' } else if d == 5 { '5' } else if d == 6 { '6' } else if d == 7 { '7' }
    else if d == 8 { '8' } else { '9' }
}

/// `n` written in decimal, without leading zeros.
pub open spec fn decimal_text(n: nat) -> Seq<char>
    decreases n,
{
    if n < 10 {
        seq![digit_char(n)]
    } else {
        decimal_text(n / 10) + seq![digit_char(n % 10)]
    }
}

fn digit_string(d: usize) -> (r: String)
    requires
        d < 10,
    ensures
        r@ == seq![digit_char(d as nat)],
{
    proof {
        reveal_strlit("0");
        reveal_strlit("1");
        reveal_strlit("2");
        reveal_strlit("3");
        reveal_strlit("4");
        reveal_strlit("5");
        reveal_strlit("6");
        reveal_strlit("7");
        reveal_strlit("8");
        reveal_strlit("9");
    }
    let r = if d == 0 {
        String::from_str("0")
    } else if d == 1 {
        String::from_str("1")
    } else if d == 2 {
        String::from_str("2")
    } else if d == 3 {
        String::from_str("3")
    } else if d == 4 {
        String::from_str("4")
    } else if d == 5 {
        String::from_str("5")
    } else if d == 6 {
        String::from_str("6")
    } else if d == 7 {
        String::from_str("7")
    } else if d == 8 {
        String::from_str("8")
    } else {
        String::from_str("9")
    };
    assert(r@ =~= seq![digit_char(d as nat)]);
    r
}

/// `n` written in decimal.
pub fn decimal(n: usize) -> (r: String)
    ensures
        r@ == decimal_text(n as nat),
    decreases n,
{
    if n < 10 {
        digit_string(n)
    } else {
        let head = decimal(n / 10);
        let last = digit_string(n % 10);
        head.concat(last.as_str())
    }
}

/// The message of a syntax error: what was expected, and where.
pub open spec fn expected_text(what: Seq<char>, at: nat) -> Seq<char> {
    "expected "@ + what + " at "@ + decimal_text(at)
}

/// A syntax error that says what was expected, and where.
pub fn expected_at(what: &str, at: usize) -> (r: Error)
    ensures
        r.says(ErrorKind::Syntax, expected_text(what@, at as nat)),
{
    let text = String::from_str("expected ").concat(what).concat(" at ").concat(decimal(at).as_str());
    Error::with_kind(ErrorKind::Syntax, text)
}

} // verus!
