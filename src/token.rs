use vstd::prelude::*;
use vstd::string::*;

use crate::error::{expected_at, expected_text, Error, ErrorKind};
use crate::scanner::{find_char, lemma_find_char_bounds, Scanner};

verus! {

/// Whether `c` stands alone as a token of its own.
pub open spec fn is_structural(c: char) -> bool {
    c == '&' || c == '*' || c == ':' || c == '=' || c == '!' || c == '#' || c == '?' || c == '|'
        || c == '/'
}

pub open spec fn is_alnum(c: char) -> bool {
    ('0' <= c && c <= '9') || ('a' <= c && c <= 'z') || ('A' <= c && c <= 'Z')
}

/// The end of the run of letters and digits that starts at `from`.
pub open spec fn alnum_end(text: Seq<char>, from: int) -> int
    decreases text.len() - from,
{
    if from < 0 || from >= text.len() || !is_alnum(text[from]) {
        if from < 0 { 0 } else if from > text.len() { text.len() as int } else { from }
    } else {
        alnum_end(text, from + 1)
    }
}

pub proof fn lemma_alnum_end_bounds(text: Seq<char>, from: int)
    requires
        0 <= from <= text.len(),
    ensures
        from <= alnum_end(text, from) <= text.len(),
    decreases text.len() - from,
{
    if from < text.len() && is_alnum(text[from]) {
        lemma_alnum_end_bounds(text, from + 1);
    }
}

/// Whether a token can be read at `at`: some input is left, and an
/// identifier that opens there is closed.
pub open spec fn token_ok(text: Seq<char>, at: int) -> bool {
    &&& 0 <= at < text.len()
    &&& text[at] == '{' ==> find_char(text, at + 1, '}') < text.len()
}

/// The message for an identifier opened at `at` and never closed: it quotes
/// what follows the `{`.
pub open spec fn unclosed_text(text: Seq<char>, at: int) -> Seq<char> {
    expected_text("'}' to close "@ + text.subrange(at, text.len() as int), text.len())
}

/// The message of the error for a token that cannot be read at `at`.
pub open spec fn token_error(text: Seq<char>, at: int) -> Seq<char> {
    if at >= text.len() {
        expected_text("a token"@, at as nat)
    } else {
        unclosed_text(text, at)
    }
}

/// Where the token that starts at `at` ends.
pub open spec fn token_end(text: Seq<char>, at: int) -> int {
    if is_structural(text[at]) {
        at + 1
    } else if text[at] == '{' {
        find_char(text, at + 1, '}') + 1
    } else {
        alnum_end(text, at + 1)
    }
}

fn is_alnum_char(c: char) -> (r: bool)
    ensures
        r == is_alnum(c),
{
    ('0' <= c && c <= '9') || ('a' <= c && c <= 'z') || ('A' <= c && c <= 'Z')
}

fn next_is_alnum(scan: &Scanner) -> (r: bool)
    requires
        scan.wf(),
    ensures
        r == (scan.position() < scan.text().len() && is_alnum(scan.text()[scan.position()])),
{
    match scan.peek() {
        Some(c) => is_alnum_char(c),
        None => false,
    }
}

/// Reads the character `c` as a token of its own; on failure the scanner is
/// left as it was.
fn single(scan: &mut Scanner, c: char, what: &str) -> (r: Result<usize, Error>)
    requires
        old(scan).settled(),
    ensures
        r is Err ==> r->Err_0.says(ErrorKind::Syntax, expected_text(what@, old(scan).position() as nat)),
        final(scan).text() == old(scan).text(),
            final(scan).wf(),
        (r is Ok) == (old(scan).position() < old(scan).text().len() && old(scan).text()[old(scan).position()] == c),
        r is Ok ==> r->Ok_0 == old(scan).position() && final(scan).settled() && final(scan).position() == old(scan).position() + 1,
        r is Err ==> final(scan).same_place(*old(scan)),
{
    if !scan.at(c) {
        return Err(expected_at(what, scan.right()));
    }
    let start = scan.right();
    scan.skip(1);
    Ok(start)
}

/// The token `&`.
#[derive(Debug, Clone, Copy, PartialEq, Eq)]
pub struct Ampersand {
    pub start: usize,
    pub end: usize,
}

impl Ampersand {
    /// Reads `&` at the position.
    pub fn parse(scan: &mut Scanner) -> (r: Result<Self, Error>)
        requires
            old(scan).settled(),
        ensures
            final(scan).text() == old(scan).text(),
            final(scan).wf(),
            (r is Ok) == (old(scan).position() < old(scan).text().len() && old(scan).text()[old(scan).position()] == '&'),
            r is Ok ==> r->Ok_0.start == old(scan).position() && r->Ok_0.end == old(scan).position() + 1
                && final(scan).settled() && final(scan).position() == old(scan).position() + 1,
            r is Err ==> final(scan).same_place(*old(scan)),
            r is Err ==> r->Err_0.says(ErrorKind::Syntax, expected_text("'&'"@, old(scan).position() as nat)),
    {
        let start = match single(scan, '&', "'&'") {
            Ok(v) => v,
            Err(e) => {
                return Err(e);
            },
        };
        Ok(Self { start, end: start + 1 })
    }
}

/// The token `*`.
#[derive(Debug, Clone, Copy, PartialEq, Eq)]
pub struct Asterisk {
    pub start: usize,
    pub end: usize,
}

impl Asterisk {
    /// Reads `*` at the position.
    pub fn parse(scan: &mut Scanner) -> (r: Result<Self, Error>)
        requires
            old(scan).settled(),
        ensures
            final(scan).text() == old(scan).text(),
            final(scan).wf(),
            (r is Ok) == (old(scan).position() < old(scan).text().len() && old(scan).text()[old(scan).position()] == '*'),
            r is Ok ==> r->Ok_0.start == old(scan).position() && r->Ok_0.end == old(scan).position() + 1
                && final(scan).settled() && final(scan).position() == old(scan).position() + 1,
            r is Err ==> final(scan).same_place(*old(scan)),
            r is Err ==> r->Err_0.says(ErrorKind::Syntax, expected_text("'*'"@, old(scan).position() as nat)),
    {
        let start = match single(scan, '*', "'*'") {
            Ok(v) => v,
            Err(e) => {
                return Err(e);
            },
        };
        Ok(Self { start, end: start + 1 })
    }
}

/// The token `:`.
#[derive(Debug, Clone, Copy, PartialEq, Eq)]
pub struct Colon {
    pub start: usize,
    pub end: usize,
}

impl Colon {
    /// Reads `:` at the position.
    pub fn parse(scan: &mut Scanner) -> (r: Result<Self, Error>)
        requires
            old(scan).settled(),
        ensures
            final(scan).text() == old(scan).text(),
            final(scan).wf(),
            (r is Ok) == (old(scan).position() < old(scan).text().len() && old(scan).text()[old(scan).position()] == ':'),
            r is Ok ==> r->Ok_0.start == old(scan).position() && r->Ok_0.end == old(scan).position() + 1
                && final(scan).settled() && final(scan).position() == old(scan).position() + 1,
            r is Err ==> final(scan).same_place(*old(scan)),
            r is Err ==> r->Err_0.says(ErrorKind::Syntax, expected_text("':'"@, old(scan).position() as nat)),
    {
        let start = match single(scan, ':', "':'") {
            Ok(v) => v,
            Err(e) => {
                return Err(e);
            },
        };
        Ok(Self { start, end: start + 1 })
    }
}

/// The token `=`.
#[derive(Debug, Clone, Copy, PartialEq, Eq)]
pub struct Equals {
    pub start: usize,
    pub end: usize,
}

impl Equals {
    /// Reads `=` at the position.
    pub fn parse(scan: &mut Scanner) -> (r: Result<Self, Error>)
        requires
            old(scan).settled(),
        ensures
            final(scan).text() == old(scan).text(),
            final(scan).wf(),
            (r is Ok) == (old(scan).position() < old(scan).text().len() && old(scan).text()[old(scan).position()] == '='),
            r is Ok ==> r->Ok_0.start == old(scan).position() && r->Ok_0.end == old(scan).position() + 1
                && final(scan).settled() && final(scan).position() == old(scan).position() + 1,
            r is Err ==> final(scan).same_place(*old(scan)),
            r is Err ==> r->Err_0.says(ErrorKind::Syntax, expected_text("'='"@, old(scan).position() as nat)),
    {
        let start = match single(scan, '=', "'='") {
            Ok(v) => v,
            Err(e) => {
                return Err(e);
            },
        };
        Ok(Self { start, end: start + 1 })
    }
}

/// The token `!`.
#[derive(Debug, Clone, Copy, PartialEq, Eq)]
pub struct Exclamation {
    pub start: usize,
    pub end: usize,
}

impl Exclamation {
    /// Reads `!` at the position.
    pub fn parse(scan: &mut Scanner) -> (r: Result<Self, Error>)
        requires
            old(scan).settled(),
        ensures
            final(scan).text() == old(scan).text(),
            final(scan).wf(),
            (r is Ok) == (old(scan).position() < old(scan).text().len() && old(scan).text()[old(scan).position()] == '!'),
            r is Ok ==> r->Ok_0.start == old(scan).position() && r->Ok_0.end == old(scan).position() + 1
                && final(scan).settled() && final(scan).position() == old(scan).position() + 1,
            r is Err ==> final(scan).same_place(*old(scan)),
            r is Err ==> r->Err_0.says(ErrorKind::Syntax, expected_text("'!'"@, old(scan).position() as nat)),
    {
        let start = match single(scan, '!', "'!'") {
            Ok(v) => v,
            Err(e) => {
                return Err(e);
            },
        };
        Ok(Self { start, end: start + 1 })
    }
}

/// The token `#`.
#[derive(Debug, Clone, Copy, PartialEq, Eq)]
pub struct Hash {
    pub start: usize,
    pub end: usize,
}

impl Hash {
    /// Reads `#` at the position.
    pub fn parse(scan: &mut Scanner) -> (r: Result<Self, Error>)
        requires
            old(scan).settled(),
        ensures
            final(scan).text() == old(scan).text(),
            final(scan).wf(),
            (r is Ok) == (old(scan).position() < old(scan).text().len() && old(scan).text()[old(scan).position()] == '#'),
            r is Ok ==> r->Ok_0.start == old(scan).position() && r->Ok_0.end == old(scan).position() + 1
                && final(scan).settled() && final(scan).position() == old(scan).position() + 1,
            r is Err ==> final(scan).same_place(*old(scan)),
            r is Err ==> r->Err_0.says(ErrorKind::Syntax, expected_text("'#'"@, old(scan).position() as nat)),
    {
        let start = match single(scan, '#', "'#'") {
            Ok(v) => v,
            Err(e) => {
                return Err(e);
            },
        };
        Ok(Self { start, end: start + 1 })
    }
}

/// The token `?`.
#[derive(Debug, Clone, Copy, PartialEq, Eq)]
pub struct Interrogate {
    pub start: usize,
    pub end: usize,
}

impl Interrogate {
    /// Reads `?` at the position.
    pub fn parse(scan: &mut Scanner) -> (r: Result<Self, Error>)
        requires
            old(scan).settled(),
        ensures
            final(scan).text() == old(scan).text(),
            final(scan).wf(),
            (r is Ok) == (old(scan).position() < old(scan).text().len() && old(scan).text()[old(scan).position()] == '?'),
            r is Ok ==> r->Ok_0.start == old(scan).position() && r->Ok_0.end == old(scan).position() + 1
                && final(scan).settled() && final(scan).position() == old(scan).position() + 1,
            r is Err ==> final(scan).same_place(*old(scan)),
            r is Err ==> r->Err_0.says(ErrorKind::Syntax, expected_text("'?'"@, old(scan).position() as nat)),
    {
        let start = match single(scan, '?', "'?'") {
            Ok(v) => v,
            Err(e) => {
                return Err(e);
            },
        };
        Ok(Self { start, end: start + 1 })
    }
}

/// The token `|`.
#[derive(Debug, Clone, Copy, PartialEq, Eq)]
pub struct Pipe {
    pub start: usize,
    pub end: usize,
}

impl Pipe {
    /// Reads `|` at the position.
    pub fn parse(scan: &mut Scanner) -> (r: Result<Self, Error>)
        requires
            old(scan).settled(),
        ensures
            final(scan).text() == old(scan).text(),
            final(scan).wf(),
            (r is Ok) == (old(scan).position() < old(scan).text().len() && old(scan).text()[old(scan).position()] == '|'),
            r is Ok ==> r->Ok_0.start == old(scan).position() && r->Ok_0.end == old(scan).position() + 1
                && final(scan).settled() && final(scan).position() == old(scan).position() + 1,
            r is Err ==> final(scan).same_place(*old(scan)),
            r is Err ==> r->Err_0.says(ErrorKind::Syntax, expected_text("'|'"@, old(scan).position() as nat)),
    {
        let start = match single(scan, '|', "'|'") {
            Ok(v) => v,
            Err(e) => {
                return Err(e);
            },
        };
        Ok(Self { start, end: start + 1 })
    }
}

/// The token `/`.
#[derive(Debug, Clone, Copy, PartialEq, Eq)]
pub struct Slash {
    pub start: usize,
    pub end: usize,
}

impl Slash {
    /// Reads `/` at the position.
    pub fn parse(scan: &mut Scanner) -> (r: Result<Self, Error>)
        requires
            old(scan).settled(),
        ensures
            final(scan).text() == old(scan).text(),
            final(scan).wf(),
            (r is Ok) == (old(scan).position() < old(scan).text().len() && old(scan).text()[old(scan).position()] == '/'),
            r is Ok ==> r->Ok_0.start == old(scan).position() && r->Ok_0.end == old(scan).position() + 1
                && final(scan).settled() && final(scan).position() == old(scan).position() + 1,
            r is Err ==> final(scan).same_place(*old(scan)),
            r is Err ==> r->Err_0.says(ErrorKind::Syntax, expected_text("'/'"@, old(scan).position() as nat)),
    {
        let start = match single(scan, '/', "'/'") {
            Ok(v) => v,
            Err(e) => {
                return Err(e);
            },
        };
        Ok(Self { start, end: start + 1 })
    }
}

/// The token `|` as an operator between two alternatives.
#[derive(Debug, Clone, Copy, PartialEq, Eq)]
pub struct Or {
    pub start: usize,
    pub end: usize,
}

impl Or {
    /// Reads `|` at the position.
    pub fn parse(scan: &mut Scanner) -> (r: Result<Self, Error>)
        requires
            old(scan).settled(),
        ensures
            final(scan).text() == old(scan).text(),
            final(scan).wf(),
            (r is Ok) == (old(scan).position() < old(scan).text().len() && old(scan).text()[old(scan).position()] == '|'),
            r is Ok ==> r->Ok_0.start == old(scan).position() && r->Ok_0.end == old(scan).position() + 1
                && final(scan).settled() && final(scan).position() == old(scan).position() + 1,
            r is Err ==> final(scan).same_place(*old(scan)),
            r is Err ==> r->Err_0.says(ErrorKind::Syntax, expected_text("'|'"@, old(scan).position() as nat)),
    {
        let start = match single(scan, '|', "'|'") {
            Ok(v) => v,
            Err(e) => {
                return Err(e);
            },
        };
        Ok(Self { start, end: start + 1 })
    }
}

/// A named capture `{name}`; `start` and `end` enclose both braces.
#[derive(Debug, Clone)]
pub struct Ident {
    pub start: usize,
    pub end: usize,
    pub name: String,
}

impl Ident {
    /// Reads `{name}` at the position; fails, leaving the scanner as it was,
    /// when the position holds no `{` or no `}` follows it.
    pub fn parse(scan: &mut Scanner) -> (r: Result<Self, Error>)
        requires
            old(scan).settled(),
        ensures
            final(scan).text() == old(scan).text(),
            final(scan).wf(),
            (r is Ok) == (old(scan).position() < old(scan).text().len()
                && old(scan).text()[old(scan).position()] == '{'
                && find_char(old(scan).text(), old(scan).position() + 1, '}') < old(scan).text().len()),
            r is Ok ==> {
                let p = old(scan).position();
                let q = find_char(old(scan).text(), p + 1, '}');
                &&& r->Ok_0.start == p
                &&& r->Ok_0.end == q + 1
                &&& r->Ok_0.name@ == old(scan).text().subrange(p + 1, q)
                &&& final(scan).settled()
                &&& final(scan).position() == q + 1
            },
            r is Err ==> final(scan).same_place(*old(scan)),
            r is Err ==> if old(scan).position() < old(scan).text().len()
                && old(scan).text()[old(scan).position()] == '{' {
                r->Err_0.says(ErrorKind::Syntax, unclosed_text(old(scan).text(), old(scan).position()))
            } else {
                r->Err_0.says(ErrorKind::Syntax, expected_text("'{'"@, old(scan).position() as nat))
            },
    {
        if !scan.at('{') {
            return Err(expected_at("'{'", scan.right()));
        }
        let start = scan.right();
        proof {
            lemma_find_char_bounds(scan.text(), start + 1, '}');
        }
        let ghost before = *scan;
        scan.advance();
        let found = scan.seek('}');
        if !found {
            scan.reset();
            let what = String::from_str("'}' to close ").concat(scan.span(start, scan.len()).as_str());
            return Err(expected_at(what.as_str(), scan.len()));
        }
        let close = scan.right();
        let name = scan.span(start + 1, close);
        scan.advance();
        scan.commit();
        Ok(Self { start, end: close + 1, name })
    }
}

/// A run of text: one character, then the letters and digits that follow it.
#[derive(Debug, Clone)]
pub struct Text {
    pub start: usize,
    pub end: usize,
    pub value: String,
}

impl Text {
    /// Reads the character at the position and the letters and digits after
    /// it; fails at the end of the input.
    pub fn parse(scan: &mut Scanner) -> (r: Result<Self, Error>)
        requires
            old(scan).settled(),
        ensures
            final(scan).text() == old(scan).text(),
            final(scan).wf(),
            (r is Ok) == (old(scan).position() < old(scan).text().len()),
            r is Ok ==> {
                let p = old(scan).position();
                let q = alnum_end(old(scan).text(), p + 1);
                &&& r->Ok_0.start == p
                &&& r->Ok_0.end == q
                &&& r->Ok_0.value@ == old(scan).text().subrange(p, q)
                &&& final(scan).settled()
                &&& final(scan).position() == q
            },
            r is Err ==> final(scan).same_place(*old(scan)),
            r is Err ==> r->Err_0.says(ErrorKind::Syntax, expected_text("a token"@, old(scan).position() as nat)),
    {
        if scan.is_eof() {
            return Err(expected_at("a token", scan.right()));
        }
        let start = scan.right();
        scan.advance();
        proof {
            lemma_alnum_end_bounds(scan.text(), start + 1);
        }
        while next_is_alnum(scan)
            invariant
                scan.wf(),
                scan.text() == old(scan).text(),
                scan.anchor() == start,
                start < scan.position() <= scan.text().len(),
                alnum_end(scan.text(), scan.position()) == alnum_end(scan.text(), start + 1),
            decreases scan.text().len() - scan.position(),
        {
            scan.advance();
        }
        let end = scan.right();
        let value = scan.commit();
        Ok(Self { start, end, value })
    }
}

/// A token of a pattern.
#[derive(Debug, Clone)]
pub enum Token {
    Ampersand(Ampersand),
    Asterisk(Asterisk),
    Colon(Colon),
    Equals(Equals),
    Exclamation(Exclamation),
    Hash(Hash),
    Ident(Ident),
    Interrogate(Interrogate),
    Pipe(Pipe),
    Slash(Slash),
    Text(Text),
}

impl Token {
    /// The character that decides the kind of the token; `None` for text.
    pub open spec fn lead(&self) -> Option<char> {
        match self {
            Token::Ampersand(_) => Some('&'),
            Token::Asterisk(_) => Some('*'),
            Token::Colon(_) => Some(':'),
            Token::Equals(_) => Some('='),
            Token::Exclamation(_) => Some('!'),
            Token::Hash(_) => Some('#'),
            Token::Ident(_) => Some('{'),
            Token::Interrogate(_) => Some('?'),
            Token::Pipe(_) => Some('|'),
            Token::Slash(_) => Some('/'),
            Token::Text(_) => None,
        }
    }

    /// The token as it is written in a pattern.
    pub open spec fn text(&self) -> Seq<char> {
        match self {
            Token::Ident(v) => seq!['{'] + v.name@ + seq!['}'],
            Token::Text(v) => v.value@,
            _ => seq![self.lead().unwrap()],
        }
    }

    pub open spec fn spec_start(&self) -> int {
        match self {
            Token::Ampersand(v) => v.start as int,
            Token::Asterisk(v) => v.start as int,
            Token::Colon(v) => v.start as int,
            Token::Equals(v) => v.start as int,
            Token::Exclamation(v) => v.start as int,
            Token::Hash(v) => v.start as int,
            Token::Ident(v) => v.start as int,
            Token::Interrogate(v) => v.start as int,
            Token::Pipe(v) => v.start as int,
            Token::Slash(v) => v.start as int,
            Token::Text(v) => v.start as int,
        }
    }

    pub open spec fn spec_end(&self) -> int {
        match self {
            Token::Ampersand(v) => v.end as int,
            Token::Asterisk(v) => v.end as int,
            Token::Colon(v) => v.end as int,
            Token::Equals(v) => v.end as int,
            Token::Exclamation(v) => v.end as int,
            Token::Hash(v) => v.end as int,
            Token::Ident(v) => v.end as int,
            Token::Interrogate(v) => v.end as int,
            Token::Pipe(v) => v.end as int,
            Token::Slash(v) => v.end as int,
            Token::Text(v) => v.end as int,
        }
    }

    /// Where the token starts in its pattern.
    pub fn start(&self) -> (r: usize)
        ensures
            r == self.spec_start(),
    {
        match self {
            Token::Ampersand(v) => v.start,
            Token::Asterisk(v) => v.start,
            Token::Colon(v) => v.start,
            Token::Equals(v) => v.start,
            Token::Exclamation(v) => v.start,
            Token::Hash(v) => v.start,
            Token::Ident(v) => v.start,
            Token::Interrogate(v) => v.start,
            Token::Pipe(v) => v.start,
            Token::Slash(v) => v.start,
            Token::Text(v) => v.start,
        }
    }

    /// Where the token ends in its pattern.
    pub fn end(&self) -> (r: usize)
        ensures
            r == self.spec_end(),
    {
        match self {
            Token::Ampersand(v) => v.end,
            Token::Asterisk(v) => v.end,
            Token::Colon(v) => v.end,
            Token::Equals(v) => v.end,
            Token::Exclamation(v) => v.end,
            Token::Hash(v) => v.end,
            Token::Ident(v) => v.end,
            Token::Interrogate(v) => v.end,
            Token::Pipe(v) => v.end,
            Token::Slash(v) => v.end,
            Token::Text(v) => v.end,
        }
    }

    /// The token as it is written in a pattern.
    pub fn to_string(&self) -> (r: String)
        ensures
            r@ == self.text(),
    {
        proof {
            reveal_strlit("&");
            reveal_strlit("*");
            reveal_strlit(":");
            reveal_strlit("=");
            reveal_strlit("!");
            reveal_strlit("#");
            reveal_strlit("?");
            reveal_strlit("|");
            reveal_strlit("/");
            reveal_strlit("{");
            reveal_strlit("}");
        }
        match self {
            Token::Ampersand(_) => String::from_str("&"),
            Token::Asterisk(_) => String::from_str("*"),
            Token::Colon(_) => String::from_str(":"),
            Token::Equals(_) => String::from_str("="),
            Token::Exclamation(_) => String::from_str("!"),
            Token::Hash(_) => String::from_str("#"),
            Token::Ident(v) => String::from_str("{").concat(v.name.as_str()).concat("}"),
            Token::Interrogate(_) => String::from_str("?"),
            Token::Pipe(_) => String::from_str("|"),
            Token::Slash(_) => String::from_str("/"),
            Token::Text(v) => v.value.clone(),
        }
    }

    pub fn is_ampersand(&self) -> (r: bool)
        ensures
            r == self is Ampersand,
    {
        match self {
            Token::Ampersand(_) => true,
            _ => false,
        }
    }

    pub fn is_asterisk(&self) -> (r: bool)
        ensures
            r == self is Asterisk,
    {
        match self {
            Token::Asterisk(_) => true,
            _ => false,
        }
    }

    pub fn is_colon(&self) -> (r: bool)
        ensures
            r == self is Colon,
    {
        match self {
            Token::Colon(_) => true,
            _ => false,
        }
    }

    pub fn is_equals(&self) -> (r: bool)
        ensures
            r == self is Equals,
    {
        match self {
            Token::Equals(_) => true,
            _ => false,
        }
    }

    pub fn is_exclamation(&self) -> (r: bool)
        ensures
            r == self is Exclamation,
    {
        match self {
            Token::Exclamation(_) => true,
            _ => false,
        }
    }

    pub fn is_hash(&self) -> (r: bool)
        ensures
            r == self is Hash,
    {
        match self {
            Token::Hash(_) => true,
            _ => false,
        }
    }

    pub fn is_ident(&self) -> (r: bool)
        ensures
            r == self is Ident,
    {
        match self {
            Token::Ident(_) => true,
            _ => false,
        }
    }

    pub fn is_interrogate(&self) -> (r: bool)
        ensures
            r == self is Interrogate,
    {
        match self {
            Token::Interrogate(_) => true,
            _ => false,
        }
    }

    pub fn is_pipe(&self) -> (r: bool)
        ensures
            r == self is Pipe,
    {
        match self {
            Token::Pipe(_) => true,
            _ => false,
        }
    }

    pub fn is_slash(&self) -> (r: bool)
        ensures
            r == self is Slash,
    {
        match self {
            Token::Slash(_) => true,
            _ => false,
        }
    }

    pub fn is_text(&self) -> (r: bool)
        ensures
            r == self is Text,
    {
        match self {
            Token::Text(_) => true,
            _ => false,
        }
    }

    /// Reads the token at the position: one of the structural characters, an
    /// identifier in braces, or else a run of text. On failure the scanner is
    /// left as it was.
    pub fn parse(scan: &mut Scanner) -> (r: Result<Self, Error>)
        requires
            old(scan).settled(),
        ensures
            final(scan).text() == old(scan).text(),
            final(scan).wf(),
            (r is Ok) == token_ok(old(scan).text(), old(scan).position()),
            r is Ok ==> {
                let s = old(scan).text();
                let p = old(scan).position();
                let t = r->Ok_0;
                &&& t.spec_start() == p
                &&& t.spec_end() == token_end(s, p)
                &&& t.text() == s.subrange(p, token_end(s, p))
                &&& t.lead() == if is_structural(s[p]) || s[p] == '{' {
                    Some(s[p])
                } else {
                    None::<char>
                }
                &&& final(scan).settled()
                &&& final(scan).position() == token_end(s, p)
            },
            r is Err ==> final(scan).same_place(*old(scan)),
            r is Err ==> r->Err_0.says(ErrorKind::Syntax, token_error(old(scan).text(), old(scan).position())),
    {
        let ghost s = scan.text();
        let ghost p = scan.position();
        let c = match scan.peek() {
            Some(c) => c,
            None => {
                return Err(expected_at("a token", scan.right()));
            },
        };
        let r = if c == '&' {
            match Ampersand::parse(scan) {
                Ok(v) => Token::Ampersand(v),
                Err(e) => {
                    return Err(e);
                },
            }
        } else if c == '*' {
            match Asterisk::parse(scan) {
                Ok(v) => Token::Asterisk(v),
                Err(e) => {
                    return Err(e);
                },
            }
        } else if c == ':' {
            match Colon::parse(scan) {
                Ok(v) => Token::Colon(v),
                Err(e) => {
                    return Err(e);
                },
            }
        } else if c == '=' {
            match Equals::parse(scan) {
                Ok(v) => Token::Equals(v),
                Err(e) => {
                    return Err(e);
                },
            }
        } else if c == '!' {
            match Exclamation::parse(scan) {
                Ok(v) => Token::Exclamation(v),
                Err(e) => {
                    return Err(e);
                },
            }
        } else if c == '#' {
            match Hash::parse(scan) {
                Ok(v) => Token::Hash(v),
                Err(e) => {
                    return Err(e);
                },
            }
        } else if c == '{' {
            match Ident::parse(scan) {
                Ok(v) => Token::Ident(v),
                Err(e) => {
                    return Err(e);
                },
            }
        } else if c == '?' {
            match Interrogate::parse(scan) {
                Ok(v) => Token::Interrogate(v),
                Err(e) => {
                    return Err(e);
                },
            }
        } else if c == '|' {
            match Pipe::parse(scan) {
                Ok(v) => Token::Pipe(v),
                Err(e) => {
                    return Err(e);
                },
            }
        } else if c == '/' {
            match Slash::parse(scan) {
                Ok(v) => Token::Slash(v),
                Err(e) => {
                    return Err(e);
                },
            }
        } else {
            match Text::parse(scan) {
                Ok(v) => Token::Text(v),
                Err(e) => {
                    return Err(e);
                },
            }
        };
        proof {
            if r is Ident {
                lemma_find_char_bounds(s, p + 1, '}');
            }
            if !(r is Text) {
                assert(r.text() =~= s.subrange(p, token_end(s, p)));
            }
        }
        Ok(r)
    }
}

impl Token {
    /// The character that decides the kind of the token; `None` for text.
    pub fn lead_char(&self) -> (r: Option<char>)
        ensures
            r == self.lead(),
    {
        match self {
            Token::Ampersand(_) => Some('&'),
            Token::Asterisk(_) => Some('*'),
            Token::Colon(_) => Some(':'),
            Token::Equals(_) => Some('='),
            Token::Exclamation(_) => Some('!'),
            Token::Hash(_) => Some('#'),
            Token::Ident(_) => Some('{'),
            Token::Interrogate(_) => Some('?'),
            Token::Pipe(_) => Some('|'),
            Token::Slash(_) => Some('/'),
            Token::Text(_) => None,
        }
    }
}

/// Two tokens are equal when they are of one kind and read the same; where
/// they stand does not count.
impl PartialEq for Token {
    fn eq(&self, other: &Token) -> (r: bool) {
        let same_kind = match (self.lead_char(), other.lead_char()) {
            (Some(a), Some(b)) => a == b,
            (None, None) => true,
            _ => false,
        };
        same_kind && self.to_string() == other.to_string()
    }
}

impl vstd::std_specs::cmp::PartialEqSpecImpl for Token {
    open spec fn obeys_eq_spec() -> bool {
        true
    }

    open spec fn eq_spec(&self, other: &Token) -> bool {
        self.lead() == other.lead() && self.text() == other.text()
    }
}

} // verus!
