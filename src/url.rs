use vstd::prelude::*;
use vstd::string::*;

use crate::error::{Error, ErrorKind};
use crate::params::{query_of, Params, Query};
use crate::scanner::{
    find_char, find_from, lemma_find_char_bounds, lemma_find_from_bounds, Scanner,
};

verus! {

/// The lower-case form of a text, as std's `str::to_lowercase` gives it.
pub uninterp spec fn lower_of(s: Seq<char>) -> Seq<char>;

/// Relies on `str::to_lowercase`: its result depends on the characters alone.
#[verifier::external_body]
fn lowercase(s: &str) -> (r: String)
    ensures
        r@ == lower_of(s@),
{
    s.to_lowercase()
}

/// The scheme of a URL.
#[derive(Debug, Clone, PartialEq, Eq)]
pub enum Protocol {
    Blob,
    Data,
    File,
    Ftp,
    Http,
    Https,
    Javascript,
    MailTo,
    Ssh,
    Tel,
    Urn,
    ViewSource,
    Ws,
    Wss,
    Other(String),
}

impl Protocol {
    /// The scheme as it is written in a URL.
    pub open spec fn spec_name(&self) -> Seq<char> {
        match self {
            Protocol::Blob => "blob"@,
            Protocol::Data => "data"@,
            Protocol::File => "file"@,
            Protocol::Ftp => "ftp"@,
            Protocol::Http => "http"@,
            Protocol::Https => "https"@,
            Protocol::Javascript => "javascript"@,
            Protocol::MailTo => "mailto"@,
            Protocol::Ssh => "ssh"@,
            Protocol::Tel => "tel"@,
            Protocol::Urn => "urn"@,
            Protocol::ViewSource => "view-source"@,
            Protocol::Ws => "ws"@,
            Protocol::Wss => "wss"@,
            Protocol::Other(v) => v@,
        }
    }

    /// Whether `s` names one of the schemes that have a variant of their own.
    pub open spec fn known(s: Seq<char>) -> bool {
        s == "blob"@ || s == "data"@ || s == "file"@ || s == "ftp"@ || s == "http"@ || s
            == "https"@ || s == "javascript"@ || s == "mailto"@ || s == "ssh"@ || s == "tel"@
            || s == "urn"@ || s == "view-source"@ || s == "ws"@ || s == "wss"@
    }

    /// The scheme as it is written in a URL.
    pub fn to_string(&self) -> (r: String)
        ensures
            r@ == self.spec_name(),
    {
        match self {
            Protocol::Blob => String::from_str("blob"),
            Protocol::Data => String::from_str("data"),
            Protocol::File => String::from_str("file"),
            Protocol::Ftp => String::from_str("ftp"),
            Protocol::Http => String::from_str("http"),
            Protocol::Https => String::from_str("https"),
            Protocol::Javascript => String::from_str("javascript"),
            Protocol::MailTo => String::from_str("mailto"),
            Protocol::Ssh => String::from_str("ssh"),
            Protocol::Tel => String::from_str("tel"),
            Protocol::Urn => String::from_str("urn"),
            Protocol::ViewSource => String::from_str("view-source"),
            Protocol::Ws => String::from_str("ws"),
            Protocol::Wss => String::from_str("wss"),
            Protocol::Other(v) => v.clone(),
        }
    }

    /// The scheme named by `s`, taken as it is: a known name gives its
    /// variant, any other text `Other`.
    pub fn from_lower(s: &str) -> (r: Protocol)
        ensures
            r.spec_name() == s@,
            (r is Other) == !Self::known(s@),
    {
        let v = s.to_owned();
        if v == String::from_str("blob") {
            Protocol::Blob
        } else if v == String::from_str("data") {
            Protocol::Data
        } else if v == String::from_str("file") {
            Protocol::File
        } else if v == String::from_str("ftp") {
            Protocol::Ftp
        } else if v == String::from_str("http") {
            Protocol::Http
        } else if v == String::from_str("https") {
            Protocol::Https
        } else if v == String::from_str("javascript") {
            Protocol::Javascript
        } else if v == String::from_str("mailto") {
            Protocol::MailTo
        } else if v == String::from_str("ssh") {
            Protocol::Ssh
        } else if v == String::from_str("tel") {
            Protocol::Tel
        } else if v == String::from_str("urn") {
            Protocol::Urn
        } else if v == String::from_str("view-source") {
            Protocol::ViewSource
        } else if v == String::from_str("ws") {
            Protocol::Ws
        } else if v == String::from_str("wss") {
            Protocol::Wss
        } else {
            Protocol::Other(v)
        }
    }

    /// The scheme named by `s` in any case: its lower-case form decides.
    pub fn from(s: &str) -> (r: Protocol)
        ensures
            r.spec_name() == lower_of(s@),
            (r is Other) == !Self::known(lower_of(s@)),
    {
        let lower = lowercase(s);
        Self::from_lower(lower.as_str())
    }
}

pub open spec fn is_digit(c: char) -> bool {
    '0' <= c && c <= '9'
}

/// The number that a run of decimal digits stands for.
pub open spec fn decimal_value(d: Seq<char>) -> int
    decreases d.len(),
{
    if d.len() == 0 {
        0
    } else {
        decimal_value(d.drop_last()) * 10 + (d.last() as int - '0' as int)
    }
}

/// Whether `d` is one or more decimal digits standing for at most 65535.
pub open spec fn port_ok(d: Seq<char>) -> bool {
    &&& d.len() > 0
    &&& forall|i: int| 0 <= i < d.len() ==> is_digit(#[trigger] d[i])
    &&& decimal_value(d) <= 65535
}

proof fn lemma_decimal_nonneg(d: Seq<char>)
    requires
        forall|j: int| 0 <= j < d.len() ==> is_digit(#[trigger] d[j]),
    ensures
        0 <= decimal_value(d),
    decreases d.len(),
{
    if d.len() > 0 {
        let e = d.drop_last();
        assert forall|j: int| 0 <= j < e.len() implies is_digit(#[trigger] e[j]) by {
            assert(e[j] == d[j]);
        }
        lemma_decimal_nonneg(e);
        assert(is_digit(d[d.len() - 1]));
    }
}

proof fn lemma_decimal_grows(d: Seq<char>, i: int)
    requires
        0 <= i <= d.len(),
        forall|j: int| 0 <= j < d.len() ==> is_digit(#[trigger] d[j]),
    ensures
        0 <= decimal_value(d.take(i)) <= decimal_value(d),
    decreases d.len() - i,
{
    let e = d.take(i);
    assert forall|j: int| 0 <= j < e.len() implies is_digit(#[trigger] e[j]) by {
        assert(e[j] == d[j]);
    }
    lemma_decimal_nonneg(e);
    if i < d.len() {
        lemma_decimal_grows(d, i + 1);
        assert(d.take(i + 1).drop_last() == d.take(i));
        assert(d.take(i + 1).last() == d[i]);
        assert(is_digit(d[i]));
    } else {
        assert(d.take(i) == d);
    }
}

/// Reads the rest of the scanner's text as decimal digits.
fn read_digits(scan: &mut Scanner) -> (r: Option<u16>)
    requires
        old(scan).settled(),
    ensures
        r is Some == port_ok(old(scan).text().subrange(old(scan).position(), old(scan).text().len() as int)),
        r is Some ==> r->Some_0 as int == decimal_value(
            old(scan).text().subrange(old(scan).position(), old(scan).text().len() as int),
        ),
{
    let ghost s = scan.text();
    let ghost p = scan.position();
    let ghost d = s.subrange(p, s.len() as int);
    if scan.is_eof() {
        return None;
    }
    let mut value: u32 = 0;
    while !scan.is_eof()
        invariant
            scan.wf(),
            scan.text() == s,
            0 <= p <= scan.position() <= s.len(),
            s == old(scan).text(),
            p == old(scan).position(),
            d == s.subrange(p, s.len() as int),
            forall|j: int| 0 <= j < scan.position() - p ==> is_digit(#[trigger] d[j]),
            value as int == decimal_value(d.take(scan.position() - p)),
            value <= 65535,
        decreases s.len() - scan.position(),
    {
        let ghost i = scan.position() - p;
        let c = match scan.peek() {
            Some(c) => c,
            None => {
                return None;
            },
        };
        if !('0' <= c && c <= '9') {
            assert(d[i] == s[scan.position()]);
            assert(!is_digit(d[i]));
            return None;
        }
        assert(d.take(i + 1).drop_last() == d.take(i));
        let next = value * 10 + (c as u32 - '0' as u32);
        if next > 65535 {
            proof {
                if port_ok(d) {
                    lemma_decimal_grows(d, i + 1);
                }
            }
            return None;
        }
        value = next;
        scan.advance();
    }
    assert(d.take(d.len() as int) == d);
    Some(value as u16)
}

/// The digits of a port number: what follows an optional leading `+`.
pub open spec fn port_digits(d: Seq<char>) -> Seq<char> {
    if d.len() > 0 && d[0] == '+' {
        d.subrange(1, d.len() as int)
    } else {
        d
    }
}

/// Whether `d` is a port number as std's `u16::from_str` reads one: an
/// optional `+`, then one or more digits, at most 65535.
pub open spec fn port_text_ok(d: Seq<char>) -> bool {
    port_ok(port_digits(d))
}

/// Reads the rest of the scanner's text as a port number.
fn read_port(scan: &mut Scanner) -> (r: Option<u16>)
    requires
        old(scan).settled(),
    ensures
        r is Some == port_text_ok(old(scan).text().subrange(old(scan).position(), old(scan).text().len() as int)),
        r is Some ==> r->Some_0 as int == decimal_value(
            port_digits(old(scan).text().subrange(old(scan).position(), old(scan).text().len() as int)),
        ),
{
    let ghost s = scan.text();
    let ghost p = scan.position();
    if scan.at('+') {
        scan.skip(1);
        assert(s.subrange(p, s.len() as int).subrange(1, s.len() - p) =~= s.subrange(p + 1, s.len() as int));
    }
    read_digits(scan)
}

/// The separator between a URL's scheme and its host.
pub open spec fn scheme_separator() -> Seq<char> {
    seq![':', '/', '/']
}

/// Where the scheme of `s` ends.
pub open spec fn scheme_end(s: Seq<char>) -> int {
    find_from(s, 0, scheme_separator())
}

/// Where the host of `s` starts and ends.
pub open spec fn host_start(s: Seq<char>) -> int {
    scheme_end(s) + 3
}

pub open spec fn host_end(s: Seq<char>) -> int {
    find_char(s, host_start(s), '/')
}

/// Where the path of `s` ends: at its first `?` after the host.
pub open spec fn path_end(s: Seq<char>) -> int {
    find_char(s, host_end(s), '?')
}

/// The port written in a host after its first `:`, if there is one.
pub open spec fn port_text(host: Seq<char>) -> Seq<char> {
    host.subrange(find_char(host, 0, ':') + 1, host.len() as int)
}

pub open spec fn has_port(host: Seq<char>) -> bool {
    find_char(host, 0, ':') < host.len()
}

/// A URL taken apart.
#[derive(Debug)]
pub struct Url {
    pub protocol: Protocol,
    pub host: String,
    pub port: Option<u16>,
    pub path: String,
    pub params: Params,
    pub query: Query,
    pub user: Option<String>,
}

/// Whether `s` can be taken apart as a URL: it has a `://`, and a `:` in its
/// host is followed by a port number.
pub open spec fn url_ok(s: Seq<char>) -> bool {
    let host = s.subrange(host_start(s), host_end(s));
    scheme_end(s) < s.len() && (has_port(host) ==> port_text_ok(port_text(host)))
}

impl Url {
    pub open spec fn wf(&self) -> bool {
        self.params.wf() && self.query.wf()
    }

    /// Whether all but the captures of this URL are what `s` holds.
    pub open spec fn describes(&self, s: Seq<char>) -> bool {
        let host = s.subrange(host_start(s), host_end(s));
        &&& self.protocol.spec_name() == lower_of(s.subrange(0, scheme_end(s)))
        &&& self.host@ == host
        &&& self.path@ == s.subrange(host_end(s), path_end(s))
        &&& self.query@ == query_of(s)
        &&& self.port == if has_port(host) {
            Some(decimal_value(port_digits(port_text(host))) as u16)
        } else {
            None::<u16>
        }
        &&& self.user is None
    }

    /// Whether this URL and `other` differ at most in their captures.
    pub open spec fn same_but_params(&self, other: Url) -> bool {
        &&& self.protocol == other.protocol
        &&& self.host == other.host
        &&& self.port == other.port
        &&& self.path == other.path
        &&& self.query == other.query
        &&& self.user == other.user
    }

    pub fn protocol(&self) -> (r: &Protocol)
        ensures
            r == &self.protocol,
    {
        &self.protocol
    }

    pub fn host(&self) -> (r: &str)
        ensures
            r@ == self.host@,
    {
        self.host.as_str()
    }

    /// The scheme and the host, as `scheme://host`.
    pub fn base(&self) -> (r: String)
        ensures
            r@ == self.protocol.spec_name() + "://"@ + self.host@,
    {
        self.protocol.to_string().concat("://").concat(self.host.as_str())
    }

    pub fn port(&self) -> (r: Option<u16>)
        ensures
            r == self.port,
    {
        self.port
    }

    pub fn path(&self) -> (r: &str)
        ensures
            r@ == self.path@,
    {
        self.path.as_str()
    }

    pub fn params(&self) -> (r: &Params)
        ensures
            r == &self.params,
    {
        &self.params
    }

    pub fn query(&self) -> (r: &Query)
        ensures
            r == &self.query,
    {
        &self.query
    }

    pub fn user(&self) -> (r: Option<&str>)
        ensures
            r is Some == self.user is Some,
            r is Some ==> r->Some_0@ == self.user->Some_0@,
    {
        match &self.user {
            Some(v) => Some(v.as_str()),
            None => None,
        }
    }

    /// Takes `url` apart: the scheme up to `://`, the host up to the next
    /// `/`, the path up to the next `?`, and the query after the first `?`.
    /// A `:` in the host introduces the port. Fails when `url` has no `://`,
    /// or when the text after the host's `:` is not a number up to 65535.
    pub fn parse(url: &str) -> (r: Result<Url, Error>)
        ensures
            (r is Ok) == url_ok(url@),
            r is Err ==> r->Err_0.kind == ErrorKind::MalformedUrl,
            r is Ok ==> r->Ok_0.wf() && r->Ok_0.describes(url@) && r->Ok_0.params@ == Map::<
                Seq<char>,
                Seq<char>,
            >::empty(),
    {
        let ghost s = url@;
        let mut scan = Scanner::from(url);
        let separator = vec![':', '/', '/'];
        proof {
            lemma_find_from_bounds(s, 0, scheme_separator());
        }
        assert(separator@ == scheme_separator());
        let found = scan.seek_text(&separator);
        if !found {
            return Err(Error::with_kind(ErrorKind::MalformedUrl, String::from_str("malformed URL: no '://' after the scheme")));
        }
        let scheme = scan.commit();
        let protocol = Protocol::from(scheme.as_str());
        scan.skip(3);
        proof {
            lemma_find_char_bounds(s, host_start(s), '/');
            lemma_find_char_bounds(s, host_end(s), '?');
        }
        scan.seek('/');
        let host = scan.commit();
        scan.seek('?');
        let path = scan.commit();
        let query = match Query::parse(url) {
            Ok(q) => q,
            Err(e) => {
                return Err(e);
            },
        };
        let mut hs = Scanner::from(host.as_str());
        proof {
            lemma_find_char_bounds(host@, 0, ':');
        }
        let port = if hs.seek(':') {
            hs.skip(1);
            match read_port(&mut hs) {
                Some(v) => Some(v),
                None => {
                    return Err(Error::with_kind(ErrorKind::MalformedUrl, String::from_str("malformed URL: invalid port")));
                },
            }
        } else {
            None
        };
        Ok(Url { protocol, host, port, path, params: Params::new(), query, user: None })
    }
}

} // verus!
