//! An inbound request, reduced to what routing and dispatch read: its
//! method, its path and its body.

use vstd::prelude::*;

verus! {

/// What `str::to_uppercase` makes of a text.
pub uninterp spec fn upper_of(s: Seq<char>) -> Seq<char>;

/// Relies on `str::to_uppercase`: the result depends on the characters
/// alone.
#[verifier::external_body]
fn uppercase(s: &str) -> (r: String)
    ensures
        r@ == upper_of(s@),
{
    s.to_uppercase()
}

/// Whether `c` may stand in a method name: a letter, a digit, or one of
/// ``!#$%&'*+-.^_`|~``.
pub open spec fn is_method_char(c: char) -> bool {
    ('A' <= c <= 'Z') || ('a' <= c <= 'z') || ('0' <= c <= '9') || c == '!' || c == '#' || c
        == '$' || c == '%' || c == '&' || c == '\'' || c == '*' || c == '+' || c == '-' || c
        == '.' || c == '^' || c == '_' || c == '`' || c == '|' || c == '~'
}

/// Whether a text is a method name: not empty, and made of method
/// characters only.
pub open spec fn valid_method_name(s: Seq<char>) -> bool {
    s.len() > 0 && forall|i: int| 0 <= i < s.len() ==> #[trigger] is_method_char(s[i])
}

/// Relies on `hyper::Method::from_bytes`: it refuses the empty name, and
/// accepts any other exactly where each byte is a method character (the
/// standard names are made of such bytes too); a character outside ASCII
/// gives bytes that are not.
#[verifier::external_body]
fn method_name_accepted(name: &str) -> (r: bool)
    ensures
        r == valid_method_name(name@),
{
    hyper::Method::from_bytes(name.as_bytes()).is_ok()
}

/// The method that a request given with method name `name` gets: the name
/// in upper case where that is a valid method name, else `GET`.
pub open spec fn normalized_method(name: Seq<char>) -> Seq<char> {
    if valid_method_name(upper_of(name)) {
        upper_of(name)
    } else {
        "GET"@
    }
}

/// An inbound request: method, path and body.
#[derive(Debug, Default)]
pub struct RestMessage {
    method: String,
    uri: String,
    data: String,
}

/// What a request holds, as text.
pub struct RestMessageView {
    pub method: Seq<char>,
    pub uri: Seq<char>,
    pub body: Seq<char>,
}

impl View for RestMessage {
    type V = RestMessageView;

    closed spec fn view(&self) -> RestMessageView {
        RestMessageView { method: self.method@, uri: self.uri@, body: self.data@ }
    }
}

impl RestMessage {
    /// A request with method name `m`, path `u` and body `d`.
    pub fn new(m: &str, u: &str, d: &str) -> (r: Self)
        ensures
            r@ == (RestMessageView { method: normalized_method(m@), uri: u@, body: d@ }),
    {
        let upper = uppercase(m);
        let method = if method_name_accepted(upper.as_str()) {
            upper
        } else {
            "GET".to_string()
        };
        RestMessage { method, uri: u.to_string(), data: d.to_string() }
    }

    /// The method, in upper case.
    pub fn method(&self) -> (r: &str)
        ensures
            r@ == self@.method,
    {
        self.method.as_str()
    }

    /// The path.
    pub fn uri(&self) -> (r: &str)
        ensures
            r@ == self@.uri,
    {
        self.uri.as_str()
    }

    /// The body.
    pub fn body(&self) -> (r: &str)
        ensures
            r@ == self@.body,
    {
        self.data.as_str()
    }
}

} // verus!
