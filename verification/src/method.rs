//! Request methods.

use crate::text::same_text;
use vstd::prelude::*;

verus! {

/// The request methods a route can be registered under. Two methods are the
/// same only if they are the same variant.
#[derive(Debug, Clone, Copy, PartialEq, Eq, Structural)]
pub enum Method {
    GET,
    POST,
    PUT,
    PATCH,
    DELETE,
    OPTIONS,
    HEAD,
    CONNECT,
    TRACE,
}

impl Method {
    /// The token that stands for the method in a request line.
    pub open spec fn name_spec(self) -> Seq<char> {
        match self {
            Method::GET => "GET"@,
            Method::POST => "POST"@,
            Method::PUT => "PUT"@,
            Method::PATCH => "PATCH"@,
            Method::DELETE => "DELETE"@,
            Method::OPTIONS => "OPTIONS"@,
            Method::HEAD => "HEAD"@,
            Method::CONNECT => "CONNECT"@,
            Method::TRACE => "TRACE"@,
        }
    }

    /// No two methods share a token.
    pub proof fn lemma_names_differ(a: Method, b: Method)
        requires
            a.name_spec() == b.name_spec(),
        ensures
            a == b,
    {
        reveal_strlit("GET");
        reveal_strlit("POST");
        reveal_strlit("PUT");
        reveal_strlit("PATCH");
        reveal_strlit("DELETE");
        reveal_strlit("OPTIONS");
        reveal_strlit("HEAD");
        reveal_strlit("CONNECT");
        reveal_strlit("TRACE");
        let x = a.name_spec();
        let y = b.name_spec();
        assert(x.len() == y.len());
        assert(x[0] == y[0]);
        assert(x[1] == y[1]);
    }

    /// The token that stands for the method in a request line.
    pub fn name(self) -> (token: &'static str)
        ensures
            token@ == self.name_spec(),
    {
        match self {
            Method::GET => "GET",
            Method::POST => "POST",
            Method::PUT => "PUT",
            Method::PATCH => "PATCH",
            Method::DELETE => "DELETE",
            Method::OPTIONS => "OPTIONS",
            Method::HEAD => "HEAD",
            Method::CONNECT => "CONNECT",
            Method::TRACE => "TRACE",
        }
    }

    /// The method that a token stands for; `None` for any other text. Tokens
    /// are taken as they stand: upper case only.
    pub fn from_name(token: &str) -> (r: Option<Method>)
        ensures
            match r {
                Some(m) => m.name_spec() == token@,
                None => forall|m: Method| m.name_spec() != token@,
            },
    {
        if same_text(token, "GET") {
            Some(Method::GET)
        } else if same_text(token, "POST") {
            Some(Method::POST)
        } else if same_text(token, "PUT") {
            Some(Method::PUT)
        } else if same_text(token, "PATCH") {
            Some(Method::PATCH)
        } else if same_text(token, "DELETE") {
            Some(Method::DELETE)
        } else if same_text(token, "OPTIONS") {
            Some(Method::OPTIONS)
        } else if same_text(token, "HEAD") {
            Some(Method::HEAD)
        } else if same_text(token, "CONNECT") {
            Some(Method::CONNECT)
        } else if same_text(token, "TRACE") {
            Some(Method::TRACE)
        } else {
            None
        }
    }

    /// Reading a method's own token gives the method back.
    pub proof fn lemma_name_round_trip(m: Method, r: Option<Method>)
        requires
            match r {
                Some(n) => n.name_spec() == m.name_spec(),
                None => forall|n: Method| n.name_spec() != m.name_spec(),
            },
        ensures
            r == Some(m),
    {
        match r {
            Some(n) => {
                Self::lemma_names_differ(n, m);
            },
            None => {
                assert(m.name_spec().len() >= 0);
            },
        }
    }
}

} // verus!
