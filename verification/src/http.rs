//! The HTTP transport interface of the listing service.
//!
//! The traversal logic is verified against the [`HttpClient`] trait alone:
//! each implementation chooses, through its `response` function, which
//! document or error a GET yields, and `get` must hand back exactly that.
//! A network-backed implementation lives outside the verifier; the
//! [`FixedResponseClient`] here is a verified table-driven implementation
//! for exercising the traversal.

use vstd::prelude::*;

use crate::json::{Json, JsonV};
use crate::strutil::str_eq;

verus! {

/// An HTTP transport that fetches JSON documents.
pub trait HttpClient: Sized {
    /// The outcome that a GET of `url` with bearer token `token` yields:
    /// the mathematical value of the response document, or a transport
    /// error message. Implementations outside the verifier leave it at the
    /// default, about which nothing is known.
    open spec fn response(&self, token: Seq<char>, url: Seq<char>) -> Result<JsonV, Seq<char>> {
        vstd::pervasive::arbitrary()
    }

    /// Issues one authenticated GET against `url` and parses the body as
    /// JSON.
    fn get(&self, token: &str, url: &str) -> (r: Result<Json, String>)
        ensures
            match r {
                Ok(doc) => self.response(token@, url@) == Ok::<JsonV, Seq<char>>(doc@),
                Err(e) => self.response(token@, url@) == Err::<JsonV, Seq<char>>(e@),
            },
    ;
}

/// One row of a [`FixedResponseClient`] table.
pub struct UrlResponse {
    pub url: String,
    pub body: Json,
}

/// Mathematical value of a table row.
#[verifier::ext_equal]
pub struct UrlResponseV {
    pub url: Seq<char>,
    pub body: JsonV,
}

/// The mathematical values of a response table.
pub open spec fn table_views(table: Seq<UrlResponse>) -> Seq<UrlResponseV> {
    table.map(|i: int, e: UrlResponse| UrlResponseV { url: e.url@, body: e.body@ })
}

/// The body of the first row whose URL is `url`, or the error message a
/// [`FixedResponseClient`] fails with.
pub open spec fn table_lookup(table: Seq<UrlResponseV>, url: Seq<char>) -> Result<JsonV, Seq<char>>
    decreases table.len(),
{
    if table.len() == 0 {
        Err("no response for url"@)
    } else if table[0].url == url {
        Ok(table[0].body)
    } else {
        table_lookup(table.skip(1), url)
    }
}

/// A transport that serves each URL from a fixed table and fails on URLs it
/// does not know. Ignores the token.
pub struct FixedResponseClient {
    pub responses: Vec<UrlResponse>,
}

impl HttpClient for FixedResponseClient {
    open spec fn response(&self, token: Seq<char>, url: Seq<char>) -> Result<JsonV, Seq<char>> {
        table_lookup(table_views(self.responses@), url)
    }

    fn get(&self, token: &str, url: &str) -> (r: Result<Json, String>) {
        let mut idx: usize = 0;
        proof {
            assert(table_views(self.responses@).skip(0) =~= table_views(self.responses@));
        }
        while idx < self.responses.len()
            invariant
                idx <= self.responses.len(),
                table_lookup(table_views(self.responses@), url@) == table_lookup(
                    table_views(self.responses@).skip(idx as int),
                    url@,
                ),
            decreases self.responses.len() - idx,
        {
            proof {
                assert(table_views(self.responses@).skip(idx as int)[0] == table_views(
                    self.responses@,
                )[idx as int]);
                assert(table_views(self.responses@).skip(idx as int).skip(1) =~= table_views(
                    self.responses@,
                ).skip(idx as int + 1));
            }
            if str_eq(self.responses[idx].url.as_str(), url) {
                return Ok(self.responses[idx].body.duplicate());
            }
            idx = idx + 1;
        }
        proof {
            assert(table_views(self.responses@).skip(idx as int) =~= Seq::<UrlResponseV>::empty());
        }
        Err("no response for url".to_owned())
    }
}

} // verus!
