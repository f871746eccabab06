//! What an HTTP exchange yields: the response as the checks read it, or the
//! reason no response came.

use vstd::prelude::*;
use crate::span::Span;
use crate::text::concat;

verus! {

/// A response as the checks read it. The headers are name/value pairs read
/// as the map they build when inserted one by one: where a name occurs more
/// than once, the last pair counts (see `header_index`).
#[derive(Debug)]
pub struct ResponseData {
    pub status: u16,
    pub headers: Vec<(String, String)>,
    pub body: String,
    pub latency: Span,
}

/// Why a request produced no response.
#[derive(Debug)]
pub enum HttpError {
    /// The transport failed; the text is the client's description.
    Network(String),
    /// The request timed out.
    Timeout,
    /// The method cannot be sent.
    UnsupportedMethod(String),
}

/// The position of the pair that counts for header `k` (the last one with
/// that name), or -1 when there is none.
pub open spec fn header_index(hs: Seq<(String, String)>, k: Seq<char>) -> int
    decreases hs.len(),
{
    if hs.len() == 0 {
        -1
    } else if hs.last().0@ == k {
        hs.len() - 1
    } else {
        header_index(hs.drop_last(), k)
    }
}

/// The value of header `k`, if present.
pub open spec fn header_value(hs: Seq<(String, String)>, k: Seq<char>) -> Option<Seq<char>> {
    if header_index(hs, k) >= 0 {
        Some(hs[header_index(hs, k)].1@)
    } else {
        None
    }
}

/// The position of the pair that counts for header `k` in `hs` (the last
/// pair with that name), if present.
pub fn header_position(hs: &Vec<(String, String)>, k: &String) -> (res: Option<usize>)
    ensures
        match res {
            Some(i) => i == header_index(hs@, k@) && i < hs@.len() && hs@[i as int].0@ == k@,
            None => header_index(hs@, k@) == -1,
        },
{
    let mut n: usize = hs.len();
    assert(hs@.take(n as int) =~= hs@);
    while n > 0
        invariant
            n <= hs.len(),
            header_index(hs@, k@) == header_index(hs@.take(n as int), k@),
        decreases n,
    {
        assert(hs@.take(n as int).drop_last() =~= hs@.take(n - 1));
        if hs[n - 1].0 == *k {
            return Some(n - 1);
        }
        n -= 1;
    }
    None
}

/// The value of header `k` in `hs`, if present: the last pair with that name.
pub fn find_header<'a>(hs: &'a Vec<(String, String)>, k: &String) -> (res: Option<&'a String>)
    ensures
        match res {
            Some(v) => header_value(hs@, k@) == Some(v@),
            None => header_value(hs@, k@) is None,
        },
{
    match header_position(hs, k) {
        Some(i) => Some(&hs[i].1),
        None => None,
    }
}

impl HttpError {
    /// The description of the error.
    pub open spec fn message_spec(self) -> Seq<char> {
        match self {
            HttpError::Network(t) => "network error: "@ + t@,
            HttpError::Timeout => "request timed out"@,
            HttpError::UnsupportedMethod(m) => "unsupported HTTP method: "@ + m@,
        }
    }

    /// The description of the error, as shown in reports.
    pub fn message(&self) -> (res: String)
        ensures
            res@ == self.message_spec(),
    {
        match self {
            HttpError::Network(t) => concat("network error: ", t.as_str()),
            HttpError::Timeout => "request timed out".to_owned(),
            HttpError::UnsupportedMethod(m) => concat("unsupported HTTP method: ", m.as_str()),
        }
    }
}

} // verus!
