//! Plain-value models of an HTTP request and response, and the splitting of
//! a request target into its path part (what routing looks at) and its query
//! string (which routing ignores).

use vstd::prelude::*;
use vstd::string::StrSliceExecFns;

verus! {

/// An HTTP request method.
#[derive(Clone, Copy, PartialEq, Eq, Debug, Structural)]
pub enum Method {
    Get,
    Head,
    Post,
    Put,
    Delete,
    Options,
    Patch,
    Other,
}

/// An incoming request, as plain values. The greeting handler reads none of
/// the headers and none of the body; routing reads the method and the path.
pub struct Request {
    pub method: Method,
    pub path: String,
    pub headers: Vec<(String, String)>,
    pub body: Vec<u8>,
}

/// An outgoing response: status code, content type, and a UTF-8 body.
pub struct Response {
    pub status: u16,
    pub content_type: String,
    pub body: String,
}

/// The path part of a request target: everything before the first `'?'`,
/// or the whole target when it carries no query string.
pub open spec fn route_path(path: Seq<char>) -> Seq<char>
    decreases path.len(),
{
    if path.len() == 0 {
        Seq::empty()
    } else if path[0] == '?' {
        Seq::empty()
    } else {
        seq![path[0]] + route_path(path.drop_first())
    }
}

proof fn lemma_route_path_prefix(path: Seq<char>, i: int)
    requires
        0 <= i <= path.len(),
        forall|j: int| 0 <= j < i ==> path[j] != '?',
        i == path.len() || path[i] == '?',
    ensures
        route_path(path) == path.subrange(0, i),
    decreases path.len(),
{
    if i == 0 {
        assert(path.subrange(0, 0) =~= Seq::<char>::empty());
    } else {
        let rest = path.drop_first();
        assert forall|j: int| 0 <= j < i - 1 implies rest[j] != '?' by {
            assert(path[j + 1] != '?');
        }
        lemma_route_path_prefix(rest, i - 1);
        assert(seq![path[0]] + rest.subrange(0, i - 1) =~= path.subrange(0, i));
    }
}

/// Cuts the query string off a request target.
pub fn strip_query(path: &str) -> (r: &str)
    ensures
        r@ == route_path(path@),
{
    let len = path.unicode_len();
    let mut i: usize = 0;
    while i < len
        invariant
            i <= len,
            len == path@.len(),
            forall|j: int| 0 <= j < i ==> path@[j] != '?',
        decreases len - i,
    {
        if path.get_char(i) == '?' {
            let r = path.substring_char(0, i);
            proof {
                lemma_route_path_prefix(path@, i as int);
            }
            return r;
        }
        i += 1;
    }
    let r = path.substring_char(0, len);
    proof {
        lemma_route_path_prefix(path@, len as int);
    }
    r
}

} // verus!
