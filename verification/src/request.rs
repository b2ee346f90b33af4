//! The text of a request: which route it takes, and where its body starts.

use vstd::prelude::*;
use vstd::string::StrSliceExecFns;

verus! {

/// The start of a request for the API's greeting.
pub const API_PREFIX: &'static str = "GET /api/";

/// The start of a login request.
pub const LOGIN_PREFIX: &'static str = "POST /api/auth/github";

/// What separates the head of a request from its body.
pub const SEPARATOR: &'static str = "\r\n\r\n";

/// The routes, in the order in which they are tried.
#[derive(Clone, Copy, Debug, PartialEq, Eq, Structural)]
pub enum Route {
    /// The API's greeting.
    Api,
    /// A login.
    GithubLogin,
    /// The catch-all.
    NotFound,
}

/// The route of a request: the first whose prefix the request starts with,
/// and the catch-all if there is none.
pub open spec fn route_of(request: Seq<char>) -> Route {
    if API_PREFIX@.is_prefix_of(request) {
        Route::Api
    } else if LOGIN_PREFIX@.is_prefix_of(request) {
        Route::GithubLogin
    } else {
        Route::NotFound
    }
}

/// `str::starts_with` with a string pattern: whether `prefix` is a prefix
/// of `text`, character by character.
#[verifier::external_body]
fn starts_with(text: &str, prefix: &str) -> (yes: bool)
    ensures
        yes == prefix@.is_prefix_of(text@),
{
    text.starts_with(prefix)
}

/// Picks the route of a request.
pub fn route(request: &str) -> (r: Route)
    ensures
        r == route_of(request@),
{
    if starts_with(request, API_PREFIX) {
        Route::Api
    } else if starts_with(request, LOGIN_PREFIX) {
        Route::GithubLogin
    } else {
        Route::NotFound
    }
}

/// The separator stands in `text` at position `i`.
pub open spec fn occurs_at(text: Seq<char>, sep: Seq<char>, i: int) -> bool {
    0 <= i && i + sep.len() <= text.len() && text.subrange(i, i + sep.len()) == sep
}

/// The separator stands in `text` at position `i`, and nowhere before.
pub open spec fn first_occurs_at(text: Seq<char>, sep: Seq<char>, i: int) -> bool {
    occurs_at(text, sep, i) && forall|j: int| 0 <= j < i ==> !occurs_at(text, sep, j)
}

/// The last of the pieces into which the separator cuts the text: what
/// follows the first separator is cut again, and a text that holds no
/// separator is its own last piece.
pub open spec fn last_segment(text: Seq<char>, sep: Seq<char>) -> Seq<char>
    recommends
        sep.len() > 0,
    decreases text.len(),
{
    if sep.len() > 0 && exists|i: int| first_occurs_at(text, sep, i) {
        let i: int = choose|i: int| first_occurs_at(text, sep, i);
        last_segment(text.skip(i + sep.len()), sep)
    } else {
        text
    }
}

proof fn first_occurrence_exists(text: Seq<char>, sep: Seq<char>, k: int)
    requires
        occurs_at(text, sep, k),
    ensures
        exists|i: int| first_occurs_at(text, sep, i),
    decreases k,
{
    if forall|j: int| 0 <= j < k ==> !occurs_at(text, sep, j) {
        assert(first_occurs_at(text, sep, k));
    } else {
        let j: int = choose|j: int| 0 <= j < k && occurs_at(text, sep, j);
        first_occurrence_exists(text, sep, j);
    }
}

/// The last piece is an end of the text and holds no separator; a text
/// without a separator is left whole.
pub proof fn last_segment_is_separator_free_suffix(text: Seq<char>, sep: Seq<char>)
    requires
        sep.len() > 0,
    ensures
        last_segment(text, sep).is_suffix_of(text),
        forall|i: int| !occurs_at(last_segment(text, sep), sep, i),
        (forall|i: int| !occurs_at(text, sep, i)) ==> last_segment(text, sep) == text,
    decreases text.len(),
{
    if exists|i: int| first_occurs_at(text, sep, i) {
        let i: int = choose|i: int| first_occurs_at(text, sep, i);
        let rest = text.skip(i + sep.len());
        last_segment_is_separator_free_suffix(rest, sep);
        let last = last_segment(rest, sep);
        assert(last =~= text.subrange(text.len() - last.len(), text.len() as int)) by {
            assert(last =~= rest.subrange(rest.len() - last.len(), rest.len() as int));
        }
    } else {
        assert(text =~= text.subrange(0, text.len() as int));
        assert forall|k: int| !occurs_at(text, sep, k) by {
            if occurs_at(text, sep, k) {
                first_occurrence_exists(text, sep, k);
            }
        }
    }
}

/// The characters of a text, one by one.
fn chars_of(text: &str) -> (chars: Vec<char>)
    ensures
        chars@ == text@,
{
    let mut chars: Vec<char> = Vec::new();
    for c in it: text.chars()
        invariant
            chars@ == it.seq().take(it.index() as int),
            it.seq() == text@,
    {
        chars.push(c);
    }
    chars
}

/// The body of a request: what follows its last separator, the separators
/// found from the left and not overlapping; the whole request if it holds
/// none.
pub fn get_request_body(req: &str) -> (body: &str)
    ensures
        body@ == last_segment(req@, SEPARATOR@),
{
    let chars = chars_of(req);
    let n: usize = chars.len();
    let mut start: usize = 0;
    let mut i: usize = 0;
    proof {
        reveal_strlit("\r\n\r\n");
        assert(req@.skip(0) =~= req@);
    }
    while n - i >= 4
        invariant
            chars@ == req@,
            n == chars@.len(),
            start <= i <= n,
            SEPARATOR@.len() == 4,
            SEPARATOR@ =~= seq!['\r', '\n', '\r', '\n'],
            last_segment(req@, SEPARATOR@) == last_segment(req@.skip(start as int), SEPARATOR@),
            forall|j: int| 0 <= j < i - start ==> !occurs_at(req@.skip(start as int), SEPARATOR@, j),
        decreases n - i,
    {
        let ghost rest = req@.skip(start as int);
        if chars[i] == '\r' && chars[i + 1] == '\n' && chars[i + 2] == '\r' && chars[i + 3]
            == '\n' {
            proof {
                let at: int = i - start;
                assert(rest.subrange(at, at + 4) =~= SEPARATOR@);
                assert(first_occurs_at(rest, SEPARATOR@, at));
                let chosen: int = choose|k: int| first_occurs_at(rest, SEPARATOR@, k);
                assert(chosen == at);
                assert(rest.skip(at + 4) =~= req@.skip(i + 4));
            }
            i += 4;
            start = i;
        } else {
            proof {
                let at: int = i - start;
                if occurs_at(rest, SEPARATOR@, at) {
                    assert(rest.subrange(at, at + 4) == SEPARATOR@);
                    assert(rest.subrange(at, at + 4)[0] == rest[at]);
                    assert(rest.subrange(at, at + 4)[1] == rest[at + 1]);
                    assert(rest.subrange(at, at + 4)[2] == rest[at + 2]);
                    assert(rest.subrange(at, at + 4)[3] == rest[at + 3]);
                }
            }
            i += 1;
        }
    }
    proof {
        let rest = req@.skip(start as int);
        assert forall|k: int| !first_occurs_at(rest, SEPARATOR@, k) by {
            if occurs_at(rest, SEPARATOR@, k) {
                assert(k < i - start);
            }
        }
    }
    req.substring_char(start, n)
}

} // verus!
