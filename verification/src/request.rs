//! The request: from the bytes that were read to the route that is served.
//!
//! Only the request line counts: its first word is the method, its second
//! the target. Whatever follows the first line is left unread.

use crate::response::{HttpResponse, HttpResponseType, ResponseView};
use crate::text::{first_line, first_line_chars, lemma_span_bounds, next_word, word, CharClass};
use vstd::prelude::*;
use vstd::string::*;
use vstd::utf8::{decode_utf8, valid_utf8};

verus! {

/// The number of bytes that make up one request as it is read.
pub const REQUEST_SIZE: usize = 1024;

/// What is to be done about a request.
pub enum Dispatch {
    /// The request line holds no word: nothing is sent.
    Silent,
    /// A method other than `GET` came without a target: there is no route
    /// to answer for.
    MissingTarget,
    /// A response is owed; it holds the route to look up.
    Respond(HttpResponse),
}

/// What a `Dispatch` is to a contract.
pub enum DispatchView {
    /// Nothing is sent.
    Silent,
    /// There is no route to answer for.
    MissingTarget,
    /// A response is owed, as the view says.
    Respond(ResponseView),
}

impl View for Dispatch {
    type V = DispatchView;

    open spec fn view(&self) -> DispatchView {
        match self {
            Dispatch::Silent => DispatchView::Silent,
            Dispatch::MissingTarget => DispatchView::MissingTarget,
            Dispatch::Respond(res) => DispatchView::Respond(res@),
        }
    }
}

/// The directory that every route lies under, with its separator.
pub open spec fn document_root() -> Seq<char> {
    "www/"@
}

/// `target` without one leading slash, if it has one.
pub open spec fn strip_slash(target: Seq<char>) -> Seq<char> {
    if target.len() > 0 && target[0] == '/' {
        target.skip(1)
    } else {
        target
    }
}

/// The route of a `GET` request. An empty `target` stands for a request
/// line without one: it asks for the fallback page. A target that is empty
/// once its leading slash is gone asks for the index page.
pub open spec fn get_route(target: Seq<char>) -> Seq<char> {
    let asked = if target.len() == 0 {
        "404.html"@
    } else {
        target
    };
    let path = strip_slash(asked);
    document_root() + if path.len() == 0 {
        "index.html"@
    } else {
        path
    }
}

/// The route of a request with another method, for its target.
pub open spec fn plain_route(target: Seq<char>) -> Seq<char> {
    document_root() + strip_slash(target)
}

/// A response that is owed for `route`, with nothing looked up yet.
pub open spec fn owed(route: Seq<char>) -> DispatchView {
    DispatchView::Respond(ResponseView { status: HttpResponseType::Processing, route })
}

/// What is to be done about a request line, by its first two words.
pub open spec fn dispatch_line(line: Seq<char>) -> DispatchView {
    let method = word(line, 0);
    let target = word(line, 1);
    if method.len() == 0 {
        DispatchView::Silent
    } else if method == "GET"@ {
        owed(get_route(target))
    } else if target.len() == 0 {
        DispatchView::MissingTarget
    } else {
        owed(plain_route(target))
    }
}

/// The text that `bytes` decode to as UTF-8, each invalid sequence in them
/// replaced by U+FFFD.
pub uninterp spec fn lossy_text(bytes: Seq<u8>) -> Seq<char>;

/// Decodes with `String::from_utf8_lossy` and names what it returns. The
/// one thing claimed of that text: where the bytes are valid UTF-8 it is
/// what they decode to.
#[verifier::external_body]
fn decode_lossy(bytes: &[u8]) -> (text: String)
    ensures
        text@ == lossy_text(bytes@),
        valid_utf8(bytes@) ==> text@ == decode_utf8(bytes@),
{
    String::from_utf8_lossy(bytes).into_owned()
}

/// Whether the three characters from `at` on spell `GET`.
fn spells_get(line: &Vec<char>, at: usize, end: usize) -> (b: bool)
    requires
        at <= end <= line.len(),
    ensures
        b == (line@.subrange(at as int, end as int) == "GET"@),
{
    proof {
        reveal_strlit("GET");
    }
    let b = end - at == 3 && line[at] == 'G' && line[at + 1] == 'E' && line[at + 2] == 'T';
    proof {
        let got = line@.subrange(at as int, end as int);
        assert(got.len() == end - at);
        assert("GET"@.len() == 3);
        if b {
            assert(got =~= "GET"@);
        } else if end - at == 3 {
            assert(got[0] == line@[at as int]);
            assert(got[1] == line@[at + 1]);
            assert(got[2] == line@[at + 2]);
            assert("GET"@[0] == 'G' && "GET"@[1] == 'E' && "GET"@[2] == 'T');
        }
    }
    b
}

/// Decides what is to be done about a request, given as text.
pub fn dispatch_text(text: &str) -> (d: Dispatch)
    ensures
        d@ == dispatch_line(first_line(text@)),
{
    let line = first_line_chars(text);
    let (method_at, method_end) = next_word(&line, 0);
    let (target_at, target_end) = next_word(&line, method_end);
    proof {
        reveal_strlit("www/");
        reveal_strlit("404.html");
        reveal_strlit("index.html");
        reveal_with_fuel(word, 2);
        assert(line@.skip(0) =~= line@);
    }
    if method_at == method_end {
        return Dispatch::Silent;
    }
    let get = spells_get(&line, method_at, method_end);
    if !get && target_at == target_end {
        return Dispatch::MissingTarget;
    }
    let path_at = if target_at < target_end && line[target_at] == '/' {
        target_at + 1
    } else {
        target_at
    };
    proof {
        lemma_span_bounds(text@, CharClass::Line);
    }
    let path = text.substring_char(path_at, target_end);
    proof {
        let target = line@.subrange(target_at as int, target_end as int);
        assert(path@ =~= line@.subrange(path_at as int, target_end as int));
        assert(path@ =~= strip_slash(target));
    }
    let mut route = String::from_str("www/");
    if !get || path_at < target_end {
        route.append(path);
    } else if target_at == target_end {
        route.append("404.html");
        assert(strip_slash("404.html"@) =~= "404.html"@);
    } else {
        route.append("index.html");
    }
    Dispatch::Respond(HttpResponse::from(route))
}

/// Decides what is to be done about a request, given as the bytes that
/// were read: they are decoded, and the first line of the text decides.
pub fn dispatch(request: &[u8]) -> (d: Dispatch)
    ensures
        d@ == dispatch_line(first_line(lossy_text(request@))),
        valid_utf8(request@) ==> d@ == dispatch_line(first_line(decode_utf8(request@))),
{
    let text = decode_lossy(request);
    dispatch_text(text.as_str())
}

/// A `GET` request for `/` is served the index page, as one for
/// `index.html` is.
pub proof fn lemma_root_serves_index(root: Seq<char>, index: Seq<char>)
    requires
        word(root, 0) == "GET"@,
        word(root, 1) == "/"@,
        word(index, 0) == "GET"@,
        word(index, 1) == "index.html"@,
    ensures
        dispatch_line(root) == owed("www/index.html"@),
        dispatch_line(root) == dispatch_line(index),
{
    reveal_strlit("GET");
    reveal_strlit("/");
    reveal_strlit("www/");
    reveal_strlit("index.html");
    reveal_strlit("www/index.html");
    assert(strip_slash("/"@) =~= Seq::<char>::empty());
    assert(get_route("/"@) =~= "www/index.html"@);
    assert(get_route("index.html"@) =~= "www/index.html"@);
}

/// One leading slash makes no difference: two request lines with the same
/// method, whose targets differ by one slash in front, ask for the same
/// thing. The shorter target is there and does not itself begin with a
/// slash: of two slashes in front only one is taken off.
pub proof fn lemma_leading_slash(with: Seq<char>, without: Seq<char>)
    requires
        word(with, 0) == word(without, 0),
        word(with, 1) == seq!['/'] + word(without, 1),
        word(without, 1).len() > 0,
        word(without, 1)[0] != '/',
    ensures
        dispatch_line(with) == dispatch_line(without),
{
    assert(strip_slash(word(with, 1)) =~= word(without, 1));
}

} // verus!
