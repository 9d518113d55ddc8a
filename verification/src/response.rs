//! The response: its status, the route it answers for, and its wire text.

use crate::decimal::{decimal, decimal_value, lemma_decimal_digits, lemma_decimal_value, to_decimal};
use vstd::prelude::*;
use vstd::string::*;
use vstd::utf8::encode_utf8;

verus! {

/// The state of a response.
#[derive(Clone, Copy, Debug, PartialEq, Eq, Structural)]
pub enum HttpResponseType {
    /// Nothing was looked up yet.
    Processing,
    /// The page was found.
    Found,
    /// The page was not found; a fallback body stands in for it.
    NotFound,
}

/// One response in the making: the route it answers for and its state.
pub struct HttpResponse {
    res_type: HttpResponseType,
    pub route: String,
}

/// What a response is to a contract: its state and the characters of its
/// route.
pub struct ResponseView {
    pub status: HttpResponseType,
    pub route: Seq<char>,
}

impl View for HttpResponse {
    type V = ResponseView;

    closed spec fn view(&self) -> ResponseView {
        ResponseView { status: self.res_type, route: self.route@ }
    }
}

/// The status line that announces `status`, without its line ending.
pub open spec fn status_line(status: HttpResponseType) -> Seq<char> {
    match status {
        HttpResponseType::Found => "HTTP/1.1 200 OK"@,
        HttpResponseType::NotFound => "HTTP/1.1 404 Not Found"@,
        HttpResponseType::Processing => "HTTP/1.1 500 Internal Server Error"@,
    }
}

/// The lines of the header block, in order, for a body of `length` bytes.
pub open spec fn header_lines(status: HttpResponseType, length: nat) -> Seq<Seq<char>> {
    seq![
        status_line(status),
        "Content-Length: "@ + decimal(length),
        "Content-Type: text/html; charset=utf-8"@,
        "Connection: close"@,
    ]
}

/// The lines in order, each followed by a carriage return and a line feed.
pub open spec fn terminated(lines: Seq<Seq<char>>) -> Seq<char>
    decreases lines.len(),
{
    if lines.len() == 0 {
        Seq::empty()
    } else {
        terminated(lines.drop_last()) + lines.last() + seq!['\r', '\n']
    }
}

/// The header block for a body of `length` bytes: its lines, then the empty
/// line that ends it.
pub open spec fn head_text(status: HttpResponseType, length: nat) -> Seq<char> {
    terminated(header_lines(status, length)) + seq!['\r', '\n']
}

/// The whole response: the header block, which announces the number of bytes
/// that `body` takes in UTF-8, then `body` as it is.
pub open spec fn response_text(status: HttpResponseType, body: Seq<char>) -> Seq<char> {
    head_text(status, encode_utf8(body).len()) + body
}

/// The body that is sent where neither the page nor the fallback page could
/// be had.
pub open spec fn last_resort() -> Seq<char> {
    "Error: not found"@
}

/// The header block is its four lines and the closing empty line, one after
/// the other.
pub proof fn lemma_head_text(status: HttpResponseType, length: nat)
    ensures
        head_text(status, length) == status_line(status) + seq!['\r', '\n'] + (
        "Content-Length: "@ + decimal(length)) + seq!['\r', '\n']
            + "Content-Type: text/html; charset=utf-8"@ + seq!['\r', '\n'] + "Connection: close"@
            + seq!['\r', '\n'] + seq!['\r', '\n'],
{
    let l4 = header_lines(status, length);
    let l3 = l4.drop_last();
    let l2 = l3.drop_last();
    let l1 = l2.drop_last();
    let l0 = l1.drop_last();
    assert(l0.len() == 0);
    assert(terminated(l0) =~= Seq::<char>::empty());
    assert(terminated(l1) =~= l4[0] + seq!['\r', '\n']);
    assert(terminated(l2) =~= terminated(l1) + l4[1] + seq!['\r', '\n']);
    assert(terminated(l3) =~= terminated(l2) + l4[2] + seq!['\r', '\n']);
    assert(terminated(l4) =~= terminated(l3) + l4[3] + seq!['\r', '\n']);
}

/// The status line as a string.
fn status_line_str(status: HttpResponseType) -> (s: &'static str)
    ensures
        s@ == status_line(status),
{
    match status {
        HttpResponseType::Found => "HTTP/1.1 200 OK",
        HttpResponseType::NotFound => "HTTP/1.1 404 Not Found",
        HttpResponseType::Processing => "HTTP/1.1 500 Internal Server Error",
    }
}

/// Frames `body` as a response with the given status.
pub fn render(status: HttpResponseType, body: &str) -> (out: String)
    ensures
        out@ == response_text(status, body@),
{
    proof {
        reveal_strlit("\r\n");
        lemma_head_text(status, encode_utf8(body@).len());
    }
    let length = to_decimal(body.as_bytes().len());
    let mut out = String::from_str(status_line_str(status));
    out.append("\r\n");
    out.append("Content-Length: ");
    out.append(length.as_str());
    out.append("\r\n");
    out.append("Content-Type: text/html; charset=utf-8");
    out.append("\r\n");
    out.append("Connection: close");
    out.append("\r\n");
    out.append("\r\n");
    out.append(body);
    assert("\r\n"@ =~= seq!['\r', '\n']);
    assert(out@ =~= response_text(status, body@));
    out
}

impl HttpResponse {
    /// A response for `route`, with nothing looked up yet.
    pub fn from(route: String) -> (res: Self)
        ensures
            res@ == (ResponseView { status: HttpResponseType::Processing, route: route@ }),
    {
        Self { res_type: HttpResponseType::Processing, route }
    }

    /// The state of the response.
    pub fn status(&self) -> (status: HttpResponseType)
        ensures
            status == self@.status,
    {
        self.res_type
    }

    /// Settles the response from what the lookups gave and returns the text
    /// to send. `page` is the content found at the route, `fallback` that of
    /// the fallback page; either is `None` where the lookup failed. With the
    /// page the state becomes `Found` and the page is the body. Without it
    /// the state becomes `NotFound` and the body is the fallback page, or
    /// the last resort where that is missing too.
    pub fn assemble(&mut self, page: Option<String>, fallback: Option<String>) -> (out: String)
        ensures
            final(self)@.route == old(self)@.route,
            page matches Some(found) ==> final(self)@.status == HttpResponseType::Found && out@
                == response_text(HttpResponseType::Found, found@),
            page is None ==> final(self)@.status == HttpResponseType::NotFound,
            fallback matches Some(instead) ==> page is None ==> out@ == response_text(
                HttpResponseType::NotFound,
                instead@,
            ),
            page is None && fallback is None ==> out@ == response_text(
                HttpResponseType::NotFound,
                last_resort(),
            ),
    {
        match page {
            Some(body) => {
                self.res_type = HttpResponseType::Found;
                render(HttpResponseType::Found, body.as_str())
            },
            None => {
                self.res_type = HttpResponseType::NotFound;
                match fallback {
                    Some(body) => render(HttpResponseType::NotFound, body.as_str()),
                    None => render(HttpResponseType::NotFound, "Error: not found"),
                }
            },
        }
    }
}

/// Whether `s` holds a carriage return or a line feed.
pub open spec fn has_line_break(s: Seq<char>) -> bool {
    exists|j: int| 0 <= j < s.len() && (#[trigger] s[j] == '\r' || s[j] == '\n')
}

/// Whether `s` begins with `prefix`.
pub open spec fn starts_with(s: Seq<char>, prefix: Seq<char>) -> bool {
    prefix.len() <= s.len() && s.take(prefix.len() as int) == prefix
}

/// The header block holds four lines; none of them is empty and none holds
/// a line break.
pub proof fn lemma_header_lines_are_lines(status: HttpResponseType, length: nat)
    ensures
        header_lines(status, length).len() == 4,
        forall|i: int|
            0 <= i < 4 ==> (#[trigger] header_lines(status, length)[i]).len() > 0
                && !has_line_break(header_lines(status, length)[i]),
{
    reveal_strlit("HTTP/1.1 200 OK");
    reveal_strlit("HTTP/1.1 404 Not Found");
    reveal_strlit("HTTP/1.1 500 Internal Server Error");
    reveal_strlit("Content-Length: ");
    reveal_strlit("Content-Type: text/html; charset=utf-8");
    reveal_strlit("Connection: close");
    lemma_decimal_digits(length);
    let lines = header_lines(status, length);
    let name = "Content-Length: "@;
    assert forall|j: int| 0 <= j < lines[1].len() implies !(#[trigger] lines[1][j] == '\r'
        || lines[1][j] == '\n') by {
        if j >= name.len() {
            assert(lines[1][j] == decimal(length)[j - name.len()]);
        }
    }
}

/// Whether an empty line ends at `at + 4` in `text`: the four characters
/// from `at` on are two line endings in a row.
pub open spec fn blank_line_at(text: Seq<char>, at: int) -> bool {
    0 <= at && at + 4 <= text.len() && text.subrange(at, at + 4) == seq!['\r', '\n', '\r', '\n']
}

/// The first empty line of a response is the one that ends its header
/// block, whatever the body holds, and the body is all that follows it.
pub proof fn lemma_body_follows_first_blank_line(status: HttpResponseType, body: Seq<char>)
    ensures
        ({
            let text = response_text(status, body);
            let at = head_text(status, encode_utf8(body).len()).len() - 4;
            &&& blank_line_at(text, at)
            &&& forall|i: int| 0 <= i < at ==> !#[trigger] blank_line_at(text, i)
            &&& text.skip(at + 4) == body
        }),
{
    let length = encode_utf8(body).len();
    let text = response_text(status, body);
    let head = head_text(status, length);
    let lines = header_lines(status, length);
    let at = head.len() - 4;
    let end0 = lines[0].len() as int;
    let end1 = end0 + 2 + lines[1].len();
    let end2 = end1 + 2 + lines[2].len();
    lemma_head_text(status, length);
    lemma_header_lines_are_lines(status, length);
    assert(at == end2 + 2 + lines[3].len());
    assert(text.subrange(at, at + 4) =~= seq!['\r', '\n', '\r', '\n']);
    assert(text.skip(at + 4) =~= body);
    assert forall|j: int| 0 <= j < at && text[j] == '\r' implies j == end0 || j == end1 || j
        == end2 by {
        if j < end0 {
            assert(text[j] == lines[0][j]);
        } else if end0 + 2 <= j < end1 {
            assert(text[j] == lines[1][j - end0 - 2]);
        } else if end1 + 2 <= j < end2 {
            assert(text[j] == lines[2][j - end1 - 2]);
        } else if end2 + 2 <= j {
            assert(text[j] == lines[3][j - end2 - 2]);
        }
    }
    assert forall|i: int| 0 <= i < at implies !#[trigger] blank_line_at(text, i) by {
        if blank_line_at(text, i) {
            let found = text.subrange(i, i + 4);
            assert(found[0] == text[i] && found[2] == text[i + 2]);
            if i == end0 {
                assert(text[i + 2] == lines[1][0]);
            } else if i == end1 {
                assert(text[i + 2] == lines[2][0]);
            } else {
                assert(text[i + 2] == lines[3][0]);
            }
        }
    }
}

/// Exactly one header line names `Connection`: the last one, which asks for
/// the connection to be closed.
pub proof fn lemma_connection_close_once(status: HttpResponseType, length: nat)
    ensures
        header_lines(status, length)[3] == "Connection: close"@,
        forall|i: int|
            0 <= i < 4 ==> (starts_with(
                #[trigger] header_lines(status, length)[i],
                "Connection:"@,
            ) <==> i == 3),
{
    reveal_strlit("HTTP/1.1 200 OK");
    reveal_strlit("HTTP/1.1 404 Not Found");
    reveal_strlit("HTTP/1.1 500 Internal Server Error");
    reveal_strlit("Content-Length: ");
    reveal_strlit("Content-Type: text/html; charset=utf-8");
    reveal_strlit("Connection: close");
    reveal_strlit("Connection:");
    let lines = header_lines(status, length);
    let name = "Connection:"@;
    assert(lines[3].take(name.len() as int) =~= name);
    assert forall|i: int| 0 <= i < 3 implies !starts_with(#[trigger] lines[i], name) by {
        if name.len() <= lines[i].len() {
            let k = if i == 0 {
                0int
            } else {
                3int
            };
            assert(lines[i].take(name.len() as int)[k] == lines[i][k]);
            assert(lines[i][k] != name[k]);
        }
    }
}

/// Encoding as UTF-8 goes character by character: the bytes of two texts
/// in a row are the bytes of the first, then those of the second.
pub proof fn lemma_encode_concat(a: Seq<char>, b: Seq<char>)
    ensures
        encode_utf8(a + b) == encode_utf8(a) + encode_utf8(b),
    decreases a.len(),
{
    if a.len() == 0 {
        assert(a + b =~= b);
        assert(encode_utf8(a) + encode_utf8(b) =~= encode_utf8(b));
    } else {
        lemma_encode_concat(a.drop_first(), b);
        assert((a + b).drop_first() =~= a.drop_first() + b);
        assert(encode_utf8(a + b) =~= encode_utf8(a) + encode_utf8(b));
    }
}

/// The announced length is the number of bytes that follow the header
/// block. On the wire a response is the bytes of its header block, then
/// those of the body and nothing more; and the digits of the
/// `Content-Length` line denote the number of the body's bytes.
pub proof fn lemma_content_length_counts_body_bytes(status: HttpResponseType, body: Seq<char>)
    ensures
        ({
            let length = encode_utf8(body).len();
            let head = encode_utf8(head_text(status, length));
            let wire = encode_utf8(response_text(status, body));
            &&& wire == head + encode_utf8(body)
            &&& wire.len() == head.len() + length
            &&& header_lines(status, length)[1] == "Content-Length: "@ + decimal(length)
            &&& decimal_value(decimal(length)) == length
        }),
{
    let length = encode_utf8(body).len();
    lemma_encode_concat(head_text(status, length), body);
    lemma_decimal_value(length);
}

} // verus!
