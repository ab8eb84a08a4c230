//! The request line that selects a page, and the response that carries it.

use vstd::prelude::*;
use vstd::string::*;
use crate::text::{decimal, push_decimal};

verus! {

/// The bytes that open a request for `target`: the target itself, a space,
/// and the protocol version.
pub open spec fn request_start(target: Seq<u8>) -> Seq<u8> {
    target + " HTTP/1.1".spec_bytes()
}

/// Whether `buffer` opens with a request for `target`.
pub open spec fn is_request_for(buffer: Seq<u8>, target: &str) -> bool {
    request_start(target.spec_bytes()).is_prefix_of(buffer)
}

/// Whether `pattern` stands in `buffer` at `offset`.
pub open spec fn occurs_at(buffer: Seq<u8>, offset: int, pattern: Seq<u8>) -> bool {
    &&& 0 <= offset
    &&& offset + pattern.len() <= buffer.len()
    &&& buffer.subrange(offset, offset + pattern.len()) == pattern
}

fn matches_at(buffer: &[u8], offset: usize, pattern: &[u8]) -> (found: bool)
    ensures
        found == occurs_at(buffer@, offset as int, pattern@),
{
    if offset > buffer.len() || pattern.len() > buffer.len() - offset {
        return false;
    }
    let mut i: usize = 0;
    while i < pattern.len()
        invariant
            i <= pattern.len(),
            offset + pattern.len() <= buffer.len(),
            forall|k: int| 0 <= k < i ==> buffer@[offset + k] == pattern@[k],
        decreases pattern.len() - i,
    {
        if buffer[offset + i] != pattern[i] {
            proof {
                let window = buffer@.subrange(offset as int, offset + pattern.len());
                assert(window[i as int] == buffer@[offset + i]);
            }
            return false;
        }
        i += 1;
    }
    assert(buffer@.subrange(offset as int, offset + pattern.len()) =~= pattern@);
    true
}

/// Whether `buffer` starts with `method`, one space and `HTTP/1.1`.
pub fn starts_with(buffer: &[u8], method: &str) -> (found: bool)
    ensures
        found == is_request_for(buffer@, method),
{
    let head = method.as_bytes();
    let tail = " HTTP/1.1".as_bytes();
    let found = matches_at(buffer, 0, head) && matches_at(buffer, head.len(), tail);
    proof {
        let start = request_start(method.spec_bytes());
        assert(start.len() == head@.len() + tail@.len());
        if found {
            assert(start =~= buffer@.subrange(0, start.len() as int));
        }
        if start.is_prefix_of(buffer@) {
            let window = buffer@.subrange(0, start.len() as int);
            assert forall|k: int| 0 <= k < head@.len() implies buffer@[k] == head@[k] by {
                assert(window[k] == start[k]);
            }
            assert forall|k: int| 0 <= k < tail@.len() implies buffer@[head@.len() + k]
                == tail@[k] by {
                assert(window[head@.len() + k] == start[head@.len() + k]);
            }
            assert(buffer@.subrange(0, head@.len() as int) =~= head@);
            assert(buffer@.subrange(head@.len() as int, (head@.len() + tail@.len()) as int)
                =~= tail@);
        }
    }
    found
}

/// The page that a request is answered with.
#[derive(Clone, Copy, Debug, PartialEq, Eq, Structural)]
pub enum Route {
    /// The greeting page.
    Hello,
    /// The greeting page, after a pause.
    Sleep,
    /// The site icon.
    Favicon,
    /// Anything else.
    NotFound,
}

/// The page that the request in `buffer` selects. The first of the known
/// targets that the buffer opens with decides.
pub open spec fn route_of(buffer: Seq<u8>) -> Route {
    if is_request_for(buffer, "GET /") {
        Route::Hello
    } else if is_request_for(buffer, "GET /sleep") {
        Route::Sleep
    } else if is_request_for(buffer, "GET /favicon.ico") {
        Route::Favicon
    } else {
        Route::NotFound
    }
}

/// Selects the page for the request that `buffer` holds.
pub fn route(buffer: &[u8]) -> (r: Route)
    ensures
        r == route_of(buffer@),
{
    if starts_with(buffer, "GET /") {
        Route::Hello
    } else if starts_with(buffer, "GET /sleep") {
        Route::Sleep
    } else if starts_with(buffer, "GET /favicon.ico") {
        Route::Favicon
    } else {
        Route::NotFound
    }
}

impl Route {
    /// The status line of the response, as a sequence of characters.
    pub open spec fn status_text(self) -> Seq<char> {
        match self {
            Route::NotFound => "HTTP/1.1 404 NOT FOUND"@,
            _ => "HTTP/1.1 200 OK"@,
        }
    }

    /// The name of the file that holds the page.
    pub open spec fn file_text(self) -> Seq<char> {
        match self {
            Route::Hello => "hello.html"@,
            Route::Sleep => "hello.html"@,
            Route::Favicon => "rust-language-icon.svg"@,
            Route::NotFound => "404.html"@,
        }
    }

    /// The header line that names the content type, or nothing.
    pub open spec fn content_type_text(self) -> Seq<char> {
        match self {
            Route::Favicon => "Content-Type: image/svg+xml\r\n"@,
            _ => ""@,
        }
    }

    /// The seconds to pause before answering.
    pub open spec fn delay(self) -> nat {
        match self {
            Route::Sleep => 5,
            _ => 0,
        }
    }

    pub fn status_line(self) -> (s: &'static str)
        ensures
            s@ == self.status_text(),
    {
        match self {
            Route::NotFound => "HTTP/1.1 404 NOT FOUND",
            _ => "HTTP/1.1 200 OK",
        }
    }

    pub fn filename(self) -> (s: &'static str)
        ensures
            s@ == self.file_text(),
    {
        match self {
            Route::Hello => "hello.html",
            Route::Sleep => "hello.html",
            Route::Favicon => "rust-language-icon.svg",
            Route::NotFound => "404.html",
        }
    }

    pub fn content_type(self) -> (s: &'static str)
        ensures
            s@ == self.content_type_text(),
    {
        match self {
            Route::Favicon => "Content-Type: image/svg+xml\r\n",
            _ => "",
        }
    }

    pub fn delay_secs(self) -> (secs: u64)
        ensures
            secs == self.delay(),
    {
        match self {
            Route::Sleep => 5,
            _ => 0,
        }
    }

    /// The whole response for this page, given what its file holds.
    pub fn respond(self, contents: &str) -> (out: String)
        ensures
            out@ == response_text(
                self.status_text(),
                self.content_type_text(),
                contents@,
                contents.spec_bytes().len(),
            ),
    {
        response(self.status_line(), self.content_type(), contents)
    }
}

/// A response: the status line, the length of the body in bytes, the optional
/// header lines, an empty line, and the body.
pub open spec fn response_text(
    status_line: Seq<char>,
    content_type: Seq<char>,
    contents: Seq<char>,
    length: nat,
) -> Seq<char> {
    status_line + "\r\nContent-Length: "@ + decimal(length) + "\r\n"@ + content_type + "\r\n"@
        + contents
}

/// Builds the response that carries `contents`.
pub fn response(status_line: &str, content_type: &str, contents: &str) -> (out: String)
    ensures
        out@ == response_text(
            status_line@,
            content_type@,
            contents@,
            contents.spec_bytes().len(),
        ),
{
    let mut out = String::from_str(status_line);
    out.append("\r\nContent-Length: ");
    push_decimal(&mut out, contents.as_bytes().len());
    out.append("\r\n");
    out.append(content_type);
    out.append("\r\n");
    out.append(contents);
    assert(out@ =~= response_text(
        status_line@,
        content_type@,
        contents@,
        contents.spec_bytes().len(),
    ));
    out
}

} // verus!
