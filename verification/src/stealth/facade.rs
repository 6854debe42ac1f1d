use vstd::prelude::*;
use vstd::string::*;
use vstd::utf8::encode_utf8;
use crate::text::{
    chars_of, decimal, push_all, push_decimal, push_str, string_from_chars, trim, trim_chars, utf8_bytes,
};

verus! {

/// What a probe that is not a client gets back: an ordinary web page.
#[derive(Debug, Clone)]
pub struct FacadeResponse {
    pub status_code: u16,
    pub content_type: String,
    pub body: String,
    /// Header names and values, each name once, in the order they were set.
    pub headers: Vec<(String, String)>,
}

/// Answers probes as a plain web server of the given name would.
#[derive(Debug, Clone)]
pub struct FacadeResponder {
    server_name: String,
}

/// The path a probe page names: the path itself, or `/` where it is blank.
pub open spec fn normalized_probe_path(path: Seq<char>) -> Seq<char> {
    if trim(path).len() == 0 {
        "/"@
    } else {
        path
    }
}

/// The page served for a probe of the path.
pub open spec fn probe_page(path: Seq<char>) -> Seq<char> {
    "<html><body><h1>Welcome</h1><p>Resource "@ + normalized_probe_path(path) + "</p></body></html>"@
}

impl FacadeResponder {
    /// The name the responder gives in its `Server` header.
    pub closed spec fn spec_server_name(&self) -> Seq<char> {
        self.server_name@
    }

    pub fn new(server_name: String) -> (r: Self)
        ensures
            r.spec_server_name() == server_name@,
    {
        FacadeResponder { server_name }
    }

    /// The page, status and headers served for a probe of `path`.
    pub fn respond_for_probe(&self, path: &str) -> (r: FacadeResponse)
        ensures
            r.status_code == 200,
            r.content_type@ == "text/html; charset=utf-8"@,
            r.body@ == probe_page(path@),
            r.headers@.len() == 2,
            r.headers@[0].0@ == "Server"@,
            r.headers@[0].1@ == self.spec_server_name(),
            r.headers@[1].0@ == "Cache-Control"@,
            r.headers@[1].1@ == "no-store"@,
    {
        let chars = chars_of(path);
        let trimmed = trim_chars(&chars);
        let mut body: Vec<char> = Vec::new();
        push_str(&mut body, "<html><body><h1>Welcome</h1><p>Resource ");
        if trimmed.len() == 0 {
            push_str(&mut body, "/");
        } else {
            push_all(&mut body, &chars);
        }
        push_str(&mut body, "</p></body></html>");
        let mut headers: Vec<(String, String)> = Vec::new();
        let server = string_from_chars(&chars_of(self.server_name.as_str()));
        headers.push((String::from_str("Server"), server));
        headers.push((String::from_str("Cache-Control"), String::from_str("no-store")));
        FacadeResponse {
            status_code: 200,
            content_type: String::from_str("text/html; charset=utf-8"),
            body: string_from_chars(&body),
            headers,
        }
    }
}

/// Header lines, each `name: value` and a line break.
pub open spec fn header_lines(hs: Seq<(Seq<char>, Seq<char>)>) -> Seq<char>
    decreases hs.len(),
{
    if hs.len() == 0 {
        Seq::empty()
    } else {
        header_lines(hs.drop_last()) + hs.last().0 + ": "@ + hs.last().1 + "\r\n"@
    }
}

pub open spec fn headers_view(hs: Seq<(String, String)>) -> Seq<(Seq<char>, Seq<char>)> {
    hs.map_values(|h: (String, String)| (h.0@, h.1@))
}

/// The HTTP/1.1 text of a response: status line, content type and length, the headers, a
/// blank line and the body.
pub open spec fn http_text(r: FacadeResponse) -> Seq<char> {
    "HTTP/1.1 "@ + decimal(r.status_code as nat) + " OK\r\nContent-Type: "@ + r.content_type@
        + "\r\nContent-Length: "@ + decimal(encode_utf8(r.body@).len()) + "\r\n"@ + header_lines(
        headers_view(r.headers@),
    ) + "\r\n"@ + r.body@
}

/// The HTTP/1.1 text of the page served for a probe of `path` by a server of the given name.
pub open spec fn probe_http_text(server_name: Seq<char>, path: Seq<char>) -> Seq<char> {
    "HTTP/1.1 "@ + decimal(200) + " OK\r\nContent-Type: "@ + "text/html; charset=utf-8"@
        + "\r\nContent-Length: "@ + decimal(encode_utf8(probe_page(path)).len()) + "\r\n"@
        + header_lines(seq![("Server"@, server_name), ("Cache-Control"@, "no-store"@)]) + "\r\n"@
        + probe_page(path)
}

/// The bytes of the probe page are those of its HTTP text.
pub proof fn lemma_probe_http_text(r: FacadeResponse, server_name: Seq<char>, path: Seq<char>)
    requires
        r.status_code == 200,
        r.content_type@ == "text/html; charset=utf-8"@,
        r.body@ == probe_page(path),
        r.headers@.len() == 2,
        r.headers@[0].0@ == "Server"@,
        r.headers@[0].1@ == server_name,
        r.headers@[1].0@ == "Cache-Control"@,
        r.headers@[1].1@ == "no-store"@,
    ensures
        http_text(r) == probe_http_text(server_name, path),
{
    assert(headers_view(r.headers@) =~= seq![("Server"@, server_name), ("Cache-Control"@, "no-store"@)]);
}

impl FacadeResponse {
    /// The response as HTTP/1.1 bytes.
    pub fn to_http_bytes(&self) -> (r: Vec<u8>)
        ensures
            r@ == encode_utf8(http_text(*self)),
    {
        let body = chars_of(self.body.as_str());
        let body_len = utf8_bytes(&body).len();
        let mut text: Vec<char> = Vec::new();
        push_str(&mut text, "HTTP/1.1 ");
        push_decimal(&mut text, self.status_code as u64);
        push_str(&mut text, " OK\r\nContent-Type: ");
        push_str(&mut text, self.content_type.as_str());
        push_str(&mut text, "\r\nContent-Length: ");
        push_decimal(&mut text, body_len as u64);
        push_str(&mut text, "\r\n");
        let ghost start = text@;
        let ghost hs = headers_view(self.headers@);
        let mut i: usize = 0;
        while i < self.headers.len()
            invariant
                i <= self.headers@.len(),
                hs == headers_view(self.headers@),
                text@ == start + header_lines(hs.take(i as int)),
            decreases self.headers@.len() - i,
        {
            let h = &self.headers[i];
            push_str(&mut text, h.0.as_str());
            push_str(&mut text, ": ");
            push_str(&mut text, h.1.as_str());
            push_str(&mut text, "\r\n");
            proof {
                assert(hs.take(i + 1).drop_last() =~= hs.take(i as int));
                assert(text@ =~= start + header_lines(hs.take(i + 1)));
            }
            i = i + 1;
        }
        proof {
            assert(hs.take(hs.len() as int) =~= hs);
        }
        push_str(&mut text, "\r\n");
        push_all(&mut text, &body);
        proof {
            assert(text@ =~= http_text(*self));
        }
        utf8_bytes(&text)
    }
}

} // verus!
