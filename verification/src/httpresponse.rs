//! HTTP/1.1 responses: construction, inspection and the wire format.

use crate::decimal::{
    decimal, decimal_value, lemma_decimal_is_digits, lemma_decimal_value_of_decimal, push_decimal,
};
use crate::headers::{header_lines, Headers};
use crate::text::{lemma_encode_utf8_concat, str_eq, utf8_len};
use vstd::prelude::*;
use vstd::std_specs::cmp::PartialEqSpecImpl;
use vstd::std_specs::convert::FromSpecImpl;
use vstd::string::StringExecFns;
use vstd::utf8::encode_utf8;

verus! {

/// The protocol version of every response that this library builds.
pub const HTTP_VERSION: &'static str = "HTTP/1.1";

/// The reason phrase that the table gives for a status code. Only `200` has
/// a phrase of its own; `404` and every code that the table does not know
/// get `NOT FOUND`.
pub open spec fn reason_phrase(status_code: Seq<char>) -> Seq<char> {
    if status_code == "200"@ {
        "OK"@
    } else if status_code == "404"@ {
        "NOT FOUND"@
    } else {
        "NOT FOUND"@
    }
}

/// The entries of the header map that a response gets when its builder is
/// given none.
pub open spec fn default_header_entries() -> Seq<(Seq<char>, Seq<char>)> {
    seq![("Content-Type"@, "text/html"@)]
}

/// The header map that a response gets when its builder is given none.
pub open spec fn default_headers() -> Map<Seq<char>, Seq<char>> {
    Map::<Seq<char>, Seq<char>>::empty().insert("Content-Type"@, "text/html"@)
}

/// What a response says, apart from how it is stored.
pub struct ResponseView {
    pub version: Seq<char>,
    pub status_code: Seq<char>,
    pub status_text: Seq<char>,
    pub headers: Option<Map<Seq<char>, Seq<char>>>,
    pub body: Option<Seq<char>>,
}

impl ResponseView {
    /// The version is `HTTP/1.1` and the reason phrase is the one that the
    /// table gives for the status code.
    pub open spec fn wf(self) -> bool {
        &&& self.version == HTTP_VERSION@
        &&& self.status_text == reason_phrase(self.status_code)
    }

    /// The body as text; an absent body is the empty text.
    pub open spec fn body_text(self) -> Seq<char> {
        match self.body {
            Some(body) => body,
            None => Seq::empty(),
        }
    }

    /// The first line of the message: version, status code and reason
    /// phrase, one space between them, and a line break.
    pub open spec fn status_line(self) -> Seq<char> {
        self.version + " "@ + self.status_code + " "@ + self.status_text + "\r\n"@
    }

    /// The `Content-Length` line: the number of bytes of the encoded body,
    /// as a decimal numeral.
    pub open spec fn content_length_line(self) -> Seq<char> {
        "Content-Length: "@ + decimal(utf8_len(self.body_text())) + "\r\n"@
    }

    /// The whole message: status line, `Content-Length` line, a blank line
    /// and the body. The stored headers are not part of it.
    pub open spec fn wire_text(self) -> Seq<char> {
        self.status_line() + self.content_length_line() + "\r\n"@ + self.body_text()
    }

    /// The message as the bytes that go to the peer.
    pub open spec fn wire_bytes(self) -> Seq<u8> {
        encode_utf8(self.wire_text())
    }
}

/// An HTTP response: protocol version, status code, reason phrase, headers
/// and body.
///
/// The fields are public, so a response can also be written down field by
/// field. One that comes from [`HttpResponse::new`] or from `default` is well
/// formed, see [`ResponseView::wf`]; rendering takes the fields as they are.
#[derive(Debug)]
pub struct HttpResponse<'a> {
    pub version: &'a str,
    pub status_code: &'a str,
    pub status_text: &'a str,
    pub headers: Option<Headers<'a>>,
    pub body: Option<&'a str>,
}

impl<'a> View for HttpResponse<'a> {
    type V = ResponseView;

    open spec fn view(&self) -> ResponseView {
        ResponseView {
            version: self.version@,
            status_code: self.status_code@,
            status_text: self.status_text@,
            headers: match self.headers {
                Some(headers) => Some(headers@),
                None => None,
            },
            body: match self.body {
                Some(body) => Some(body@),
                None => None,
            },
        }
    }
}

impl<'a> Default for HttpResponse<'a> {
    /// The response `200 OK` with no headers and no body.
    fn default() -> (response: Self)
        ensures
            response@ == (ResponseView {
                version: HTTP_VERSION@,
                status_code: "200"@,
                status_text: "OK"@,
                headers: None,
                body: None,
            }),
            response@.wf(),
    {
        HttpResponse {
            version: HTTP_VERSION,
            status_code: "200",
            status_text: "OK",
            headers: None,
            body: None,
        }
    }
}

impl<'a> HttpResponse<'a> {
    /// Builds a response. Any status code is taken as it is, and the reason
    /// phrase comes from the table. Headers that are given are stored as they
    /// are, in place of the default header; the body is stored as it is.
    pub fn new(
        status_code: &'a str,
        headers: Option<Headers<'a>>,
        body: Option<&'a str>,
    ) -> (response: HttpResponse<'a>)
        ensures
            response@.version == HTTP_VERSION@,
            response@.status_code == status_code@,
            response@.status_text == reason_phrase(status_code@),
            response@.wf(),
            response.body == body,
            match headers {
                Some(given) => response.headers == Some(given),
                None => response.headers is Some && response.headers.unwrap().entries()
                    == default_header_entries(),
            },
            response@.headers == Some(
                match headers {
                    Some(given) => given@,
                    None => default_headers(),
                },
            ),
    {
        let mut response: HttpResponse<'a> = HttpResponse::default();
        response.status_code = status_code;
        response.headers = match headers {
            Some(given) => Some(given),
            None => {
                let mut h = Headers::new();
                h.insert("Content-Type", "text/html");
                Some(h)
            },
        };
        response.status_text = if str_eq(response.status_code, "200") {
            "OK"
        } else if str_eq(response.status_code, "404") {
            "NOT FOUND"
        } else {
            "NOT FOUND"
        };
        response.body = body;
        response
    }

    /// The message as text.
    pub fn to_wire_text(&self) -> (text: String)
        ensures
            text@ == self@.wire_text(),
    {
        let body = self.body();
        let length = body.as_bytes().len();
        let mut text = String::from_str(self.version);
        text.append(" ");
        text.append(self.status_code);
        text.append(" ");
        text.append(self.status_text);
        text.append("\r\n");
        text.append("Content-Length: ");
        push_decimal(&mut text, length);
        text.append("\r\n");
        text.append("\r\n");
        text.append(body);
        text
    }

    /// Appends the message, as bytes, to `write_stream`. What the stream held
    /// before stays in front.
    pub fn send_response(&self, write_stream: &mut Vec<u8>)
        ensures
            final(write_stream)@ == old(write_stream)@ + self@.wire_bytes(),
    {
        let text = self.to_wire_text();
        write_stream.extend_from_slice(text.as_str().as_bytes());
    }

    /// The protocol version.
    pub fn version(&self) -> (version: &str)
        ensures
            version@ == self@.version,
    {
        self.version
    }

    /// The status code.
    pub fn status_code(&self) -> (status_code: &str)
        ensures
            status_code@ == self@.status_code,
    {
        self.status_code
    }

    /// The reason phrase.
    pub fn status_text(&self) -> (status_text: &str)
        ensures
            status_text@ == self@.status_text,
    {
        self.status_text
    }

    /// The stored headers as lines of the form `name:value`, in the order of
    /// the entries; the empty text where no header map is stored.
    pub fn headers(&self) -> (text: String)
        ensures
            text@ == match self.headers {
                Some(headers) => header_lines(headers.entries()),
                None => Seq::empty(),
            },
    {
        match &self.headers {
            Some(headers) => headers.lines(),
            None => String::new(),
        }
    }

    /// The body; the empty text where there is none.
    pub fn body(&self) -> (body: &str)
        ensures
            body@ == self@.body_text(),
    {
        proof {
            reveal_strlit("");
        }
        match &self.body {
            Some(b) => b,
            None => "",
        }
    }
}

impl<'a> From<HttpResponse<'a>> for String {
    /// The message as text.
    fn from(res: HttpResponse<'a>) -> (text: String)
        ensures
            text@ == res@.wire_text(),
    {
        res.to_wire_text()
    }
}

/// Ghost code can speak of a `String` only through its text, so there is no
/// value to name here: what `from` returns is stated by its own `ensures`.
impl<'a> FromSpecImpl<HttpResponse<'a>> for String {
    open spec fn obeys_from_spec() -> bool {
        false
    }

    open spec fn from_spec(res: HttpResponse<'a>) -> String {
        arbitrary()
    }
}

impl<'a> Clone for HttpResponse<'a> {
    /// A response that says the same, with the header entries in the same
    /// order.
    fn clone(&self) -> (copy: Self)
        ensures
            copy@ == self@,
            copy.body == self.body,
            match self.headers {
                Some(headers) => copy.headers is Some && copy.headers.unwrap().entries()
                    == headers.entries(),
                None => copy.headers is None,
            },
    {
        HttpResponse {
            version: self.version,
            status_code: self.status_code,
            status_text: self.status_text,
            headers: match &self.headers {
                Some(headers) => Some(headers.clone()),
                None => None,
            },
            body: self.body,
        }
    }
}

impl<'a> PartialEq for HttpResponse<'a> {
    /// Whether both responses say the same.
    fn eq(&self, other: &Self) -> (same: bool) {
        let headers_same = match (&self.headers, &other.headers) {
            (Some(mine), Some(theirs)) => mine == theirs,
            (None, None) => true,
            _ => false,
        };
        let body_same = match (self.body, other.body) {
            (Some(mine), Some(theirs)) => str_eq(mine, theirs),
            (None, None) => true,
            _ => false,
        };
        headers_same && body_same && str_eq(self.version, other.version) && str_eq(
            self.status_code,
            other.status_code,
        ) && str_eq(self.status_text, other.status_text)
    }
}

impl<'a> PartialEqSpecImpl for HttpResponse<'a> {
    open spec fn obeys_eq_spec() -> bool {
        true
    }

    open spec fn eq_spec(&self, other: &Self) -> bool {
        self@ == other@
    }
}

/// In the bytes of a message the body comes last, encoded and otherwise
/// unchanged. Before it stand the status line, `Content-Length: `, a numeral
/// and two line breaks. The numeral is made of digits and denotes the number
/// of the body's bytes.
pub proof fn lemma_wire_bytes_frame_body(response: ResponseView)
    ensures
        ({
            let body = encode_utf8(response.body_text());
            let numeral = decimal(body.len());
            let head = response.status_line() + "Content-Length: "@ + numeral + "\r\n\r\n"@;
            let bytes = response.wire_bytes();
            &&& bytes == encode_utf8(head) + body
            &&& bytes.subrange(bytes.len() - body.len(), bytes.len() as int) == body
            &&& decimal_value(numeral) == body.len()
            &&& forall|i: int| 0 <= i < numeral.len() ==> '0' <= #[trigger] numeral[i] <= '9'
        }),
{
    let body = encode_utf8(response.body_text());
    let head = response.status_line() + "Content-Length: "@ + decimal(body.len()) + "\r\n\r\n"@;
    reveal_strlit("\r\n");
    reveal_strlit("\r\n\r\n");
    assert(response.wire_text() =~= head + response.body_text());
    lemma_encode_utf8_concat(head, response.body_text());
    lemma_decimal_value_of_decimal(body.len());
    lemma_decimal_is_digits(body.len());
}

/// A response without a body is sent as one with an empty body is: the
/// `Content-Length` is `0` and nothing follows the blank line.
pub proof fn lemma_absent_body_is_empty_body(response: ResponseView)
    ensures
        ({
            let absent = ResponseView { body: None, ..response };
            let empty = ResponseView { body: Some(Seq::empty()), ..response };
            &&& absent.wire_text() == empty.wire_text()
            &&& absent.wire_bytes() == empty.wire_bytes()
            &&& absent.wire_text() == response.status_line() + "Content-Length: 0\r\n\r\n"@
        }),
{
    reveal_strlit("\r\n");
    reveal_strlit("Content-Length: ");
    reveal_strlit("Content-Length: 0\r\n\r\n");
}

/// Rendering reads the response and changes nothing, so it can be repeated:
/// whatever two calls return for one response is the same text, and the same
/// bytes.
pub proof fn lemma_rendering_repeatable(response: HttpResponse, first: String, second: String)
    requires
        call_ensures(HttpResponse::to_wire_text, (&response,), first),
        call_ensures(HttpResponse::to_wire_text, (&response,), second),
    ensures
        first@ == second@,
        encode_utf8(first@) == encode_utf8(second@),
{
}

} // verus!
