//! Requests and responses as plain values: the path of a request in
//! segments, and a response with its status, headers and body.

use crate::text::{
    eq_ignore_ascii_case, fields, fields_of, same_ignoring_ascii_case, texts, Separator,
};
use vstd::prelude::*;
use vstd::string::StringSliceAdditionalSpecFns;
use vstd::utf8::encode_utf8;

verus! {

/// A request: its path and its body.
pub struct Request {
    path: String,
    body: Vec<u8>,
    segments: Vec<String>,
}

impl Request {
    /// The path as it came.
    pub closed spec fn raw_path(&self) -> Seq<char> {
        self.path@
    }

    /// The body as it came.
    pub closed spec fn raw_body(&self) -> Seq<u8> {
        self.body@
    }

    /// The segments kept with the request.
    pub closed spec fn kept_segments(&self) -> Seq<Seq<char>> {
        texts(self.segments@)
    }

    /// The segments kept with the request are those of its path.
    pub open spec fn wf(&self) -> bool {
        self.kept_segments() == fields_of(self.raw_path(), Separator::Slash)
    }

    /// The request for `path` with `body`.
    pub fn new(path: String, body: Vec<u8>) -> (r: Self)
        ensures
            r.wf(),
            r.raw_path() == path@,
            r.raw_body() == body@,
    {
        let segments = fields(path.as_str(), Separator::Slash);
        Request { path, body, segments }
    }

    /// The segments of the path: what stands between its slashes, empty
    /// pieces left out.
    pub fn segments(&self) -> (s: Vec<String>)
        requires
            self.wf(),
        ensures
            texts(s@) == fields_of(self.raw_path(), Separator::Slash),
    {
        let mut out: Vec<String> = Vec::new();
        let mut i: usize = 0;
        while i < self.segments.len()
            invariant
                i <= self.segments.len(),
                texts(out@) == texts(self.segments@).take(i as int),
            decreases self.segments.len() - i,
        {
            let ghost done = texts(out@);
            out.push(self.segments[i].clone());
            i += 1;
            assert(texts(out@) =~= done.push(self.segments@[i - 1]@));
            assert(texts(self.segments@)[i - 1] == self.segments@[i - 1]@);
            assert(done.push(self.segments@[i - 1]@) =~= texts(self.segments@).take(i as int));
        }
        assert(texts(self.segments@).take(i as int) =~= texts(self.segments@));
        out
    }

    /// The segments of the path, under the name one of the servers uses.
    pub fn path(&self) -> (s: Vec<String>)
        requires
            self.wf(),
        ensures
            texts(s@) == fields_of(self.raw_path(), Separator::Slash),
    {
        self.segments()
    }

    /// The body, for the caller to decode.
    pub fn body(&self) -> (b: &Vec<u8>)
        ensures
            b@ == self.raw_body(),
    {
        &self.body
    }
}

/// A header as a mathematical value: its name and its value.
pub type HeaderModel = (Seq<char>, Seq<char>);

/// Two header names are the same: the case of ASCII letters does not count.
pub open spec fn same_name(a: Seq<char>, b: Seq<char>) -> bool {
    same_ignoring_ascii_case(encode_utf8(a), encode_utf8(b))
}

/// The place of the first header from place `from` on with this name, or
/// the number of headers if there is none.
pub open spec fn header_place(headers: Seq<HeaderModel>, name: Seq<char>, from: int) -> int
    decreases headers.len() - from,
{
    if from < 0 || from >= headers.len() {
        headers.len() as int
    } else if same_name(headers[from].0, name) {
        from
    } else {
        header_place(headers, name, from + 1)
    }
}

/// The headers after `name` was set to `value`: the first header of that
/// name takes the new name and value, or the header goes to the end.
pub open spec fn with_header(headers: Seq<HeaderModel>, name: Seq<char>, value: Seq<char>) -> Seq<
    HeaderModel,
> {
    let place = header_place(headers, name, 0);
    if place < headers.len() {
        headers.update(place, (name, value))
    } else {
        headers.push((name, value))
    }
}

/// The headers that let pages of any origin call the server.
pub open spec fn cors_headers() -> Seq<HeaderModel> {
    seq![
        ("Access-Control-Allow-Origin"@, "*"@),
        ("Access-Control-Allow-Methods"@, "GET, POST, PUT, DELETE, OPTIONS"@),
        (
            "Access-Control-Allow-Headers"@,
            "Accept, Accept-Language, Content-Language,  Origin, Content-Type, Authorization"@,
        ),
    ]
}

/// A response: its status, its headers in order, and its body.
pub struct Response {
    status: u16,
    headers: Vec<(String, String)>,
    body: Vec<u8>,
}

impl Response {
    /// The status code.
    pub closed spec fn code(&self) -> u16 {
        self.status
    }

    /// The headers, in order.
    pub closed spec fn headers(&self) -> Seq<HeaderModel> {
        Seq::new(self.headers@.len(), |i: int| (self.headers@[i].0@, self.headers@[i].1@))
    }

    /// The body.
    pub closed spec fn content(&self) -> Seq<u8> {
        self.body@
    }

    /// A response with status 200, the headers that let pages of any origin
    /// call the server, and no body.
    pub fn empty() -> (r: Self)
        ensures
            r.code() == 200,
            r.content().len() == 0,
            r.headers() == with_header(
                with_header(
                    with_header(
                        Seq::empty(),
                        "Access-Control-Allow-Origin"@,
                        "*"@,
                    ),
                    "Access-Control-Allow-Methods"@,
                    "GET, POST, PUT, DELETE, OPTIONS"@,
                ),
                "Access-Control-Allow-Headers"@,
                "Accept, Accept-Language, Content-Language,  Origin, Content-Type, Authorization"@,
            ),
    {
        let r = Response { status: 200, headers: Vec::new(), body: Vec::new() };
        assert(r.headers() =~= Seq::<HeaderModel>::empty());
        r.cors()
    }

    fn cors(self) -> (r: Self)
        ensures
            r.code() == self.code(),
            r.content() == self.content(),
            r.headers() == with_header(
                with_header(
                    with_header(
                        self.headers(),
                        "Access-Control-Allow-Origin"@,
                        "*"@,
                    ),
                    "Access-Control-Allow-Methods"@,
                    "GET, POST, PUT, DELETE, OPTIONS"@,
                ),
                "Access-Control-Allow-Headers"@,
                "Accept, Accept-Language, Content-Language,  Origin, Content-Type, Authorization"@,
            ),
    {
        self.header(String::from_str("Access-Control-Allow-Origin"), String::from_str("*")).header(
            String::from_str("Access-Control-Allow-Methods"),
            String::from_str("GET, POST, PUT, DELETE, OPTIONS"),
        ).header(
            String::from_str("Access-Control-Allow-Headers"),
            String::from_str(
                "Accept, Accept-Language, Content-Language,  Origin, Content-Type, Authorization",
            ),
        )
    }

    /// Sets a header. A header of the same name is replaced where it
    /// stands; a new one goes to the end.
    pub fn header(self, name: String, value: String) -> (r: Self)
        ensures
            r.code() == self.code(),
            r.content() == self.content(),
            r.headers() == with_header(self.headers(), name@, value@),
    {
        let mut r = self;
        let ghost before = r.headers();
        let mut i: usize = 0;
        while i < r.headers.len()
            invariant
                i <= r.headers.len(),
                r.headers() == before,
                before == self.headers(),
                r.code() == self.code(),
                r.content() == self.content(),
                header_place(before, name@, 0) == header_place(before, name@, i as int),
            decreases r.headers.len() - i,
        {
            if eq_ignore_ascii_case(r.headers[i].0.as_str(), name.as_str()) {
                assert(same_name(before[i as int].0, name@));
                assert(header_place(before, name@, i as int) == i);
                r.headers.push((name, value));
                let _ = r.headers.swap_remove(i);
                assert(r.headers() =~= before.update(i as int, (name@, value@)));
                return r;
            }
            i += 1;
        }
        r.headers.push((name, value));
        assert(r.headers() =~= before.push((name@, value@)));
        r
    }

    /// Sets the status code.
    pub fn status(self, status: u16) -> (r: Self)
        ensures
            r.code() == status,
            r.content() == self.content(),
            r.headers() == self.headers(),
    {
        let mut r = self;
        r.status = status;
        r
    }

    /// Sets the body to a text, in UTF-8.
    pub fn text(self, text: String) -> (r: Self)
        ensures
            r.code() == self.code(),
            r.headers() == self.headers(),
            r.content() == encode_utf8(text@),
    {
        let mut r = self;
        r.body = text.as_str().as_bytes_vec();
        r
    }

    /// Sets the body to a payload that the caller has encoded as JSON.
    pub fn body(self, json: String) -> (r: Self)
        ensures
            r.code() == self.code(),
            r.headers() == self.headers(),
            r.content() == encode_utf8(json@),
    {
        self.text(json)
    }

    /// The status code.
    pub fn status_code(&self) -> (code: u16)
        ensures
            code == self.code(),
    {
        self.status
    }

    /// The body.
    pub fn content_bytes(&self) -> (bytes: &Vec<u8>)
        ensures
            bytes@ == self.content(),
    {
        &self.body
    }

    /// The value of the first header of this name.
    pub fn header_value(&self, name: &String) -> (value: Option<String>)
        ensures
            value is Some <==> header_place(self.headers(), name@, 0) < self.headers().len(),
            value is Some ==> value->0@ == self.headers()[header_place(self.headers(), name@, 0)].1,
    {
        let mut i: usize = 0;
        while i < self.headers.len()
            invariant
                i <= self.headers.len(),
                header_place(self.headers(), name@, 0) == header_place(
                    self.headers(),
                    name@,
                    i as int,
                ),
            decreases self.headers.len() - i,
        {
            if eq_ignore_ascii_case(self.headers[i].0.as_str(), name.as_str()) {
                return Some(self.headers[i].1.clone());
            }
            i += 1;
        }
        None
    }

    /// The headers, in order: each name with its value.
    pub fn header_list(&self) -> (list: Vec<(String, String)>)
        ensures
            list@.len() == self.headers().len(),
            forall|i: int|
                0 <= i < list@.len() ==> ((#[trigger] list@[i]).0@, list@[i].1@) == self.headers()[i],
    {
        let mut list: Vec<(String, String)> = Vec::new();
        let mut i: usize = 0;
        while i < self.headers.len()
            invariant
                i <= self.headers.len(),
                list@.len() == i,
                forall|j: int|
                    0 <= j < i ==> ((#[trigger] list@[j]).0@, list@[j].1@) == self.headers()[j],
            decreases self.headers.len() - i,
        {
            list.push((self.headers[i].0.clone(), self.headers[i].1.clone()));
            i += 1;
        }
        list
    }

    /// The number of headers.
    pub fn header_count(&self) -> (n: usize)
        ensures
            n == self.headers().len(),
    {
        self.headers.len()
    }
}

/// The three headers that an empty response sets have names that differ,
/// so an empty response carries exactly those three, in order.
pub proof fn lemma_empty_response_headers()
    ensures
        with_header(
            with_header(
                with_header(Seq::empty(), "Access-Control-Allow-Origin"@, "*"@),
                "Access-Control-Allow-Methods"@,
                "GET, POST, PUT, DELETE, OPTIONS"@,
            ),
            "Access-Control-Allow-Headers"@,
            "Accept, Accept-Language, Content-Language,  Origin, Content-Type, Authorization"@,
        ) == cors_headers(),
{
    reveal_strlit("Access-Control-Allow-Origin");
    reveal_strlit("Access-Control-Allow-Methods");
    reveal_strlit("Access-Control-Allow-Headers");
    let origin = "Access-Control-Allow-Origin"@;
    let methods = "Access-Control-Allow-Methods"@;
    let headers = "Access-Control-Allow-Headers"@;
    lemma_lengths_differ(origin, methods);
    lemma_lengths_differ(origin, headers);
    let first = with_header(Seq::empty(), origin, "*"@);
    assert(first =~= seq![(origin, "*"@)]);
    assert(header_place(first, methods, 1) == 1);
    assert(header_place(first, methods, 0) == 1);
    let second = with_header(first, methods, "GET, POST, PUT, DELETE, OPTIONS"@);
    assert(second =~= seq![(origin, "*"@), (methods, "GET, POST, PUT, DELETE, OPTIONS"@)]);
    assert(!same_name(methods, headers)) by {
        lemma_differ_at(methods, headers, 21);
    }
    assert(header_place(second, headers, 2) == 2);
    assert(header_place(second, headers, 1) == 2);
    assert(header_place(second, headers, 0) == 2);
    assert(with_header(
        second,
        headers,
        "Accept, Accept-Language, Content-Language,  Origin, Content-Type, Authorization"@,
    ) =~= cors_headers());
}

/// ASCII texts of different lengths are no two spellings of one name.
proof fn lemma_lengths_differ(a: Seq<char>, b: Seq<char>)
    requires
        vstd::utf8::is_ascii_chars(a),
        vstd::utf8::is_ascii_chars(b),
        a.len() != b.len(),
    ensures
        !same_name(a, b),
{
    vstd::utf8::is_ascii_chars_encode_utf8(a);
    vstd::utf8::is_ascii_chars_encode_utf8(b);
}

/// ASCII texts that differ at one place by more than case are no two
/// spellings of one name.
proof fn lemma_differ_at(a: Seq<char>, b: Seq<char>, i: int)
    requires
        vstd::utf8::is_ascii_chars(a),
        vstd::utf8::is_ascii_chars(b),
        0 <= i < a.len(),
        i < b.len(),
        crate::text::ascii_lower(a[i] as u8) != crate::text::ascii_lower(b[i] as u8),
    ensures
        !same_name(a, b),
{
    vstd::utf8::is_ascii_chars_encode_utf8(a);
    vstd::utf8::is_ascii_chars_encode_utf8(b);
    if same_name(a, b) {
        assert(encode_utf8(a)[i] == a[i] as u8);
        assert(encode_utf8(b)[i] == b[i] as u8);
    }
}

} // verus!
