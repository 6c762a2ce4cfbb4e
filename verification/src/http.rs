//! An HTTP request, written in two ways: at an offset into a buffer, and by a
//! serializer that can be resumed.
use vstd::prelude::*;
use vstd::string::StringSliceAdditionalSpecFns;
use crate::combinators::{pending_from, All, Serializer, Then};
use crate::gen::{gen_slice, lemma_put_chunks_concat, put_chunks};
use crate::internal::GenError;
use crate::model::flat;
use crate::rewrite::{SliceSerializer, StrSr};

verus! {

#[derive(Debug, Clone, PartialEq)]
pub struct Request<'a> {
    pub method: &'a str,
    pub uri: &'a str,
    pub headers: Vec<Header<'a>>,
    pub body: &'a [u8],
}

#[derive(Debug, Clone, PartialEq)]
pub struct Header<'a> {
    pub name: &'a str,
    pub value: &'a str,
}

/// The payloads of a request line: the method, a space, the URI, and the
/// version with the end of the line.
pub open spec fn line_chunks(method: &str, uri: &str) -> Seq<Seq<u8>> {
    seq![method.spec_bytes(), " ".spec_bytes(), uri.spec_bytes(), " HTTP/1.1\r\n".spec_bytes()]
}

/// The payloads of a header: the name, a colon and a space, the value, and
/// the end of the line.
pub open spec fn header_chunks(h: Header) -> Seq<Seq<u8>> {
    seq![h.name.spec_bytes(), ": ".spec_bytes(), h.value.spec_bytes(), "\r\n".spec_bytes()]
}

/// The payloads of the headers of `headers` from index `from` on.
pub open spec fn headers_chunks(headers: Seq<Header>, from: int) -> Seq<Seq<u8>>
    decreases headers.len() - from,
{
    if 0 <= from < headers.len() {
        header_chunks(headers[from]) + headers_chunks(headers, from + 1)
    } else {
        Seq::empty()
    }
}

/// The payloads of a request: the request line, the headers, an empty line,
/// and the body.
pub open spec fn request_chunks(r: Request) -> Seq<Seq<u8>> {
    line_chunks(r.method, r.uri) + headers_chunks(r.headers@, 0) + seq!["\r\n".spec_bytes(), r.body@]
}

/// `r` is what writing the payloads `chunks` at the offset of `x` gives, and
/// `end` is what the buffer of `x` holds when all is done.
pub open spec fn wrote_chunks(
    buf: Seq<u8>,
    at: usize,
    chunks: Seq<Seq<u8>>,
    r: Result<(Seq<u8>, usize), GenError>,
    end: Seq<u8>,
) -> bool {
    match put_chunks(buf, at as nat, chunks).1 {
        Ok(then) => r == Ok::<(Seq<u8>, usize), GenError>((put_chunks(buf, at as nat, chunks).0, then as usize))
            && then <= usize::MAX,
        Err(e) => r == Err::<(Seq<u8>, usize), GenError>(e) && end == put_chunks(buf, at as nat, chunks).0,
    }
}

/// The result `r` with the buffer told by what it holds.
pub open spec fn by_contents(r: Result<(&mut [u8], usize), GenError>) -> Result<(Seq<u8>, usize), GenError> {
    match r {
        Ok(x) => Ok((x.0@, x.1)),
        Err(e) => Err(e),
    }
}

/// Writes the four payloads `a`, `b`, `c` and `d` at the offset.
fn put_four<'a>(i: (&'a mut [u8], usize), a: &[u8], b: &[u8], c: &[u8], d: &[u8]) -> (r: Result<
    (&'a mut [u8], usize),
    GenError,
>)
    ensures
        wrote_chunks(old(i.0)@, i.1, seq![a@, b@, c@, d@], by_contents(r), final(i.0)@),
        r matches Ok(x) ==> final(i.0)@ == final(x.0)@,
{
    proof {
        vstd::slice::axiom_spec_len(i.0);
        let chunks = seq![a@, b@, c@, d@];
        assert(chunks.skip(1) =~= seq![b@, c@, d@]);
        assert(chunks.skip(1).skip(1) =~= seq![c@, d@]);
        assert(chunks.skip(1).skip(1).skip(1) =~= seq![d@]);
        assert(chunks.skip(1).skip(1).skip(1).skip(1) =~= Seq::<Seq<u8>>::empty());
        reveal_with_fuel(put_chunks, 5);
    }
    let i = match gen_slice(i, a) {
        Ok(i) => i,
        Err(e) => {
            return Err(e);
        },
    };
    let i = match gen_slice(i, b) {
        Ok(i) => i,
        Err(e) => {
            return Err(e);
        },
    };
    let i = match gen_slice(i, c) {
        Ok(i) => i,
        Err(e) => {
            return Err(e);
        },
    };
    gen_slice(i, d)
}

pub fn cf_request_line<'a, 'b>(i: (&'a mut [u8], usize), method: &'b str, uri: &'b str) -> (r: Result<
    (&'a mut [u8], usize),
    GenError,
>)
    ensures
        wrote_chunks(old(i.0)@, i.1, line_chunks(method, uri), by_contents(r), final(i.0)@),
        r matches Ok(x) ==> final(i.0)@ == final(x.0)@,
{
    put_four(i, method.as_bytes(), " ".as_bytes(), uri.as_bytes(), " HTTP/1.1\r\n".as_bytes())
}

pub fn cf_header<'a, 'b, 'c>(i: (&'a mut [u8], usize), h: &'c Header<'b>) -> (r: Result<
    (&'a mut [u8], usize),
    GenError,
>)
    ensures
        wrote_chunks(old(i.0)@, i.1, header_chunks(*h), by_contents(r), final(i.0)@),
        r matches Ok(x) ==> final(i.0)@ == final(x.0)@,
{
    put_four(i, h.name.as_bytes(), ": ".as_bytes(), h.value.as_bytes(), "\r\n".as_bytes())
}

/// Writes the headers of `headers` from index `from` on at the offset.
fn cf_headers_from<'a, 'b>(i: (&'a mut [u8], usize), headers: &Vec<Header<'b>>, from: usize) -> (r: Result<
    (&'a mut [u8], usize),
    GenError,
>)
    requires
        from <= headers@.len(),
    ensures
        wrote_chunks(old(i.0)@, i.1, headers_chunks(headers@, from as int), by_contents(r), final(i.0)@),
        r matches Ok(x) ==> final(i.0)@ == final(x.0)@,
    decreases headers@.len() - from,
{
    proof {
        vstd::slice::axiom_spec_len(i.0);
    }
    if from >= headers.len() {
        return Ok(i);
    }
    proof {
        lemma_put_chunks_concat(
            i.0@,
            i.1 as nat,
            header_chunks(headers@[from as int]),
            headers_chunks(headers@, from + 1),
        );
    }
    match cf_header(i, &headers[from]) {
        Err(e) => Err(e),
        Ok(i) => cf_headers_from(i, headers, from + 1),
    }
}

pub fn cf_request<'a, 'b, 'c>(i: (&'a mut [u8], usize), r: &'c Request<'b>) -> (res: Result<
    (&'a mut [u8], usize),
    GenError,
>)
    ensures
        wrote_chunks(old(i.0)@, i.1, request_chunks(*r), by_contents(res), final(i.0)@),
        res matches Ok(x) ==> final(i.0)@ == final(x.0)@,
{
    let ghost line = line_chunks(r.method, r.uri);
    let ghost heads = headers_chunks(r.headers@, 0);
    let ghost tail = seq!["\r\n".spec_bytes(), r.body@];
    let ghost buf0 = i.0@;
    let ghost at0 = i.1 as nat;
    proof {
        vstd::slice::axiom_spec_len(i.0);
        lemma_put_chunks_concat(buf0, at0, line + heads, tail);
        lemma_put_chunks_concat(buf0, at0, line, heads);
    }
    let i = match cf_request_line(i, r.method, r.uri) {
        Ok(i) => i,
        Err(e) => {
            return Err(e);
        },
    };
    let i = match cf_headers_from(i, &r.headers, 0) {
        Ok(i) => i,
        Err(e) => {
            return Err(e);
        },
    };
    proof {
        assert(tail.skip(1) =~= seq![r.body@]);
        assert(tail.skip(1).skip(1) =~= Seq::<Seq<u8>>::empty());
        reveal_with_fuel(put_chunks, 3);
    }
    let i = match gen_slice(i, "\r\n".as_bytes()) {
        Ok(i) => i,
        Err(e) => {
            return Err(e);
        },
    };
    gen_slice(i, r.body)
}

/// A serializer of four slices, one after another.
pub type Line<'a> = Then<Then<Then<SliceSerializer<'a>, SliceSerializer<'a>>, SliceSerializer<'a>>, SliceSerializer<'a>>;

/// `flat` of two lists, one after the other, is the two `flat`s, one after
/// the other.
pub proof fn lemma_flat_concat(a: Seq<Seq<u8>>, b: Seq<Seq<u8>>)
    ensures
        flat(a + b) == flat(a) + flat(b),
    decreases a.len(),
{
    if a.len() == 0 {
        assert(a + b =~= b);
        assert(flat(a) + flat(b) =~= flat(b));
    } else {
        assert((a + b)[0] == a[0]);
        assert((a + b).skip(1) =~= a.skip(1) + b);
        lemma_flat_concat(a.skip(1), b);
        assert(a[0] + (flat(a.skip(1)) + flat(b)) =~= (a[0] + flat(a.skip(1))) + flat(b));
    }
}

/// The serializer of the four slices `a`, `b`, `c` and `d`.
fn four<'a>(a: &'a [u8], b: &'a [u8], c: &'a [u8], d: &'a [u8]) -> (r: Line<'a>)
    ensures
        r.wf(),
        r.pending() == flat(seq![a@, b@, c@, d@]),
{
    let r = Then::new(
        Then::new(Then::new(SliceSerializer::new(a), SliceSerializer::new(b)), SliceSerializer::new(c)),
        SliceSerializer::new(d),
    );
    proof {
        let chunks = seq![a@, b@, c@, d@];
        assert(chunks.skip(1) =~= seq![b@, c@, d@]);
        assert(chunks.skip(1).skip(1) =~= seq![c@, d@]);
        assert(chunks.skip(1).skip(1).skip(1) =~= seq![d@]);
        assert(chunks.skip(1).skip(1).skip(1).skip(1) =~= Seq::<Seq<u8>>::empty());
        reveal_with_fuel(flat, 5);
        assert(r.pending() =~= flat(chunks));
    }
    r
}

pub fn rw_request_line<'a>(method: &'a str, uri: &'a str) -> (r: Line<'a>)
    ensures
        r.wf(),
        r.pending() == flat(line_chunks(method, uri)),
{
    four(method.as_bytes(), " ".as_bytes(), uri.as_bytes(), " HTTP/1.1\r\n".as_bytes())
}

pub fn rw_header<'a>(h: &'a Header) -> (r: Line<'a>)
    ensures
        r.wf(),
        r.pending() == flat(header_chunks(*h)),
{
    four(h.name.as_bytes(), ": ".as_bytes(), h.value.as_bytes(), "\r\n".as_bytes())
}

/// Serializers of which each writes the header at its index write the
/// headers.
pub proof fn lemma_headers_pending<'a>(items: Seq<Line<'a>>, headers: Seq<Header>, from: int)
    requires
        items.len() == headers.len(),
        0 <= from,
        forall|j: int| from <= j < items.len() ==> (#[trigger] items[j]).pending() == flat(header_chunks(headers[j])),
    ensures
        pending_from(items, from) == flat(headers_chunks(headers, from)),
    decreases items.len() - from,
{
    if from < items.len() {
        lemma_headers_pending(items, headers, from + 1);
        lemma_flat_concat(header_chunks(headers[from]), headers_chunks(headers, from + 1));
    }
}

pub fn rw_request<'a, 'b: 'a>(r: &'b Request<'a>) -> (sr: Then<
    Then<Then<Line<'a>, All<Line<'a>>>, SliceSerializer<'a>>,
    SliceSerializer<'a>,
>)
    ensures
        sr.wf(),
        sr.pending() == flat(request_chunks(*r)),
{
    let mut headers: Vec<Line<'a>> = Vec::new();
    let n = r.headers.len();
    let mut i: usize = 0;
    while i < n
        invariant
            i <= n,
            n == r.headers@.len(),
            headers@.len() == i,
            forall|j: int| 0 <= j < i ==> (#[trigger] headers@[j]).wf(),
            forall|j: int| 0 <= j < i ==> (#[trigger] headers@[j]).pending() == flat(header_chunks(r.headers@[j])),
        decreases n - i,
    {
        headers.push(rw_header(&r.headers[i]));
        i += 1;
    }
    let line = rw_request_line(r.method, r.uri);
    let all = All::new(headers);
    let sr = Then::new(
        Then::new(Then::new(line, all), SliceSerializer::new("\r\n".as_bytes())),
        SliceSerializer::new(r.body),
    );
    proof {
        let tail = seq!["\r\n".spec_bytes(), r.body@];
        assert(tail.skip(1) =~= seq![r.body@]);
        assert(tail.skip(1).skip(1) =~= Seq::<Seq<u8>>::empty());
        reveal_with_fuel(flat, 3);
        lemma_headers_pending(all.items@, r.headers@, 0);
        lemma_flat_concat(line_chunks(r.method, r.uri) + headers_chunks(r.headers@, 0), tail);
        lemma_flat_concat(line_chunks(r.method, r.uri), headers_chunks(r.headers@, 0));
        assert(sr.pending() =~= flat(request_chunks(*r)));
    }
    sr
}

} // verus!
