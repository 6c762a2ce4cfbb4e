use cookie_factory::combinator::{slice, string};
use cookie_factory::combinators::{Serialized, Serializer};
use cookie_factory::http::{cf_request, rw_request, Header, Request};
use cookie_factory::io_compat::{Cursor, Write};
use cookie_factory::multi::all;
use cookie_factory::sequence::tuple;
use cookie_factory::{gen_simple, SerializeFn};
use std::str::from_utf8;

fn fn_request_line<'a, W: Write + 'a>(method: &'a str, uri: &'a str) -> impl SerializeFn<W> + 'a {
    tuple((string(method), string(" "), string(uri), string(" HTTP/1.1\r\n")))
}

fn fn_header<'a, W: Write + 'a>(h: &'a Header) -> impl SerializeFn<W> + 'a {
    tuple((string(h.name), string(": "), string(h.value), string("\r\n")))
}

#[test]
fn request() {
    let mut mem: [u8; 1024] = [0; 1024];
    let s = &mut mem[..];

    let request = Request {
        method: "GET",
        uri: "/hello/test/a/b/c?name=value#hash",
        headers: [
            Header { name: "Host", value: "lolcatho.st" },
            Header { name: "User-agent", value: "cookie-factory" },
            Header { name: "Content-Length", value: "13" },
            Header { name: "Connection", value: "Close" },
        ]
        .iter()
        .cloned()
        .collect(),
        body: b"Hello, world!",
    };

    let (s, index) = cf_request((s, 0), &request).unwrap();
    println!("request written by cf:\n{}", from_utf8(&s[..index]).unwrap());

    let mut mem2: [u8; 1024] = [0; 1024];
    let (mem2, index2) = {
        let headers: Vec<_> = request.headers.iter().map(fn_header).collect();
        let sr = tuple((
            fn_request_line(request.method, request.uri),
            all(&headers),
            string("\r\n"),
            slice(request.body),
        ));
        let writer = Cursor::new(&mut mem2[..]);
        let writer = gen_simple(sr, writer).unwrap();
        let index2 = writer.position() as usize;
        (writer.into_inner(), index2)
    };
    println!("request written by fn:\n{}", from_utf8(&mem2[..index2]).unwrap());
    println!("wrote {} bytes", index2);

    assert_eq!(index, index2);
    assert_eq!(from_utf8(&s[..index]).unwrap(), from_utf8(&mem2[..index2]).unwrap());
}

#[test]
fn cf() {
    let mut mem: [u8; 1024] = [0; 1024];
    let s = &mut mem[..];

    let request = Request {
        method: "GET",
        uri: "/hello/test/a/b/c?name=value#hash",
        headers: [
            Header { name: "Host", value: "lolcatho.st" },
            Header { name: "User-agent", value: "cookie-factory" },
            Header { name: "Content-Length", value: "13" },
            Header { name: "Connection", value: "Close" },
        ]
        .iter()
        .cloned()
        .collect(),
        body: b"Hello, world!",
    };

    let (s, index) = cf_request((s, 0), &request).unwrap();
    println!("request written by cf:\n{}", from_utf8(&s[..index]).unwrap());

    let mut mem2: [u8; 1024] = [0; 1024];
    let s2 = &mut mem2[..];

    let mut sr = rw_request(&request);
    let (index2, res) = sr.serialize(s2).unwrap();
    assert_eq!(res, Serialized::Done);
    println!("request written by cf:\n{}", from_utf8(&s[..index]).unwrap());

    assert_eq!(index, index2);
    assert_eq!(from_utf8(&s[..index]).unwrap(), from_utf8(&s2[..index2]).unwrap());
}

#[test]
fn request_text() {
    let mut mem: [u8; 64] = [0; 64];
    let request = Request {
        method: "GET",
        uri: "/",
        headers: vec![Header { name: "Host", value: "a" }],
        body: b"xy",
    };
    let (s, index) = cf_request((&mut mem[..], 0), &request).unwrap();
    assert_eq!(&s[..index], b"GET / HTTP/1.1\r\nHost: a\r\n\r\nxy");
}

#[test]
fn request_too_long() {
    let mut mem: [u8; 10] = [0; 10];
    let request = Request { method: "GET", uri: "/", headers: Vec::new(), body: b"" };
    let r = cf_request((&mut mem[..], 0), &request);
    // "GET", " " and "/" fit; the 11 bytes of the version find 5 bytes of room
    assert_eq!(r.err(), Some(cookie_factory::GenError::BufferTooSmall(6)));
    assert_eq!(&mem[..5], b"GET /");
}
