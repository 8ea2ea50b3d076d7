use bytes::Bytes;
use http_proxy::config::{Config, DEFAULT_PORT};
use http_proxy::format::Format;
use http_proxy::headers::{Edit, Headers};
use http_proxy::proxy::{
    Compreessor0, Decompreessor0, Op, Proxy0, ProxyCtx, ACCEPT_ENCODING, CHUNKED,
    CONTENT_ENCODING, CONTENT_LENGTH, GZIP_LEVEL, INTERNAL_CONTENT_LENGTH, TRANSFER_ENCODING,
    ZSTD_LEVEL,
};
use http_proxy::compress::{Compressor, Decompressor, ZstdCompressor, ZstdDecompressor};

fn proxy(zstd: bool) -> Proxy0 {
    Proxy0 { config: Config { target: "127.0.0.1:8080".to_string(), port: DEFAULT_PORT }, zstd }
}

fn value<'a>(h: &'a Headers, name: &str) -> Option<&'a [u8]> {
    h.get(name).map(|v| v.as_slice())
}

/// Makes `edits` on `h`, as a holder of the headers in another form would.
fn replay(h: &mut Headers, edits: &[Edit]) {
    for edit in edits {
        match edit {
            Edit::Put(name, v) => h.insert(name, v),
            Edit::Remove(name) => {
                h.remove(name);
            }
        }
    }
}

/// The fields of `h`, sorted.
fn fields(h: &Headers) -> Vec<(Vec<u8>, Vec<u8>)> {
    let mut all: Vec<_> =
        (0..h.len()).map(|i| (h.key_at(i).clone(), h.value_at(i).clone())).collect();
    all.sort();
    all
}

fn shape(edits: &[Edit]) -> Vec<String> {
    edits
        .iter()
        .map(|e| match e {
            Edit::Put(name, v) => format!("put {}: {}", name, String::from_utf8_lossy(v)),
            Edit::Remove(name) => format!("remove {}", name),
        })
        .collect()
}

#[test]
fn the_edits_of_the_compressing_side() {
    let p = proxy(false);
    let mut h = Headers::new();
    h.insert("host", b"example.org");
    h.insert("content-length", b"7");
    let mut twin = Headers::new();
    twin.insert("host", b"example.org");
    twin.insert("content-length", b"7");
    let edits = p.upstream_request_filter(&mut h, &mut p.new_ctx());
    assert_eq!(
        shape(&edits),
        vec![
            "remove content-length",
            "put x-internal-content-length: 7",
            "put content-encoding: gzip",
            "put transfer-encoding: chunked",
        ]
    );
    replay(&mut twin, &edits);
    assert_eq!(fields(&twin), fields(&h));

    let p = proxy(true);
    let mut h = Headers::new();
    let edits = p.upstream_request_filter(&mut h, &mut p.new_ctx());
    assert_eq!(shape(&edits), vec!["put content-encoding: zstd", "put transfer-encoding: chunked"]);
}

#[test]
fn the_edits_of_the_decompressing_side() {
    let p = proxy(true);
    let mut h = Headers::new();
    h.insert("content-encoding", b"gzip");
    h.insert("x-internal-content-length", b"1234");
    h.insert("transfer-encoding", b"chunked");
    let mut twin = Headers::new();
    twin.insert("content-encoding", b"gzip");
    twin.insert("x-internal-content-length", b"1234");
    twin.insert("transfer-encoding", b"chunked");
    let edits = p.upstream_request_filter(&mut h, &mut p.new_ctx());
    assert_eq!(
        shape(&edits),
        vec![
            "put accept-encoding: gzip",
            "remove x-internal-content-length",
            "put content-length: 1234",
            "remove transfer-encoding",
        ]
    );
    replay(&mut twin, &edits);
    assert_eq!(fields(&twin), fields(&h));

    let mut h = Headers::new();
    h.insert("content-encoding", b"zstd");
    let mut ctx = p.new_ctx();
    let edits = p.upstream_request_filter(&mut h, &mut ctx);
    assert_eq!(shape(&edits), vec!["put accept-encoding: zstd"]);
    // nothing more is decided, and nothing more is changed
    assert!(p.upstream_request_filter(&mut h, &mut ctx).is_empty());
}

#[test]
fn the_names_on_the_wire() {
    assert_eq!(CONTENT_ENCODING, "content-encoding");
    assert_eq!(CONTENT_LENGTH, "content-length");
    assert_eq!(TRANSFER_ENCODING, "transfer-encoding");
    assert_eq!(ACCEPT_ENCODING, "accept-encoding");
    assert_eq!(INTERNAL_CONTENT_LENGTH, "x-internal-content-length");
    assert_eq!(CHUNKED, "chunked");
    assert_eq!(GZIP_LEVEL, 6);
    assert_eq!(ZSTD_LEVEL, 6);
    assert_eq!(DEFAULT_PORT, 18081);
}

#[test]
fn a_new_context_has_decided_nothing() {
    let ctx = proxy(true).new_ctx();
    assert_eq!(ctx.op(), Op::Undecided);
    assert_eq!(ctx.format(), None);
    assert!(!ctx.is_closed());
    assert!(ctx.stat().is_none());
    let other: ProxyCtx = proxy(false).new_ctx();
    assert_eq!(other.op(), Op::Undecided);
}

#[test]
fn decision_restores_content_length() {
    for (zstd, format) in [(false, "gzip"), (true, "zstd")] {
        let p = proxy(zstd);
        let mut h = Headers::new();
        h.insert("content-encoding", format.as_bytes());
        h.insert("x-internal-content-length", b"1234");
        h.insert("transfer-encoding", b"chunked");
        let mut ctx = p.new_ctx();
        p.upstream_request_filter(&mut h, &mut ctx);
        assert_eq!(value(&h, "content-length"), Some(&b"1234"[..]));
        assert_eq!(value(&h, "transfer-encoding"), None);
        assert_eq!(value(&h, "x-internal-content-length"), None);
        assert_eq!(value(&h, "accept-encoding"), Some(format.as_bytes()));
        assert_eq!(value(&h, "content-encoding"), Some(format.as_bytes()));
        assert_eq!(ctx.op(), Op::Decompress);
    }
}

#[test]
fn decision_without_side_channel_keeps_chunked() {
    let p = proxy(false);
    let mut h = Headers::new();
    h.insert("content-encoding", b"gzip");
    h.insert("transfer-encoding", b"chunked");
    let mut ctx = p.new_ctx();
    p.upstream_request_filter(&mut h, &mut ctx);
    assert_eq!(value(&h, "content-length"), None);
    assert_eq!(value(&h, "transfer-encoding"), Some(&b"chunked"[..]));
    assert_eq!(value(&h, "accept-encoding"), Some(&b"gzip"[..]));
    assert_eq!(h.len(), 3);
    assert_eq!(ctx.op(), Op::Decompress);
    assert_eq!(ctx.format(), Some(Format::Gzip));
}

#[test]
fn decision_to_compress_moves_the_length() {
    for (zstd, format) in [(false, Format::Gzip), (true, Format::Zstd)] {
        let p = proxy(zstd);
        let mut h = Headers::new();
        h.insert("host", b"example.org");
        h.insert("Content-Length", b"7");
        let mut ctx = p.new_ctx();
        p.upstream_request_filter(&mut h, &mut ctx);
        assert_eq!(value(&h, "content-encoding"), Some(format.name().as_bytes()));
        assert_eq!(value(&h, "transfer-encoding"), Some(&b"chunked"[..]));
        assert_eq!(value(&h, "content-length"), None);
        assert_eq!(value(&h, "x-internal-content-length"), Some(&b"7"[..]));
        assert_eq!(value(&h, "host"), Some(&b"example.org"[..]));
        assert_eq!(h.len(), 4);
        assert_eq!(ctx.op(), Op::Compress);
        assert_eq!(ctx.format(), Some(format));
        assert!(!ctx.is_closed());
        assert_eq!(ctx.stat().unwrap().0, format.name());
    }
}

#[test]
fn decision_to_compress_without_a_length() {
    let p = proxy(true);
    let mut h = Headers::new();
    let mut ctx = p.new_ctx();
    p.upstream_request_filter(&mut h, &mut ctx);
    assert_eq!(value(&h, "content-encoding"), Some(&b"zstd"[..]));
    assert_eq!(value(&h, "transfer-encoding"), Some(&b"chunked"[..]));
    assert_eq!(value(&h, "x-internal-content-length"), None);
    assert_eq!(h.len(), 2);
    assert_eq!(ctx.op(), Op::Compress);
}

#[test]
fn the_decoder_follows_the_format_that_is_named() {
    for (zstd, named, expected) in [
        (true, &b"gzip"[..], Format::Gzip),
        (false, &b"zstd"[..], Format::Zstd),
        (false, &b"gzip"[..], Format::Gzip),
        (true, &b"zstd"[..], Format::Zstd),
        (true, &b"br"[..], Format::Zstd),
        (false, &b"br"[..], Format::Gzip),
        (false, &b"GZIP"[..], Format::Gzip),
        (true, &b""[..], Format::Zstd),
    ] {
        let p = proxy(zstd);
        let mut h = Headers::new();
        h.insert("content-encoding", named);
        let mut ctx = p.new_ctx();
        p.upstream_request_filter(&mut h, &mut ctx);
        assert_eq!(ctx.op(), Op::Decompress);
        assert_eq!(ctx.format(), Some(expected));
        assert_eq!(value(&h, "accept-encoding"), Some(expected.name().as_bytes()));
        assert_eq!(value(&h, "content-encoding"), Some(named));
    }
}

#[test]
fn the_decision_is_taken_once() {
    let p = proxy(false);
    let mut h = Headers::new();
    h.insert("content-length", b"7");
    let mut ctx = p.new_ctx();
    p.upstream_request_filter(&mut h, &mut ctx);
    assert_eq!(ctx.op(), Op::Compress);
    // the request now carries content-encoding; a second look must not
    // turn the compressor into a decompressor
    p.upstream_request_filter(&mut h, &mut ctx);
    assert_eq!(ctx.op(), Op::Compress);
    assert_eq!(value(&h, "accept-encoding"), None);
    assert_eq!(value(&h, "x-internal-content-length"), Some(&b"7"[..]));
    assert_eq!(value(&h, "transfer-encoding"), Some(&b"chunked"[..]));
    assert_eq!(h.len(), 3);
}

#[test]
fn a_pair_of_proxies_restores_the_headers() {
    for (first, second) in [(false, false), (true, true), (false, true), (true, false)] {
        let mut h = Headers::new();
        h.insert("host", b"example.org");
        h.insert("content-length", b"11");
        let sender = proxy(first);
        let mut sending = sender.new_ctx();
        sender.upstream_request_filter(&mut h, &mut sending);
        let receiver = proxy(second);
        let mut receiving = receiver.new_ctx();
        receiver.upstream_request_filter(&mut h, &mut receiving);
        assert_eq!(receiving.op(), Op::Decompress);
        assert_eq!(receiving.format(), sending.format());
        assert_eq!(value(&h, "content-length"), Some(&b"11"[..]));
        assert_eq!(value(&h, "x-internal-content-length"), None);
        assert_eq!(value(&h, "transfer-encoding"), None);
        assert_eq!(value(&h, "host"), Some(&b"example.org"[..]));
    }
}

#[test]
fn an_undecided_context_lets_the_body_pass() {
    let p = proxy(true);
    let mut ctx = p.new_ctx();
    let mut body = Some(Bytes::from_static(b"abcdefg"));
    p.request_body_filter(&mut body, false, &mut ctx).unwrap();
    assert_eq!(body, Some(Bytes::from_static(b"abcdefg")));
    let mut body: Option<Bytes> = None;
    p.request_body_filter(&mut body, true, &mut ctx).unwrap();
    assert_eq!(body, None);
    assert_eq!(ctx.op(), Op::Undecided);
    assert!(!ctx.is_closed());
}

#[test]
fn a_body_goes_through_a_pair_of_proxies() {
    for zstd in [false, true] {
        let sender = proxy(zstd);
        let receiver = proxy(!zstd);
        let mut h = Headers::new();
        h.insert("content-length", b"300000");
        let mut sending = sender.new_ctx();
        sender.upstream_request_filter(&mut h, &mut sending);
        let mut receiving = receiver.new_ctx();
        receiver.upstream_request_filter(&mut h, &mut receiving);

        let body: Vec<u8> = (0..300_000u32).map(|i| (i % 251) as u8 ^ (i / 1000) as u8).collect();
        let chunks: Vec<Option<Bytes>> = vec![
            Some(Bytes::copy_from_slice(&body[..1])),
            Some(Bytes::new()),
            Some(Bytes::copy_from_slice(&body[1..150_000])),
            Some(Bytes::copy_from_slice(&body[150_000..])),
            None,
        ];
        let mut back = Vec::new();
        for (i, chunk) in chunks.iter().enumerate() {
            let end = i + 1 == chunks.len();
            let mut on_wire = chunk.clone();
            sender.request_body_filter(&mut on_wire, end, &mut sending).unwrap();
            assert!(on_wire.is_some());
            receiver.request_body_filter(&mut on_wire, end, &mut receiving).unwrap();
            back.extend_from_slice(&on_wire.unwrap());
        }
        assert_eq!(back, body);
        assert!(sending.is_closed());
        assert!(receiving.is_closed());
        let (name, total_in, _, _) = sending.stat().unwrap();
        assert_eq!((name, total_in), (if zstd { "zstd" } else { "gzip" }, 300_000));
        let (name, _, total_out, _) = receiving.stat().unwrap();
        assert_eq!((name, total_out), (if zstd { "de-zstd" } else { "de-gzip" }, 300_000));
    }
}

#[test]
fn a_missing_last_chunk_still_ends_the_stream() {
    let p = proxy(false);
    let mut h = Headers::new();
    let mut ctx = p.new_ctx();
    p.upstream_request_filter(&mut h, &mut ctx);
    let mut body = Some(Bytes::from_static(b"abcdefg"));
    p.request_body_filter(&mut body, false, &mut ctx).unwrap();
    let mut wire = body.unwrap().to_vec();
    let mut last: Option<Bytes> = None;
    p.request_body_filter(&mut last, true, &mut ctx).unwrap();
    let tail = last.unwrap();
    assert!(!tail.is_empty());
    wire.extend_from_slice(&tail);
    assert_eq!(&wire[..3], &[0x1f, 0x8b, 0x08]);
    assert_eq!(&wire[wire.len() - 8..], &[166, 106, 42, 49, 7, 0, 0, 0]);
    assert!(ctx.is_closed());
}

#[test]
fn a_body_that_is_rejected_stays_as_it_is() {
    for (named, format) in [(&b"gzip"[..], Format::Gzip), (&b"zstd"[..], Format::Zstd)] {
        let p = proxy(false);
        let mut h = Headers::new();
        h.insert("content-encoding", named);
        let mut ctx = p.new_ctx();
        p.upstream_request_filter(&mut h, &mut ctx);
        let garbage = Bytes::from_static(b"neither gzip nor zstd, whatever the header says");
        let mut body = Some(garbage.clone());
        let err = p.request_body_filter(&mut body, false, &mut ctx).unwrap_err();
        assert_eq!(err.format(), format);
        assert_eq!(body, Some(garbage));
        assert!(ctx.is_closed());
        assert_eq!(ctx.op(), Op::Decompress);
        let (_, total_in, total_out, _) = ctx.stat().unwrap();
        assert_eq!((total_in, total_out), (0, 0));
    }
}

#[test]
fn the_variants_hand_on_to_their_codec() {
    let mut c = Compreessor0::Gzip(Compressor::new(6));
    let wire = c.encode(b"abcdefg", true);
    assert_eq!(&wire[..3], &[0x1f, 0x8b, 0x08]);
    let mut d = Decompreessor0::Gzip(Decompressor::new());
    assert_eq!(&d.encode(&wire, true).unwrap()[..], b"abcdefg");

    let mut c = Compreessor0::Zstd(ZstdCompressor::new(6));
    let wire = c.encode(b"abcdefg", true);
    assert_eq!(&wire[..4], &[0x28, 0xb5, 0x2f, 0xfd]);
    let mut d = Decompreessor0::Zstd(ZstdDecompressor::new());
    assert_eq!(&d.encode(&wire, true).unwrap()[..], b"abcdefg");

    let mut d = Decompreessor0::Zstd(ZstdDecompressor::new());
    assert!(d.encode(b"abcdefg-abcdefg-abcdefg", false).is_err());
}

#[test]
fn the_proxy_names_its_format() {
    assert_eq!(proxy(true).format(), Format::Zstd);
    assert_eq!(proxy(false).format(), Format::Gzip);
    let c = Config { target: "10.0.0.1:80".to_string(), port: 18081 };
    assert_eq!(c.clone().target, "10.0.0.1:80");
    assert_eq!(c.port, DEFAULT_PORT);
}
