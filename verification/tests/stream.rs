use http_proxy::compress::{
    compress_reserve, decompress_reserve, Compressor, Decompressor, Encode, ZstdCompressor,
    ZstdDecompressor, ESTIMATED_COMPRESSION_RATIO, ESTIMATED_ZSTD_RATIO,
    MAX_INIT_COMPRESSED_BUF_SIZE, MAX_INIT_COMPRESSED_SIZE_CAP,
};
use http_proxy::format::Format;

/// A body that compresses well but not trivially.
fn sample(len: usize) -> Vec<u8> {
    let mut v = Vec::with_capacity(len);
    let mut x: u32 = 12345;
    for i in 0..len {
        x = x.wrapping_mul(1103515245).wrapping_add(12345);
        if i % 7 < 4 {
            v.push(b'a' + (i % 13) as u8);
        } else {
            v.push((x >> 16) as u8);
        }
    }
    v
}

/// Cuts `body` at `cuts`, which rise; the last piece may be empty.
fn split(body: &[u8], cuts: &[usize]) -> Vec<Vec<u8>> {
    let mut pieces = Vec::new();
    let mut from = 0;
    for &cut in cuts {
        pieces.push(body[from..cut].to_vec());
        from = cut;
    }
    pieces.push(body[from..].to_vec());
    pieces
}

/// Compresses the pieces one by one with `c`, decompresses each result with
/// `d` under the same final flag, and returns both streams.
fn through<C: Encode, D: Encode>(c: &mut C, d: &mut D, pieces: &[Vec<u8>]) -> (Vec<u8>, Vec<u8>) {
    let mut wire = Vec::new();
    let mut back = Vec::new();
    for (i, piece) in pieces.iter().enumerate() {
        let end = i + 1 == pieces.len();
        let packed = c.encode(piece, end).unwrap();
        wire.extend_from_slice(&packed);
        let plain = d.encode(&packed, end).unwrap();
        back.extend_from_slice(&plain);
    }
    (wire, back)
}

#[test]
fn gzip_data() {
    let mut compressor = Compressor::new(6);
    let compressed = compressor.encode(b"abcdefg", true).unwrap();
    // gzip magic headers
    assert_eq!(&compressed[..3], &[0x1f, 0x8b, 0x08]);
    // check the crc32 footer
    assert_eq!(
        &compressed[compressed.len() - 9..],
        &[0, 166, 106, 42, 49, 7, 0, 0, 0]
    );
    assert_eq!(compressor.total_in(), 7);
    assert_eq!(compressor.total_out(), compressed.len());

    assert!(compressor.get_ref().is_empty());
}

#[test]
fn gunzip_data() {
    let mut decompressor = Decompressor::new();

    let compressed_bytes = &[
        0x1f, 0x8b, 0x08, 0, 0, 0, 0, 0, 0, 255, 75, 76, 74, 78, 73, 77, 75, 7, 0, 166, 106,
        42, 49, 7, 0, 0, 0,
    ];
    let decompressed = decompressor.encode(compressed_bytes, true).unwrap();

    assert_eq!(&decompressed[..], b"abcdefg");
    assert_eq!(decompressor.total_in(), compressed_bytes.len());
    assert_eq!(decompressor.total_out(), decompressed.len());

    assert!(decompressor.get_ref().is_empty());
}

#[test]
fn gzip_scenario_abcdefg() {
    let mut compressor = Compressor::new(6);
    let compressed = compressor.transform(b"abcdefg", true);
    assert_eq!(&compressed[..3], &[0x1f, 0x8b, 0x08]);
    assert_eq!(compressor.total_in(), 7);
    assert!(compressor.is_closed());

    let mut decompressor = Decompressor::new();
    let plain = decompressor.transform(&compressed, true).unwrap();
    assert_eq!(&plain[..], b"abcdefg");
    assert_eq!(decompressor.total_in(), compressed.len());
    assert_eq!(decompressor.total_out(), 7);
    assert!(decompressor.is_closed());
}

#[test]
fn zstd_scenario_abcdefg() {
    let mut compressor = ZstdCompressor::new(6);
    let compressed = compressor.transform(b"abcdefg", true);
    // the magic number of a zstd frame
    assert_eq!(&compressed[..4], &[0x28, 0xb5, 0x2f, 0xfd]);
    assert_eq!(compressor.total_in(), 7);
    assert_eq!(compressor.total_out(), compressed.len());

    let mut decompressor = ZstdDecompressor::new();
    let plain = decompressor.transform(&compressed, true).unwrap();
    assert_eq!(&plain[..], b"abcdefg");
    assert_eq!(decompressor.total_in(), compressed.len());
    assert_eq!(decompressor.total_out(), 7);
}

#[test]
fn gzip_round_trip_in_one_chunk() {
    let body = sample(50_000);
    let (wire, back) = through(&mut Compressor::new(6), &mut Decompressor::new(), &[body.clone()]);
    assert!(wire.len() < body.len());
    assert_eq!(back, body);
}

#[test]
fn gzip_round_trip_in_chunks() {
    let body = sample(200_000);
    for cuts in [
        vec![1],
        vec![0, 0, 5, 5, 100_000],
        vec![3, 70_000, 70_001, 199_999],
        vec![200_000],
        vec![65_536, 131_072],
    ] {
        let pieces = split(&body, &cuts);
        let (_, back) = through(&mut Compressor::new(6), &mut Decompressor::new(), &pieces);
        assert_eq!(back, body);
    }
}

#[test]
fn zstd_round_trip_in_one_chunk() {
    let body = sample(50_000);
    let (wire, back) =
        through(&mut ZstdCompressor::new(6), &mut ZstdDecompressor::new(), &[body.clone()]);
    assert!(wire.len() < body.len());
    assert_eq!(back, body);
}

#[test]
fn zstd_round_trip_in_chunks() {
    let body = sample(400_000);
    for cuts in [
        vec![1],
        vec![0, 0, 5, 5, 100_000],
        vec![3, 70_000, 70_001, 399_999],
        vec![400_000],
        vec![131_072, 262_144],
    ] {
        let pieces = split(&body, &cuts);
        let (_, back) =
            through(&mut ZstdCompressor::new(6), &mut ZstdDecompressor::new(), &pieces);
        assert_eq!(back, body);
    }
}

#[test]
fn round_trip_of_an_empty_body() {
    let (wire, back) = through(&mut Compressor::new(6), &mut Decompressor::new(), &[vec![]]);
    assert!(!wire.is_empty());
    assert!(back.is_empty());
    let (wire, back) =
        through(&mut ZstdCompressor::new(6), &mut ZstdDecompressor::new(), &[vec![]]);
    assert!(!wire.is_empty());
    assert!(back.is_empty());
}

#[test]
fn round_trip_of_a_body_that_grows_much() {
    // one short compressed chunk that decodes to far more than any buffer
    // that was reserved for it
    let body = vec![0u8; 3_000_000];
    let (wire, back) = through(&mut Compressor::new(9), &mut Decompressor::new(), &[body.clone()]);
    assert!(wire.len() < 10_000);
    assert_eq!(back, body);
    let (wire, back) =
        through(&mut ZstdCompressor::new(19), &mut ZstdDecompressor::new(), &[body.clone()]);
    assert!(wire.len() < 10_000);
    assert_eq!(back, body);
}

#[test]
fn chunking_does_not_change_what_is_decoded() {
    let body = sample(150_000);
    let pieces = split(&body, &[10, 20_000, 20_001, 90_000]);

    let mut whole = Compressor::new(6);
    let one = whole.transform(&body, true);
    let mut parts = Compressor::new(6);
    let mut many = Vec::new();
    for (i, piece) in pieces.iter().enumerate() {
        many.extend_from_slice(&parts.transform(piece, i + 1 == pieces.len()));
    }
    assert_eq!(&Decompressor::new().transform(&one, true).unwrap()[..], &body[..]);
    assert_eq!(&Decompressor::new().transform(&many, true).unwrap()[..], &body[..]);

    let mut whole = ZstdCompressor::new(6);
    let one = whole.transform(&body, true);
    let mut parts = ZstdCompressor::new(6);
    let mut many = Vec::new();
    for (i, piece) in pieces.iter().enumerate() {
        many.extend_from_slice(&parts.transform(piece, i + 1 == pieces.len()));
    }
    assert_eq!(&ZstdDecompressor::new().transform(&one, true).unwrap()[..], &body[..]);
    assert_eq!(&ZstdDecompressor::new().transform(&many, true).unwrap()[..], &body[..]);
}

#[test]
fn same_calls_give_same_bytes() {
    let body = sample(30_000);
    let pieces = split(&body, &[100, 20_000]);
    let mut a = Compressor::new(6);
    let mut b = Compressor::new(6);
    for (i, piece) in pieces.iter().enumerate() {
        let end = i + 1 == pieces.len();
        assert_eq!(a.transform(piece, end), b.transform(piece, end));
    }
    let mut a = ZstdCompressor::new(6);
    let mut b = ZstdCompressor::new(6);
    for (i, piece) in pieces.iter().enumerate() {
        let end = i + 1 == pieces.len();
        assert_eq!(a.transform(piece, end), b.transform(piece, end));
    }
}

#[test]
fn counters_count_what_went_in_and_out() {
    let body = sample(100_000);
    let pieces = split(&body, &[0, 3, 3, 40_000, 99_000]);

    let mut c = Compressor::new(6);
    let mut d = Decompressor::new();
    let mut zc = ZstdCompressor::new(6);
    let mut zd = ZstdDecompressor::new();
    let (mut fed, mut packed, mut zpacked, mut plain, mut zplain) = (0, 0, 0, 0, 0);
    for (i, piece) in pieces.iter().enumerate() {
        let end = i + 1 == pieces.len();
        let out = c.transform(piece, end);
        let zout = zc.transform(piece, end);
        fed += piece.len();
        packed += out.len();
        zpacked += zout.len();
        assert_eq!(c.total_in(), fed);
        assert_eq!(c.total_out(), packed);
        assert_eq!(zc.total_in(), fed);
        assert_eq!(zc.total_out(), zpacked);

        plain += d.transform(&out, end).unwrap().len();
        zplain += zd.transform(&zout, end).unwrap().len();
        assert_eq!(d.total_in(), packed);
        assert_eq!(d.total_out(), plain);
        assert_eq!(zd.total_in(), zpacked);
        assert_eq!(zd.total_out(), zplain);
    }
    assert_eq!(fed, 100_000);
    assert_eq!(plain, 100_000);
    assert_eq!(zplain, 100_000);
}

#[test]
fn counters_of_three_known_chunks() {
    let mut c = Compressor::new(6);
    let a = c.transform(b"abc", false);
    assert_eq!((c.total_in(), c.total_out()), (3, a.len()));
    let b = c.transform(b"", false);
    assert_eq!((c.total_in(), c.total_out()), (3, a.len() + b.len()));
    let e = c.transform(b"defgh", true);
    assert_eq!((c.total_in(), c.total_out()), (8, a.len() + b.len() + e.len()));
}

#[test]
fn empty_chunk_that_is_not_the_last_does_nothing() {
    let mut c = Compressor::new(6);
    let mut zc = ZstdCompressor::new(6);
    let mut d = Decompressor::new();
    let mut zd = ZstdDecompressor::new();
    for _ in 0..5 {
        assert!(c.transform(b"", false).is_empty());
        assert!(zc.transform(b"", false).is_empty());
        assert!(d.transform(b"", false).unwrap().is_empty());
        assert!(zd.transform(b"", false).unwrap().is_empty());
    }
    assert_eq!((c.total_in(), c.total_out(), c.is_closed()), (0, 0, false));
    assert_eq!((zc.total_in(), zc.total_out(), zc.is_closed()), (0, 0, false));
    assert_eq!((d.total_in(), d.total_out(), d.is_closed()), (0, 0, false));
    assert_eq!((zd.total_in(), zd.total_out(), zd.is_closed()), (0, 0, false));
}

#[test]
fn empty_chunks_between_others_leave_the_stream_as_it_is() {
    let body = sample(20_000);
    let mut plain = Compressor::new(6);
    let mut idle = Compressor::new(6);
    let first = plain.transform(&body[..9_000], false);
    let second = plain.transform(&body[9_000..], true);

    assert!(idle.transform(b"", false).is_empty());
    assert_eq!(idle.transform(&body[..9_000], false), first);
    let before = (idle.total_in(), idle.total_out());
    for _ in 0..3 {
        assert!(idle.transform(b"", false).is_empty());
        assert_eq!((idle.total_in(), idle.total_out()), before);
    }
    assert_eq!(idle.transform(&body[9_000..], true), second);
}

#[test]
fn empty_last_chunk_flushes() {
    let mut c = Compressor::new(6);
    let head = c.transform(b"abcdefg", false);
    let tail = c.transform(b"", true);
    assert!(!tail.is_empty());
    assert!(c.is_closed());
    assert_eq!(c.total_in(), 7);
    assert_eq!(c.total_out(), head.len() + tail.len());

    let mut wire = head.to_vec();
    wire.extend_from_slice(&tail);
    let mut d = Decompressor::new();
    assert_eq!(&d.transform(&wire, true).unwrap()[..], b"abcdefg");
}

#[test]
fn gunzip_rejects_what_is_no_gzip() {
    let mut d = Decompressor::new();
    let err = d.transform(b"this is no gzip stream at all", false).unwrap_err();
    assert_eq!(err.format(), Format::Gzip);
    assert_eq!(err.context(), "while decompress Gzip");
    assert!(err.into_cause().is_some());
    assert!(d.is_closed());
    assert_eq!((d.total_in(), d.total_out()), (0, 0));
    assert!(d.get_ref().is_empty());
}

#[test]
fn gunzip_rejects_a_stream_cut_short() {
    let body = sample(10_000);
    let wire = Compressor::new(6).transform(&body, true);
    let mut d = Decompressor::new();
    let first = d.transform(&wire[..10], false).unwrap();
    let counted = (d.total_in(), d.total_out());
    assert_eq!(counted, (10, first.len()));
    let err = d.transform(&wire[10..wire.len() - 4], true).unwrap_err();
    assert_eq!(err.format(), Format::Gzip);
    assert!(d.is_closed());
    assert_eq!((d.total_in(), d.total_out()), counted);
    assert!(d.get_ref().is_empty());
}

#[test]
fn gunzip_rejects_a_wrong_checksum() {
    let mut wire = Compressor::new(6).transform(b"abcdefg", true).to_vec();
    let at = wire.len() - 8;
    wire[at] ^= 0xff;
    let mut d = Decompressor::new();
    assert!(d.encode(&wire, true).is_err());
    assert!(d.is_closed());
}

#[test]
fn gunzip_rejects_an_empty_stream() {
    let mut d = Decompressor::new();
    assert!(d.transform(b"", true).is_err());
    assert!(d.is_closed());
}

#[test]
fn unzstd_rejects_what_is_no_zstd() {
    let mut d = ZstdDecompressor::new();
    let err = d.transform(b"this is no zstd frame at all", false).unwrap_err();
    assert_eq!(err.format(), Format::Zstd);
    assert_eq!(err.context(), "while decompress Zstd");
    assert!(d.is_closed());
    assert_eq!((d.total_in(), d.total_out()), (0, 0));
    let cause = err.into_cause().unwrap();
    assert!(!cause.to_string().is_empty());
}

#[test]
fn unzstd_rejects_what_follows_the_frame() {
    let mut wire = ZstdCompressor::new(6).transform(b"abcdefg", true).to_vec();
    wire.extend_from_slice(b"and more");
    let mut d = ZstdDecompressor::new();
    assert!(d.transform(&wire, true).is_err());
    assert!(d.is_closed());
    assert_eq!((d.total_in(), d.total_out()), (0, 0));
}

#[test]
fn gunzip_rejects_what_follows_the_stream() {
    let mut wire = Compressor::new(6).transform(b"abcdefg", true).to_vec();
    wire.extend_from_slice(b"and more");
    let mut d = Decompressor::new();
    assert!(d.transform(&wire, true).is_err());
    assert!(d.is_closed());
    assert_eq!((d.total_in(), d.total_out()), (0, 0));
    assert!(d.get_ref().is_empty());
}

#[test]
fn unzstd_rejects_a_frame_cut_short() {
    let body = sample(100_000);
    let wire = ZstdCompressor::new(6).transform(&body, true);
    for cut in [1, 4, wire.len() / 2, wire.len() - 1] {
        let mut d = ZstdDecompressor::new();
        let err = d.transform(&wire[..wire.len() - cut], true).unwrap_err();
        assert_eq!(err.format(), Format::Zstd);
        // the decoder itself reported nothing: the stream just stopped
        assert!(err.into_cause().is_none());
        assert!(d.is_closed());
        assert_eq!((d.total_in(), d.total_out()), (0, 0));
    }
}

#[test]
fn unzstd_rejects_a_stream_cut_short_at_a_later_chunk() {
    let body = sample(300_000);
    let wire = ZstdCompressor::new(6).transform(&body, true);
    let mut d = ZstdDecompressor::new();
    let first = d.transform(&wire[..1000], false).unwrap();
    let counted = (d.total_in(), d.total_out());
    assert_eq!(counted, (1000, first.len()));
    assert_eq!(&first[..], &body[..first.len()]);
    assert!(d.transform(&wire[1000..wire.len() - 3], true).is_err());
    assert!(d.is_closed());
    assert_eq!((d.total_in(), d.total_out()), counted);

    // the same stream, whole, and ended by an empty last chunk
    let mut d = ZstdDecompressor::new();
    let mut back = d.transform(&wire[..1000], false).unwrap().to_vec();
    back.extend_from_slice(&d.transform(&wire[1000..], false).unwrap());
    assert!(d.transform(b"", true).unwrap().is_empty());
    assert_eq!(back, body);
    assert!(d.is_closed());

    // ended by an empty last chunk before its end
    let mut d = ZstdDecompressor::new();
    d.transform(&wire[..1000], false).unwrap();
    assert!(d.transform(b"", true).is_err());
}

#[test]
fn unzstd_rejects_an_empty_stream() {
    let mut d = ZstdDecompressor::new();
    let err = d.transform(b"", true).unwrap_err();
    assert!(err.into_cause().is_none());
    assert!(d.is_closed());
}

#[test]
fn zstd_round_trip_of_bodies_that_fill_the_room() {
    for len in [32 * 1024 - 1, 32 * 1024, 32 * 1024 + 1, 64 * 1024, 96 * 1024, 128 * 1024] {
        let body = sample(len);
        let (_, back) =
            through(&mut ZstdCompressor::new(6), &mut ZstdDecompressor::new(), &[body.clone()]);
        assert_eq!(back, body);
        let zeros = vec![0u8; len];
        let (_, back) =
            through(&mut ZstdCompressor::new(6), &mut ZstdDecompressor::new(), &[zeros.clone()]);
        assert_eq!(back, zeros);
    }
}

#[test]
fn unzstd_takes_a_stream_byte_by_byte() {
    for body in [sample(70_000), vec![0u8; 1_000_000], vec![]] {
        let wire = ZstdCompressor::new(6).transform(&body, true);
        let mut d = ZstdDecompressor::new();
        let mut back = Vec::new();
        for (i, byte) in wire.iter().enumerate() {
            let end = i + 1 == wire.len();
            back.extend_from_slice(&d.transform(&[*byte], end).unwrap());
            assert_eq!(d.total_in(), i + 1);
            assert_eq!(d.total_out(), back.len());
        }
        assert_eq!(back, body);
        assert!(d.is_closed());
    }
}

#[test]
fn unzstd_takes_a_stream_in_uneven_pieces() {
    let body = sample(1_500_000);
    let wire = ZstdCompressor::new(3).transform(&body, true);
    let mut step = 1;
    let mut from = 0;
    let mut d = ZstdDecompressor::new();
    let mut back = Vec::new();
    while from < wire.len() {
        let to = usize::min(wire.len(), from + step);
        back.extend_from_slice(&d.transform(&wire[from..to], to == wire.len()).unwrap());
        from = to;
        step = step * 3 + 1;
    }
    assert_eq!(back, body);
}

#[test]
fn unzstd_takes_two_long_frames_in_a_row() {
    let first = sample(200_000);
    let second = vec![7u8; 32 * 1024];
    let mut wire = ZstdCompressor::new(6).transform(&first, true).to_vec();
    wire.extend_from_slice(&ZstdCompressor::new(3).transform(&second, true));
    let mut d = ZstdDecompressor::new();
    let back = d.transform(&wire, true).unwrap();
    assert_eq!(&back[..200_000], &first[..]);
    assert_eq!(&back[200_000..], &second[..]);
}

#[test]
fn unzstd_takes_two_frames_in_a_row() {
    let mut wire = ZstdCompressor::new(6).transform(b"abcdefg", true).to_vec();
    wire.extend_from_slice(&ZstdCompressor::new(3).transform(b"hijklmn", true));
    let mut d = ZstdDecompressor::new();
    assert_eq!(&d.transform(&wire, true).unwrap()[..], b"abcdefghijklmn");
}

#[test]
fn compression_never_fails() {
    for body in [&b""[..], &b"a"[..], &sample(70_000)[..]] {
        assert!(Compressor::new(0).encode(body, true).is_ok());
        assert!(Compressor::new(9).encode(body, true).is_ok());
        assert!(ZstdCompressor::new(-5).encode(body, true).is_ok());
        assert!(ZstdCompressor::new(0).encode(body, true).is_ok());
        assert!(ZstdCompressor::new(22).encode(body, true).is_ok());
        assert!(ZstdCompressor::new(1000).encode(body, true).is_ok());
    }
}

#[test]
fn stat_names_the_codec_and_gives_the_counters() {
    let mut c = Compressor::new(6);
    let wire = c.encode(b"abcdefg", true).unwrap();
    let (name, total_in, total_out, _) = c.stat();
    assert_eq!((name, total_in, total_out), ("gzip", 7, wire.len()));

    let mut d = Decompressor::new();
    d.encode(&wire, true).unwrap();
    let (name, total_in, total_out, _) = d.stat();
    assert_eq!((name, total_in, total_out), ("de-gzip", wire.len(), 7));

    let mut c = ZstdCompressor::new(6);
    let wire = c.encode(b"abcdefg", true).unwrap();
    let (name, total_in, total_out, _) = c.stat();
    assert_eq!((name, total_in, total_out), ("zstd", 7, wire.len()));

    let mut d = ZstdDecompressor::new();
    d.encode(&wire, true).unwrap();
    let (name, total_in, total_out, _) = d.stat();
    assert_eq!((name, total_in, total_out), ("de-zstd", wire.len(), 7));
}

#[test]
fn time_spent_never_goes_down() {
    let mut c = Compressor::new(6);
    let before = c.stat().3;
    c.transform(&sample(100_000), false);
    let between = c.stat().3;
    c.transform(&sample(100_000), true);
    let after = c.stat().3;
    assert!(before <= between);
    assert!(between <= after);
}

#[test]
fn a_fresh_codec_has_spent_no_time() {
    let none = std::time::Duration::new(0, 0);
    assert_eq!(Compressor::new(6).stat(), ("gzip", 0, 0, none));
    assert_eq!(Decompressor::new().stat(), ("de-gzip", 0, 0, none));
    assert_eq!(ZstdCompressor::new(6).stat(), ("zstd", 0, 0, none));
    assert_eq!(ZstdDecompressor::new().stat(), ("de-zstd", 0, 0, none));
}

#[test]
fn two_readings_in_a_row_agree() {
    let mut c = Compressor::new(6);
    let wire = c.transform(&sample(50_000), true);
    assert_eq!(c.stat(), c.stat());
    let mut d = Decompressor::new();
    d.transform(&wire, true).unwrap();
    assert_eq!(d.stat(), d.stat());
    let mut d = ZstdDecompressor::new();
    assert!(d.transform(b"no frame", true).is_err());
    assert_eq!(d.stat(), ("de-zstd", 0, 0, std::time::Duration::new(0, 0)));
}

#[test]
fn a_fresh_codec_has_counted_nothing() {
    assert_eq!(Compressor::new(6).stat().1, 0);
    assert_eq!(Compressor::new(6).stat().2, 0);
    assert!(!Compressor::new(6).is_closed());
    assert!(Compressor::new(6).get_ref().is_empty());
    assert_eq!(Decompressor::new().total_in(), 0);
    assert!(!Decompressor::new().is_closed());
    assert_eq!(ZstdCompressor::new(6).total_out(), 0);
    assert!(!ZstdCompressor::new(6).is_closed());
    assert_eq!(ZstdDecompressor::new().total_out(), 0);
    assert!(!ZstdDecompressor::new().is_closed());
}

#[test]
fn a_compressor_reserves_the_chunk_up_to_16k() {
    assert_eq!(MAX_INIT_COMPRESSED_BUF_SIZE, 16384);
    assert_eq!(compress_reserve(0), 0);
    assert_eq!(compress_reserve(100), 100);
    assert_eq!(compress_reserve(16383), 16383);
    assert_eq!(compress_reserve(16384), 16384);
    assert_eq!(compress_reserve(16385), 16384);
    assert_eq!(compress_reserve(usize::MAX), 16384);
}

#[test]
fn a_decompressor_reserves_a_multiple_below_4k_only() {
    assert_eq!(MAX_INIT_COMPRESSED_SIZE_CAP, 4096);
    assert_eq!(ESTIMATED_COMPRESSION_RATIO, 3);
    assert_eq!(ESTIMATED_ZSTD_RATIO, 2);
    assert_eq!(decompress_reserve(Format::Gzip, 0), 0);
    assert_eq!(decompress_reserve(Format::Gzip, 100), 300);
    assert_eq!(decompress_reserve(Format::Gzip, 4095), 12285);
    assert_eq!(decompress_reserve(Format::Gzip, 4096), 4096);
    assert_eq!(decompress_reserve(Format::Gzip, usize::MAX), usize::MAX);
    assert_eq!(decompress_reserve(Format::Zstd, 100), 200);
    assert_eq!(decompress_reserve(Format::Zstd, 4095), 8190);
    assert_eq!(decompress_reserve(Format::Zstd, 4096), 4096);
    assert_eq!(decompress_reserve(Format::Zstd, usize::MAX), usize::MAX);
}

#[test]
fn format_tokens() {
    assert_eq!(Format::Gzip.name(), "gzip");
    assert_eq!(Format::Zstd.name(), "zstd");
    assert_ne!(Format::Gzip, Format::Zstd);
}
