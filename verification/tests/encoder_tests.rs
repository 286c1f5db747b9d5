use tinyavif::array2d::Array2D;
use tinyavif::av1_encoder::AV1Encoder;
use tinyavif::isobmff::ISOBMFFWriter;
use tinyavif::recon::dequantize;
use tinyavif::recon::quantize;
use tinyavif::txfm::fwd_txfm2d;
use tinyavif::txfm::inv_txfm2d;
use tinyavif::util::ceil_log2;
use tinyavif::util::floor_log2;
use tinyavif::util::max;
use tinyavif::util::min;
use tinyavif::util::round2;
use tinyavif::util::round2_signed;
use tinyavif::frame::Frame;
use tinyavif::hls::pack_obus;
use tinyavif::hls::pack_avif;
use tinyavif::util::write_leb128;
use tinyavif::util::get_prob;
use tinyavif::cdf::partition_64x64_cdf;
use tinyavif::cdf::y_mode_cdf;

fn gray_frame(w: usize, h: usize, y: u8, u: u8, v: u8) -> Frame {
    let mut f = Frame::new(h, w);
    let ys = vec![y; w * h];
    let uw = (w + 1) / 2;
    let uh = (h + 1) / 2;
    let us = vec![u; uw * uh];
    let vs = vec![v; uw * uh];
    f.y_mut().read_from(&ys, 0);
    f.u_mut().read_from(&us, 0);
    f.v_mut().read_from(&vs, 0);
    f
}

fn encode_obu(w: usize, h: usize, y: u8, q: u8) -> Vec<u8> {
    let f = gray_frame(w, h, y, 128, 128);
    let enc = AV1Encoder::new(w, h);
    let seq = enc.generate_sequence_header();
    let fh = enc.generate_frame_header(q, false);
    let tile = enc.encode_image(&f, q);
    pack_obus(&seq, &fh, &tile, true)
}

#[test]
fn leb128_boundaries() {
    // payload sizes 0, 127, 128, 16383, 16384 round-trip to their encodings
    let cases: Vec<(usize, Vec<u8>)> = vec![
        (0, vec![0x00]),
        (127, vec![0x7F]),
        (128, vec![0x80, 0x01]),
        (16383, vec![0xFF, 0x7F]),
        (16384, vec![0x80, 0x80, 0x01]),
    ];
    for (v, expect) in cases {
        let mut out = Vec::new();
        write_leb128(&mut out, v);
        assert_eq!(out, expect);
    }
}

#[test]
fn get_prob_sums_to_32768() {
    for ctx in 0..4 {
        let cdf = &partition_64x64_cdf[ctx];
        let mut sum: u32 = 0;
        for s in 0..=cdf.len() {
            sum += get_prob(s, cdf) as u32;
        }
        assert_eq!(sum, 32768);
    }
    let mut sum: u32 = 0;
    for s in 0..=y_mode_cdf.len() {
        sum += get_prob(s, &y_mode_cdf) as u32;
    }
    assert_eq!(sum, 32768);
}

#[test]
fn quantize_dequantize_idempotent() {
    let mut a = Array2D::<i32>::zeroed(8, 8);
    let vals = [37i32, -205, 4, 0, 999, -1, 63, -3000];
    for i in 0..8 {
        a.set(i, i, vals[i]);
    }
    let mut q1 = a;
    quantize(&mut q1, 100);
    let mut qd = q1.transpose().transpose(); // copy
    dequantize(&mut qd, 100);
    quantize(&mut qd, 100);
    for i in 0..8 {
        for j in 0..8 {
            assert_eq!(q1.get(i, j), qd.get(i, j));
        }
    }
}

#[test]
fn sequence_header_non_multiple_of_8() {
    // crop 37x21: 16-bit fields hold 36 and 20
    let enc = AV1Encoder::new(37, 21);
    let seq = enc.generate_sequence_header();
    assert_eq!(seq, vec![31, 255, 192, 9, 0, 5, 0, 0, 128]);
}

#[test]
fn frame_header_padded_40x24() {
    let enc = AV1Encoder::new(37, 21);
    let fh = enc.generate_frame_header(50, false);
    assert_eq!(fh, vec![147, 32, 0, 0, 16]);
}

#[test]
fn obu_stream_prefix() {
    // the stream begins with a temporal delimiter, then the sequence OBU
    let out = encode_obu(64, 64, 200, 200);
    assert_eq!(out[0], 0x12);
    assert_eq!(out[1], 0x00);
    assert_eq!(out[2], 0x0A);
}

#[test]
fn obu_payload_sizes_match() {
    let f = gray_frame(8, 8, 128, 128, 128);
    let enc = AV1Encoder::new(8, 8);
    let seq = enc.generate_sequence_header();
    let fh = enc.generate_frame_header(100, false);
    let tile = enc.encode_image(&f, 100);
    let out = pack_obus(&seq, &fh, &tile, true);
    // parse the LEB128 after the sequence-header OBU byte
    let mut pos = 3;
    let mut len: usize = 0;
    let mut shift = 0;
    loop {
        let b = out[pos];
        pos += 1;
        len |= ((b & 0x7F) as usize) << shift;
        shift += 7;
        if b & 0x80 == 0 {
            break;
        }
    }
    assert_eq!(len, seq.len());
    assert_eq!(&out[pos..pos + len], &seq[..]);
    let frame_hdr_byte = out[pos + len];
    assert_eq!(frame_hdr_byte, 0x32);
    let mut pos2 = pos + len + 1;
    let mut len2: usize = 0;
    let mut shift2 = 0;
    loop {
        let b = out[pos2];
        pos2 += 1;
        len2 |= ((b & 0x7F) as usize) << shift2;
        shift2 += 7;
        if b & 0x80 == 0 {
            break;
        }
    }
    assert_eq!(len2, fh.len() + tile.len());
    assert_eq!(pos2 + len2, out.len());
}

#[test]
fn avif_starts_with_ftyp() {
    let out = encode_obu(64, 64, 200, 200);
    let avif = pack_avif(&out, 64, 64, 2, 2, 2);
    // 4-byte big-endian size of the ftyp box, then ASCII "ftyp"
    let size = u32::from_be_bytes([avif[0], avif[1], avif[2], avif[3]]) as usize;
    assert_eq!(&avif[4..8], b"ftyp");
    assert_eq!(size, 8 + 4 + 4 + 16);
    // the mdat payload is the OBU stream, at the offset the iloc points to
    assert!(avif.len() > out.len());
    let tail = &avif[avif.len() - out.len()..];
    assert_eq!(tail, &out[..]);
}

#[test]
fn tiny_solid_gray() {
    // crop 8x8, every pixel 128, qindex 100: a small nonempty stream
    let out = encode_obu(8, 8, 128, 100);
    assert_eq!(out[0], 0x12);
    assert!(out.len() > 10);
}

#[test]
fn partition_edge_72x64() {
    // one full superblock, then a partial superblock at x = 64
    let out = encode_obu(72, 64, 90, 50);
    assert!(out.len() > 10);
    let avif = pack_avif(&out, 72, 64, 2, 2, 2);
    assert_eq!(&avif[4..8], b"ftyp");
}

#[test]
fn padding_replicates_edges() {
    let mut f = Frame::new(21, 37);
    let mut ys = vec![0u8; 37 * 21];
    for r in 0..21 {
        for c in 0..37 {
            ys[r * 37 + c] = (r * 37 + c) as u8;
        }
    }
    f.y_mut().read_from(&ys, 0);
    let y = f.y();
    assert_eq!(y.width(), 40);
    assert_eq!(y.height(), 24);
    for r in 0..24 {
        for c in 0..40 {
            let rr = if r < 21 { r } else { 20 };
            let cc = if c < 37 { c } else { 36 };
            assert_eq!(y.get(r, c), ys[rr * 37 + cc]);
        }
    }
}

#[test]
fn be_writer_orders_bytes() {
    let mut w = ISOBMFFWriter::new();
    w.write_u32(0x01020304);
    w.write_u16(0x0506);
    w.write_u8(0x07);
    let out = w.finalize();
    assert_eq!(out, vec![1, 2, 3, 4, 5, 6, 7]);
}

#[test]
fn box_sizes_are_patched() {
    let mut w = ISOBMFFWriter::new();
    w.open_box(&[0x61, 0x62, 0x63, 0x64]);
    w.write_u32(0);
    w.close_box();
    let out = w.finalize();
    assert_eq!(out.len(), 12);
    assert_eq!(u32::from_be_bytes([out[0], out[1], out[2], out[3]]), 12);
    assert_eq!(&out[4..8], b"abcd");
}

#[test]
fn dct_round_trip_within_tolerance() {
    let mut a = Array2D::<i32>::zeroed(8, 8);
    for i in 0..8 {
        for j in 0..8 {
            a.set(i, j, ((i * 31 + j * 7) % 255) as i32 - 128);
        }
    }
    let orig = a.transpose().transpose();
    fwd_txfm2d(&mut a, 8, 8);
    inv_txfm2d(&mut a, 8, 8);
    for i in 0..8 {
        for j in 0..8 {
            let d = (a.get(i, j) - orig.get(i, j)).abs();
            assert!(d <= 2, "round-trip error {} at ({}, {})", d, i, j);
        }
    }
}

#[test]
fn leb128_larger_values() {
    let mut out = Vec::new();
    write_leb128(&mut out, (1usize << 56) - 1);
    assert_eq!(out.len(), 8);
    let mut v: usize = 0;
    for (k, b) in out.iter().enumerate() {
        v |= ((b & 0x7F) as usize) << (7 * k);
        if b & 0x80 == 0 {
            break;
        }
    }
    assert_eq!(v, (1usize << 56) - 1);
}

#[test]
fn min_max_and_logs() {
    assert_eq!(min(3usize, 5usize), 3);
    assert_eq!(max(3i32, -5i32), 3);
    assert_eq!(ceil_log2(1u32), 0);
    assert_eq!(ceil_log2(33u32), 6);
    assert_eq!(floor_log2(33u32), 5);
    assert_eq!(round2(37usize, 1), 19);
    assert_eq!(round2(-5i32, 1), -2);
    assert_eq!(round2_signed(-5i32, 1), -3);
}
