use vstd::prelude::*;

verus! {

use crate::util::leb_bytes;
use crate::util::leb_decode;
use crate::util::lemma_leb_round_trip;
use crate::util::write_leb128;

// High-level syntax: OBU framing.

/// The header byte of a temporal-delimiter OBU, and its empty payload size.
pub open spec fn spec_td_bytes() -> Seq<u8> {
    seq![0x12u8, 0x00u8]
}

/// The packed OBU stream: an optional temporal delimiter, the sequence
/// header OBU with its LEB128 payload size, and a FRAME OBU holding the
/// frame header and tile data with the LEB128 size of both.
pub open spec fn spec_pack_obus(
    sequence_header: Seq<u8>,
    frame_header: Seq<u8>,
    tile_data: Seq<u8>,
    include_temporal_delimiter: bool,
) -> Seq<u8> {
    (if include_temporal_delimiter {
        spec_td_bytes()
    } else {
        Seq::empty()
    }) + seq![0x0Au8] + leb_bytes(sequence_header.len()) + sequence_header + seq![0x32u8]
        + leb_bytes(frame_header.len() + tile_data.len()) + frame_header + tile_data
}

/// Concatenate the OBUs of one still image.
pub fn pack_obus(
    sequence_header: &Vec<u8>,
    frame_header: &Vec<u8>,
    tile_data: &Vec<u8>,
    include_temporal_delimiter: bool,
) -> (r: Vec<u8>)
    requires
        frame_header@.len() + tile_data@.len() <= usize::MAX,
    ensures
        r@ == spec_pack_obus(
            sequence_header@,
            frame_header@,
            tile_data@,
            include_temporal_delimiter,
        ),
{
    let mut av1_data: Vec<u8> = Vec::new();
    if include_temporal_delimiter {
        av1_data.push(0b0001_0010);  // temporal delimiter OBU
        av1_data.push(0u8);  // with a zero-byte payload
    }
    proof {
        assert(av1_data@ =~= if include_temporal_delimiter {
            spec_td_bytes()
        } else {
            Seq::<u8>::empty()
        });
    }
    av1_data.push(0b0000_1010);  // sequence header OBU
    write_leb128(&mut av1_data, sequence_header.len());
    append_bytes(&mut av1_data, sequence_header);
    av1_data.push(0b0011_0010);  // FRAME OBU: frame header plus tile data
    write_leb128(&mut av1_data, frame_header.len() + tile_data.len());
    append_bytes(&mut av1_data, frame_header);
    append_bytes(&mut av1_data, tile_data);
    proof {
        assert(av1_data@ =~= spec_pack_obus(
            sequence_header@,
            frame_header@,
            tile_data@,
            include_temporal_delimiter,
        ));
    }
    av1_data
}

fn append_bytes(dst: &mut Vec<u8>, src: &Vec<u8>)
    ensures
        final(dst)@ == old(dst)@ + src@,
{
    let n = src.len();
    let mut i: usize = 0;
    while i < n
        invariant
            n == src@.len(),
            i <= n,
            dst@ == old(dst)@ + src@.take(i as int),
        decreases n - i,
    {
        let b = src[i];
        dst.push(b);
        proof {
            assert(old(dst)@ + src@.take(i as int) + seq![src@[i as int]] =~= old(dst)@
                + src@.take(i + 1));
        }
        i = i + 1;
    }
    proof {
        assert(src@.take(n as int) =~= src@);
    }
}

/// The stream begins with a temporal-delimiter OBU, and the bytes that
/// follow the sequence-header OBU's LEB128 size are exactly the header
/// builder's output.
pub proof fn lemma_obu_stream_layout(
    sequence_header: Seq<u8>,
    frame_header: Seq<u8>,
    tile_data: Seq<u8>,
)
    ensures
        ({
            let r = spec_pack_obus(sequence_header, frame_header, tile_data, true);
            let lseq = leb_bytes(sequence_header.len());
            &&& r.len() >= 2
            &&& r[0] == 0x12
            &&& r[1] == 0x00
            &&& r[2] == 0x0A
            &&& r.subrange(3, 3 + lseq.len() as int) == lseq
            &&& r.subrange(
                3 + lseq.len() as int,
                3 + lseq.len() + sequence_header.len() as int,
            ) == sequence_header
        }),
{
    let r = spec_pack_obus(sequence_header, frame_header, tile_data, true);
    let lseq = leb_bytes(sequence_header.len());
    lemma_leb_round_trip(sequence_header.len());
    assert(r.subrange(3, 3 + lseq.len() as int) =~= lseq);
    assert(r.subrange(3 + lseq.len() as int, 3 + lseq.len() + sequence_header.len() as int)
        =~= sequence_header);
}

/// Every LEB128 length in the packed stream decodes back to the byte count
/// of the payload that follows it.
pub proof fn lemma_obu_payload_sizes(
    sequence_header: Seq<u8>,
    frame_header: Seq<u8>,
    tile_data: Seq<u8>,
    include_temporal_delimiter: bool,
)
    ensures
        ({
            let r = spec_pack_obus(
                sequence_header,
                frame_header,
                tile_data,
                include_temporal_delimiter,
            );
            let td: int = if include_temporal_delimiter {
                2
            } else {
                0
            };
            let lseq = leb_bytes(sequence_header.len());
            let lframe = leb_bytes(frame_header.len() + tile_data.len());
            &&& leb_decode(lseq) == r.len() - (td + 1 + lseq.len()) - (1 + lframe.len()
                + frame_header.len() + tile_data.len())
            &&& leb_decode(lseq) == sequence_header.len()
            &&& leb_decode(lframe) == frame_header.len() + tile_data.len()
            &&& r.len() == td + 1 + lseq.len() + sequence_header.len() + 1 + lframe.len()
                + frame_header.len() + tile_data.len()
        }),
{
    lemma_leb_round_trip(sequence_header.len());
    lemma_leb_round_trip(frame_header.len() + tile_data.len());
}


use crate::isobmff::ISOBMFFWriter;
use crate::isobmff::sp_open;
use crate::isobmff::sp_openv;
use crate::isobmff::sp_close;
use crate::isobmff::sp_patch4;
use crate::util::be_bytes;

/// The AVIF container bytes: an ftyp box, a meta box carrying the item
/// tables and image properties, and the mdat box with the packed OBU bytes,
/// whose file position is patched back into the iloc entry.
pub open spec fn spec_pack_avif(
    av1: Seq<u8>,
    crop_w32: int,
    crop_h32: int,
    content_size: int,
    color_primaries: int,
    transfer_function: int,
    matrix_coefficients: int,
) -> Seq<u8> {
    let d0: Seq<u8> = Seq::empty();
    let q0 = d0.len() as int;
    let d1 = sp_open(d0, seq![102u8, 116u8, 121u8, 112u8]);
    let d2 = d1 + seq![97u8, 118u8, 105u8, 102u8];
    let d3 = d2 + be_bytes(0 as nat, 4);
    let d4 = d3 + seq![97u8, 118u8, 105u8, 102u8, 109u8, 105u8, 102u8, 49u8, 109u8, 105u8, 97u8, 102u8, 77u8, 65u8, 49u8, 66u8];
    let d5 = sp_close(d4, q0);
    let q5 = d5.len() as int;
    let d6 = sp_openv(d5, seq![109u8, 101u8, 116u8, 97u8], 0, 0);
    let q6 = d6.len() as int;
    let d7 = sp_openv(d6, seq![104u8, 100u8, 108u8, 114u8], 0, 0);
    let d8 = d7 + be_bytes(0 as nat, 4);
    let d9 = d8 + seq![112u8, 105u8, 99u8, 116u8];
    let d10 = d9 + be_bytes(0 as nat, 4);
    let d11 = d10 + be_bytes(0 as nat, 4);
    let d12 = d11 + be_bytes(0 as nat, 4);
    let d13 = d12 + seq![108u8, 105u8, 98u8, 97u8, 118u8, 105u8, 102u8, 0u8];
    let d14 = sp_close(d13, q6);
    let q14 = d14.len() as int;
    let d15 = sp_openv(d14, seq![112u8, 105u8, 116u8, 109u8], 0, 0);
    let d16 = d15 + be_bytes(1 as nat, 2);
    let d17 = sp_close(d16, q14);
    let q17 = d17.len() as int;
    let d18 = sp_openv(d17, seq![105u8, 108u8, 111u8, 99u8], 0, 0);
    let d19 = d18 + be_bytes(0x44 as nat, 1);
    let d20 = d19 + be_bytes(0 as nat, 1);
    let d21 = d20 + be_bytes(1 as nat, 2);
    let d22 = d21 + be_bytes(1 as nat, 2);
    let d23 = d22 + be_bytes(0 as nat, 2);
    let d24 = d23 + be_bytes(1 as nat, 2);
    let mk = d24.len() as int;
    let d25 = d24 + be_bytes(0, 4);
    let d26 = d25 + be_bytes(content_size as nat, 4);
    let d27 = sp_close(d26, q17);
    let q27 = d27.len() as int;
    let d28 = sp_openv(d27, seq![105u8, 105u8, 110u8, 102u8], 0, 0);
    let d29 = d28 + be_bytes(1 as nat, 2);
    let q29 = d29.len() as int;
    let d30 = sp_openv(d29, seq![105u8, 110u8, 102u8, 101u8], 2, 0);
    let d31 = d30 + be_bytes(1 as nat, 2);
    let d32 = d31 + be_bytes(0 as nat, 2);
    let d33 = d32 + seq![97u8, 118u8, 48u8, 49u8];
    let d34 = d33 + seq![67u8, 111u8, 108u8, 111u8, 114u8, 0u8];
    let d35 = sp_close(d34, q29);
    let d36 = sp_close(d35, q27);
    let q36 = d36.len() as int;
    let d37 = sp_open(d36, seq![105u8, 112u8, 114u8, 112u8]);
    let q37 = d37.len() as int;
    let d38 = sp_open(d37, seq![105u8, 112u8, 99u8, 111u8]);
    let q38 = d38.len() as int;
    let d39 = sp_openv(d38, seq![105u8, 115u8, 112u8, 101u8], 0, 0);
    let d40 = d39 + be_bytes(crop_w32 as nat, 4);
    let d41 = d40 + be_bytes(crop_h32 as nat, 4);
    let d42 = sp_close(d41, q38);
    let q42 = d42.len() as int;
    let d43 = sp_openv(d42, seq![112u8, 105u8, 120u8, 105u8], 0, 0);
    let d44 = d43 + be_bytes(3 as nat, 1);
    let d45 = d44 + be_bytes(8 as nat, 1);
    let d46 = d45 + be_bytes(8 as nat, 1);
    let d47 = d46 + be_bytes(8 as nat, 1);
    let d48 = sp_close(d47, q42);
    let q48 = d48.len() as int;
    let d49 = sp_open(d48, seq![97u8, 118u8, 49u8, 67u8]);
    let d50 = d49 + be_bytes(0x81 as nat, 1);
    let d51 = d50 + be_bytes(0x1F as nat, 1);
    let d52 = d51 + be_bytes(0b00001110 as nat, 1);
    let d53 = d52 + be_bytes(0x10 as nat, 1);
    let d54 = sp_close(d53, q48);
    let q54 = d54.len() as int;
    let d55 = sp_open(d54, seq![99u8, 111u8, 108u8, 114u8]);
    let d56 = d55 + seq![110u8, 99u8, 108u8, 120u8];
    let d57 = d56 + be_bytes(color_primaries as nat, 2);
    let d58 = d57 + be_bytes(transfer_function as nat, 2);
    let d59 = d58 + be_bytes(matrix_coefficients as nat, 2);
    let d60 = d59 + be_bytes(0 as nat, 1);
    let d61 = sp_close(d60, q54);
    let d62 = sp_close(d61, q37);
    let q62 = d62.len() as int;
    let d63 = sp_openv(d62, seq![105u8, 112u8, 109u8, 97u8], 0, 0);
    let d64 = d63 + be_bytes(1 as nat, 4);
    let d65 = d64 + be_bytes(1 as nat, 2);
    let d66 = d65 + be_bytes(4 as nat, 1);
    let d67 = d66 + be_bytes(1 as nat, 1);
    let d68 = d67 + be_bytes(2 as nat, 1);
    let d69 = d68 + be_bytes(0x83 as nat, 1);
    let d70 = d69 + be_bytes(4 as nat, 1);
    let d71 = sp_close(d70, q62);
    let d72 = sp_close(d71, q36);
    let d73 = sp_close(d72, q5);
    let q73 = d73.len() as int;
    let d74 = sp_open(d73, seq![109u8, 100u8, 97u8, 116u8]);
    let cp = d74.len() as int;
    let d75 = d74 + av1;
    let d76 = sp_close(d75, q73);
    sp_patch4(d76, mk, cp)
}

/// Wrap the packed OBU bytes in a minimal AVIF (ISOBMFF) container.
#[verifier::rlimit(100)]
#[verifier::spinoff_prover]
pub fn pack_avif(
    av1_data: &Vec<u8>,
    crop_width: usize,
    crop_height: usize,
    color_primaries: u16,
    transfer_function: u16,
    matrix_coefficients: u16,
) -> (r: Vec<u8>)
    requires
        crop_width <= 65536,
        crop_height <= 65536,
        av1_data@.len() + 1024 <= u32::MAX,
    ensures
        r@ == spec_pack_avif(
            av1_data@,
            crop_width as int,
            crop_height as int,
            av1_data@.len() as int,
            color_primaries as int,
            transfer_function as int,
            matrix_coefficients as int,
        ),
{
    let ghost crop_w32 = crop_width as int;
    let ghost crop_h32 = crop_height as int;
    proof {
        crate::util::lemma_be_bytes_len(0, 4);
        lemma_be_lens();
    }
    let bs_ftyp: [u8; 4] = [102u8, 116u8, 121u8, 112u8];
    let bs_avif: [u8; 4] = [97u8, 118u8, 105u8, 102u8];
    let bs_avifmif1miafma1b: [u8; 16] = [97u8, 118u8, 105u8, 102u8, 109u8, 105u8, 102u8, 49u8, 109u8, 105u8, 97u8, 102u8, 77u8, 65u8, 49u8, 66u8];
    let bs_meta: [u8; 4] = [109u8, 101u8, 116u8, 97u8];
    let bs_hdlr: [u8; 4] = [104u8, 100u8, 108u8, 114u8];
    let bs_pict: [u8; 4] = [112u8, 105u8, 99u8, 116u8];
    let bs_libavif0: [u8; 8] = [108u8, 105u8, 98u8, 97u8, 118u8, 105u8, 102u8, 0u8];
    let bs_pitm: [u8; 4] = [112u8, 105u8, 116u8, 109u8];
    let bs_iloc: [u8; 4] = [105u8, 108u8, 111u8, 99u8];
    let bs_iinf: [u8; 4] = [105u8, 105u8, 110u8, 102u8];
    let bs_infe: [u8; 4] = [105u8, 110u8, 102u8, 101u8];
    let bs_av01: [u8; 4] = [97u8, 118u8, 48u8, 49u8];
    let bs_color0: [u8; 6] = [67u8, 111u8, 108u8, 111u8, 114u8, 0u8];
    let bs_iprp: [u8; 4] = [105u8, 112u8, 114u8, 112u8];
    let bs_ipco: [u8; 4] = [105u8, 112u8, 99u8, 111u8];
    let bs_ispe: [u8; 4] = [105u8, 115u8, 112u8, 101u8];
    let bs_pixi: [u8; 4] = [112u8, 105u8, 120u8, 105u8];
    let bs_av1c: [u8; 4] = [97u8, 118u8, 49u8, 67u8];
    let bs_colr: [u8; 4] = [99u8, 111u8, 108u8, 114u8];
    let bs_nclx: [u8; 4] = [110u8, 99u8, 108u8, 120u8];
    let bs_ipma: [u8; 4] = [105u8, 112u8, 109u8, 97u8];
    let bs_mdat: [u8; 4] = [109u8, 100u8, 97u8, 116u8];
    proof {
        assert(bs_ftyp@ =~= seq![102u8, 116u8, 121u8, 112u8]);
    }
    proof {
        assert(bs_avif@ =~= seq![97u8, 118u8, 105u8, 102u8]);
    }
    proof {
        assert(bs_avifmif1miafma1b@ =~= seq![97u8, 118u8, 105u8, 102u8, 109u8, 105u8, 102u8, 49u8, 109u8, 105u8, 97u8, 102u8, 77u8, 65u8, 49u8, 66u8]);
    }
    proof {
        assert(bs_meta@ =~= seq![109u8, 101u8, 116u8, 97u8]);
    }
    proof {
        assert(bs_hdlr@ =~= seq![104u8, 100u8, 108u8, 114u8]);
    }
    proof {
        assert(bs_pict@ =~= seq![112u8, 105u8, 99u8, 116u8]);
    }
    proof {
        assert(bs_libavif0@ =~= seq![108u8, 105u8, 98u8, 97u8, 118u8, 105u8, 102u8, 0u8]);
    }
    proof {
        assert(bs_pitm@ =~= seq![112u8, 105u8, 116u8, 109u8]);
    }
    proof {
        assert(bs_iloc@ =~= seq![105u8, 108u8, 111u8, 99u8]);
    }
    proof {
        assert(bs_iinf@ =~= seq![105u8, 105u8, 110u8, 102u8]);
    }
    proof {
        assert(bs_infe@ =~= seq![105u8, 110u8, 102u8, 101u8]);
    }
    proof {
        assert(bs_av01@ =~= seq![97u8, 118u8, 48u8, 49u8]);
    }
    proof {
        assert(bs_color0@ =~= seq![67u8, 111u8, 108u8, 111u8, 114u8, 0u8]);
    }
    proof {
        assert(bs_iprp@ =~= seq![105u8, 112u8, 114u8, 112u8]);
    }
    proof {
        assert(bs_ipco@ =~= seq![105u8, 112u8, 99u8, 111u8]);
    }
    proof {
        assert(bs_ispe@ =~= seq![105u8, 115u8, 112u8, 101u8]);
    }
    proof {
        assert(bs_pixi@ =~= seq![112u8, 105u8, 120u8, 105u8]);
    }
    proof {
        assert(bs_av1c@ =~= seq![97u8, 118u8, 49u8, 67u8]);
    }
    proof {
        assert(bs_colr@ =~= seq![99u8, 111u8, 108u8, 114u8]);
    }
    proof {
        assert(bs_nclx@ =~= seq![110u8, 99u8, 108u8, 120u8]);
    }
    proof {
        assert(bs_ipma@ =~= seq![105u8, 112u8, 109u8, 97u8]);
    }
    proof {
        assert(bs_mdat@ =~= seq![109u8, 100u8, 97u8, 116u8]);
    }
    let mut avif = ISOBMFFWriter::new();
    let content_size: u32 = av1_data.len() as u32;
    let crop_w_32: u32 = crop_width as u32;
    let crop_h_32: u32 = crop_height as u32;
    avif.open_box(&bs_ftyp);
    avif.write_bytes(vstd::array::array_as_slice(&bs_avif));
    avif.write_u32(0);
    avif.write_bytes(vstd::array::array_as_slice(&bs_avifmif1miafma1b));
    avif.close_box();
    avif.open_box_with_version(&bs_meta, 0, 0);
    avif.open_box_with_version(&bs_hdlr, 0, 0);
    avif.write_u32(0);
    avif.write_bytes(vstd::array::array_as_slice(&bs_pict));
    avif.write_u32(0);
    avif.write_u32(0);
    avif.write_u32(0);
    avif.write_bytes(vstd::array::array_as_slice(&bs_libavif0));
    avif.close_box();
    avif.open_box_with_version(&bs_pitm, 0, 0);
    avif.write_u16(1);
    avif.close_box();
    avif.open_box_with_version(&bs_iloc, 0, 0);
    avif.write_u8(0x44);
    avif.write_u8(0);
    avif.write_u16(1);
    avif.write_u16(1);
    avif.write_u16(0);
    avif.write_u16(1);
    let content_pos_marker = avif.mark_u32();
    avif.write_u32(content_size);
    avif.close_box();
    avif.open_box_with_version(&bs_iinf, 0, 0);
    avif.write_u16(1);
    avif.open_box_with_version(&bs_infe, 2, 0);
    avif.write_u16(1);
    avif.write_u16(0);
    avif.write_bytes(vstd::array::array_as_slice(&bs_av01));
    avif.write_bytes(vstd::array::array_as_slice(&bs_color0));
    avif.close_box();
    avif.close_box();
    avif.open_box(&bs_iprp);
    avif.open_box(&bs_ipco);
    avif.open_box_with_version(&bs_ispe, 0, 0);
    avif.write_u32(crop_w_32);
    avif.write_u32(crop_h_32);
    avif.close_box();
    avif.open_box_with_version(&bs_pixi, 0, 0);
    avif.write_u8(3);
    avif.write_u8(8);
    avif.write_u8(8);
    avif.write_u8(8);
    avif.close_box();
    avif.open_box(&bs_av1c);
    avif.write_u8(0x81);
    avif.write_u8(0x1F);
    avif.write_u8(0b00001110);
    avif.write_u8(0x10);
    avif.close_box();
    avif.open_box(&bs_colr);
    avif.write_bytes(vstd::array::array_as_slice(&bs_nclx));
    avif.write_u16(color_primaries);
    avif.write_u16(transfer_function);
    avif.write_u16(matrix_coefficients);
    avif.write_u8(0);
    avif.close_box();
    avif.close_box();
    avif.open_box_with_version(&bs_ipma, 0, 0);
    avif.write_u32(1);
    avif.write_u16(1);
    avif.write_u8(4);
    avif.write_u8(1);
    avif.write_u8(2);
    avif.write_u8(0x83);
    avif.write_u8(4);
    avif.close_box();
    avif.close_box();
    avif.close_box();
    avif.open_box(&bs_mdat);
    let content_pos = avif.get_file_pos() as u32;
    avif.write_bytes(vstd::slice::slice_subrange(av1_data.as_slice(), 0, av1_data.len()));
    avif.close_box();
    avif.write_u32_at_marker(content_pos_marker, content_pos);
    let r = avif.finalize();
    proof {
        assert(r@ =~= spec_pack_avif(
            av1_data@,
            crop_width as int,
            crop_height as int,
            av1_data@.len() as int,
            color_primaries as int,
            transfer_function as int,
            matrix_coefficients as int,
        ));
    }
    r
}

/// Big-endian encodings have the requested length.
proof fn lemma_be_lens()
    ensures
        forall|v: nat, n: nat| #[trigger] be_bytes(v, n).len() == n,
{
    assert forall|v: nat, n: nat| #[trigger] be_bytes(v, n).len() == n by {
        crate::util::lemma_be_bytes_len(v, n);
    }
}

} // verus!
