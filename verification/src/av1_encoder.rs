use vstd::prelude::*;

verus! {

use crate::bits::BitWriter;
use crate::bits::bits_of;
use crate::bits::spec_finalize;
use crate::array2d::Array2D;
use crate::array2d::Zero;
use crate::array2d::grid_dims;

// The top-level encoder: padded and cropped sizes, the raw-bit headers, and
// the entropy-coded tile.

/// Per-4x4-unit mode information, read as context by later blocks.
#[derive(Clone, Copy)]
pub struct ModeInfo {
    // Sum of the absolute coefficient values of each plane, capped at 63.
    pub level_ctx: [u8; 3],
    // Sign of the DC coefficient of each plane: -1, 0 or +1.
    pub dc_sign: [i8; 3],
}

/// The mode-info invariant: level contexts within [0, 63] and DC signs
/// within {-1, 0, +1}.
pub open spec fn mi_wf(m: ModeInfo) -> bool {
    &&& forall|p: int| 0 <= p < 3 ==> #[trigger] m.level_ctx[p] <= 63
    &&& forall|p: int| 0 <= p < 3 ==> -1 <= #[trigger] m.dc_sign[p] <= 1
}

impl Zero for ModeInfo {
    open spec fn zero_spec() -> ModeInfo {
        ModeInfo { level_ctx: [0u8, 0u8, 0u8], dc_sign: [0i8, 0i8, 0i8] }
    }

    fn zero() -> ModeInfo {
        ModeInfo { level_ctx: [0, 0, 0], dc_sign: [0, 0, 0] }
    }
}

pub struct AV1Encoder {
    // Encoding size: padded to a whole number of 8x8 luma blocks.
    y_width: usize,
    y_height: usize,
    uv_width: usize,
    uv_height: usize,
    // Original image size.
    y_crop_width: usize,
    y_crop_height: usize,
    uv_crop_width: usize,
    uv_crop_height: usize,
}

/// The exact bit fields of the sequence header.
pub open spec fn spec_sequence_header_bits(crop_w: int, crop_h: int) -> Seq<bool> {
    bits_of(0, 3)  // "Main" profile
     + bits_of(1, 1)  // still picture
     + bits_of(1, 1)  // with simplified headers
     + bits_of(31, 5)  // level: no constraints apply
     + bits_of(15, 4)  // width field size - 1
     + bits_of(15, 4)  // height field size - 1
     + bits_of((crop_w - 1) as nat, 16) + bits_of((crop_h - 1) as nat, 16) + bits_of(
        0,
        6,
    )  // 64x64 superblocks, no filters, no superres/CDEF/restoration
     + bits_of(0, 1)  // 8 bits per pixel
     + bits_of(0, 1)  // not monochrome
     + bits_of(0, 1)  // no colour description
     + bits_of(0, 1)  // "TV" colour range
     + bits_of(0, 2)  // unknown chroma sample position
     + bits_of(0, 1)  // shared UV delta-q
     + bits_of(0, 1)  // no film grain
}

/// The exact bit fields of the frame header.  The tile bits are present
/// only when the padded dimension exceeds one superblock.
pub open spec fn spec_frame_header_bits(y_width: int, y_height: int, qindex: int) -> Seq<bool> {
    bits_of(1, 1)  // disable CDF updates
     + bits_of(0, 1)  // no screen content tools
     + bits_of(0, 1)  // render size = frame size
     + bits_of(1, 1)  // uniform tile mode
     + (if y_width > 64 {
        bits_of(0, 1)
    } else {
        Seq::empty()
    })  // one tile column
     + (if y_height > 64 {
        bits_of(0, 1)
    } else {
        Seq::empty()
    })  // one tile row
     + bits_of(qindex as nat, 8) + bits_of(0, 3)  // no frame-level delta-qs
     + bits_of(0, 1)  // no quantizer matrices
     + bits_of(0, 1)  // no segmentation
     + bits_of(0, 1)  // no superblock-level delta-q
     + bits_of(0, 6)  // deblocking strength 0
     + bits_of(0, 6)  // deblocking strength 1
     + bits_of(0, 3)  // deblocking sharpness
     + bits_of(0, 1)  // no per-ref delta-lf
     + bits_of(0, 1)  // largest possible TX size for every block
     + bits_of(1, 1)  // reduced TX type selection
}

impl AV1Encoder {
    pub closed spec fn spec_y_width(&self) -> nat {
        self.y_width as nat
    }

    pub closed spec fn spec_y_height(&self) -> nat {
        self.y_height as nat
    }

    pub closed spec fn spec_crop_width(&self) -> nat {
        self.y_crop_width as nat
    }

    pub closed spec fn spec_crop_height(&self) -> nat {
        self.y_crop_height as nat
    }

    pub closed spec fn spec_uv_width(&self) -> nat {
        self.uv_width as nat
    }

    pub closed spec fn spec_uv_height(&self) -> nat {
        self.uv_height as nat
    }

    pub closed spec fn spec_uv_crop_width(&self) -> nat {
        self.uv_crop_width as nat
    }

    pub closed spec fn spec_uv_crop_height(&self) -> nat {
        self.uv_crop_height as nat
    }

    pub open spec fn wf(&self) -> bool {
        &&& 1 <= self.spec_crop_width() <= 65536
        &&& 1 <= self.spec_crop_height() <= 65536
        &&& self.spec_y_width() == crate::frame::padded8(self.spec_crop_width())
        &&& self.spec_y_height() == crate::frame::padded8(self.spec_crop_height())
        &&& self.spec_uv_width() == self.spec_y_width() / 2
        &&& self.spec_uv_height() == self.spec_y_height() / 2
        &&& self.spec_uv_crop_width() == (self.spec_crop_width() + 1) / 2
        &&& self.spec_uv_crop_height() == (self.spec_crop_height() + 1) / 2
    }

    /// An encoder for the given cropped luma size; the encoded size is the
    /// next multiple of 8 in each direction, halved for chroma.
    pub fn new(y_crop_width: usize, y_crop_height: usize) -> (r: AV1Encoder)
        requires
            1 <= y_crop_width <= 65536,
            1 <= y_crop_height <= 65536,
        ensures
            r.wf(),
            r.spec_crop_width() == y_crop_width,
            r.spec_crop_height() == y_crop_height,
    {
        let y_width = ((y_crop_width + 7) / 8) * 8;
        let y_height = ((y_crop_height + 7) / 8) * 8;
        let uv_crop_width = (y_crop_width + 1) / 2;
        let uv_crop_height = (y_crop_height + 1) / 2;
        let uv_width = y_width / 2;
        let uv_height = y_height / 2;
        AV1Encoder {
            y_width,
            y_height,
            uv_width,
            uv_height,
            y_crop_width,
            y_crop_height,
            uv_crop_width,
            uv_crop_height,
        }
    }

    /// The sequence header bytes: the fixed field layout above, with a
    /// trailing 1 bit and zero padding.
    pub fn generate_sequence_header(&self) -> (r: Vec<u8>)
        requires
            self.wf(),
        ensures
            r@ == spec_finalize(
                spec_sequence_header_bits(
                    self.spec_crop_width() as int,
                    self.spec_crop_height() as int,
                ),
                true,
            ),
    {
        let mut w = BitWriter::new();
        proof {
            vstd::arithmetic::power2::lemma2_to64();
        }
        w.write_bits(0, 3);
        w.write_bits(1, 1);
        w.write_bits(1, 1);
        w.write_bits(31, 5);
        w.write_bits(15, 4);
        w.write_bits(15, 4);
        w.write_bits((self.y_crop_width - 1) as u64, 16);
        w.write_bits((self.y_crop_height - 1) as u64, 16);
        w.write_bits(0, 6);
        w.write_bits(0, 1);
        w.write_bits(0, 1);
        w.write_bits(0, 1);
        w.write_bits(0, 1);
        w.write_bits(0, 2);
        w.write_bits(0, 1);
        w.write_bits(0, 1);
        proof {
            assert(w@ =~= spec_sequence_header_bits(
                self.spec_crop_width() as int,
                self.spec_crop_height() as int,
            ));
        }
        w.finalize(true)
    }

    /// The frame header bytes; a trailing 1 bit only when the header stands
    /// in its own OBU.
    pub fn generate_frame_header(&self, base_qindex: u8, add_trailing_one_bit: bool) -> (r: Vec<
        u8,
    >)
        requires
            self.wf(),
        ensures
            r@ == spec_finalize(
                spec_frame_header_bits(
                    self.spec_y_width() as int,
                    self.spec_y_height() as int,
                    base_qindex as int,
                ),
                add_trailing_one_bit,
            ),
    {
        let mut w = BitWriter::new();
        proof {
            vstd::arithmetic::power2::lemma2_to64();
        }
        w.write_bits(1, 1);
        w.write_bits(0, 1);
        w.write_bits(0, 1);
        w.write_bits(1, 1);
        if self.y_width > 64 {
            w.write_bits(0, 1);
        }
        if self.y_height > 64 {
            w.write_bits(0, 1);
        }
        w.write_bits(base_qindex as u64, 8);
        w.write_bits(0, 3);
        w.write_bits(0, 1);
        w.write_bits(0, 1);
        w.write_bits(0, 1);
        w.write_bits(0, 6);
        w.write_bits(0, 6);
        w.write_bits(0, 3);
        w.write_bits(0, 1);
        w.write_bits(0, 1);
        w.write_bits(1, 1);
        proof {
            assert(w@ =~= spec_frame_header_bits(
                self.spec_y_width() as int,
                self.spec_y_height() as int,
                base_qindex as int,
            ));
        }
        w.finalize(add_trailing_one_bit)
    }
}


use crate::entropy::EntropyWriter;
use crate::entropy::EcEvent;
use crate::entropy::literal_events;
use crate::entropy::golomb_events;
use crate::entropy::spec_floor_log2;
use crate::cdf::all_zero_cdf;
use crate::cdf::tx_type_cdf;
use crate::cdf::eob_class_16_cdf;
use crate::cdf::eob_class_64_cdf;
use crate::cdf::eob_extra_4x4_cdf;
use crate::cdf::eob_extra_8x8_cdf;
use crate::cdf::coeff_base_eob_cdf;
use crate::cdf::coeff_base_cdf;
use crate::cdf::coeff_br_cdf;
use crate::cdf::dc_sign_cdf;
use crate::consts::default_scan_4x4;
use crate::consts::default_scan_8x8;
use crate::consts::Coeff_Base_Ctx_Offset_8x8;

pub open spec fn iabs(x: int) -> int {
    if x < 0 {
        -x
    } else {
        x
    }
}

pub open spec fn imin(a: int, b: int) -> int {
    if a <= b {
        a
    } else {
        b
    }
}

/// The quantizer context group of a qindex.
pub open spec fn spec_qctx(q: int) -> int {
    if q <= 20 {
        0
    } else if q <= 60 {
        1
    } else if q <= 120 {
        2
    } else {
        3
    }
}

pub open spec fn sc_row(txs: int, c: int) -> int {
    if txs == 8 {
        default_scan_8x8[c].0 as int
    } else {
        default_scan_4x4[c].0 as int
    }
}

pub open spec fn sc_col(txs: int, c: int) -> int {
    if txs == 8 {
        default_scan_8x8[c].1 as int
    } else {
        default_scan_4x4[c].1 as int
    }
}

/// The c-th coefficient in scan order.
pub open spec fn co(coeffs: Seq<Seq<i32>>, txs: int, c: int) -> int {
    coeffs[sc_row(txs, c)][sc_col(txs, c)] as int
}

/// One past the last nonzero coefficient among the first n in scan order.
pub open spec fn spec_eob(coeffs: Seq<Seq<i32>>, txs: int, n: int) -> int
    decreases n,
{
    if n <= 0 {
        0
    } else if co(coeffs, txs, n - 1) != 0 {
        n
    } else {
        spec_eob(coeffs, txs, n - 1)
    }
}

/// Sum of the absolute values of the first n coefficients in scan order.
pub open spec fn spec_cul(coeffs: Seq<Seq<i32>>, txs: int, n: int) -> int
    decreases n,
{
    if n <= 0 {
        0
    } else {
        spec_cul(coeffs, txs, n - 1) + iabs(co(coeffs, txs, n - 1))
    }
}

pub open spec fn mi_nonzero(m: ModeInfo, plane: int) -> bool {
    m.level_ctx[plane] != 0 || m.dc_sign[plane] != 0
}

/// The all_zero context: 0 for luma (max-size transform); for chroma,
/// 7 plus one for each nonempty neighbour.
pub open spec fn spec_all_zero_ctx(
    mi: Seq<Seq<ModeInfo>>,
    plane: int,
    mi_row: int,
    mi_col: int,
) -> int {
    if plane == 0 {
        0
    } else {
        let above: int = if mi_row > 0 && mi_nonzero(mi[mi_row - 1][mi_col], plane) {
            1
        } else {
            0
        };
        let left: int = if mi_col > 0 && mi_nonzero(mi[mi_row][mi_col - 1], plane) {
            1
        } else {
            0
        };
        7 + above + left
    }
}

pub open spec fn spec_ceil_log2(x: int) -> int {
    if x <= 1 {
        0
    } else {
        spec_floor_log2((x - 1) as nat) as int + 1
    }
}

pub open spec fn ev(s: int, cdf: Seq<u16>) -> EcEvent {
    EcEvent { sym: s as nat, cdf }
}

/// A capped neighbour magnitude, zero outside the block.
pub open spec fn mag_term(coeffs: Seq<Seq<i32>>, txs: int, r: int, c: int, cap: int) -> int {
    if r < txs && c < txs {
        imin(iabs(coeffs[r][c] as int), cap)
    } else {
        0
    }
}

pub open spec fn spec_base_mag(coeffs: Seq<Seq<i32>>, txs: int, row: int, col: int) -> int {
    mag_term(coeffs, txs, row, col + 1, 3) + mag_term(coeffs, txs, row + 1, col, 3) + mag_term(
        coeffs,
        txs,
        row + 1,
        col + 1,
        3,
    ) + mag_term(coeffs, txs, row, col + 2, 3) + mag_term(coeffs, txs, row + 2, col, 3)
}

pub open spec fn spec_base_ctx(coeffs: Seq<Seq<i32>>, txs: int, c: int) -> int {
    if c == 0 {
        0
    } else {
        let row = sc_row(txs, c);
        let col = sc_col(txs, c);
        let mag = spec_base_mag(coeffs, txs, row, col);
        imin((mag + 1) / 2, 4) + Coeff_Base_Ctx_Offset_8x8[imin(row, 4)][imin(col, 4)] as int
    }
}

pub open spec fn spec_br_mag(coeffs: Seq<Seq<i32>>, txs: int, row: int, col: int) -> int {
    mag_term(coeffs, txs, row, col + 1, 15) + mag_term(coeffs, txs, row + 1, col, 15) + mag_term(
        coeffs,
        txs,
        row + 1,
        col + 1,
        15,
    )
}

pub open spec fn spec_br_ctx(coeffs: Seq<Seq<i32>>, txs: int, c: int) -> int {
    let row = sc_row(txs, c);
    let col = sc_col(txs, c);
    let mag = spec_br_mag(coeffs, txs, row, col);
    let mag_part = imin((mag + 1) / 2, 6);
    let loc_part: int = if c == 0 {
        0
    } else if row < 2 && col < 2 {
        7
    } else {
        14
    };
    mag_part + loc_part
}

/// The base-range increments: up to four symbols, each the remaining level
/// capped at 3, stopping at the first value below 3.
pub open spec fn spec_br_events(av: int, cdf: Seq<u16>) -> Seq<EcEvent> {
    let b1 = imin(av - 3, 3);
    seq![ev(b1, cdf)] + if b1 == 3 {
        let b2 = imin(av - 6, 3);
        seq![ev(b2, cdf)] + if b2 == 3 {
            let b3 = imin(av - 9, 3);
            seq![ev(b3, cdf)] + if b3 == 3 {
                seq![ev(imin(av - 12, 3), cdf)]
            } else {
                Seq::empty()
            }
        } else {
            Seq::empty()
        }
    } else {
        Seq::empty()
    }
}

/// The events of one coefficient in the high-to-low pass: its coeff_base
/// (or coeff_base_eob) symbol and any base-range increments.
pub open spec fn spec_one_coeff_events(
    coeffs: Seq<Seq<i32>>,
    txs: int,
    qctx: int,
    ptype: int,
    eob: int,
    num: int,
    c: int,
) -> Seq<EcEvent> {
    let txs_ctx: int = if txs == 8 {
        1
    } else {
        0
    };
    let av = iabs(co(coeffs, txs, c));
    let base_ev = if c == eob - 1 {
        let bec: int = if c == 0 {
            0
        } else if c <= num / 8 {
            1
        } else if c <= num / 4 {
            2
        } else {
            3
        };
        seq![ev(imin(av - 1, 2), coeff_base_eob_cdf[qctx][txs_ctx][ptype][bec]@)]
    } else {
        seq![
            ev(imin(av, 3), coeff_base_cdf[qctx][txs_ctx][ptype][spec_base_ctx(coeffs, txs, c)]@),
        ]
    };
    base_ev + if av > 2 {
        spec_br_events(av, coeff_br_cdf[qctx][txs_ctx][ptype][spec_br_ctx(coeffs, txs, c)]@)
    } else {
        Seq::empty()
    }
}

/// The events of the high-to-low pass for scan indices k-1 down to 0.
pub open spec fn spec_base_range_events(
    coeffs: Seq<Seq<i32>>,
    txs: int,
    qctx: int,
    ptype: int,
    eob: int,
    num: int,
    k: int,
) -> Seq<EcEvent>
    decreases k,
{
    if k <= 0 {
        Seq::empty()
    } else {
        spec_one_coeff_events(coeffs, txs, qctx, ptype, eob, num, k - 1) + spec_base_range_events(
            coeffs,
            txs,
            qctx,
            ptype,
            eob,
            num,
            k - 1,
        )
    }
}

/// The DC sign context: whether the neighbouring DC signs sum to zero,
/// negative or positive.
pub open spec fn spec_dc_sign_ctx(
    mi: Seq<Seq<ModeInfo>>,
    plane: int,
    mi_row: int,
    mi_col: int,
) -> int {
    let s: int = (if mi_row > 0 {
        mi[mi_row - 1][mi_col].dc_sign[plane] as int
    } else {
        0
    }) + (if mi_col > 0 {
        mi[mi_row][mi_col - 1].dc_sign[plane] as int
    } else {
        0
    });
    if s == 0 {
        0
    } else if s < 0 {
        1
    } else {
        2
    }
}

/// The sign-and-remainder events of the low-to-high pass from index c on.
pub open spec fn spec_ac_sign_events(coeffs: Seq<Seq<i32>>, txs: int, c: int, eob: int) -> Seq<
    EcEvent,
>
    decreases eob - c,
{
    if c >= eob {
        Seq::empty()
    } else {
        let v = co(coeffs, txs, c);
        (if v != 0 {
            literal_events(
                if v < 0 {
                    1nat
                } else {
                    0nat
                },
                1,
            )
        } else {
            Seq::empty()
        }) + (if iabs(v) >= 15 {
            golomb_events((iabs(v) - 15) as nat)
        } else {
            Seq::empty()
        }) + spec_ac_sign_events(coeffs, txs, c + 1, eob)
    }
}

/// All events of one block's coefficients for one plane, in emission order.
pub open spec fn spec_coeff_events(
    coeffs: Seq<Seq<i32>>,
    plane: int,
    mi_row: int,
    mi_col: int,
    qctx: int,
    mi: Seq<Seq<ModeInfo>>,
) -> Seq<EcEvent> {
    let txs: int = if plane > 0 {
        4
    } else {
        8
    };
    let txs_ctx: int = if txs == 8 {
        1
    } else {
        0
    };
    let ptype: int = if plane == 0 {
        0
    } else {
        1
    };
    let num = txs * txs;
    let eob = spec_eob(coeffs, txs, num);
    let az_ctx = spec_all_zero_ctx(mi, plane, mi_row, mi_col);
    let az = seq![
        ev(
            if eob == 0 {
                1int
            } else {
                0int
            },
            all_zero_cdf[qctx][txs_ctx][az_ctx]@,
        ),
    ];
    if eob == 0 {
        az
    } else {
        let ec = spec_ceil_log2(eob);
        let head = az + (if plane == 0 {
            seq![ev(1, tx_type_cdf@)]
        } else {
            Seq::empty()
        }) + seq![
            ev(
                ec,
                if plane == 0 {
                    eob_class_64_cdf[qctx][ptype]@
                } else {
                    eob_class_16_cdf[qctx][ptype]@
                },
            ),
        ] + (if ec > 1 {
            let low = vstd::arithmetic::power2::pow2((ec - 1) as nat) as int + 1;
            let sh = (ec - 2) as nat;
            let extra = (eob - low) / (vstd::arithmetic::power2::pow2(sh) as int);
            let rem = (eob - low) % (vstd::arithmetic::power2::pow2(sh) as int);
            seq![
                ev(
                    extra,
                    if plane == 0 {
                        eob_extra_8x8_cdf[qctx][ptype][ec - 2]@
                    } else {
                        eob_extra_4x4_cdf[qctx][ptype][ec - 2]@
                    },
                ),
            ] + literal_events(rem as nat, sh)
        } else {
            Seq::empty()
        });
        let dc = co(coeffs, txs, 0);
        head + spec_base_range_events(coeffs, txs, qctx, ptype, eob, num, eob) + (if dc != 0 {
            seq![
                ev(
                    if dc < 0 {
                        1int
                    } else {
                        0int
                    },
                    dc_sign_cdf[qctx][ptype][spec_dc_sign_ctx(mi, plane, mi_row, mi_col)]@,
                ),
            ]
        } else {
            Seq::empty()
        }) + (if iabs(dc) >= 15 {
            golomb_events((iabs(dc) - 15) as nat)
        } else {
            Seq::empty()
        }) + spec_ac_sign_events(coeffs, txs, 1, eob)
    }
}

/// The new per-plane mode info after coding a block: the capped level sum,
/// and the DC sign when any coefficient was coded.
pub open spec fn spec_coeff_level(coeffs: Seq<Seq<i32>>, txs: int) -> u8 {
    imin(spec_cul(coeffs, txs, txs * txs), 63) as u8
}

pub open spec fn spec_coeff_dc_sign(coeffs: Seq<Seq<i32>>, txs: int, old_sign: i8) -> i8 {
    if spec_eob(coeffs, txs, txs * txs) == 0 {
        old_sign
    } else {
        let dc = co(coeffs, txs, 0);
        if dc < 0 {
            -1i8
        } else if dc == 0 {
            0i8
        } else {
            1i8
        }
    }
}


/// The observable state of a tile encoding in progress: the symbols encoded
/// so far, the reconstructed planes, and the mode-info grid.
pub struct TileView {
    pub events: Seq<EcEvent>,
    pub recon0: Seq<Seq<u8>>,
    pub recon1: Seq<Seq<u8>>,
    pub recon2: Seq<Seq<u8>>,
    pub mi: Seq<Seq<ModeInfo>>,
}

/// Mutable state while encoding a single tile: the entropy coder, the
/// mode-info grid, and the reconstructed frame.
pub struct TileEncoder {
    y_width: usize,
    y_height: usize,
    bitstream: EntropyWriter,
    base_qindex: u8,
    mode_info: Array2D<ModeInfo>,
    recon: crate::frame::Frame,
}

impl TileEncoder {
    pub closed spec fn view(&self) -> TileView {
        TileView {
            events: self.bitstream.trace(),
            recon0: self.recon.spec_plane(0).px(),
            recon1: self.recon.spec_plane(1).px(),
            recon2: self.recon.spec_plane(2).px(),
            mi: self.mode_info@,
        }
    }

    pub closed spec fn spec_qindex(&self) -> int {
        self.base_qindex as int
    }

    pub closed spec fn spec_y_width(&self) -> nat {
        self.y_width as nat
    }

    pub closed spec fn spec_y_height(&self) -> nat {
        self.y_height as nat
    }

    pub open spec fn spec_mi_rows(&self) -> int {
        self.spec_y_height() as int / 4
    }

    pub open spec fn spec_mi_cols(&self) -> int {
        self.spec_y_width() as int / 4
    }

    pub closed spec fn wf(&self) -> bool {
        &&& self.bitstream.wf()
        &&& 8 <= self.y_width <= 65536
        &&& 8 <= self.y_height <= 65536
        &&& self.y_width % 8 == 0
        &&& self.y_height % 8 == 0
        &&& self.base_qindex >= 1
        &&& self.mode_info.wf()
        &&& self.mode_info.spec_rows() == self.y_height / 4
        &&& self.mode_info.spec_cols() == self.y_width / 4
        &&& grid_dims(self.mode_info@, (self.y_height / 4) as nat, (self.y_width / 4) as nat)
        &&& (forall|r: int, c: int|
            0 <= r < self.y_height / 4 && 0 <= c < self.y_width / 4 ==> mi_wf(
                #[trigger] self.mode_info@[r][c],
            ))
        &&& self.recon.wf()
        &&& self.recon.spec_plane(0).spec_height() == self.y_height
        &&& self.recon.spec_plane(0).spec_width() == self.y_width
    }
}

fn scan_at(txsize: usize, c: usize) -> (r: (usize, usize))
    requires
        (txsize == 4 && c < 16) || (txsize == 8 && c < 64),
    ensures
        r.0 == sc_row(txsize as int, c as int),
        r.1 == sc_col(txsize as int, c as int),
        r.0 < txsize,
        r.1 < txsize,
{
    proof {
        crate::consts::lemma_scan_bounds(c as int);
    }
    if txsize == 8 {
        let p = default_scan_8x8[c];
        (p.0 as usize, p.1 as usize)
    } else {
        let p = default_scan_4x4[c];
        (p.0 as usize, p.1 as usize)
    }
}

fn mag_at(coeffs: &Array2D<i32>, txsize: usize, r: usize, c: usize, cap: u32) -> (m: u32)
    requires
        coeffs.wf(),
        coeffs.spec_rows() == txsize,
        coeffs.spec_cols() == txsize,
    ensures
        m == mag_term(coeffs@, txsize as int, r as int, c as int, cap as int),
        m <= cap,
{
    if r < txsize && c < txsize {
        let v = coeffs.get(r, c);
        let a: u32 = crate::util::unsigned_abs(v);
        crate::util::min(a, cap)
    } else {
        0
    }
}

proof fn lemma_eob_props(coeffs: Seq<Seq<i32>>, txs: int, n: int)
    requires
        n >= 0,
    ensures
        0 <= spec_eob(coeffs, txs, n) <= n,
        spec_eob(coeffs, txs, n) > 0 ==> co(coeffs, txs, spec_eob(coeffs, txs, n) - 1) != 0,
    decreases n,
{
    if n > 0 {
        lemma_eob_props(coeffs, txs, n - 1);
    }
}

proof fn lemma_ceil_log2_unique(x: int, r: int)
    requires
        x > 1,
        r >= 1,
        vstd::arithmetic::power2::pow2((r - 1) as nat) < x,
        x <= vstd::arithmetic::power2::pow2(r as nat),
    ensures
        r == spec_ceil_log2(x),
{
    crate::entropy::lemma_spec_floor_log2_unique((x - 1) as nat, (r - 1) as nat);
}

proof fn lemma_cul_bound(coeffs: Seq<Seq<i32>>, txs: int, n: int)
    ensures
        0 <= spec_cul(coeffs, txs, n) <= (if n >= 0 {
            n
        } else {
            0
        }) * 0x80000000,
    decreases n,
{
    if n > 0 {
        lemma_cul_bound(coeffs, txs, n - 1);
        assert((n - 1) * 0x80000000 + 0x80000000 == n * 0x80000000) by (nonlinear_arith);
    }
}



/// Scan the coefficients: the end-of-block position and the capped level.
fn scan_pass(coeffs: &Array2D<i32>, txsize: usize) -> (r: (usize, u8))
    requires
        coeffs.wf(),
        coeffs.spec_rows() == txsize,
        coeffs.spec_cols() == txsize,
        grid_dims(coeffs@, txsize as nat, txsize as nat),
        txsize == 4 || txsize == 8,
    ensures
        r.0 == spec_eob(coeffs@, txsize as int, (txsize * txsize) as int),
        r.0 <= txsize * txsize,
        r.1 == spec_coeff_level(coeffs@, txsize as int),
{
    let num_coeffs: usize = txsize * txsize;
    let ghost cv = coeffs@;
    let mut eob: usize = 0;
    let mut cul: u64 = 0;
    let mut c: usize = 0;
    while c < num_coeffs
        invariant
            coeffs.wf(),
            coeffs.spec_rows() == txsize,
            coeffs.spec_cols() == txsize,
            grid_dims(cv, txsize as nat, txsize as nat),
            cv == coeffs@,
            (txsize == 4 && num_coeffs == 16) || (txsize == 8 && num_coeffs == 64),
            c <= num_coeffs,
            eob == spec_eob(cv, txsize as int, c as int),
            0 <= eob <= c,
            cul == spec_cul(cv, txsize as int, c as int),
            cul <= c * 0x80000000,
        decreases num_coeffs - c,
    {
        let (row, col) = scan_at(txsize, c);
        let coeff = coeffs.get(row, col);
        let av: u32 = crate::util::unsigned_abs(coeff);
        proof {
            assert((c + 1) * 0x80000000 == c * 0x80000000 + 0x80000000) by (nonlinear_arith);
        }
        cul = cul + av as u64;
        if coeff != 0 {
            eob = c + 1;
        }
        c = c + 1;
    }
    let level: u8 = if cul >= 63 {
        63
    } else {
        cul as u8
    };
    (eob, level)
}

proof fn lemma_coeff_events_assemble(
    cv: Seq<Seq<i32>>,
    plane: int,
    mi_row: int,
    mi_col: int,
    qc: int,
    mi0: Seq<Seq<ModeInfo>>,
)
    requires
        0 <= plane < 3,
        spec_eob(
            cv,
            if plane > 0 {
                4int
            } else {
                8int
            },
            if plane > 0 {
                16int
            } else {
                64int
            },
        ) != 0,
    ensures
        ({
            let txs: int = if plane > 0 {
                4
            } else {
                8
            };
            let txs_ctx: int = if txs == 8 {
                1
            } else {
                0
            };
            let ptype: int = if plane == 0 {
                0
            } else {
                1
            };
            let num = txs * txs;
            let eob = spec_eob(cv, txs, num);
            let az_ctx = spec_all_zero_ctx(mi0, plane, mi_row, mi_col);
            let az_seq = seq![ev(0, all_zero_cdf[qc][txs_ctx][az_ctx]@)];
            let tx_seq: Seq<EcEvent> = if plane == 0 {
                seq![ev(1, tx_type_cdf@)]
            } else {
                Seq::empty()
            };
            let ec = spec_ceil_log2(eob);
            let ec_seq = seq![
                ev(
                    ec,
                    if plane == 0 {
                        eob_class_64_cdf[qc][ptype]@
                    } else {
                        eob_class_16_cdf[qc][ptype]@
                    },
                ),
            ];
            let extra_seq: Seq<EcEvent> = if ec > 1 {
                let low = vstd::arithmetic::power2::pow2((ec - 1) as nat) as int + 1;
                let sh = (ec - 2) as nat;
                let extra = (eob - low) / (vstd::arithmetic::power2::pow2(sh) as int);
                let rem = (eob - low) % (vstd::arithmetic::power2::pow2(sh) as int);
                seq![
                    ev(
                        extra,
                        if plane == 0 {
                            eob_extra_8x8_cdf[qc][ptype][ec - 2]@
                        } else {
                            eob_extra_4x4_cdf[qc][ptype][ec - 2]@
                        },
                    ),
                ] + literal_events(rem as nat, sh)
            } else {
                Seq::empty()
            };
            let whole = spec_base_range_events(cv, txs, qc, ptype, eob, num, eob);
            let dc = co(cv, txs, 0);
            let dc_seq: Seq<EcEvent> = if dc != 0 {
                seq![
                    ev(
                        if dc < 0 {
                            1int
                        } else {
                            0int
                        },
                        dc_sign_cdf[qc][ptype][spec_dc_sign_ctx(mi0, plane, mi_row, mi_col)]@,
                    ),
                ]
            } else {
                Seq::empty()
            };
            let dcg_seq: Seq<EcEvent> = if iabs(dc) >= 15 {
                golomb_events((iabs(dc) - 15) as nat)
            } else {
                Seq::empty()
            };
            let ac_whole = spec_ac_sign_events(cv, txs, 1, eob);
            spec_coeff_events(cv, plane, mi_row, mi_col, qc, mi0) == az_seq + tx_seq + ec_seq
                + extra_seq + whole + dc_seq + dcg_seq + ac_whole
        }),
{
    let txs: int = if plane > 0 {
        4
    } else {
        8
    };
    assert(spec_coeff_events(cv, plane, mi_row, mi_col, qc, mi0) =~= ({
        let txs_ctx: int = if txs == 8 {
            1
        } else {
            0
        };
        let ptype: int = if plane == 0 {
            0
        } else {
            1
        };
        let num = txs * txs;
        let eob = spec_eob(cv, txs, num);
        let az_ctx = spec_all_zero_ctx(mi0, plane, mi_row, mi_col);
        let az_seq = seq![ev(0, all_zero_cdf[qc][txs_ctx][az_ctx]@)];
        let tx_seq: Seq<EcEvent> = if plane == 0 {
            seq![ev(1, tx_type_cdf@)]
        } else {
            Seq::empty()
        };
        let ec = spec_ceil_log2(eob);
        let ec_seq = seq![
            ev(
                ec,
                if plane == 0 {
                    eob_class_64_cdf[qc][ptype]@
                } else {
                    eob_class_16_cdf[qc][ptype]@
                },
            ),
        ];
        let extra_seq: Seq<EcEvent> = if ec > 1 {
            let low = vstd::arithmetic::power2::pow2((ec - 1) as nat) as int + 1;
            let sh = (ec - 2) as nat;
            let extra = (eob - low) / (vstd::arithmetic::power2::pow2(sh) as int);
            let rem = (eob - low) % (vstd::arithmetic::power2::pow2(sh) as int);
            seq![
                ev(
                    extra,
                    if plane == 0 {
                        eob_extra_8x8_cdf[qc][ptype][ec - 2]@
                    } else {
                        eob_extra_4x4_cdf[qc][ptype][ec - 2]@
                    },
                ),
            ] + literal_events(rem as nat, sh)
        } else {
            Seq::empty()
        };
        let whole = spec_base_range_events(cv, txs, qc, ptype, eob, num, eob);
        let dc = co(cv, txs, 0);
        let dc_seq: Seq<EcEvent> = if dc != 0 {
            seq![
                ev(
                    if dc < 0 {
                        1int
                    } else {
                        0int
                    },
                    dc_sign_cdf[qc][ptype][spec_dc_sign_ctx(mi0, plane, mi_row, mi_col)]@,
                ),
            ]
        } else {
            Seq::empty()
        };
        let dcg_seq: Seq<EcEvent> = if iabs(dc) >= 15 {
            golomb_events((iabs(dc) - 15) as nat)
        } else {
            Seq::empty()
        };
        let ac_whole = spec_ac_sign_events(cv, txs, 1, eob);
        az_seq + tx_seq + ec_seq + extra_seq + whole + dc_seq + dcg_seq + ac_whole
    }));
}

impl TileEncoder {


    /// Encode the base-range increments for one coefficient with absolute
    /// value above 2.
    fn write_br_chain(&mut self, av: u32, bcdf: &[u16])
        requires
            old(self).bitstream.wf(),
            crate::util::cdf_valid(bcdf@),
            bcdf@.len() >= 3,
            av > 2,
        ensures
            final(self).bitstream.wf(),
            final(self).bitstream.trace() == old(self).bitstream.trace() + spec_br_events(
                av as int,
                bcdf@,
            ),
            final(self).mode_info == old(self).mode_info,
            final(self).recon == old(self).recon,
            final(self).y_width == old(self).y_width,
            final(self).y_height == old(self).y_height,
            final(self).base_qindex == old(self).base_qindex,
    {
        let b1: u32 = crate::util::min(av - 3, 3);
        self.bitstream.write_symbol(b1 as usize, bcdf);
        if b1 == 3 {
            let b2: u32 = crate::util::min(av - 6, 3);
            self.bitstream.write_symbol(b2 as usize, bcdf);
            if b2 == 3 {
                let b3: u32 = crate::util::min(av - 9, 3);
                self.bitstream.write_symbol(b3 as usize, bcdf);
                if b3 == 3 {
                    let b4: u32 = crate::util::min(av - 12, 3);
                    self.bitstream.write_symbol(b4 as usize, bcdf);
                }
            }
        }
        proof {
            assert(final(self).bitstream.trace() =~= old(self).bitstream.trace()
                + spec_br_events(av as int, bcdf@));
        }
    }

    /// Encode the coeff_base (or coeff_base_eob) symbol of one coefficient
    /// and its base-range increments.
    #[verifier::rlimit(100)]
    fn write_one_coeff(
        &mut self,
        plane: usize,
        coeffs: &Array2D<i32>,
        c: usize,
        eob: usize,
        num_coeffs: usize,
        qctx: usize,
    )
        requires
            old(self).bitstream.wf(),
            plane < 3,
            coeffs.wf(),
            coeffs.spec_rows() == (if plane > 0 {
                4int
            } else {
                8int
            }),
            coeffs.spec_cols() == coeffs.spec_rows(),
            grid_dims(coeffs@, coeffs.spec_rows(), coeffs.spec_cols()),
            num_coeffs == (if plane > 0 {
                16int
            } else {
                64int
            }),
            c < eob <= num_coeffs,
            eob == spec_eob(
                coeffs@,
                if plane > 0 {
                    4int
                } else {
                    8int
                },
                num_coeffs as int,
            ),
            qctx < 4,
        ensures
            final(self).bitstream.wf(),
            final(self).bitstream.trace() == old(self).bitstream.trace()
                + spec_one_coeff_events(
                coeffs@,
                if plane > 0 {
                    4int
                } else {
                    8int
                },
                qctx as int,
                if plane == 0 {
                    0int
                } else {
                    1int
                },
                eob as int,
                num_coeffs as int,
                c as int,
            ),
            final(self).mode_info == old(self).mode_info,
            final(self).recon == old(self).recon,
            final(self).y_width == old(self).y_width,
            final(self).y_height == old(self).y_height,
            final(self).base_qindex == old(self).base_qindex,
    {
        let ghost txs: int = if plane > 0 {
            4int
        } else {
            8int
        };
        let ghost cv = coeffs@;
        let txsize: usize = if plane > 0 {
            4
        } else {
            8
        };
        let txs_ctx: usize = if txsize == 8 {
            1
        } else {
            0
        };
        let ptype: usize = if plane == 0 {
            0
        } else {
            1
        };
        let ghost tpre = self.bitstream.trace();
        let (row, col) = scan_at(txsize, c);
        let coeff = coeffs.get(row, col);
        let av: u32 = crate::util::unsigned_abs(coeff);
        if c + 1 == eob {
            let base_eob_ctx: usize = if c == 0 {
                0
            } else if c <= num_coeffs / 8 {
                1
            } else if c <= num_coeffs / 4 {
                2
            } else {
                3
            };
            proof {
                lemma_eob_props(cv, txs, num_coeffs as int);
                assert(av >= 1);
                crate::cdf::lemma_coeff_base_eob_cdf_valid(
                    qctx as int,
                    txs_ctx as int,
                    ptype as int,
                    base_eob_ctx as int,
                );
            }
            let coded: u32 = crate::util::min(av - 1, 2);
            self.bitstream.write_symbol(
                coded as usize,
                vstd::array::array_as_slice(
                    &coeff_base_eob_cdf[qctx][txs_ctx][ptype][base_eob_ctx],
                ),
            );
        } else {
            let base_ctx: usize = if c == 0 {
                0
            } else {
                let mut mag: u32 = 0;
                mag = mag + mag_at(coeffs, txsize, row, col + 1, 3);
                mag = mag + mag_at(coeffs, txsize, row + 1, col, 3);
                mag = mag + mag_at(coeffs, txsize, row + 1, col + 1, 3);
                mag = mag + mag_at(coeffs, txsize, row, col + 2, 3);
                mag = mag + mag_at(coeffs, txsize, row + 2, col, 3);
                let mag_part: u32 = crate::util::min((mag + 1) / 2, 4);
                let loc = Coeff_Base_Ctx_Offset_8x8[if row < 4 {
                    row
                } else {
                    4
                }][if col < 4 {
                    col
                } else {
                    4
                }];
                proof {
                    crate::consts::lemma_ctx_offset_bounds(
                        imin(row as int, 4),
                        imin(col as int, 4),
                    );
                }
                (mag_part as usize) + (loc as usize)
            };
            proof {
                assert(base_ctx == spec_base_ctx(cv, txs, c as int));
                assert(base_ctx < 42);
                crate::cdf::lemma_coeff_base_cdf_valid(
                    qctx as int,
                    txs_ctx as int,
                    ptype as int,
                    base_ctx as int,
                );
            }
            let coded: u32 = crate::util::min(av, 3);
            self.bitstream.write_symbol(
                coded as usize,
                vstd::array::array_as_slice(&coeff_base_cdf[qctx][txs_ctx][ptype][base_ctx]),
            );
        }
        if av > 2 {
            let ghost tbr = self.bitstream.trace();
            let mut mag: u32 = 0;
            mag = mag + mag_at(coeffs, txsize, row, col + 1, 15);
            mag = mag + mag_at(coeffs, txsize, row + 1, col, 15);
            mag = mag + mag_at(coeffs, txsize, row + 1, col + 1, 15);
            let mag_part: u32 = crate::util::min((mag + 1) / 2, 6);
            let loc: u32 = if c == 0 {
                0
            } else if row < 2 && col < 2 {
                7
            } else {
                14
            };
            let br_ctx: usize = (mag_part + loc) as usize;
            proof {
                assert(br_ctx == spec_br_ctx(cv, txs, c as int));
                assert(br_ctx < 21);
                crate::cdf::lemma_coeff_br_cdf_valid(
                    qctx as int,
                    txs_ctx as int,
                    ptype as int,
                    br_ctx as int,
                );
            }
            let bcdf: &[u16] = vstd::array::array_as_slice(
                &coeff_br_cdf[qctx][txs_ctx][ptype][br_ctx],
            );
            self.write_br_chain(av, bcdf);
            proof {
                assert(self.bitstream.trace() =~= tbr + spec_br_events(
                    iabs(co(cv, txs, c as int)),
                    coeff_br_cdf[qctx as int][txs_ctx as int][ptype as int][spec_br_ctx(
                        cv,
                        txs,
                        c as int,
                    )]@,
                ));
            }
        }
        proof {
            assert(self.bitstream.trace() =~= tpre + spec_one_coeff_events(
                cv,
                txs,
                qctx as int,
                ptype as int,
                eob as int,
                num_coeffs as int,
                c as int,
            ));
        }
    }


    /// Encode the DC sign, the coefficient remainders, and the per-plane
    /// sign and level bookkeeping for one block.
    #[verifier::rlimit(100)]
    fn write_signs(
        &mut self,
        plane: usize,
        mi_row: usize,
        mi_col: usize,
        this_mi: &mut ModeInfo,
        coeffs: &Array2D<i32>,
        eob: usize,
    )
        requires
            old(self).wf(),
            plane < 3,
            coeffs.wf(),
            coeffs.spec_rows() == (if plane > 0 {
                4int
            } else {
                8int
            }),
            coeffs.spec_cols() == coeffs.spec_rows(),
            grid_dims(coeffs@, coeffs.spec_rows(), coeffs.spec_cols()),
            0 < eob,
            eob == spec_eob(
                coeffs@,
                if plane > 0 {
                    4int
                } else {
                    8int
                },
                if plane > 0 {
                    16int
                } else {
                    64int
                },
            ),
            mi_row < old(self).spec_mi_rows(),
            mi_col < old(self).spec_mi_cols(),
        ensures
            final(self).wf(),
            ({
                let txs: int = if plane > 0 {
                    4
                } else {
                    8
                };
                let ptype: int = if plane == 0 {
                    0
                } else {
                    1
                };
                let qc = spec_qctx(old(self).spec_qindex());
                let dc = co(coeffs@, txs, 0);
                let dc_seq: Seq<EcEvent> = if dc != 0 {
                    seq![
                        ev(
                            if dc < 0 {
                                1int
                            } else {
                                0int
                            },
                            dc_sign_cdf[qc][ptype][spec_dc_sign_ctx(
                                old(self)@.mi,
                                plane as int,
                                mi_row as int,
                                mi_col as int,
                            )]@,
                        ),
                    ]
                } else {
                    Seq::empty()
                };
                let dcg_seq: Seq<EcEvent> = if iabs(dc) >= 15 {
                    golomb_events((iabs(dc) - 15) as nat)
                } else {
                    Seq::empty()
                };
                final(self).bitstream.trace() == old(self).bitstream.trace() + dc_seq + dcg_seq
                    + spec_ac_sign_events(coeffs@, txs, 1, eob as int)
            }),
            final(self).mode_info == old(self).mode_info,
            final(self).recon == old(self).recon,
            final(self).y_width == old(self).y_width,
            final(self).y_height == old(self).y_height,
            final(self).base_qindex == old(self).base_qindex,
            final(this_mi).level_ctx == old(this_mi).level_ctx,
            forall|p: int|
                0 <= p < 3 ==> #[trigger] final(this_mi).dc_sign[p] == (if p == plane {
                    let dc = co(
                        coeffs@,
                        if plane > 0 {
                            4int
                        } else {
                            8int
                        },
                        0,
                    );
                    if dc < 0 {
                        -1i8
                    } else if dc == 0 {
                        0i8
                    } else {
                        1i8
                    }
                } else {
                    old(this_mi).dc_sign[p]
                }),
    {
        let ghost txs: int = if plane > 0 {
            4int
        } else {
            8int
        };
        let ghost cv = coeffs@;
        let ghost mi0 = self.mode_info@;
        let ghost e0 = self.bitstream.trace();
        let txsize: usize = if plane > 0 {
            4
        } else {
            8
        };
        let ptype: usize = if plane == 0 {
            0
        } else {
            1
        };
        let qctx: usize = crate::get_qctx(self.base_qindex);
        let ghost qc = qctx as int;
        let num_coeffs: usize = txsize * txsize;
        proof {
            lemma_eob_props(cv, txs, num_coeffs as int);
        }
        // DC sign and remainder.
        proof {
            reveal(crate::consts::default_scan_8x8);
            reveal(crate::consts::default_scan_4x4);
            assert(sc_row(txs, 0) == 0 && sc_col(txs, 0) == 0);
        }
        let dc = coeffs.get(0, 0);
        let ghost dc_seq: Seq<EcEvent> = if co(cv, txs, 0) != 0 {
            seq![
                ev(
                    if co(cv, txs, 0) < 0 {
                        1int
                    } else {
                        0int
                    },
                    dc_sign_cdf[qc][ptype as int][spec_dc_sign_ctx(
                        mi0,
                        plane as int,
                        mi_row as int,
                        mi_col as int,
                    )]@,
                ),
            ]
        } else {
            Seq::empty()
        };
        if dc != 0 {
            let mut net: i32 = 0;
            if mi_row > 0 {
                let nb = self.mode_info.get(mi_row - 1, mi_col);
                net = net + nb.dc_sign[plane] as i32;
            }
            if mi_col > 0 {
                let nb = self.mode_info.get(mi_row, mi_col - 1);
                net = net + nb.dc_sign[plane] as i32;
            }
            let dc_ctx: usize = if net == 0 {
                0
            } else if net < 0 {
                1
            } else {
                2
            };
            proof {
                assert(dc_ctx == spec_dc_sign_ctx(mi0, plane as int, mi_row as int, mi_col as int));
                crate::cdf::lemma_dc_sign_cdf_valid(qc, ptype as int, dc_ctx as int);
            }
            let sign: usize = if dc < 0 {
                1
            } else {
                0
            };
            self.bitstream.write_symbol(
                sign,
                vstd::array::array_as_slice(&dc_sign_cdf[qctx][ptype][dc_ctx]),
            );
        }
        let adc: u32 = crate::util::unsigned_abs(dc);
        let ghost dcg_seq: Seq<EcEvent> = if iabs(co(cv, txs, 0)) >= 15 {
            golomb_events((iabs(co(cv, txs, 0)) - 15) as nat)
        } else {
            Seq::empty()
        };
        if adc >= 15 {
            self.bitstream.write_golomb(adc - 15);
        }
        this_mi.dc_sign.set(
            plane,
            if dc < 0 {
                -1
            } else if dc == 0 {
                0
            } else {
                1
            },
        );
        proof {
            assert(self.bitstream.trace() =~= e0 + dc_seq + dcg_seq);
        }

        // Signs and remainders of the other coefficients, lowest index first.
        let ghost tac = self.bitstream.trace();
        let ghost ac_whole = spec_ac_sign_events(cv, txs, 1, eob as int);
        let mut c: usize = 1;
        while c < eob
            invariant
                self.bitstream.wf(),
                coeffs.wf(),
                coeffs.spec_rows() == txsize,
                coeffs.spec_cols() == txsize,
                grid_dims(cv, txsize as nat, txsize as nat),
                cv == coeffs@,
                txs == txsize,
                (txsize == 4 && num_coeffs == 16) || (txsize == 8 && num_coeffs == 64),
                1 <= c,
                c <= eob || (eob <= 1 && c == 1),
                eob <= num_coeffs,
                eob == spec_eob(cv, txs, num_coeffs as int),
                self.mode_info == old(self).mode_info,
                self.recon == old(self).recon,
                self.y_width == old(self).y_width,
                self.y_height == old(self).y_height,
                self.base_qindex == old(self).base_qindex,
                old(self).wf(),
                self.bitstream.trace() + spec_ac_sign_events(cv, txs, c as int, eob as int) == tac
                    + ac_whole,
            decreases eob - c,
        {
            let ghost tpre = self.bitstream.trace();
            let (row, col) = scan_at(txsize, c);
            let coeff = coeffs.get(row, col);
            if coeff != 0 {
                let sign: u32 = if coeff < 0 {
                    1
                } else {
                    0
                };
                proof {
                    vstd::arithmetic::power2::lemma2_to64();
                }
                self.bitstream.write_literal(sign, 1);
            }
            let a: u32 = crate::util::unsigned_abs(coeff);
            if a >= 15 {
                self.bitstream.write_golomb(a - 15);
            }
            proof {
                assert(self.bitstream.trace() + spec_ac_sign_events(
                    cv,
                    txs,
                    (c + 1) as int,
                    eob as int,
                ) =~= tac + ac_whole);
            }
            c = c + 1;
        }
        proof {
            assert(spec_ac_sign_events(cv, txs, eob as int, eob as int) =~= Seq::<EcEvent>::empty());
            assert(self.bitstream.trace() =~= tac + ac_whole);
            assert(self.bitstream.trace() =~= e0 + dc_seq + dcg_seq + ac_whole);
        }
    }


    /// Encode the end-of-block position: its class symbol and, for classes
    /// above 1, the extra bit symbol and remainder bits.
    #[verifier::rlimit(100)]
    fn write_eob_position(&mut self, plane: usize, eob: usize, qctx: usize)
        requires
            old(self).bitstream.wf(),
            plane < 3,
            qctx < 4,
            0 < eob <= (if plane > 0 {
                16int
            } else {
                64int
            }),
        ensures
            final(self).bitstream.wf(),
            ({
                let ptype: int = if plane == 0 {
                    0
                } else {
                    1
                };
                let ec = spec_ceil_log2(eob as int);
                let ec_seq = seq![
                    ev(
                        ec,
                        if plane == 0 {
                            eob_class_64_cdf[qctx as int][ptype]@
                        } else {
                            eob_class_16_cdf[qctx as int][ptype]@
                        },
                    ),
                ];
                let extra_seq: Seq<EcEvent> = if ec > 1 {
                    let low = vstd::arithmetic::power2::pow2((ec - 1) as nat) as int + 1;
                    let sh = (ec - 2) as nat;
                    let extra = (eob - low) / (vstd::arithmetic::power2::pow2(sh) as int);
                    let rem = (eob - low) % (vstd::arithmetic::power2::pow2(sh) as int);
                    seq![
                        ev(
                            extra,
                            if plane == 0 {
                                eob_extra_8x8_cdf[qctx as int][ptype][ec - 2]@
                            } else {
                                eob_extra_4x4_cdf[qctx as int][ptype][ec - 2]@
                            },
                        ),
                    ] + literal_events(rem as nat, sh)
                } else {
                    Seq::empty()
                };
                final(self).bitstream.trace() == old(self).bitstream.trace() + ec_seq + extra_seq
            }),
            final(self).mode_info == old(self).mode_info,
            final(self).recon == old(self).recon,
            final(self).y_width == old(self).y_width,
            final(self).y_height == old(self).y_height,
            final(self).base_qindex == old(self).base_qindex,
    {
        let ghost e0 = self.bitstream.trace();
        let ptype: usize = if plane == 0 {
            0
        } else {
            1
        };
        let ghost qc = qctx as int;
        let eob_class: u32 = crate::util::ceil_log2(eob);
        proof {
            vstd::arithmetic::power2::lemma2_to64();
            if eob > 1 {
                lemma_ceil_log2_unique(eob as int, eob_class as int);
                if eob_class > (if plane == 0 {
                    6int
                } else {
                    4int
                }) {
                    vstd::arithmetic::power2::lemma_pow2_strictly_increases(
                        (if plane == 0 {
                            6nat
                        } else {
                            4nat
                        }),
                        (eob_class - 1) as nat,
                    );
                }
            }
            assert(eob_class == spec_ceil_log2(eob as int));
            crate::cdf::lemma_eob_class_cdfs_valid(qc, ptype as int);
        }
        let ecdf: &[u16] = if plane == 0 {
            vstd::array::array_as_slice(&eob_class_64_cdf[qctx][ptype])
        } else {
            vstd::array::array_as_slice(&eob_class_16_cdf[qctx][ptype])
        };
        self.bitstream.write_symbol(eob_class as usize, ecdf);
        if eob_class > 1 {
            let p_lo: u64 = crate::util::pow2_u64((eob_class - 1) as u64);
            let eob_class_low: usize = (p_lo as usize) + 1;
            let sh: u32 = eob_class - 2;
            let psh: u64 = crate::util::pow2_u64(sh as u64);
            proof {
                vstd::arithmetic::power2::lemma_pow2_adds((eob_class - 2) as nat, 1);
                vstd::arithmetic::power2::lemma_pow2_pos((eob_class - 2) as nat);
                vstd::arithmetic::power2::lemma2_to64();
            }
            let off: usize = eob - eob_class_low;
            proof {
                assert(off < 2 * (psh as int));
                vstd::arithmetic::div_mod::lemma_fundamental_div_mod(off as int, psh as int);
                assert((off as int) / (psh as int) < 2) by (nonlinear_arith)
                    requires
                        0 <= off < 2 * (psh as int),
                        psh >= 1,
                ;
                crate::cdf::lemma_eob_extra_cdfs_valid(qc, ptype as int, (eob_class - 2) as int);
            }
            let extra: usize = off / (psh as usize);
            let rem: usize = off % (psh as usize);
            let xcdf: &[u16] = if plane == 0 {
                vstd::array::array_as_slice(
                    &eob_extra_8x8_cdf[qctx][ptype][(eob_class - 2) as usize],
                )
            } else {
                vstd::array::array_as_slice(
                    &eob_extra_4x4_cdf[qctx][ptype][(eob_class - 2) as usize],
                )
            };
            self.bitstream.write_symbol(extra, xcdf);
            self.bitstream.write_literal(rem as u32, sh);
        }
    }


    /// Encode the all_zero symbol for one block of one plane.
    fn write_all_zero(&mut self, plane: usize, mi_row: usize, mi_col: usize, all_zero: bool, qctx: usize)
        requires
            old(self).wf(),
            plane < 3,
            qctx < 4,
            mi_row < old(self).spec_mi_rows(),
            mi_col < old(self).spec_mi_cols(),
        ensures
            final(self).wf(),
            final(self).bitstream.trace() == old(self).bitstream.trace() + seq![
                ev(
                    if all_zero {
                        1int
                    } else {
                        0int
                    },
                    all_zero_cdf[qctx as int][if plane > 0 {
                        0int
                    } else {
                        1int
                    }][spec_all_zero_ctx(
                        old(self)@.mi,
                        plane as int,
                        mi_row as int,
                        mi_col as int,
                    )]@,
                ),
            ],
            final(self).mode_info == old(self).mode_info,
            final(self).recon == old(self).recon,
            final(self).y_width == old(self).y_width,
            final(self).y_height == old(self).y_height,
            final(self).base_qindex == old(self).base_qindex,
    {
        let ghost mi0 = self.mode_info@;
        let txs_ctx: usize = if plane > 0 {
            0
        } else {
            1
        };
        let az_ctx: usize = if plane == 0 {
            0
        } else {
            let mut above = false;
            let mut left = false;
            if mi_row > 0 {
                let nb = self.mode_info.get(mi_row - 1, mi_col);
                above = nb.level_ctx[plane] != 0 || nb.dc_sign[plane] != 0;
            }
            if mi_col > 0 {
                let nb = self.mode_info.get(mi_row, mi_col - 1);
                left = nb.level_ctx[plane] != 0 || nb.dc_sign[plane] != 0;
            }
            7 + (if above {
                1
            } else {
                0
            }) + (if left {
                1
            } else {
                0
            })
        };
        proof {
            assert(az_ctx == spec_all_zero_ctx(mi0, plane as int, mi_row as int, mi_col as int));
            crate::cdf::lemma_all_zero_cdf_valid(qctx as int, txs_ctx as int, az_ctx as int);
        }
        self.bitstream.write_symbol(
            if all_zero {
                1
            } else {
                0
            },
            vstd::array::array_as_slice(&all_zero_cdf[qctx][txs_ctx][az_ctx]),
        );
        proof {
            assert(final(self).bitstream.trace() =~= old(self).bitstream.trace() + seq![
                ev(
                    if all_zero {
                        1int
                    } else {
                        0int
                    },
                    all_zero_cdf[qctx as int][txs_ctx as int][az_ctx as int]@,
                ),
            ]);
        }
    }

    /// Encode the quantized coefficients of one block of one plane, and
    /// record the block's level context and DC sign in `this_mi`.
    #[verifier::rlimit(100)]
    #[verifier::spinoff_prover]
    pub fn encode_coeffs(
        &mut self,
        plane: usize,
        mi_row: usize,
        mi_col: usize,
        bsize: usize,
        this_mi: &mut ModeInfo,
        coeffs: &Array2D<i32>,
    )
        requires
            old(self).wf(),
            plane < 3,
            bsize == 8,
            coeffs.wf(),
            coeffs.spec_rows() == (if plane > 0 {
                4int
            } else {
                8int
            }),
            coeffs.spec_cols() == (if plane > 0 {
                4int
            } else {
                8int
            }),
            grid_dims(
                coeffs@,
                if plane > 0 {
                    4nat
                } else {
                    8nat
                },
                if plane > 0 {
                    4nat
                } else {
                    8nat
                },
            ),
            mi_row < old(self).spec_mi_rows(),
            mi_col < old(self).spec_mi_cols(),
        ensures
            final(self).wf(),
            final(self)@ == (TileView {
                events: old(self)@.events + spec_coeff_events(
                    coeffs@,
                    plane as int,
                    mi_row as int,
                    mi_col as int,
                    spec_qctx(old(self).spec_qindex()),
                    old(self)@.mi,
                ),
                ..old(self)@
            }),
            final(self).spec_qindex() == old(self).spec_qindex(),
            final(self).spec_y_width() == old(self).spec_y_width(),
            final(self).spec_y_height() == old(self).spec_y_height(),
            forall|p: int|
                0 <= p < 3 ==> #[trigger] final(this_mi).level_ctx[p] == (if p == plane {
                    spec_coeff_level(
                        coeffs@,
                        if plane > 0 {
                            4int
                        } else {
                            8int
                        },
                    )
                } else {
                    old(this_mi).level_ctx[p]
                }),
            forall|p: int|
                0 <= p < 3 ==> #[trigger] final(this_mi).dc_sign[p] == (if p == plane {
                    spec_coeff_dc_sign(
                        coeffs@,
                        if plane > 0 {
                            4int
                        } else {
                            8int
                        },
                        old(this_mi).dc_sign[plane as int],
                    )
                } else {
                    old(this_mi).dc_sign[p]
                }),
    {
        let ghost txs: int = if plane > 0 {
            4int
        } else {
            8int
        };
        let ghost cv = coeffs@;
        let ghost mi0 = self.mode_info@;
        let txsize: usize = if plane > 0 {
            4
        } else {
            8
        };
        let txs_ctx: usize = if txsize == 8 {
            1
        } else {
            0
        };
        let num_coeffs: usize = txsize * txsize;
        let qctx: usize = crate::get_qctx(self.base_qindex);
        let ghost qc = qctx as int;
        let ptype: usize = if plane == 0 {
            0
        } else {
            1
        };
        proof {
            assert(qc == spec_qctx(old(self).spec_qindex()));
        }

        // Scan pass: end-of-block position and cumulative level.
        let (eob, level) = scan_pass(coeffs, txsize);
        this_mi.level_ctx.set(plane, level);
        proof {
            assert(level == spec_coeff_level(cv, txs));
            lemma_eob_props(cv, txs, num_coeffs as int);
        }

        // The all_zero symbol.
        let ghost e0 = self.bitstream.trace();
        let all_zero = eob == 0;
        self.write_all_zero(plane, mi_row, mi_col, all_zero, qctx);
        let ghost az_seq = seq![
            ev(
                if eob == 0 {
                    1int
                } else {
                    0int
                },
                all_zero_cdf[qc][txs_ctx as int][spec_all_zero_ctx(
                    mi0,
                    plane as int,
                    mi_row as int,
                    mi_col as int,
                )]@,
            ),
        ];
        let ghost mut acc = az_seq;
        proof {
            assert(self.bitstream.trace() =~= e0 + acc);
        }
        if all_zero {
            proof {
                assert(spec_coeff_events(cv, plane as int, mi_row as int, mi_col as int, qc, mi0)
                    =~= az_seq);
                assert(self@ =~= (TileView {
                    events: old(self)@.events + spec_coeff_events(
                        cv,
                        plane as int,
                        mi_row as int,
                        mi_col as int,
                        qc,
                        mi0,
                    ),
                    ..old(self)@
                }));
            }
            return ;
        }

        // Transform type, luma only: always DCT_DCT from the reduced set.
        if plane == 0 {
            proof {
                crate::cdf::lemma_fixed_cdfs_valid();
            }
            self.bitstream.write_symbol(1, vstd::array::array_as_slice(&tx_type_cdf));
        }
        let ghost tx_seq: Seq<EcEvent> = if plane == 0 {
            seq![ev(1, tx_type_cdf@)]
        } else {
            Seq::empty()
        };
        proof {
            acc = acc + tx_seq;
            assert(self.bitstream.trace() =~= e0 + acc);
        }

        // End-of-block class and extra bits.
        let ghost ec_seq = seq![
            ev(
                spec_ceil_log2(eob as int),
                if plane == 0 {
                    eob_class_64_cdf[qc][ptype as int]@
                } else {
                    eob_class_16_cdf[qc][ptype as int]@
                },
            ),
        ];
        let ghost extra_seq: Seq<EcEvent> = {
            let ec = spec_ceil_log2(eob as int);
            if ec > 1 {
                let low = vstd::arithmetic::power2::pow2((ec - 1) as nat) as int + 1;
                let sh = (ec - 2) as nat;
                let extra = (eob - low) / (vstd::arithmetic::power2::pow2(sh) as int);
                let rem = (eob - low) % (vstd::arithmetic::power2::pow2(sh) as int);
                seq![
                    ev(
                        extra,
                        if plane == 0 {
                            eob_extra_8x8_cdf[qc][ptype as int][ec - 2]@
                        } else {
                            eob_extra_4x4_cdf[qc][ptype as int][ec - 2]@
                        },
                    ),
                ] + literal_events(rem as nat, sh)
            } else {
                Seq::empty()
            }
        };
        self.write_eob_position(plane, eob, qctx);
        proof {
            acc = acc + ec_seq;
            acc = acc + extra_seq;
            assert(self.bitstream.trace() =~= e0 + acc);
        }

        // Base and base-range symbols, highest scan index first.
        let ghost whole = spec_base_range_events(cv, txs, qc, ptype as int, eob as int, num_coeffs as int, eob as int);
        let ghost tbase = self.bitstream.trace();
        let mut c: usize = eob;
        while c > 0
            invariant
                self.bitstream.wf(),
                coeffs.wf(),
                coeffs.spec_rows() == txsize,
                coeffs.spec_cols() == txsize,
                grid_dims(cv, txsize as nat, txsize as nat),
                cv == coeffs@,
                txs == txsize,
                (txsize == 4 && num_coeffs == 16) || (txsize == 8 && num_coeffs == 64),
                (plane == 0 && txs_ctx == 1 && ptype == 0 && txsize == 8) || (0 < plane < 3
                    && txs_ctx == 0 && ptype == 1 && txsize == 4),
                coeffs.wf(),
                coeffs.spec_rows() == txsize,
                coeffs.spec_cols() == txsize,
                0 <= qctx < 4,
                qc == qctx,
                c <= eob,
                0 < eob <= num_coeffs,
                eob == spec_eob(cv, txs, num_coeffs as int),
                self.mode_info == old(self).mode_info,
                self.recon == old(self).recon,
                self.y_width == old(self).y_width,
                self.y_height == old(self).y_height,
                self.base_qindex == old(self).base_qindex,
                old(self).wf(),
                self.bitstream.trace() + spec_base_range_events(
                    cv,
                    txs,
                    qc,
                    ptype as int,
                    eob as int,
                    num_coeffs as int,
                    c as int,
                ) == tbase + whole,
            decreases c,
        {
            c = c - 1;
            self.write_one_coeff(plane, coeffs, c, eob, num_coeffs, qctx);
            proof {
                assert(spec_base_range_events(
                    cv,
                    txs,
                    qc,
                    ptype as int,
                    eob as int,
                    num_coeffs as int,
                    c as int + 1,
                ) == spec_one_coeff_events(
                    cv,
                    txs,
                    qc,
                    ptype as int,
                    eob as int,
                    num_coeffs as int,
                    c as int,
                ) + spec_base_range_events(
                    cv,
                    txs,
                    qc,
                    ptype as int,
                    eob as int,
                    num_coeffs as int,
                    c as int,
                ));
                assert(self.bitstream.trace() + spec_base_range_events(
                    cv,
                    txs,
                    qc,
                    ptype as int,
                    eob as int,
                    num_coeffs as int,
                    c as int,
                ) =~= tbase + whole);
            }
        }
        proof {
            assert(self.bitstream.trace() =~= tbase + whole);
            acc = acc + whole;
            assert(self.bitstream.trace() =~= e0 + acc);
        }

        let ghost dc_seq: Seq<EcEvent> = if co(cv, txs, 0) != 0 {
            seq![
                ev(
                    if co(cv, txs, 0) < 0 {
                        1int
                    } else {
                        0int
                    },
                    dc_sign_cdf[qc][ptype as int][spec_dc_sign_ctx(
                        mi0,
                        plane as int,
                        mi_row as int,
                        mi_col as int,
                    )]@,
                ),
            ]
        } else {
            Seq::empty()
        };
        let ghost dcg_seq: Seq<EcEvent> = if iabs(co(cv, txs, 0)) >= 15 {
            golomb_events((iabs(co(cv, txs, 0)) - 15) as nat)
        } else {
            Seq::empty()
        };
        let ghost ac_whole = spec_ac_sign_events(cv, txs, 1, eob as int);
        self.write_signs(plane, mi_row, mi_col, this_mi, coeffs, eob);
        proof {
            acc = acc + dc_seq;
            acc = acc + dcg_seq;
            acc = acc + ac_whole;
            assert(self.bitstream.trace() =~= e0 + acc);
            lemma_coeff_events_assemble(cv, plane as int, mi_row as int, mi_col as int, qc, mi0);
            assert(acc =~= spec_coeff_events(cv, plane as int, mi_row as int, mi_col as int, qc, mi0));
            assert(self@ =~= (TileView {
                events: old(self)@.events + spec_coeff_events(
                    cv,
                    plane as int,
                    mi_row as int,
                    mi_col as int,
                    qc,
                    mi0,
                ),
                ..old(self)@
            }));
        }
    }
}


use crate::cdf::skip_cdf;
use crate::cdf::y_mode_cdf;
use crate::cdf::uv_mode_cdf;
use crate::cdf::partition_8x8_cdf;
use crate::cdf::partition_16x16_cdf;
use crate::cdf::partition_32x32_cdf;
use crate::cdf::partition_64x64_cdf;
use crate::util::spec_get_prob;
use crate::enums::Partition;
use crate::recon::spec_dc_pred;
use crate::recon::spec_diff;
use crate::recon::spec_quantize;
use crate::recon::spec_dequantize;
use crate::recon::spec_clamp_pixel;
use crate::txfm::spec_fwd_txfm2d;
use crate::txfm::spec_inv_txfm2d;

/// A grid with an h x w region at (y0, x0) set to v.
pub open spec fn grid_fill_u8(
    g: Seq<Seq<u8>>,
    y0: int,
    x0: int,
    h: int,
    w: int,
    v: u8,
) -> Seq<Seq<u8>> {
    Seq::new(
        g.len(),
        |r: int|
            Seq::new(
                g[r].len(),
                |c: int|
                    if y0 <= r < y0 + h && x0 <= c < x0 + w {
                        v
                    } else {
                        g[r][c]
                    },
            ),
    )
}

/// A grid with the block d added into the region at (y0, x0), clamped to
/// the pixel range.
pub open spec fn grid_add_clamp(
    g: Seq<Seq<u8>>,
    d: Seq<Seq<i32>>,
    y0: int,
    x0: int,
    h: int,
    w: int,
) -> Seq<Seq<u8>> {
    Seq::new(
        g.len(),
        |r: int|
            Seq::new(
                g[r].len(),
                |c: int|
                    if y0 <= r < y0 + h && x0 <= c < x0 + w {
                        spec_clamp_pixel(g[r][c] + d[r - y0][c - x0])
                    } else {
                        g[r][c]
                    },
            ),
    )
}

pub open spec fn grid_fill_mi(
    g: Seq<Seq<ModeInfo>>,
    y0: int,
    x0: int,
    h: int,
    w: int,
    m: ModeInfo,
) -> Seq<Seq<ModeInfo>> {
    Seq::new(
        g.len(),
        |r: int|
            Seq::new(
                g[r].len(),
                |c: int|
                    if y0 <= r < y0 + h && x0 <= c < x0 + w {
                        m
                    } else {
                        g[r][c]
                    },
            ),
    )
}

/// Encoding one plane of an 8x8 block: the DC prediction, the quantized
/// residual and its symbols, and the reconstructed plane; also the level
/// and DC sign that enter the mode info.
pub open spec fn spec_encode_plane(
    src_p: Seq<Seq<u8>>,
    rec_p: Seq<Seq<u8>>,
    mi: Seq<Seq<ModeInfo>>,
    plane: int,
    mi_row: int,
    mi_col: int,
    qindex: int,
) -> (Seq<EcEvent>, Seq<Seq<u8>>, u8, i8) {
    let n: int = if plane > 0 {
        4
    } else {
        8
    };
    let y0: int = if plane > 0 {
        mi_row * 2
    } else {
        mi_row * 4
    };
    let x0: int = if plane > 0 {
        mi_col * 2
    } else {
        mi_col * 4
    };
    let predv = spec_dc_pred(rec_p, y0, x0, n, n);
    let pred_p = grid_fill_u8(rec_p, y0, x0, n, n, predv);
    let coeffs = spec_quantize(
        spec_fwd_txfm2d(spec_diff(src_p, pred_p, y0, x0, n as nat, n as nat), n as nat),
        qindex,
    );
    let events = spec_coeff_events(coeffs, plane, mi_row, mi_col, spec_qctx(qindex), mi);
    let deq = spec_dequantize(coeffs, qindex);
    let rec2 = grid_add_clamp(pred_p, spec_inv_txfm2d(deq, n as nat), y0, x0, n, n);
    (events, rec2, spec_coeff_level(coeffs, n), spec_coeff_dc_sign(coeffs, n, 0))
}

/// Encoding one 8x8 block: skip, luma and chroma modes, the three planes,
/// and the 2x2 mode-info fill.
pub open spec fn spec_encode_block(
    st: TileView,
    s0: Seq<Seq<u8>>,
    s1: Seq<Seq<u8>>,
    s2: Seq<Seq<u8>>,
    mi_row: int,
    mi_col: int,
    qindex: int,
) -> TileView {
    let head = seq![ev(0, skip_cdf@), ev(0, y_mode_cdf@), ev(0, uv_mode_cdf@)];
    let p0 = spec_encode_plane(s0, st.recon0, st.mi, 0, mi_row, mi_col, qindex);
    let p1 = spec_encode_plane(s1, st.recon1, st.mi, 1, mi_row, mi_col, qindex);
    let p2 = spec_encode_plane(s2, st.recon2, st.mi, 2, mi_row, mi_col, qindex);
    let m = ModeInfo { level_ctx: [p0.2, p1.2, p2.2], dc_sign: [p0.3, p1.3, p2.3] };
    TileView {
        events: st.events + head + p0.0 + p1.0 + p2.0,
        recon0: p0.1,
        recon1: p1.1,
        recon2: p2.1,
        mi: grid_fill_mi(st.mi, mi_row, mi_col, 2, 2, m),
    }
}

pub open spec fn part_cdf(bsize: int, ctx: int) -> Seq<u16> {
    if bsize == 16 {
        partition_16x16_cdf[ctx]@
    } else if bsize == 32 {
        partition_32x32_cdf[ctx]@
    } else {
        partition_64x64_cdf[ctx]@
    }
}

/// The probability that a partition with only its left half in frame is
/// split further, derived from the full partition CDF.
pub open spec fn spec_p_split_vert(cdf: Seq<u16>) -> int {
    spec_get_prob(1, cdf) + spec_get_prob(3, cdf) + spec_get_prob(4, cdf) + spec_get_prob(5, cdf)
        + spec_get_prob(6, cdf) + spec_get_prob(8, cdf)
}

/// The probability that a partition with only its top half in frame is
/// split further, derived from the full partition CDF.
pub open spec fn spec_p_split_horz(cdf: Seq<u16>) -> int {
    spec_get_prob(2, cdf) + spec_get_prob(3, cdf) + spec_get_prob(4, cdf) + spec_get_prob(6, cdf)
        + spec_get_prob(7, cdf) + spec_get_prob(9, cdf)
}

/// The recursive partition descent: always split down to 8x8 blocks,
/// signalling as much of the partition symbol as the frame edges leave
/// undetermined, then recurse over the in-frame quadrants in raster order.
pub open spec fn spec_encode_partition(
    st: TileView,
    s0: Seq<Seq<u8>>,
    s1: Seq<Seq<u8>>,
    s2: Seq<Seq<u8>>,
    mi_row: int,
    mi_col: int,
    bsize: int,
    mi_rows: int,
    mi_cols: int,
    qindex: int,
) -> TileView
    decreases (if bsize >= 0 {
        bsize
    } else {
        0
    }),
{
    if bsize <= 8 {
        let st1 = TileView { events: st.events + seq![ev(0, partition_8x8_cdf@)], ..st };
        spec_encode_block(st1, s0, s1, s2, mi_row, mi_col, qindex)
    } else {
        let sub_rows: int = if mi_row + bsize / 8 < mi_rows {
            2
        } else {
            1
        };
        let sub_cols: int = if mi_col + bsize / 8 < mi_cols {
            2
        } else {
            1
        };
        let ctx: int = 2 * (if mi_col > 0 {
            1int
        } else {
            0int
        }) + (if mi_row > 0 {
            1int
        } else {
            0int
        });
        let cdf = part_cdf(bsize, ctx);
        let pev: Seq<EcEvent> = if sub_rows == 2 && sub_cols == 2 {
            seq![ev(3, cdf)]
        } else if sub_cols == 2 {
            seq![ev(1, seq![(32768 - spec_p_split_horz(cdf)) as u16])]
        } else if sub_rows == 2 {
            seq![ev(1, seq![(32768 - spec_p_split_vert(cdf)) as u16])]
        } else {
            Seq::empty()
        };
        let st1 = TileView { events: st.events + pev, ..st };
        let off = bsize / 8;
        let half = bsize / 2;
        let a = spec_encode_partition(st1, s0, s1, s2, mi_row, mi_col, half, mi_rows, mi_cols, qindex);
        let b = if sub_cols == 2 {
            spec_encode_partition(a, s0, s1, s2, mi_row, mi_col + off, half, mi_rows, mi_cols, qindex)
        } else {
            a
        };
        let c = if sub_rows == 2 {
            spec_encode_partition(b, s0, s1, s2, mi_row + off, mi_col, half, mi_rows, mi_cols, qindex)
        } else {
            b
        };
        if sub_rows == 2 && sub_cols == 2 {
            spec_encode_partition(c, s0, s1, s2, mi_row + off, mi_col + off, half, mi_rows, mi_cols, qindex)
        } else {
            c
        }
    }
}

/// The first k superblocks in raster order.
pub open spec fn spec_encode_sbs(
    st: TileView,
    s0: Seq<Seq<u8>>,
    s1: Seq<Seq<u8>>,
    s2: Seq<Seq<u8>>,
    sb_cols: int,
    mi_rows: int,
    mi_cols: int,
    qindex: int,
    k: int,
) -> TileView
    decreases k,
{
    if k <= 0 {
        st
    } else {
        let prev = spec_encode_sbs(st, s0, s1, s2, sb_cols, mi_rows, mi_cols, qindex, k - 1);
        spec_encode_partition(
            prev,
            s0,
            s1,
            s2,
            ((k - 1) / sb_cols) * 16,
            ((k - 1) % sb_cols) * 16,
            64,
            mi_rows,
            mi_cols,
            qindex,
        )
    }
}


impl TileEncoder {
    /// Predict, transform, quantize, entropy-code and reconstruct one plane
    /// of an 8x8 block.
    #[verifier::rlimit(100)]
    fn encode_plane(
        &mut self,
        source: &crate::frame::Frame,
        plane: usize,
        mi_row: usize,
        mi_col: usize,
        this_mi: &mut ModeInfo,
    )
        requires
            old(self).wf(),
            source.wf(),
            source.spec_plane(0).spec_width() == old(self).spec_y_width(),
            source.spec_plane(0).spec_height() == old(self).spec_y_height(),
            plane < 3,
            mi_row % 2 == 0,
            mi_col % 2 == 0,
            mi_row + 2 <= old(self).spec_mi_rows(),
            mi_col + 2 <= old(self).spec_mi_cols(),
        ensures
            final(self).wf(),
            ({
                let p = spec_encode_plane(
                    source.spec_plane(plane as int).px(),
                    (if plane == 0 {
                        old(self)@.recon0
                    } else if plane == 1 {
                        old(self)@.recon1
                    } else {
                        old(self)@.recon2
                    }),
                    old(self)@.mi,
                    plane as int,
                    mi_row as int,
                    mi_col as int,
                    old(self).spec_qindex(),
                );
                final(self)@ == (TileView {
                    events: old(self)@.events + p.0,
                    recon0: if plane == 0 {
                        p.1
                    } else {
                        old(self)@.recon0
                    },
                    recon1: if plane == 1 {
                        p.1
                    } else {
                        old(self)@.recon1
                    },
                    recon2: if plane == 2 {
                        p.1
                    } else {
                        old(self)@.recon2
                    },
                    mi: old(self)@.mi,
                }) && (forall|q: int|
                    0 <= q < 3 ==> #[trigger] final(this_mi).level_ctx[q] == (if q == plane {
                        p.2
                    } else {
                        old(this_mi).level_ctx[q]
                    })) && (forall|q: int|
                    0 <= q < 3 ==> #[trigger] final(this_mi).dc_sign[q] == (if q == plane {
                        spec_coeff_dc_sign(
                            spec_quantize(
                                spec_fwd_txfm2d(
                                    spec_diff(
                                        source.spec_plane(plane as int).px(),
                                        grid_fill_u8(
                                            (if plane == 0 {
                                                old(self)@.recon0
                                            } else if plane == 1 {
                                                old(self)@.recon1
                                            } else {
                                                old(self)@.recon2
                                            }),
                                            (if plane == 0 {
                                                mi_row * 4
                                            } else {
                                                mi_row * 2
                                            }) as int,
                                            (if plane == 0 {
                                                mi_col * 4
                                            } else {
                                                mi_col * 2
                                            }) as int,
                                            (if plane == 0 {
                                                8int
                                            } else {
                                                4int
                                            }),
                                            (if plane == 0 {
                                                8int
                                            } else {
                                                4int
                                            }),
                                            spec_dc_pred(
                                                (if plane == 0 {
                                                    old(self)@.recon0
                                                } else if plane == 1 {
                                                    old(self)@.recon1
                                                } else {
                                                    old(self)@.recon2
                                                }),
                                                (if plane == 0 {
                                                    mi_row * 4
                                                } else {
                                                    mi_row * 2
                                                }) as int,
                                                (if plane == 0 {
                                                    mi_col * 4
                                                } else {
                                                    mi_col * 2
                                                }) as int,
                                                (if plane == 0 {
                                                    8int
                                                } else {
                                                    4int
                                                }),
                                                (if plane == 0 {
                                                    8int
                                                } else {
                                                    4int
                                                }),
                                            ),
                                        ),
                                        (if plane == 0 {
                                            mi_row * 4
                                        } else {
                                            mi_row * 2
                                        }) as int,
                                        (if plane == 0 {
                                            mi_col * 4
                                        } else {
                                            mi_col * 2
                                        }) as int,
                                        (if plane == 0 {
                                            8nat
                                        } else {
                                            4nat
                                        }),
                                        (if plane == 0 {
                                            8nat
                                        } else {
                                            4nat
                                        }),
                                    ),
                                    (if plane == 0 {
                                        8nat
                                    } else {
                                        4nat
                                    }),
                                ),
                                old(self).spec_qindex(),
                            ),
                            (if plane == 0 {
                                8int
                            } else {
                                4int
                            }),
                            old(this_mi).dc_sign[plane as int],
                        )
                    } else {
                        old(this_mi).dc_sign[q]
                    }))
            }),
            final(self).spec_qindex() == old(self).spec_qindex(),
            final(self).spec_y_width() == old(self).spec_y_width(),
            final(self).spec_y_height() == old(self).spec_y_height(),
    {
        let ghost st0 = self@;
        let ghost rec0 = if plane == 0 {
            self@.recon0
        } else if plane == 1 {
            self@.recon1
        } else {
            self@.recon2
        };
        let n: usize = if plane == 0 {
            8
        } else {
            4
        };
        let y0: usize = if plane == 0 {
            mi_row * 4
        } else {
            mi_row * 2
        };
        let x0: usize = if plane == 0 {
            mi_col * 4
        } else {
            mi_col * 2
        };
        proof {
            assert((mi_row + 2) * 4 <= (self.y_height / 4) * 4 && (self.y_height / 4) * 4
                <= self.y_height && (mi_row + 2) * 4 == mi_row * 4 + 8 && mi_row * 2 + 4 <= self.y_height
                / 2 && (mi_col + 2) * 4 <= (self.y_width / 4) * 4 && (self.y_width / 4) * 4
                <= self.y_width && (mi_col + 2) * 4 == mi_col * 4 + 8 && mi_col * 2 + 4 <= self.y_width
                / 2) by (nonlinear_arith)
                requires
                    mi_row + 2 <= self.y_height / 4,
                    mi_col + 2 <= self.y_width / 4,
                    self.y_height % 8 == 0,
                    self.y_width % 8 == 0,
                    8 <= self.y_height <= 65536,
                    8 <= self.y_width <= 65536,
            ;
        }
        let qindex = self.base_qindex;
        let ghost predv = spec_dc_pred(rec0, y0 as int, x0 as int, n as int, n as int);
        {
            let rp = self.recon.plane_mut(plane);
            crate::recon::dc_predict(rp.pixels_mut(), y0, x0, n, n);
        }
        let ghost pred_p = grid_fill_u8(rec0, y0 as int, x0 as int, n as int, n as int, predv);
        proof {
            assert(self.recon.spec_plane(plane as int).px() =~= pred_p) by {
                assert forall|r: int|
                    0 <= r < self.recon.spec_plane(plane as int).px().len() implies self.recon.spec_plane(
                    plane as int,
                ).px()[r] =~= pred_p[r] by {}
            }
        }
        let mut residual = crate::recon::compute_residual(
            source.plane(plane).pixels(),
            self.recon.plane(plane).pixels(),
            y0,
            x0,
            n,
            n,
        );
        crate::recon::quantize(&mut residual, qindex);
        let ghost coeffs = residual@;
        self.encode_coeffs(plane, mi_row, mi_col, 8, this_mi, &residual);
        crate::recon::dequantize(&mut residual, qindex);
        {
            let rp = self.recon.plane_mut(plane);
            crate::recon::apply_residual(rp.pixels_mut(), residual, y0, x0, n, n);
        }
        proof {
            let p = spec_encode_plane(
                source.spec_plane(plane as int).px(),
                rec0,
                st0.mi,
                plane as int,
                mi_row as int,
                mi_col as int,
                old(self).spec_qindex(),
            );
            assert(coeffs == spec_quantize(
                spec_fwd_txfm2d(
                    spec_diff(
                        source.spec_plane(plane as int).px(),
                        pred_p,
                        y0 as int,
                        x0 as int,
                        n as nat,
                        n as nat,
                    ),
                    n as nat,
                ),
                old(self).spec_qindex(),
            ));
            assert(self.recon.spec_plane(plane as int).px() =~= p.1) by {
                assert forall|r: int|
                    0 <= r < self.recon.spec_plane(plane as int).px().len() implies self.recon.spec_plane(
                    plane as int,
                ).px()[r] =~= p.1[r] by {}
            }
            assert(self@ =~= (TileView {
                events: st0.events + p.0,
                recon0: if plane == 0 {
                    p.1
                } else {
                    st0.recon0
                },
                recon1: if plane == 1 {
                    p.1
                } else {
                    st0.recon1
                },
                recon2: if plane == 2 {
                    p.1
                } else {
                    st0.recon2
                },
                mi: st0.mi,
            }));
        }
    }
}


proof fn lemma_psplit_bounds(ctx: int)
    requires
        0 <= ctx < 4,
    ensures
        1 <= spec_p_split_horz(part_cdf(16, ctx)) <= 32767,
        1 <= spec_p_split_vert(part_cdf(16, ctx)) <= 32767,
        1 <= spec_p_split_horz(part_cdf(32, ctx)) <= 32767,
        1 <= spec_p_split_vert(part_cdf(32, ctx)) <= 32767,
        1 <= spec_p_split_horz(part_cdf(64, ctx)) <= 32767,
        1 <= spec_p_split_vert(part_cdf(64, ctx)) <= 32767,
{
    reveal(partition_16x16_cdf);
    reveal(partition_32x32_cdf);
    reveal(partition_64x64_cdf);
    assert(1 <= spec_p_split_horz(part_cdf(16, ctx)) <= 32767);
    assert(1 <= spec_p_split_vert(part_cdf(16, ctx)) <= 32767);
    assert(1 <= spec_p_split_horz(part_cdf(32, ctx)) <= 32767);
    assert(1 <= spec_p_split_vert(part_cdf(32, ctx)) <= 32767);
    assert(1 <= spec_p_split_horz(part_cdf(64, ctx)) <= 32767);
    assert(1 <= spec_p_split_vert(part_cdf(64, ctx)) <= 32767);
}

impl TileEncoder {
    /// Encode one 8x8 block: its mode symbols, the three planes, and the
    /// mode-info fill.
    #[verifier::rlimit(100)]
    #[verifier::spinoff_prover]
    fn encode_block(&mut self, source: &crate::frame::Frame, mi_row: usize, mi_col: usize, bsize: usize)
        requires
            old(self).wf(),
            source.wf(),
            source.spec_plane(0).spec_width() == old(self).spec_y_width(),
            source.spec_plane(0).spec_height() == old(self).spec_y_height(),
            bsize == 8,
            mi_row % 2 == 0,
            mi_col % 2 == 0,
            mi_row < old(self).spec_mi_rows(),
            mi_col < old(self).spec_mi_cols(),
        ensures
            final(self).wf(),
            final(self)@ == spec_encode_block(
                old(self)@,
                source.spec_plane(0).px(),
                source.spec_plane(1).px(),
                source.spec_plane(2).px(),
                mi_row as int,
                mi_col as int,
                old(self).spec_qindex(),
            ),
            final(self).spec_qindex() == old(self).spec_qindex(),
            final(self).spec_y_width() == old(self).spec_y_width(),
            final(self).spec_y_height() == old(self).spec_y_height(),
    {
        proof {
            let ghost mr = old(self).spec_mi_rows();
            let ghost mc = old(self).spec_mi_cols();
            assert(mi_row + 2 <= mr && mi_col + 2 <= mc) by (nonlinear_arith)
                requires
                    mi_row % 2 == 0,
                    mi_col % 2 == 0,
                    mi_row < mr,
                    mi_col < mc,
                    mr % 2 == 0,
                    mc % 2 == 0,
            ;
            crate::cdf::lemma_fixed_cdfs_valid();
        }
        let ghost st0 = self@;
        self.bitstream.write_symbol(0, vstd::array::array_as_slice(&skip_cdf));
        self.bitstream.write_symbol(0, vstd::array::array_as_slice(&y_mode_cdf));
        self.bitstream.write_symbol(0, vstd::array::array_as_slice(&uv_mode_cdf));
        let ghost head = seq![ev(0, skip_cdf@), ev(0, y_mode_cdf@), ev(0, uv_mode_cdf@)];
        proof {
            assert(self.bitstream.trace() =~= st0.events + head);
        }
        let mut this_mi: ModeInfo = Zero::zero();
        self.encode_plane(source, 0, mi_row, mi_col, &mut this_mi);
        self.encode_plane(source, 1, mi_row, mi_col, &mut this_mi);
        self.encode_plane(source, 2, mi_row, mi_col, &mut this_mi);
        proof {
            let p0 = spec_encode_plane(
                source.spec_plane(0).px(),
                st0.recon0,
                st0.mi,
                0,
                mi_row as int,
                mi_col as int,
                self.spec_qindex(),
            );
            let p1 = spec_encode_plane(
                source.spec_plane(1).px(),
                st0.recon1,
                st0.mi,
                1,
                mi_row as int,
                mi_col as int,
                self.spec_qindex(),
            );
            let p2 = spec_encode_plane(
                source.spec_plane(2).px(),
                st0.recon2,
                st0.mi,
                2,
                mi_row as int,
                mi_col as int,
                self.spec_qindex(),
            );
            let m = ModeInfo { level_ctx: [p0.2, p1.2, p2.2], dc_sign: [p0.3, p1.3, p2.3] };
            broadcast use vstd::array::group_array_axioms;

            assert(this_mi.level_ctx =~= m.level_ctx);
            assert(this_mi.dc_sign =~= m.dc_sign);
            assert(this_mi == m);
        }
        let ghost mi_before = self.mode_info@;
        self.mode_info.fill_region(mi_row, mi_col, 2, 2, this_mi);
        proof {
            assert(self.mode_info@ =~= grid_fill_mi(
                mi_before,
                mi_row as int,
                mi_col as int,
                2,
                2,
                this_mi,
            )) by {
                assert forall|r: int| 0 <= r < self.mode_info@.len() implies self.mode_info@[r]
                    =~= grid_fill_mi(mi_before, mi_row as int, mi_col as int, 2, 2, this_mi)[r] by {}
            }
            assert forall|cf: Seq<Seq<i32>>, t: int| 0 <= #[trigger] spec_coeff_level(cf, t)
                <= 63 by {
                lemma_cul_bound(cf, t, t * t);
            }
            assert(mi_wf(this_mi));
            assert(self@ =~= spec_encode_block(
                st0,
                source.spec_plane(0).px(),
                source.spec_plane(1).px(),
                source.spec_plane(2).px(),
                mi_row as int,
                mi_col as int,
                old(self).spec_qindex(),
            ));
        }
    }
}



impl TileEncoder {
    /// Emit the partition symbol (or derived binary choice) for a partition
    /// larger than 8x8 whose in-frame quadrant arity is (sub_rows, sub_cols).
    #[verifier::rlimit(100)]
    fn write_partition_symbol(
        &mut self,
        bsize: usize,
        ctx: usize,
        sub_rows: usize,
        sub_cols: usize,
    )
        requires
            old(self).wf(),
            bsize == 16 || bsize == 32 || bsize == 64,
            ctx < 4,
            1 <= sub_rows <= 2,
            1 <= sub_cols <= 2,
        ensures
            final(self).wf(),
            final(self)@ == (TileView {
                events: old(self)@.events + (if sub_rows == 2 && sub_cols == 2 {
                    seq![ev(3, part_cdf(bsize as int, ctx as int))]
                } else if sub_cols == 2 {
                    seq![
                        ev(
                            1,
                            seq![
                                (32768 - spec_p_split_horz(
                                    part_cdf(bsize as int, ctx as int),
                                )) as u16,
                            ],
                        ),
                    ]
                } else if sub_rows == 2 {
                    seq![
                        ev(
                            1,
                            seq![
                                (32768 - spec_p_split_vert(
                                    part_cdf(bsize as int, ctx as int),
                                )) as u16,
                            ],
                        ),
                    ]
                } else {
                    Seq::empty()
                }),
                ..old(self)@
            }),
            final(self).spec_qindex() == old(self).spec_qindex(),
            final(self).spec_y_width() == old(self).spec_y_width(),
            final(self).spec_y_height() == old(self).spec_y_height(),
    {
        let ghost st0 = self@;
        proof {
            crate::cdf::lemma_partition_cdfs_valid(ctx as int);
            lemma_psplit_bounds(ctx as int);
        }
        let cdf: &[u16] = if bsize == 16 {
            vstd::array::array_as_slice(&partition_16x16_cdf[ctx])
        } else if bsize == 32 {
            vstd::array::array_as_slice(&partition_32x32_cdf[ctx])
        } else {
            vstd::array::array_as_slice(&partition_64x64_cdf[ctx])
        };
        if sub_rows > 1 && sub_cols > 1 {
            self.bitstream.write_symbol(Partition::SPLIT.index(), cdf);
        } else if sub_cols > 1 {
            let p_split: u32 = crate::util::get_prob(Partition::VERT.index(), cdf) as u32
                + crate::util::get_prob(Partition::SPLIT.index(), cdf) as u32
                + crate::util::get_prob(Partition::HORZ_A.index(), cdf) as u32
                + crate::util::get_prob(Partition::VERT_A.index(), cdf) as u32
                + crate::util::get_prob(Partition::VERT_B.index(), cdf) as u32
                + crate::util::get_prob(Partition::VERT_4.index(), cdf) as u32;
            proof {
                assert(p_split == spec_p_split_horz(cdf@));
            }
            self.bitstream.write_bit(1, (32768 - p_split) as u16);
        } else if sub_rows > 1 {
            let p_split: u32 = crate::util::get_prob(Partition::HORZ.index(), cdf) as u32
                + crate::util::get_prob(Partition::SPLIT.index(), cdf) as u32
                + crate::util::get_prob(Partition::HORZ_A.index(), cdf) as u32
                + crate::util::get_prob(Partition::HORZ_B.index(), cdf) as u32
                + crate::util::get_prob(Partition::VERT_A.index(), cdf) as u32
                + crate::util::get_prob(Partition::HORZ_4.index(), cdf) as u32;
            proof {
                assert(p_split == spec_p_split_vert(cdf@));
            }
            self.bitstream.write_bit(1, (32768 - p_split) as u16);
        }
        proof {
            let pev: Seq<EcEvent> = if sub_rows == 2 && sub_cols == 2 {
                seq![ev(3, part_cdf(bsize as int, ctx as int))]
            } else if sub_cols == 2 {
                seq![
                    ev(
                        1,
                        seq![(32768 - spec_p_split_horz(part_cdf(bsize as int, ctx as int))) as u16],
                    ),
                ]
            } else if sub_rows == 2 {
                seq![
                    ev(
                        1,
                        seq![(32768 - spec_p_split_vert(part_cdf(bsize as int, ctx as int))) as u16],
                    ),
                ]
            } else {
                Seq::empty()
            };
            assert(self.bitstream.trace() =~= st0.events + pev);
            assert(self@ =~= (TileView { events: st0.events + pev, ..st0 }));
        }
    }
}

impl TileEncoder {
    /// Recursive partition descent from size `bsize` at MI position
    /// (mi_row, mi_col).
    #[verifier::rlimit(100)]
    #[verifier::spinoff_prover]
    fn encode_partition(&mut self, source: &crate::frame::Frame, mi_row: usize, mi_col: usize, bsize: usize)
        requires
            old(self).wf(),
            source.wf(),
            source.spec_plane(0).spec_width() == old(self).spec_y_width(),
            source.spec_plane(0).spec_height() == old(self).spec_y_height(),
            bsize == 8 || bsize == 16 || bsize == 32 || bsize == 64,
            mi_row % 2 == 0,
            mi_col % 2 == 0,
            mi_row < old(self).spec_mi_rows(),
            mi_col < old(self).spec_mi_cols(),
        ensures
            final(self).wf(),
            final(self)@ == spec_encode_partition(
                old(self)@,
                source.spec_plane(0).px(),
                source.spec_plane(1).px(),
                source.spec_plane(2).px(),
                mi_row as int,
                mi_col as int,
                bsize as int,
                old(self).spec_mi_rows(),
                old(self).spec_mi_cols(),
                old(self).spec_qindex(),
            ),
            final(self).spec_qindex() == old(self).spec_qindex(),
            final(self).spec_y_width() == old(self).spec_y_width(),
            final(self).spec_y_height() == old(self).spec_y_height(),
        decreases bsize,
    {
        let ghost st0 = self@;
        let ghost s0 = source.spec_plane(0).px();
        let ghost s1 = source.spec_plane(1).px();
        let ghost s2 = source.spec_plane(2).px();
        let ghost mr = old(self).spec_mi_rows();
        let ghost mc = old(self).spec_mi_cols();
        if bsize == 8 {
            proof {
                crate::cdf::lemma_fixed_cdfs_valid();
            }
            self.bitstream.write_symbol(0, vstd::array::array_as_slice(&partition_8x8_cdf));
            proof {
                assert(self.bitstream.trace() =~= st0.events + seq![ev(0, partition_8x8_cdf@)]);
                assert(self@ =~= (TileView {
                    events: st0.events + seq![ev(0, partition_8x8_cdf@)],
                    ..st0
                }));
            }
            self.encode_block(source, mi_row, mi_col, 8);
        } else {
            let mi_rows = self.y_height / 4;
            let mi_cols = self.y_width / 4;
            let sub_rows: usize = if mi_row + bsize / 8 < mi_rows {
                2
            } else {
                1
            };
            let sub_cols: usize = if mi_col + bsize / 8 < mi_cols {
                2
            } else {
                1
            };
            let above_ctx: usize = if mi_row > 0 {
                1
            } else {
                0
            };
            let left_ctx: usize = if mi_col > 0 {
                1
            } else {
                0
            };
            let ctx = 2 * left_ctx + above_ctx;
            self.write_partition_symbol(bsize, ctx, sub_rows, sub_cols);
            let ghost pev: Seq<EcEvent> = if sub_rows == 2 && sub_cols == 2 {
                seq![ev(3, part_cdf(bsize as int, ctx as int))]
            } else if sub_cols == 2 {
                seq![
                    ev(
                        1,
                        seq![(32768 - spec_p_split_horz(part_cdf(bsize as int, ctx as int))) as u16],
                    ),
                ]
            } else if sub_rows == 2 {
                seq![
                    ev(
                        1,
                        seq![(32768 - spec_p_split_vert(part_cdf(bsize as int, ctx as int))) as u16],
                    ),
                ]
            } else {
                Seq::empty()
            };
            proof {
                assert(self@ == (TileView { events: st0.events + pev, ..st0 }));
            }
            let offset = bsize / 8;
            let half = bsize / 2;
            proof {
                assert(offset % 2 == 0 && offset >= 2 && (half == 8 || half == 16 || half == 32)
                    && (mi_row + offset) % 2 == 0 && (mi_col + offset) % 2 == 0);
            }
            self.encode_partition(source, mi_row, mi_col, half);
            if sub_cols > 1 {
                self.encode_partition(source, mi_row, mi_col + offset, half);
            }
            if sub_rows > 1 {
                self.encode_partition(source, mi_row + offset, mi_col, half);
            }
            if sub_rows > 1 && sub_cols > 1 {
                self.encode_partition(source, mi_row + offset, mi_col + offset, half);
            }
            proof {
                assert(self@ =~= spec_encode_partition(
                    st0,
                    s0,
                    s1,
                    s2,
                    mi_row as int,
                    mi_col as int,
                    bsize as int,
                    mr,
                    mc,
                    old(self).spec_qindex(),
                ));
            }
        }
    }

    /// Encode every superblock of the tile in raster order.
    pub fn encode(&mut self, source: &crate::frame::Frame)
        requires
            old(self).wf(),
            source.wf(),
            source.spec_plane(0).spec_width() == old(self).spec_y_width(),
            source.spec_plane(0).spec_height() == old(self).spec_y_height(),
        ensures
            final(self).wf(),
            final(self)@ == ({
                let mi_rows = old(self).spec_mi_rows();
                let mi_cols = old(self).spec_mi_cols();
                let sb_rows = (mi_rows + 15) / 16;
                let sb_cols = (mi_cols + 15) / 16;
                spec_encode_sbs(
                    old(self)@,
                    source.spec_plane(0).px(),
                    source.spec_plane(1).px(),
                    source.spec_plane(2).px(),
                    sb_cols,
                    mi_rows,
                    mi_cols,
                    old(self).spec_qindex(),
                    sb_rows * sb_cols,
                )
            }),
    {
        let ghost st0 = self@;
        let ghost s0 = source.spec_plane(0).px();
        let ghost s1 = source.spec_plane(1).px();
        let ghost s2 = source.spec_plane(2).px();
        let ghost q = old(self).spec_qindex();
        let mi_rows = self.y_height / 4;
        let mi_cols = self.y_width / 4;
        let sb_rows = (mi_rows + 15) / 16;
        let sb_cols = (mi_cols + 15) / 16;
        let mut sb_row: usize = 0;
        proof {
            assert(2 <= mi_rows && 2 <= mi_cols && mi_rows <= 16384 && mi_cols <= 16384 && 1
                <= sb_rows && 1 <= sb_cols);
        }
        while sb_row < sb_rows
            invariant
                self.wf(),
                source.wf(),
                source.spec_plane(0).spec_width() == self.spec_y_width(),
                source.spec_plane(0).spec_height() == self.spec_y_height(),
                s0 == source.spec_plane(0).px(),
                s1 == source.spec_plane(1).px(),
                s2 == source.spec_plane(2).px(),
                self.spec_qindex() == q,
                self.spec_y_width() == old(self).spec_y_width(),
                self.spec_y_height() == old(self).spec_y_height(),
                mi_rows == self.spec_mi_rows(),
                mi_cols == self.spec_mi_cols(),
                sb_rows == (mi_rows + 15) / 16,
                sb_cols == (mi_cols + 15) / 16,
                1 <= sb_cols,
                sb_row <= sb_rows,
                self@ == spec_encode_sbs(
                    st0,
                    s0,
                    s1,
                    s2,
                    sb_cols as int,
                    mi_rows as int,
                    mi_cols as int,
                    q,
                    sb_row as int * sb_cols as int,
                ),
            decreases sb_rows - sb_row,
        {
            let mut sb_col: usize = 0;
            while sb_col < sb_cols
                invariant
                    self.wf(),
                    source.wf(),
                    source.spec_plane(0).spec_width() == self.spec_y_width(),
                    source.spec_plane(0).spec_height() == self.spec_y_height(),
                    s0 == source.spec_plane(0).px(),
                    s1 == source.spec_plane(1).px(),
                    s2 == source.spec_plane(2).px(),
                    self.spec_qindex() == q,
                    self.spec_y_width() == old(self).spec_y_width(),
                    self.spec_y_height() == old(self).spec_y_height(),
                    mi_rows == self.spec_mi_rows(),
                    mi_cols == self.spec_mi_cols(),
                    sb_rows == (mi_rows + 15) / 16,
                    sb_cols == (mi_cols + 15) / 16,
                    sb_row < sb_rows,
                    sb_col <= sb_cols,
                    self@ == spec_encode_sbs(
                        st0,
                        s0,
                        s1,
                        s2,
                        sb_cols as int,
                        mi_rows as int,
                        mi_cols as int,
                        q,
                        sb_row as int * sb_cols as int + sb_col as int,
                    ),
                decreases sb_cols - sb_col,
            {
                let mi_row = sb_row * 16;
                let mi_col = sb_col * 16;
                proof {
                    let k = sb_row as int * sb_cols as int + sb_col as int;
                    assert(k / (sb_cols as int) == sb_row as int && k % (sb_cols as int)
                        == sb_col as int) by {
                        vstd::arithmetic::div_mod::lemma_fundamental_div_mod_converse(
                            k,
                            sb_cols as int,
                            sb_row as int,
                            sb_col as int,
                        );
                    }
                    assert(mi_row < mi_rows && mi_col < mi_cols && mi_row % 2 == 0 && mi_col % 2
                        == 0 && mi_row == sb_row * 16 && mi_col == sb_col * 16)
                        by (nonlinear_arith)
                        requires
                            sb_row < sb_rows,
                            sb_col < sb_cols,
                            sb_rows == (mi_rows + 15) / 16,
                            sb_cols == (mi_cols + 15) / 16,
                            mi_row == sb_row * 16,
                            mi_col == sb_col * 16,
                            2 <= mi_rows <= 16384,
                            2 <= mi_cols <= 16384,
                    ;
                }
                self.encode_partition(source, mi_row, mi_col, 64);
                proof {
                    let k = sb_row as int * sb_cols as int + sb_col as int;
                    assert(spec_encode_sbs(
                        st0,
                        s0,
                        s1,
                        s2,
                        sb_cols as int,
                        mi_rows as int,
                        mi_cols as int,
                        q,
                        k + 1,
                    ) == spec_encode_partition(
                        spec_encode_sbs(
                            st0,
                            s0,
                            s1,
                            s2,
                            sb_cols as int,
                            mi_rows as int,
                            mi_cols as int,
                            q,
                            k,
                        ),
                        s0,
                        s1,
                        s2,
                        (k / (sb_cols as int)) * 16,
                        (k % (sb_cols as int)) * 16,
                        64,
                        mi_rows as int,
                        mi_cols as int,
                        q,
                    ));
                }
                sb_col = sb_col + 1;
            }
            proof {
                assert(sb_row as int * sb_cols as int + sb_cols as int == (sb_row + 1) as int
                    * sb_cols as int) by (nonlinear_arith);
            }
            sb_row = sb_row + 1;
        }
        proof {
            assert(sb_row as int * sb_cols as int == sb_rows as int * sb_cols as int);
        }
    }
}

/// A pixel grid with every entry at the mid-grey default 128.
pub open spec fn gray_grid(h: int, w: int) -> Seq<Seq<u8>> {
    Seq::new(h as nat, |r: int| Seq::new(w as nat, |c: int| 128u8))
}

/// The symbols of the whole tile: every superblock in raster order, starting
/// from a zeroed reconstruction and mode-info grid.
pub open spec fn spec_tile_events(
    s0: Seq<Seq<u8>>,
    s1: Seq<Seq<u8>>,
    s2: Seq<Seq<u8>>,
    y_width: int,
    y_height: int,
    qindex: int,
) -> Seq<EcEvent> {
    let mi_rows = y_height / 4;
    let mi_cols = y_width / 4;
    let sb_rows = (mi_rows + 15) / 16;
    let sb_cols = (mi_cols + 15) / 16;
    let init = TileView {
        events: Seq::empty(),
        recon0: gray_grid(y_height, y_width),
        recon1: gray_grid(y_height / 2, y_width / 2),
        recon2: gray_grid(y_height / 2, y_width / 2),
        mi: Seq::new(
            mi_rows as nat,
            |r: int| Seq::new(mi_cols as nat, |c: int| crate::array2d::Zero::zero_spec()),
        ),
    };
    spec_encode_sbs(init, s0, s1, s2, sb_cols, mi_rows, mi_cols, qindex, sb_rows * sb_cols).events
}

impl AV1Encoder {
    /// Entropy-encode the single tile of the image: the byte stream whose
    /// decode yields exactly the tile's symbols.
    pub fn encode_image(&self, source: &crate::frame::Frame, base_qindex: u8) -> (r: Vec<u8>)
        requires
            self.wf(),
            source.wf(),
            source.spec_plane(0).spec_width() == self.spec_y_width(),
            source.spec_plane(0).spec_height() == self.spec_y_height(),
            base_qindex != 0,
            self.spec_y_width() * self.spec_y_height() <= usize::MAX,
        ensures
            r@ == crate::entropy::ec_done(
                crate::entropy::ec_replay(
                    spec_tile_events(
                        source.spec_plane(0).px(),
                        source.spec_plane(1).px(),
                        source.spec_plane(2).px(),
                        self.spec_y_width() as int,
                        self.spec_y_height() as int,
                        base_qindex as int,
                    ),
                ),
            ),
    {
        let mi_rows = self.y_height / 4;
        let mi_cols = self.y_width / 4;
        proof {
            let ghost yw = self.y_width as int;
            let ghost yh = self.y_height as int;
            assert(crate::frame::padded8(yh as nat) == yh && crate::frame::padded8(yw as nat)
                == yw && (yh / 4) * (yw / 4) <= yh * yw && yw * yh == yh * yw)
                by (nonlinear_arith)
                requires
                    yw % 8 == 0,
                    yh % 8 == 0,
                    8 <= yw <= 65536,
                    8 <= yh <= 65536,
            ;
        }
        let mut tile = TileEncoder {
            y_width: self.y_width,
            y_height: self.y_height,
            bitstream: EntropyWriter::new(),
            base_qindex,
            mode_info: Array2D::<ModeInfo>::zeroed(mi_rows, mi_cols),
            recon: crate::frame::Frame::new(self.y_height, self.y_width),
        };
        proof {
            assert(tile.wf());
            tile.recon.spec_plane(0).lemma_grid();
            tile.recon.spec_plane(1).lemma_grid();
            tile.recon.spec_plane(2).lemma_grid();
            assert(tile@.recon0 =~= gray_grid(self.y_height as int, self.y_width as int)) by {
                assert forall|rr: int| 0 <= rr < tile@.recon0.len() implies tile@.recon0[rr]
                    =~= gray_grid(self.y_height as int, self.y_width as int)[rr] by {}
            }
            assert(tile@.recon1 =~= gray_grid(self.y_height as int / 2, self.y_width as int / 2))
                by {
                assert forall|rr: int| 0 <= rr < tile@.recon1.len() implies tile@.recon1[rr]
                    =~= gray_grid(self.y_height as int / 2, self.y_width as int / 2)[rr] by {}
            }
            assert(tile@.recon2 =~= gray_grid(self.y_height as int / 2, self.y_width as int / 2))
                by {
                assert forall|rr: int| 0 <= rr < tile@.recon2.len() implies tile@.recon2[rr]
                    =~= gray_grid(self.y_height as int / 2, self.y_width as int / 2)[rr] by {}
            }
            assert(tile@.mi =~= Seq::new(
                (self.y_height as int / 4) as nat,
                |r: int|
                    Seq::new(
                        (self.y_width as int / 4) as nat,
                        |c: int| crate::array2d::Zero::zero_spec(),
                    ),
            )) by {
                assert forall|rr: int| 0 <= rr < tile@.mi.len() implies tile@.mi[rr] =~= Seq::new(
                    (self.y_width as int / 4) as nat,
                    |c: int| crate::array2d::Zero::zero_spec(),
                ) by {}
            }
            assert(tile@.events =~= Seq::<EcEvent>::empty());
        }
        tile.encode(source);
        tile.bitstream.finalize()
    }
}


impl TileEncoder {
    /// After any sequence of encoding steps, every mode-info cell carries a
    /// level context in [0, 63] and a DC sign in {-1, 0, +1}.
    pub proof fn lemma_mode_info_invariant(&self)
        requires
            self.wf(),
        ensures
            forall|r: int, c: int|
                0 <= r < self.spec_mi_rows() && 0 <= c < self.spec_mi_cols() ==> mi_wf(
                    #[trigger] self@.mi[r][c],
                ),
    {
    }
}

} // verus!
