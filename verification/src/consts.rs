#![allow(non_upper_case_globals)]
use vstd::prelude::*;

verus! {

// Zig-zag scan orders for the 4x4 and 8x8 transforms: entry c gives the
// (row, col) of the c-th coefficient in scan order.

#[verifier::opaque]
pub const default_scan_4x4: [(u8, u8); 16] = [
    (0, 0), (1, 0), (0, 1), (0, 2), (1, 1), (2, 0), (3, 0), (2, 1), (1, 2), (0, 3),
    (1, 3), (2, 2), (3, 1), (3, 2), (2, 3), (3, 3),
];

#[verifier::opaque]
pub const default_scan_8x8: [(u8, u8); 64] = [
    (0, 0), (1, 0), (0, 1), (0, 2), (1, 1), (2, 0), (3, 0), (2, 1), (1, 2), (0, 3),
    (0, 4), (1, 3), (2, 2), (3, 1), (4, 0), (5, 0), (4, 1), (3, 2), (2, 3), (1, 4),
    (0, 5), (0, 6), (1, 5), (2, 4), (3, 3), (4, 2), (5, 1), (6, 0), (7, 0), (6, 1),
    (5, 2), (4, 3), (3, 4), (2, 5), (1, 6), (0, 7), (1, 7), (2, 6), (3, 5), (4, 4),
    (5, 3), (6, 2), (7, 1), (7, 2), (6, 3), (5, 4), (4, 5), (3, 6), (2, 7), (3, 7),
    (4, 6), (5, 5), (6, 4), (7, 3), (7, 4), (6, 5), (5, 6), (4, 7), (5, 7), (6, 6),
    (7, 5), (7, 6), (6, 7), (7, 7),
];

// Offsets of the already-coded neighbours that enter the coeff_base context.
#[verifier::opaque]
pub const Sig_Ref_Diff_Offset: [(u8, u8); 5] = [(0, 1), (1, 0), (1, 1), (0, 2), (2, 0)];

// Offsets of the neighbours that enter the coeff_br context.
#[verifier::opaque]
pub const Mag_Ref_Offset: [(u8, u8); 3] = [(0, 1), (1, 0), (1, 1)];

#[verifier::opaque]
pub const Coeff_Base_Ctx_Offset_8x8: [[u8; 5]; 5] = [
    [0, 1, 6, 6, 21],
    [1, 6, 6, 21, 21],
    [6, 6, 21, 21, 21],
    [6, 21, 21, 21, 21],
    [21, 21, 21, 21, 21],
];

// Quantizer lookups for 8-bit video, indexed by qindex.
#[verifier::opaque]
pub const qindex_to_dc_q: [i32; 256] = [
    4, 8, 8, 9, 10, 11, 12, 12, 13, 14, 15, 16, 17, 18, 19, 19, 20, 21, 22, 23, 24, 25,
    26, 26, 27, 28, 29, 30, 31, 32, 32, 33, 34, 35, 36, 37, 38, 38, 39, 40, 41, 42, 43,
    43, 44, 45, 46, 47, 48, 48, 49, 50, 51, 52, 53, 53, 54, 55, 56, 57, 57, 58, 59, 60,
    61, 62, 62, 63, 64, 65, 66, 66, 67, 68, 69, 70, 70, 71, 72, 73, 74, 74, 75, 76, 77,
    78, 78, 79, 80, 81, 81, 82, 83, 84, 85, 85, 87, 88, 90, 92, 93, 95, 96, 98, 99,
    101, 102, 104, 105, 107, 108, 110, 111, 113, 114, 116, 117, 118, 120, 121, 123,
    125, 127, 129, 131, 134, 136, 138, 140, 142, 144, 146, 148, 150, 152, 154, 156,
    158, 161, 164, 166, 169, 172, 174, 177, 180, 182, 185, 187, 190, 192, 195, 199,
    202, 205, 208, 211, 214, 217, 220, 223, 226, 230, 233, 237, 240, 243, 247, 250,
    253, 257, 261, 265, 269, 272, 276, 280, 284, 288, 292, 296, 300, 304, 309, 313,
    317, 322, 326, 330, 335, 340, 344, 349, 354, 359, 364, 369, 374, 379, 384, 389,
    395, 400, 406, 411, 417, 423, 429, 435, 441, 447, 454, 461, 467, 475, 482, 489,
    497, 505, 513, 522, 530, 539, 549, 559, 569, 579, 590, 602, 614, 626, 640, 654,
    668, 684, 700, 717, 736, 755, 775, 796, 819, 843, 869, 896, 925, 955, 988, 1022,
    1058, 1098, 1139, 1184, 1232, 1282, 1336,
];

#[verifier::opaque]
pub const qindex_to_ac_q: [i32; 256] = [
    4, 8, 9, 10, 11, 12, 13, 14, 15, 16, 17, 18, 19, 20, 21, 22, 23, 24, 25, 26, 27,
    28, 29, 30, 31, 32, 33, 34, 35, 36, 37, 38, 39, 40, 41, 42, 43, 44, 45, 46, 47, 48,
    49, 50, 51, 52, 53, 54, 55, 56, 57, 58, 59, 60, 61, 62, 63, 64, 65, 66, 67, 68, 69,
    70, 71, 72, 73, 74, 75, 76, 77, 78, 79, 80, 81, 82, 83, 84, 85, 86, 87, 88, 89, 90,
    91, 92, 93, 94, 95, 96, 97, 98, 99, 100, 101, 102, 104, 106, 108, 110, 112, 114,
    116, 118, 120, 122, 124, 126, 128, 130, 132, 134, 136, 138, 140, 142, 144, 146,
    148, 150, 152, 155, 158, 161, 164, 167, 170, 173, 176, 179, 182, 185, 188, 191,
    194, 197, 200, 203, 207, 211, 215, 219, 223, 227, 231, 235, 239, 243, 247, 251,
    255, 260, 265, 270, 275, 280, 285, 290, 295, 300, 305, 311, 317, 323, 329, 335,
    341, 347, 353, 359, 366, 373, 380, 387, 394, 401, 408, 416, 424, 432, 440, 448,
    456, 465, 474, 483, 492, 501, 510, 520, 530, 540, 550, 560, 571, 582, 593, 604,
    615, 627, 639, 651, 663, 676, 689, 702, 715, 729, 743, 757, 771, 786, 801, 816,
    832, 848, 864, 881, 898, 915, 933, 951, 969, 988, 1007, 1026, 1046, 1066, 1087,
    1108, 1129, 1151, 1173, 1196, 1219, 1243, 1267, 1292, 1317, 1343, 1369, 1396, 1423,
    1451, 1479, 1508, 1537, 1567, 1597, 1628, 1660, 1692, 1725, 1759, 1793, 1828,
];

// Cosine tables: round(cos(i*pi/128) << cos_bit) for cos_bit in 10..=13.
#[verifier::opaque]
pub const av1_cospi_arr_data: [[i32; 64]; 4] = [
    [
        1024, 1024, 1023, 1021, 1019, 1016, 1013, 1009, 1004, 999, 993, 987, 980, 972, 964,
        955, 946, 936, 926, 915, 903, 891, 878, 865, 851, 837, 822, 807, 792, 775, 759,
        742, 724, 706, 688, 669, 650, 630, 610, 590, 569, 548, 526, 505, 483, 460, 438,
        415, 392, 369, 345, 321, 297, 273, 249, 224, 200, 175, 150, 125, 100, 75, 50, 25,
    ],
    [
        2048, 2047, 2046, 2042, 2038, 2033, 2026, 2018, 2009, 1998, 1987, 1974, 1960, 1945,
        1928, 1911, 1892, 1872, 1851, 1829, 1806, 1782, 1757, 1730, 1703, 1674, 1645, 1615,
        1583, 1551, 1517, 1483, 1448, 1412, 1375, 1338, 1299, 1260, 1220, 1179, 1138, 1096,
        1053, 1009, 965, 921, 876, 830, 784, 737, 690, 642, 595, 546, 498, 449, 400, 350,
        301, 251, 201, 151, 100, 50,
    ],
    [
        4096, 4095, 4091, 4085, 4076, 4065, 4052, 4036, 4017, 3996, 3973, 3948, 3920, 3889,
        3857, 3822, 3784, 3745, 3703, 3659, 3612, 3564, 3513, 3461, 3406, 3349, 3290, 3229,
        3166, 3102, 3035, 2967, 2896, 2824, 2751, 2675, 2598, 2520, 2440, 2359, 2276, 2191,
        2106, 2019, 1931, 1842, 1751, 1660, 1567, 1474, 1380, 1285, 1189, 1092, 995, 897,
        799, 700, 601, 501, 401, 301, 201, 101,
    ],
    [
        8192, 8190, 8182, 8170, 8153, 8130, 8103, 8071, 8035, 7993, 7946, 7895, 7839, 7779,
        7713, 7643, 7568, 7489, 7405, 7317, 7225, 7128, 7027, 6921, 6811, 6698, 6580, 6458,
        6333, 6203, 6070, 5933, 5793, 5649, 5501, 5351, 5197, 5040, 4880, 4717, 4551, 4383,
        4212, 4038, 3862, 3683, 3503, 3320, 3135, 2948, 2760, 2570, 2378, 2185, 1990, 1795,
        1598, 1401, 1202, 1003, 803, 603, 402, 201,
    ],
];

// Number of butterfly stages of the 4- and 8-point transforms.
#[verifier::opaque]
pub const av1_txfm_stages: [usize; 2] = [4, 6];

// Forward and inverse shift triples, indexed by transform-size index.
#[verifier::opaque]
pub const av1_txfm_fwd_shift: [[i32; 3]; 2] = [
    [2, 0, 0],
    [2, -1, 0],
];

#[verifier::opaque]
pub const av1_txfm_inv_shift: [[i32; 2]; 2] = [
    [0, -4],
    [-1, -4],
];

#[verifier::opaque]
pub const av1_txfm_inv_start_range: [u32; 2] = [5, 6];


/// Scan entries stay inside their transform block.
pub proof fn lemma_scan_bounds(c: int)
    ensures
        0 <= c < 64 ==> default_scan_8x8[c].0 < 8 && default_scan_8x8[c].1 < 8,
        0 <= c < 16 ==> default_scan_4x4[c].0 < 4 && default_scan_4x4[c].1 < 4,
{
    reveal(default_scan_8x8);
    reveal(default_scan_4x4);
    if 0 <= c < 64 {
        assert(default_scan_8x8[c].0 < 8 && default_scan_8x8[c].1 < 8);
    }
    if 0 <= c < 16 {
        assert(default_scan_4x4[c].0 < 4 && default_scan_4x4[c].1 < 4);
    }
}

/// The coeff_base location offsets stay below 22, so the base context stays
/// inside its table.
pub proof fn lemma_ctx_offset_bounds(r: int, c: int)
    requires
        0 <= r < 5,
        0 <= c < 5,
    ensures
        Coeff_Base_Ctx_Offset_8x8[r][c] <= 21,
{
    reveal(Coeff_Base_Ctx_Offset_8x8);
    assert(Coeff_Base_Ctx_Offset_8x8[r][c] <= 21);
}

} // verus!
