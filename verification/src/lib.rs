use vstd::prelude::*;

pub mod array2d;
pub mod av1_encoder;
pub mod bits;
pub mod cdf;
pub mod entropy;
pub mod enums;
pub mod frame;
pub mod hls;
pub mod isobmff;
pub mod consts;
pub mod recon;
pub mod txfm;
pub mod util;

verus! {


/// Quantizer-index context used to select coefficient CDF groups:
/// qindex 0..=20 -> 0, 21..=60 -> 1, 61..=120 -> 2, 121..=255 -> 3.
pub fn get_qctx(base_qindex: u8) -> (r: usize)
    ensures
        r == (if base_qindex <= 20 {
            0int
        } else if base_qindex <= 60 {
            1int
        } else if base_qindex <= 120 {
            2int
        } else {
            3int
        }),
{
    if base_qindex <= 20 {
        0
    } else if base_qindex <= 60 {
        1
    } else if base_qindex <= 120 {
        2
    } else {
        3
    }
}

} // verus!
