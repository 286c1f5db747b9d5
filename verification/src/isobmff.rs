use vstd::prelude::*;

verus! {

use crate::util::be_bytes;
use crate::util::lemma_be_bytes_len;
use byteorder::BigEndian;
use byteorder::WriteBytesExt;

// A minimal ISOBMFF box writer: boxes open with a zero size field that is
// patched when the box closes, so a parent cannot close before its children.

/// Append the bytes of one opened box header.
pub open spec fn sp_open(d: Seq<u8>, typ: Seq<u8>) -> Seq<u8> {
    d + be_bytes(0, 4) + typ
}

/// Append the bytes of one opened full box header (version and flags).
pub open spec fn sp_openv(d: Seq<u8>, typ: Seq<u8>, version: int, flags: int) -> Seq<u8> {
    sp_open(d, typ) + be_bytes((version * 0x1000000 + flags) as nat, 4)
}

/// The data with the four bytes at pos replaced by the 32-bit big-endian v.
pub open spec fn sp_patch4(d: Seq<u8>, pos: int, v: int) -> Seq<u8> {
    d.take(pos) + be_bytes(v as nat, 4) + d.skip(pos + 4)
}

/// Close the box whose size field sits at pos: patch in the byte count from
/// the size field itself to the current end.
pub open spec fn sp_close(d: Seq<u8>, pos: int) -> Seq<u8> {
    sp_patch4(d, pos, d.len() - pos)
}

pub struct ISOBMFFWriter {
    data: Vec<u8>,
    // Size-field positions of the boxes still open, innermost last.
    open_boxes: Vec<usize>,
}

/// Relies on byteorder's WriteBytesExt::write_u8 for Vec<u8>: appends the
/// byte; writing to a Vec never fails.
#[verifier::external_body]
fn push_u8_raw(data: &mut Vec<u8>, value: u8)
    ensures
        final(data)@ == old(data)@ + be_bytes(value as nat, 1),
{
    data.write_u8(value).unwrap();
}

/// Relies on byteorder's WriteBytesExt::write_u16::<BigEndian> for Vec<u8>:
/// appends the two bytes of the value, most significant first; writing to a
/// Vec never fails.
#[verifier::external_body]
fn push_u16_be(data: &mut Vec<u8>, value: u16)
    ensures
        final(data)@ == old(data)@ + be_bytes(value as nat, 2),
{
    data.write_u16::<BigEndian>(value).unwrap();
}

/// Relies on byteorder's WriteBytesExt::write_u32::<BigEndian> for Vec<u8>:
/// appends the four bytes of the value, most significant first; writing to a
/// Vec never fails.
#[verifier::external_body]
fn push_u32_be(data: &mut Vec<u8>, value: u32)
    ensures
        final(data)@ == old(data)@ + be_bytes(value as nat, 4),
{
    data.write_u32::<BigEndian>(value).unwrap();
}

impl ISOBMFFWriter {
    pub closed spec fn bytes(&self) -> Seq<u8> {
        self.data@
    }

    pub closed spec fn boxes(&self) -> Seq<usize> {
        self.open_boxes@
    }

    pub closed spec fn wf(&self) -> bool {
        forall|i: int| 0 <= i < self.open_boxes@.len() ==> #[trigger] self.open_boxes@[i] + 8
            <= self.data@.len()
    }

    pub fn new() -> (r: ISOBMFFWriter)
        ensures
            r.wf(),
            r.bytes() == Seq::<u8>::empty(),
            r.boxes() == Seq::<usize>::empty(),
    {
        ISOBMFFWriter { data: Vec::new(), open_boxes: Vec::new() }
    }

    /// Open a plain box: a zero size field to be patched later, then the
    /// 4-character type.
    pub fn open_box(&mut self, typ: &[u8; 4])
        requires
            old(self).wf(),
            old(self).bytes().len() + 8 <= usize::MAX,
        ensures
            final(self).wf(),
            final(self).bytes() == sp_open(old(self).bytes(), typ@),
            final(self).boxes() == old(self).boxes().push(old(self).bytes().len() as usize),
    {
        proof {
            lemma_be_bytes_len(0, 4);
        }
        let size_pos = self.data.len();
        self.open_boxes.push(size_pos);
        push_u32_be(&mut self.data, 0);
        let mut i: usize = 0;
        while i < 4
            invariant
                i <= 4,
                self.data@ == old(self).bytes() + be_bytes(0, 4) + typ@.take(i as int),
                self.open_boxes@ == old(self).boxes().push(old(self).bytes().len() as usize),
            decreases 4 - i,
        {
            let b = typ[i];
            self.data.push(b);
            proof {
                assert(old(self).bytes() + be_bytes(0, 4) + typ@.take(i as int) + seq![typ@[i as int]]
                    =~= old(self).bytes() + be_bytes(0, 4) + typ@.take(i + 1));
            }
            i = i + 1;
        }
        proof {
            assert(typ@.take(4) =~= typ@);
        }
    }

    /// Open a full box: plain header, then one version byte and 24 bits of
    /// flags.
    pub fn open_box_with_version(&mut self, typ: &[u8; 4], version: u8, flags: u32)
        requires
            old(self).wf(),
            old(self).bytes().len() + 12 <= usize::MAX,
            flags < 0x1000000,
        ensures
            final(self).wf(),
            final(self).bytes() == sp_openv(old(self).bytes(), typ@, version as int, flags as int),
            final(self).boxes() == old(self).boxes().push(old(self).bytes().len() as usize),
    {
        self.open_box(typ);
        let word: u32 = ((version as u32) << 24u32) | flags;
        proof {
            assert(word == version as u32 * 0x1000000 + flags) by (bit_vector)
                requires
                    flags < 0x1000000,
                    word == ((version as u32) << 24u32) | flags,
            ;
        }
        push_u32_be(&mut self.data, word);
    }

    /// Close the innermost open box, patching its size field with the byte
    /// count from the size field to the current end of the data.
    pub fn close_box(&mut self)
        requires
            old(self).wf(),
            old(self).boxes().len() >= 1,
            old(self).bytes().len() <= u32::MAX,
        ensures
            final(self).wf(),
            final(self).bytes() == sp_close(old(self).bytes(), old(self).boxes().last() as int),
            final(self).boxes() == old(self).boxes().drop_last(),
    {
        let n = self.open_boxes.len();
        let pos = self.open_boxes[n - 1];
        self.open_boxes.truncate(n - 1);
        proof {
            assert(self.open_boxes@ =~= old(self).boxes().drop_last());
        }
        let total: u32 = (self.data.len() - pos) as u32;
        self.write_u32_at(pos, total);
    }

    /// Overwrite four bytes at pos with the 32-bit big-endian value.
    fn write_u32_at(&mut self, pos: usize, value: u32)
        requires
            old(self).wf(),
            pos + 4 <= old(self).bytes().len(),
        ensures
            final(self).wf(),
            final(self).bytes() == sp_patch4(old(self).bytes(), pos as int, value as int),
            final(self).boxes() == old(self).boxes(),
    {
        proof {
            vstd::arithmetic::power2::lemma2_to64();
        }
        let b0: u8 = ((value >> 24u32) & 0xFF) as u8;
        let b1: u8 = ((value >> 16u32) & 0xFF) as u8;
        let b2: u8 = ((value >> 8u32) & 0xFF) as u8;
        let b3: u8 = (value & 0xFF) as u8;
        proof {
            assert(seq![b0, b1, b2, b3] =~= be_bytes(value as nat, 4)) by {
                lemma_be4(value, b0, b1, b2, b3);
            }
        }
        let n = self.data.len();
        proof {
            assert(pos + 4 <= n);
        }
        let ghost before = self.data@;
        self.data.set(pos, b0);
        self.data.set(pos + 1, b1);
        self.data.set(pos + 2, b2);
        self.data.set(pos + 3, b3);
        proof {
            assert(self.data@ =~= sp_patch4(before, pos as int, value as int));
        }
    }

    /// Reserve four bytes for a value patched in later; returns their
    /// position.
    pub fn mark_u32(&mut self) -> (marker: usize)
        requires
            old(self).wf(),
            old(self).bytes().len() + 4 <= usize::MAX,
        ensures
            final(self).wf(),
            final(self).bytes() == old(self).bytes() + be_bytes(0, 4),
            final(self).boxes() == old(self).boxes(),
            marker == old(self).bytes().len(),
            marker + 4 <= final(self).bytes().len(),
    {
        proof {
            lemma_be_bytes_len(0, 4);
        }
        let marker = self.data.len();
        push_u32_be(&mut self.data, 0);
        marker
    }

    pub fn get_file_pos(&self) -> (r: usize)
        ensures
            r == self.bytes().len(),
    {
        self.data.len()
    }

    /// Patch a previously marked position with a 32-bit big-endian value.
    pub fn write_u32_at_marker(&mut self, pos: usize, value: u32)
        requires
            old(self).wf(),
            pos + 4 <= old(self).bytes().len(),
        ensures
            final(self).wf(),
            final(self).bytes() == sp_patch4(old(self).bytes(), pos as int, value as int),
            final(self).boxes() == old(self).boxes(),
    {
        self.write_u32_at(pos, value);
    }

    pub fn write_u8(&mut self, value: u8)
        requires
            old(self).wf(),
        ensures
            final(self).wf(),
            final(self).bytes() == old(self).bytes() + be_bytes(value as nat, 1),
            final(self).boxes() == old(self).boxes(),
    {
        push_u8_raw(&mut self.data, value);
    }

    pub fn write_u16(&mut self, value: u16)
        requires
            old(self).wf(),
        ensures
            final(self).wf(),
            final(self).bytes() == old(self).bytes() + be_bytes(value as nat, 2),
            final(self).boxes() == old(self).boxes(),
    {
        push_u16_be(&mut self.data, value);
    }

    pub fn write_u32(&mut self, value: u32)
        requires
            old(self).wf(),
        ensures
            final(self).wf(),
            final(self).bytes() == old(self).bytes() + be_bytes(value as nat, 4),
            final(self).boxes() == old(self).boxes(),
    {
        push_u32_be(&mut self.data, value);
    }

    pub fn write_bytes(&mut self, value: &[u8])
        requires
            old(self).wf(),
        ensures
            final(self).wf(),
            final(self).bytes() == old(self).bytes() + value@,
            final(self).boxes() == old(self).boxes(),
    {
        let n = value.len();
        let mut i: usize = 0;
        while i < n
            invariant
                n == value@.len(),
                i <= n,
                self.data@ == old(self).bytes() + value@.take(i as int),
                self.open_boxes@ == old(self).boxes(),
            decreases n - i,
        {
            let b = value[i];
            self.data.push(b);
            proof {
                assert(old(self).bytes() + value@.take(i as int) + seq![value@[i as int]]
                    =~= old(self).bytes() + value@.take(i + 1));
            }
            i = i + 1;
        }
        proof {
            assert(value@.take(n as int) =~= value@);
        }
    }

    pub fn finalize(self) -> (r: Vec<u8>)
        ensures
            r@ == self.bytes(),
    {
        self.data
    }
}

proof fn lemma_be4(value: u32, b0: u8, b1: u8, b2: u8, b3: u8)
    requires
        b0 == ((value >> 24u32) & 0xFF) as u8,
        b1 == ((value >> 16u32) & 0xFF) as u8,
        b2 == ((value >> 8u32) & 0xFF) as u8,
        b3 == (value & 0xFF) as u8,
    ensures
        seq![b0, b1, b2, b3] =~= be_bytes(value as nat, 4),
{
    let v = value as nat;
    assert(((value >> 24u32) & 0xFF) == value / 0x1000000 && ((value >> 16u32) & 0xFF) == (value
        / 0x10000) % 0x100 && ((value >> 8u32) & 0xFF) == (value / 0x100) % 0x100 && (value
        & 0xFF) == value % 0x100) by (bit_vector);
    assert(v / 0x100 / 0x100 == v / 0x10000 && v / 0x10000 / 0x100 == v / 0x1000000 && v
        / 0x1000000 / 0x100 == v / 0x100000000) by {
        vstd::arithmetic::div_mod::lemma_div_denominator(value as int, 0x100, 0x100);
        vstd::arithmetic::div_mod::lemma_div_denominator(value as int, 0x10000, 0x100);
        vstd::arithmetic::div_mod::lemma_div_denominator(value as int, 0x1000000, 0x100);
    }
    assert(v / 0x1000000 % 0x100 == v / 0x1000000) by {
        vstd::arithmetic::div_mod::lemma_div_is_ordered(value as int, 0xFFFFFFFF, 0x1000000);
        vstd::arithmetic::div_mod::lemma_small_mod(v / 0x1000000, 0x100);
    }
    assert(v / 0x100000000 == 0) by {
        vstd::arithmetic::div_mod::lemma_basic_div(value as int, 0x100000000);
    }
    assert(be_bytes(v, 4) == be_bytes(v / 0x100, 3).push((v % 0x100) as u8));
    assert(be_bytes(v / 0x100, 3) == be_bytes(v / 0x10000, 2).push((v / 0x100 % 0x100) as u8));
    assert(be_bytes(v / 0x10000, 2) == be_bytes(v / 0x1000000, 1).push(
        (v / 0x10000 % 0x100) as u8,
    ));
    assert(be_bytes(v / 0x1000000, 1) == be_bytes(v / 0x100000000, 0).push(
        (v / 0x1000000 % 0x100) as u8,
    ));
    assert(be_bytes(v / 0x100000000, 0) == Seq::<u8>::empty());
}

} // verus!
