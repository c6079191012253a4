use vstd::prelude::*;
use crate::handle::JointHandle;
use crate::ratio::{is_valid_ratio, ratio_is_valid};

verus! {

/// Number of bytes in the persisted form of a [`MotionLink`].
pub const RECORD_LEN: usize = 17;

/// Links the motion of the joint that owns this descriptor to the motion of
/// another joint: the owner's velocity along its coupled axis follows
/// `ratio` times the target's, negated when `reversed`.
///
/// The target is a weak reference: a generation-checked handle that is
/// resolved when the link is used, never a claim on the joint's lifetime.
/// The ratio is held as the bit pattern of an IEEE-754 binary64 value.
#[derive(Clone, Copy, Debug, PartialEq, Eq, Structural)]
pub struct MotionLink {
    /// The joint whose motion the owner follows.
    pub joint_handle: JointHandle,
    /// The coupling ratio, as binary64 bits.
    pub ratio_bits: u64,
    /// Whether the owner turns against the target rather than with it.
    pub reversed: bool,
}

/// The four little-endian bytes of `x`.
pub open spec fn u32_le(x: u32) -> Seq<u8> {
    seq![
        (x & 0xff) as u8,
        ((x >> 8u32) & 0xff) as u8,
        ((x >> 16u32) & 0xff) as u8,
        ((x >> 24u32) & 0xff) as u8,
    ]
}

/// The eight little-endian bytes of `x`.
pub open spec fn u64_le(x: u64) -> Seq<u8> {
    seq![
        (x & 0xff) as u8,
        ((x >> 8u64) & 0xff) as u8,
        ((x >> 16u64) & 0xff) as u8,
        ((x >> 24u64) & 0xff) as u8,
        ((x >> 32u64) & 0xff) as u8,
        ((x >> 40u64) & 0xff) as u8,
        ((x >> 48u64) & 0xff) as u8,
        ((x >> 56u64) & 0xff) as u8,
    ]
}

/// The value of four little-endian bytes.
pub open spec fn le_u32(b0: u8, b1: u8, b2: u8, b3: u8) -> u32 {
    (b0 as u32) | ((b1 as u32) << 8u32) | ((b2 as u32) << 16u32) | ((b3 as u32) << 24u32)
}

/// The value of the eight little-endian bytes of `b` from `at` on.
pub open spec fn le_u64_at(b: Seq<u8>, at: int) -> u64 {
    (b[at] as u64) | ((b[at + 1] as u64) << 8u64) | ((b[at + 2] as u64) << 16u64)
        | ((b[at + 3] as u64) << 24u64) | ((b[at + 4] as u64) << 32u64)
        | ((b[at + 5] as u64) << 40u64) | ((b[at + 6] as u64) << 48u64)
        | ((b[at + 7] as u64) << 56u64)
}

/// The persisted record of a link: target index, target generation and
/// ratio bits, each little-endian, then one byte for `reversed`.
pub open spec fn encode(l: MotionLink) -> Seq<u8> {
    u32_le(l.joint_handle.index) + u32_le(l.joint_handle.generation) + u64_le(l.ratio_bits)
        + seq![if l.reversed { 1u8 } else { 0u8 }]
}

/// The link that a record holds: `None` unless it has exactly the record's
/// length and its last byte is 0 or 1.
pub open spec fn decode(b: Seq<u8>) -> Option<MotionLink> {
    if b.len() == RECORD_LEN && b[16] <= 1 {
        Some(
            MotionLink {
                joint_handle: JointHandle {
                    index: le_u32(b[0], b[1], b[2], b[3]),
                    generation: le_u32(b[4], b[5], b[6], b[7]),
                },
                ratio_bits: le_u64_at(b, 8),
                reversed: b[16] == 1,
            },
        )
    } else {
        None
    }
}

proof fn lemma_u32_bytes(x: u32)
    ensures
        le_u32(u32_le(x)[0], u32_le(x)[1], u32_le(x)[2], u32_le(x)[3]) == x,
{
    assert(((x & 0xff) as u8) as u32 | (((((x >> 8u32) & 0xff) as u8) as u32) << 8u32)
        | (((((x >> 16u32) & 0xff) as u8) as u32) << 16u32)
        | (((((x >> 24u32) & 0xff) as u8) as u32) << 24u32) == x) by (bit_vector);
}

proof fn lemma_u64_bytes(x: u64)
    ensures
        le_u64_at(u64_le(x), 0) == x,
{
    assert(((x & 0xff) as u8) as u64 | (((((x >> 8u64) & 0xff) as u8) as u64) << 8u64)
        | (((((x >> 16u64) & 0xff) as u8) as u64) << 16u64)
        | (((((x >> 24u64) & 0xff) as u8) as u64) << 24u64)
        | (((((x >> 32u64) & 0xff) as u8) as u64) << 32u64)
        | (((((x >> 40u64) & 0xff) as u8) as u64) << 40u64)
        | (((((x >> 48u64) & 0xff) as u8) as u64) << 48u64)
        | (((((x >> 56u64) & 0xff) as u8) as u64) << 56u64) == x) by (bit_vector);
}

/// Writing a link and reading it back gives the same link, field for field,
/// the target's generation included.
pub proof fn lemma_record_round_trip(l: MotionLink)
    ensures
        decode(encode(l)) == Some(l),
{
    let b = encode(l);
    lemma_u32_bytes(l.joint_handle.index);
    lemma_u32_bytes(l.joint_handle.generation);
    lemma_u64_bytes(l.ratio_bits);
    let r = u64_le(l.ratio_bits);
    assert(b.subrange(8, 16) =~= r);
    assert(le_u64_at(b, 8) == le_u64_at(r, 0));
}

impl MotionLink {
    /// A link to `joint_handle` with the given ratio bits and direction.
    pub fn new(joint_handle: JointHandle, ratio_bits: u64, reversed: bool) -> (r: MotionLink)
        ensures
            r == (MotionLink { joint_handle, ratio_bits, reversed }),
    {
        MotionLink { joint_handle, ratio_bits, reversed }
    }

    /// Whether this link's ratio is finite and nonzero.
    pub fn has_valid_ratio(&self) -> (r: bool)
        ensures
            r == is_valid_ratio(self.ratio_bits),
    {
        ratio_is_valid(self.ratio_bits)
    }

    /// The persisted record of this link.
    pub fn to_bytes(&self) -> (r: Vec<u8>)
        ensures
            r@ == encode(*self),
    {
        let mut out: Vec<u8> = Vec::new();
        let i = self.joint_handle.index;
        let g = self.joint_handle.generation;
        let x = self.ratio_bits;
        out.push((i & 0xff) as u8);
        out.push(((i >> 8u32) & 0xff) as u8);
        out.push(((i >> 16u32) & 0xff) as u8);
        out.push(((i >> 24u32) & 0xff) as u8);
        out.push((g & 0xff) as u8);
        out.push(((g >> 8u32) & 0xff) as u8);
        out.push(((g >> 16u32) & 0xff) as u8);
        out.push(((g >> 24u32) & 0xff) as u8);
        out.push((x & 0xff) as u8);
        out.push(((x >> 8u64) & 0xff) as u8);
        out.push(((x >> 16u64) & 0xff) as u8);
        out.push(((x >> 24u64) & 0xff) as u8);
        out.push(((x >> 32u64) & 0xff) as u8);
        out.push(((x >> 40u64) & 0xff) as u8);
        out.push(((x >> 48u64) & 0xff) as u8);
        out.push(((x >> 56u64) & 0xff) as u8);
        out.push(if self.reversed { 1u8 } else { 0u8 });
        assert(out@ =~= encode(*self));
        out
    }

    /// Reads a link from its persisted record; `None` when `b` is not one.
    pub fn from_bytes(b: &[u8]) -> (r: Option<MotionLink>)
        ensures
            r == decode(b@),
    {
        if b.len() != RECORD_LEN || b[16] > 1 {
            return None;
        }
        let index = (b[0] as u32) | ((b[1] as u32) << 8u32) | ((b[2] as u32) << 16u32)
            | ((b[3] as u32) << 24u32);
        let generation = (b[4] as u32) | ((b[5] as u32) << 8u32) | ((b[6] as u32) << 16u32)
            | ((b[7] as u32) << 24u32);
        let ratio_bits = (b[8] as u64) | ((b[9] as u64) << 8u64) | ((b[10] as u64) << 16u64)
            | ((b[11] as u64) << 24u64) | ((b[12] as u64) << 32u64) | ((b[13] as u64) << 40u64)
            | ((b[14] as u64) << 48u64) | ((b[15] as u64) << 56u64);
        Some(
            MotionLink {
                joint_handle: JointHandle { index, generation },
                ratio_bits,
                reversed: b[16] == 1,
            },
        )
    }
}

} // verus!
