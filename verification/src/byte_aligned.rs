use vstd::bytes::*;
use vstd::layout::size_of;
use vstd::prelude::*;
use vstd::slice::slice_subrange;

verus! {

/// The slot size of a per-CPU value: `v` rounded up to the next multiple of 8.
pub open spec fn aligned_size(v: nat) -> nat {
    ((v + 7) / 8 * 8) as nat
}

/// `bytes`, with zeros behind them up to the length `len`.
pub open spec fn padded(bytes: Seq<u8>, len: nat) -> Seq<u8> {
    bytes + Seq::new((len - bytes.len()) as nat, |i: int| 0u8)
}

/// Puts zeros behind `bytes` up to the length `len`.
pub fn pad(bytes: Vec<u8>, len: usize) -> (r: Vec<u8>)
    requires
        bytes@.len() <= len,
    ensures
        r@ == padded(bytes@, len as nat),
{
    let mut r = bytes;
    while r.len() < len
        invariant
            bytes@.len() <= r@.len() <= len,
            r@ == padded(bytes@, r@.len()),
        decreases len - r@.len(),
    {
        r.push(0u8);
        assert(r@ =~= padded(bytes@, r@.len()));
    }
    assert(bytes@ =~= padded(bytes@, bytes@.len()));
    r
}

/// Types that per-CPU maps can hold: a value goes into a slot of its own
/// size rounded up to 8 bytes, little end first and with zeros behind it, and
/// comes back from the leading bytes of the slot unchanged.
pub trait ByteAligned: Default + Copy {
    /// The bytes of the slot that holds `self`.
    spec fn spec_align(self) -> Seq<u8>;

    /// The value that a slot holds.
    spec fn spec_from_aligned(chunk: Seq<u8>) -> Self;

    /// The type takes up room, but no more than the kernel can count in 32
    /// bits; every slot has the size of the type rounded up to 8 bytes, with
    /// zeros behind the bytes of the value; and a value that went into a slot
    /// comes out of it again.
    proof fn lemma_slot(self)
        ensures
            0 < size_of::<Self>() <= u32::MAX - 7,
            self.spec_align().len() == aligned_size(size_of::<Self>()),
            forall|i: int|
                size_of::<Self>() <= i < self.spec_align().len() ==> #[trigger] self.spec_align()[i]
                    == 0,
            Self::spec_from_aligned(self.spec_align()) == self,
    ;

    /// Convert a value to its slot, padded to the next multiple of 8 bytes.
    fn align(self) -> (r: Vec<u8>)
        ensures
            r@ == self.spec_align(),
    ;

    /// Convert a slot back to a value.
    fn from_aligned(chunk: &[u8]) -> (r: Self)
        requires
            chunk@.len() == aligned_size(size_of::<Self>()),
        ensures
            r == Self::spec_from_aligned(chunk@),
    ;
}

impl ByteAligned for u8 {
    open spec fn spec_align(self) -> Seq<u8> {
        padded(seq![self], 8)
    }

    open spec fn spec_from_aligned(chunk: Seq<u8>) -> Self {
        chunk[0]
    }

    proof fn lemma_slot(self) {
        broadcast use vstd::layout::layout_of_primitives;

    }

    fn align(self) -> (r: Vec<u8>) {
        let mut own: Vec<u8> = Vec::new();
        own.push(self);
        assert(own@ =~= seq![self]);
        pad(own, 8)
    }

    fn from_aligned(chunk: &[u8]) -> (r: Self) {
        broadcast use vstd::layout::layout_of_primitives;

        chunk[0]
    }
}

impl ByteAligned for u16 {
    open spec fn spec_align(self) -> Seq<u8> {
        padded(spec_u16_to_le_bytes(self), 8)
    }

    open spec fn spec_from_aligned(chunk: Seq<u8>) -> Self {
        spec_u16_from_le_bytes(chunk.subrange(0, 2))
    }

    proof fn lemma_slot(self) {
        broadcast use vstd::layout::layout_of_primitives;

        lemma_auto_spec_u16_to_from_le_bytes();
        let own: u16 = self;
        assert(spec_u16_to_le_bytes(own).len() == 2);
        assert(self.spec_align().subrange(0, 2) =~= spec_u16_to_le_bytes(own));
    }

    fn align(self) -> (r: Vec<u8>) {
        pad(u16_to_le_bytes(self), 8)
    }

    fn from_aligned(chunk: &[u8]) -> (r: Self) {
        broadcast use vstd::layout::layout_of_primitives;

        u16_from_le_bytes(slice_subrange(chunk, 0, 2))
    }
}

impl ByteAligned for u32 {
    open spec fn spec_align(self) -> Seq<u8> {
        padded(spec_u32_to_le_bytes(self), 8)
    }

    open spec fn spec_from_aligned(chunk: Seq<u8>) -> Self {
        spec_u32_from_le_bytes(chunk.subrange(0, 4))
    }

    proof fn lemma_slot(self) {
        broadcast use vstd::layout::layout_of_primitives;

        lemma_auto_spec_u32_to_from_le_bytes();
        let own: u32 = self;
        assert(spec_u32_to_le_bytes(own).len() == 4);
        assert(self.spec_align().subrange(0, 4) =~= spec_u32_to_le_bytes(own));
    }

    fn align(self) -> (r: Vec<u8>) {
        pad(u32_to_le_bytes(self), 8)
    }

    fn from_aligned(chunk: &[u8]) -> (r: Self) {
        broadcast use vstd::layout::layout_of_primitives;

        u32_from_le_bytes(slice_subrange(chunk, 0, 4))
    }
}

impl ByteAligned for u64 {
    open spec fn spec_align(self) -> Seq<u8> {
        padded(spec_u64_to_le_bytes(self), 8)
    }

    open spec fn spec_from_aligned(chunk: Seq<u8>) -> Self {
        spec_u64_from_le_bytes(chunk.subrange(0, 8))
    }

    proof fn lemma_slot(self) {
        broadcast use vstd::layout::layout_of_primitives;

        lemma_auto_spec_u64_to_from_le_bytes();
        let own: u64 = self;
        assert(spec_u64_to_le_bytes(own).len() == 8);
        assert(self.spec_align().subrange(0, 8) =~= spec_u64_to_le_bytes(own));
    }

    fn align(self) -> (r: Vec<u8>) {
        pad(u64_to_le_bytes(self), 8)
    }

    fn from_aligned(chunk: &[u8]) -> (r: Self) {
        broadcast use vstd::layout::layout_of_primitives;

        u64_from_le_bytes(slice_subrange(chunk, 0, 8))
    }
}

impl ByteAligned for u128 {
    open spec fn spec_align(self) -> Seq<u8> {
        padded(spec_u128_to_le_bytes(self), 16)
    }

    open spec fn spec_from_aligned(chunk: Seq<u8>) -> Self {
        spec_u128_from_le_bytes(chunk.subrange(0, 16))
    }

    proof fn lemma_slot(self) {
        broadcast use vstd::layout::layout_of_primitives;

        lemma_auto_spec_u128_to_from_le_bytes();
        let own: u128 = self;
        assert(spec_u128_to_le_bytes(own).len() == 16);
        assert(self.spec_align().subrange(0, 16) =~= spec_u128_to_le_bytes(own));
    }

    fn align(self) -> (r: Vec<u8>) {
        pad(u128_to_le_bytes(self), 16)
    }

    fn from_aligned(chunk: &[u8]) -> (r: Self) {
        broadcast use vstd::layout::layout_of_primitives;

        u128_from_le_bytes(slice_subrange(chunk, 0, 16))
    }
}

impl ByteAligned for usize {
    open spec fn spec_align(self) -> Seq<u8> {
        spec_u64_to_le_bytes(self as u64)
    }

    open spec fn spec_from_aligned(chunk: Seq<u8>) -> Self {
        spec_u64_from_le_bytes(chunk) as usize
    }

    proof fn lemma_slot(self) {
        broadcast use vstd::layout::layout_of_primitives;

        lemma_auto_spec_u64_to_from_le_bytes();
        let own: usize = self;
        let wide: u64 = own as u64;
        spec_u64_to_le_bytes_to_open(wide);
        assert(wide < 0x1_0000_0000 ==> ((wide >> 32) & 0xff) as u8 == 0 && ((wide >> 40) & 0xff) as u8
            == 0 && ((wide >> 48) & 0xff) as u8 == 0 && ((wide >> 56) & 0xff) as u8 == 0)
            by (bit_vector);
    }

    fn align(self) -> (r: Vec<u8>) {
        u64_to_le_bytes(self as u64)
    }

    fn from_aligned(chunk: &[u8]) -> (r: Self) {
        broadcast use vstd::layout::layout_of_primitives;

        u64_from_le_bytes(chunk) as usize
    }
}

impl ByteAligned for i8 {
    open spec fn spec_align(self) -> Seq<u8> {
        padded(seq![self as u8], 8)
    }

    open spec fn spec_from_aligned(chunk: Seq<u8>) -> Self {
        chunk[0] as i8
    }

    proof fn lemma_slot(self) {
        broadcast use vstd::layout::layout_of_primitives;

        let own: u8 = self as u8;
        assert(own as i8 == self) by (bit_vector)
            requires
                own == self as u8,
        ;
    }

    fn align(self) -> (r: Vec<u8>) {
        let mut own: Vec<u8> = Vec::new();
        own.push(self as u8);
        assert(own@ =~= seq![self as u8]);
        pad(own, 8)
    }

    fn from_aligned(chunk: &[u8]) -> (r: Self) {
        broadcast use vstd::layout::layout_of_primitives;

        chunk[0] as i8
    }
}

impl ByteAligned for i16 {
    open spec fn spec_align(self) -> Seq<u8> {
        padded(spec_u16_to_le_bytes(self as u16), 8)
    }

    open spec fn spec_from_aligned(chunk: Seq<u8>) -> Self {
        spec_u16_from_le_bytes(chunk.subrange(0, 2)) as i16
    }

    proof fn lemma_slot(self) {
        broadcast use vstd::layout::layout_of_primitives;

        lemma_auto_spec_u16_to_from_le_bytes();
        let own: u16 = self as u16;
        assert(own as i16 == self) by (bit_vector)
            requires
                own == self as u16,
        ;
        assert(spec_u16_to_le_bytes(own).len() == 2);
        assert(self.spec_align().subrange(0, 2) =~= spec_u16_to_le_bytes(own));
    }

    fn align(self) -> (r: Vec<u8>) {
        pad(u16_to_le_bytes(self as u16), 8)
    }

    fn from_aligned(chunk: &[u8]) -> (r: Self) {
        broadcast use vstd::layout::layout_of_primitives;

        u16_from_le_bytes(slice_subrange(chunk, 0, 2)) as i16
    }
}

impl ByteAligned for i32 {
    open spec fn spec_align(self) -> Seq<u8> {
        padded(spec_u32_to_le_bytes(self as u32), 8)
    }

    open spec fn spec_from_aligned(chunk: Seq<u8>) -> Self {
        spec_u32_from_le_bytes(chunk.subrange(0, 4)) as i32
    }

    proof fn lemma_slot(self) {
        broadcast use vstd::layout::layout_of_primitives;

        lemma_auto_spec_u32_to_from_le_bytes();
        let own: u32 = self as u32;
        assert(own as i32 == self) by (bit_vector)
            requires
                own == self as u32,
        ;
        assert(spec_u32_to_le_bytes(own).len() == 4);
        assert(self.spec_align().subrange(0, 4) =~= spec_u32_to_le_bytes(own));
    }

    fn align(self) -> (r: Vec<u8>) {
        pad(u32_to_le_bytes(self as u32), 8)
    }

    fn from_aligned(chunk: &[u8]) -> (r: Self) {
        broadcast use vstd::layout::layout_of_primitives;

        u32_from_le_bytes(slice_subrange(chunk, 0, 4)) as i32
    }
}

impl ByteAligned for i64 {
    open spec fn spec_align(self) -> Seq<u8> {
        padded(spec_u64_to_le_bytes(self as u64), 8)
    }

    open spec fn spec_from_aligned(chunk: Seq<u8>) -> Self {
        spec_u64_from_le_bytes(chunk.subrange(0, 8)) as i64
    }

    proof fn lemma_slot(self) {
        broadcast use vstd::layout::layout_of_primitives;

        lemma_auto_spec_u64_to_from_le_bytes();
        let own: u64 = self as u64;
        assert(own as i64 == self) by (bit_vector)
            requires
                own == self as u64,
        ;
        assert(spec_u64_to_le_bytes(own).len() == 8);
        assert(self.spec_align().subrange(0, 8) =~= spec_u64_to_le_bytes(own));
    }

    fn align(self) -> (r: Vec<u8>) {
        pad(u64_to_le_bytes(self as u64), 8)
    }

    fn from_aligned(chunk: &[u8]) -> (r: Self) {
        broadcast use vstd::layout::layout_of_primitives;

        u64_from_le_bytes(slice_subrange(chunk, 0, 8)) as i64
    }
}

impl ByteAligned for i128 {
    open spec fn spec_align(self) -> Seq<u8> {
        padded(spec_u128_to_le_bytes(self as u128), 16)
    }

    open spec fn spec_from_aligned(chunk: Seq<u8>) -> Self {
        spec_u128_from_le_bytes(chunk.subrange(0, 16)) as i128
    }

    proof fn lemma_slot(self) {
        broadcast use vstd::layout::layout_of_primitives;

        lemma_auto_spec_u128_to_from_le_bytes();
        let own: u128 = self as u128;
        assert(own as i128 == self) by (bit_vector)
            requires
                own == self as u128,
        ;
        assert(spec_u128_to_le_bytes(own).len() == 16);
        assert(self.spec_align().subrange(0, 16) =~= spec_u128_to_le_bytes(own));
    }

    fn align(self) -> (r: Vec<u8>) {
        pad(u128_to_le_bytes(self as u128), 16)
    }

    fn from_aligned(chunk: &[u8]) -> (r: Self) {
        broadcast use vstd::layout::layout_of_primitives;

        u128_from_le_bytes(slice_subrange(chunk, 0, 16)) as i128
    }
}

impl ByteAligned for isize {
    open spec fn spec_align(self) -> Seq<u8> {
        spec_u64_to_le_bytes((self as usize) as u64)
    }

    open spec fn spec_from_aligned(chunk: Seq<u8>) -> Self {
        (spec_u64_from_le_bytes(chunk) as usize) as isize
    }

    proof fn lemma_slot(self) {
        broadcast use vstd::layout::layout_of_primitives;

        lemma_auto_spec_u64_to_from_le_bytes();
        let own: usize = self as usize;
        assert(own as isize == self) by (bit_vector)
            requires
                own == self as usize,
        ;
        let wide: u64 = own as u64;
        spec_u64_to_le_bytes_to_open(wide);
        assert(wide < 0x1_0000_0000 ==> ((wide >> 32) & 0xff) as u8 == 0 && ((wide >> 40) & 0xff) as u8
            == 0 && ((wide >> 48) & 0xff) as u8 == 0 && ((wide >> 56) & 0xff) as u8 == 0)
            by (bit_vector);
    }

    fn align(self) -> (r: Vec<u8>) {
        u64_to_le_bytes((self as usize) as u64)
    }

    fn from_aligned(chunk: &[u8]) -> (r: Self) {
        broadcast use vstd::layout::layout_of_primitives;

        (u64_from_le_bytes(chunk) as usize) as isize
    }
}

} // verus!
