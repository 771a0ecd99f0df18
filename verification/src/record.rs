//! Records: values with a fixed byte image, which can stand in an array that
//! the device reads.

use vstd::prelude::*;
use crate::error::BufferError;

verus! {

/// A value with a fixed-size byte image.
///
/// The image of a record is `stride()` bytes long and starts at a multiple of
/// `align()`; in an array, one record follows the other without a gap.
pub trait GpuRecord: Sized {
    /// Bytes from the start of one record to the start of the next.
    spec fn stride() -> nat;

    /// The alignment of the record: its image starts at a multiple of it.
    spec fn align() -> nat;

    /// The byte image of the record.
    spec fn image(self) -> Seq<u8>;

    /// The record whose image starts at `at`.
    spec fn parse_at(bytes: Seq<u8>, at: int) -> Self;

    /// The stride is a positive multiple of the alignment, which is one, two or
    /// four words.
    proof fn lemma_layout()
        ensures
            Self::align() == 4 || Self::align() == 8 || Self::align() == 16,
            0 < Self::stride() <= 256,
            Self::stride() % Self::align() == 0,
    ;

    /// The image has the length of the stride, and reading it back gives the
    /// record, wherever the image stands.
    proof fn lemma_image(self, before: Seq<u8>, after: Seq<u8>)
        ensures
            self.image().len() == Self::stride(),
            Self::parse_at(before + self.image() + after, before.len() as int) == self,
    ;

    /// The stride in bytes.
    fn stride_bytes() -> (r: usize)
        ensures
            r == Self::stride(),
    ;

    /// The alignment in bytes.
    fn align_bytes() -> (r: usize)
        ensures
            r == Self::align(),
    ;

    /// Appends the image of the record.
    fn put(&self, out: &mut Vec<u8>)
        ensures
            final(out)@ == old(out)@ + self.image(),
    ;

    /// Reads the record whose image starts at `at`.
    fn get(bytes: &[u8], at: usize) -> (r: Self)
        requires
            at + Self::stride() <= bytes.len(),
        ensures
            r == Self::parse_at(bytes@, at as int),
    ;
}

/// The images of the records of a sequence, one after the other.
pub open spec fn images<T: GpuRecord>(s: Seq<T>) -> Seq<u8>
    decreases s.len(),
{
    if s.len() == 0 {
        Seq::empty()
    } else {
        images(s.drop_last()) + s.last().image()
    }
}

/// The images of `n` records take `n` strides.
pub proof fn lemma_images_len<T: GpuRecord>(s: Seq<T>)
    ensures
        images(s).len() == T::stride() * s.len(),
    decreases s.len(),
{
    if s.len() > 0 {
        lemma_images_len(s.drop_last());
        s.last().lemma_image(Seq::empty(), Seq::empty());
        assert(T::stride() * s.drop_last().len() + T::stride() == T::stride() * s.len())
            by (nonlinear_arith)
            requires
                s.drop_last().len() + 1 == s.len(),
        ;
    }
}

/// In the images of a sequence, the record at position `i` is read back `i`
/// strides from the start.
pub proof fn lemma_images_parse<T: GpuRecord>(before: Seq<u8>, s: Seq<T>, after: Seq<u8>, i: int)
    requires
        0 <= i < s.len(),
    ensures
        T::parse_at(before + images(s) + after, before.len() + T::stride() * i) == s[i],
    decreases s.len(),
{
    let front = s.drop_last();
    lemma_images_len(front);
    if i == s.len() - 1 {
        let head = before + images(front);
        assert(before + images(s) + after =~= head + s.last().image() + after);
        s.last().lemma_image(head, after);
    } else {
        let tail = s.last().image() + after;
        assert(before + images(s) + after =~= before + images(front) + tail);
        lemma_images_parse(before, front, tail, i);
    }
}

/// Reading back the image of a record gives the record.
pub proof fn lemma_round_trip<T: GpuRecord>(record: T)
    ensures
        record.image().len() == T::stride(),
        T::parse_at(record.image(), 0) == record,
{
    record.lemma_image(Seq::empty(), Seq::empty());
    assert(Seq::<u8>::empty() + record.image() + Seq::<u8>::empty() =~= record.image());
}

/// The byte image of a record that stands alone, as a parameter block does.
pub fn encode_record<T: GpuRecord>(record: &T) -> (r: Vec<u8>)
    ensures
        r@ == record.image(),
{
    let mut out: Vec<u8> = Vec::new();
    record.put(&mut out);
    assert(out@ =~= record.image());
    out
}

/// Reads a record back from its byte image: as many bytes as its stride.
pub fn decode_record<T: GpuRecord>(bytes: &[u8]) -> (r: Result<T, BufferError>)
    ensures
        bytes@.len() == T::stride() ==> r == Ok::<T, BufferError>(T::parse_at(bytes@, 0)),
        bytes@.len() != T::stride() ==> r == Err::<T, BufferError>(BufferError::MalformedImage),
{
    if bytes.len() != T::stride_bytes() {
        return Err(BufferError::MalformedImage);
    }
    Ok(T::get(bytes, 0))
}

} // verus!
