//! A count followed by that many records: the shape in which a catalog is
//! handed to the device.
//!
//! The byte image starts with the count, as one word. The records follow at the
//! next multiple of their alignment, one stride apart. An empty buffer still has
//! room for one record, filled with zeros: the device does not bind less.

use vstd::prelude::*;
use crate::error::BufferError;
use crate::layout::close;
use crate::layout::get_word;
use crate::layout::place;
use crate::layout::put_padding;
use crate::layout::put_word;
use crate::layout::round_up;
use crate::layout::word_at;
use crate::layout::word_image;
use crate::layout::zeros;
use crate::layout::lemma_word_round_trip;
use crate::layout::MAX_BUFFER_BYTES;
use crate::layout::WORD_BYTES;
use crate::record::images;
use crate::record::lemma_images_len;
use crate::record::lemma_images_parse;
use crate::record::GpuRecord;
use vstd::arithmetic::div_mod::lemma_fundamental_div_mod;
use vstd::arithmetic::div_mod::lemma_mod_multiples_basic;

verus! {

/// Offset of the first record in the image of a buffer of `T`.
pub open spec fn header_len<T: GpuRecord>() -> nat {
    round_up(WORD_BYTES as nat, T::align())
}

/// The largest number of records of `T` that a buffer holds: as many as fit,
/// behind the count, in [`MAX_BUFFER_BYTES`].
pub open spec fn max_count<T: GpuRecord>() -> nat {
    ((MAX_BUFFER_BYTES - header_len::<T>()) / (T::stride() as int)) as nat
}

/// Length of the image of a buffer of `n` records of `T`.
pub open spec fn image_len<T: GpuRecord>(n: nat) -> nat {
    header_len::<T>() + T::stride() * (if n == 0 { 1 } else { n })
}

/// The byte image of a buffer that holds the records `s`.
pub open spec fn buffer_image<T: GpuRecord>(s: Seq<T>) -> Seq<u8> {
    let body = if s.len() == 0 { zeros(T::stride()) } else { images(s) };
    close(place(word_image(s.len() as u32), body, T::align()), T::align())
}

/// Whether `bytes` has the shape of a buffer image: a count within the limit,
/// and exactly the room that so many records take.
pub open spec fn well_formed<T: GpuRecord>(bytes: Seq<u8>) -> bool {
    &&& bytes.len() >= WORD_BYTES
    &&& word_at(bytes, 0) <= max_count::<T>()
    &&& bytes.len() == image_len::<T>(word_at(bytes, 0) as nat)
}

/// The records that a well-formed image holds.
pub open spec fn parsed<T: GpuRecord>(bytes: Seq<u8>) -> Seq<T> {
    Seq::new(
        word_at(bytes, 0) as nat,
        |i: int| T::parse_at(bytes, header_len::<T>() + T::stride() * i),
    )
}

/// The header is the alignment of the records, and the limit leaves every
/// image within [`MAX_BUFFER_BYTES`].
pub proof fn lemma_sizes<T: GpuRecord>(n: nat)
    ensures
        header_len::<T>() == T::align(),
        1 <= max_count::<T>() < 0x0800_0000,
        n <= max_count::<T>() ==> image_len::<T>(n) <= MAX_BUFFER_BYTES,
        image_len::<T>(n) % T::align() == 0,
{
    T::lemma_layout();
    let h = T::align() as int;
    let s = T::stride() as int;
    let room = MAX_BUFFER_BYTES - h;
    let m = if n == 0 { 1 } else { n as int };
    assert((room / s) * s <= room && room / s <= room && room / s >= 1) by (nonlinear_arith)
        requires
            0 < s <= 256,
            room >= 0x0700_0000,
    ;
    if n <= max_count::<T>() {
        assert(s * m <= (room / s) * s) by (nonlinear_arith)
            requires
                0 < s,
                0 <= m <= room / s,
        ;
    }
    let q = s / h;
    lemma_fundamental_div_mod(s, h);
    assert(h + s * m == (1 + q * m) * h) by (nonlinear_arith)
        requires
            s == h * q,
    ;
    lemma_mod_multiples_basic(1 + q * m, h);
}

/// The image of a buffer is well formed and holds the records it was made of.
pub proof fn lemma_image_round_trip<T: GpuRecord>(s: Seq<T>)
    requires
        s.len() <= max_count::<T>(),
    ensures
        buffer_image(s).len() == image_len::<T>(s.len()),
        word_at(buffer_image(s), 0) == s.len(),
        well_formed::<T>(buffer_image(s)),
        parsed::<T>(buffer_image(s)) == s,
{
    lemma_sizes::<T>(s.len());
    lemma_images_len(s);
    T::lemma_layout();
    let count = s.len() as u32;
    let gap = zeros((T::align() - 4) as nat);
    let body = if s.len() == 0 { zeros(T::stride()) } else { images(s) };
    let img = buffer_image(s);
    lemma_word_round_trip(Seq::empty(), count, gap + body);
    assert(img =~= word_image(count) + gap + body);
    assert(img =~= Seq::empty() + word_image(count) + (gap + body));
    assert forall|i: int| 0 <= i < s.len() implies (#[trigger] parsed::<T>(img)[i]) == s[i] by {
        let before = word_image(count) + gap;
        lemma_images_parse(before, s, Seq::empty(), i);
        assert(img =~= before + images(s) + Seq::empty());
    }
    assert(parsed::<T>(img) =~= s);
}

/// A count and that many records of `T`, in order.
///
/// The count always equals the number of records held, and never exceeds
/// [`max_count`].
#[derive(Debug, PartialEq, Eq)]
pub struct GpuBuffer<T: GpuRecord> {
    count: u32,
    data: Vec<T>,
}

impl<T: GpuRecord> View for GpuBuffer<T> {
    type V = Seq<T>;

    /// The records held, in order.
    closed spec fn view(&self) -> Seq<T> {
        self.data@
    }
}

impl<T: GpuRecord> Default for GpuBuffer<T> {
    /// A buffer without records.
    fn default() -> (r: Self)
        ensures
            r@ == Seq::<T>::empty(),
    {
        GpuBuffer::new()
    }
}

impl<T: GpuRecord + Copy> Clone for GpuBuffer<T> {
    /// A buffer of the same records.
    fn clone(&self) -> (r: Self)
        ensures
            r@ == self@,
    {
        proof {
            use_type_invariant(self);
        }
        let n: usize = self.data.len();
        let mut data: Vec<T> = Vec::with_capacity(n);
        let mut i: usize = 0;
        while i < n
            invariant
                i <= n,
                n == self.data@.len(),
                data@ == self.data@.take(i as int),
            decreases n - i,
        {
            data.push(self.data[i]);
            i = i + 1;
            assert(data@ =~= self.data@.take(i as int));
        }
        assert(self.data@.take(n as int) =~= self.data@);
        GpuBuffer { count: self.count, data }
    }
}

impl<T: GpuRecord> GpuBuffer<T> {
    #[verifier::type_invariant]
    spec fn inv(self) -> bool {
        &&& self.count == self.data@.len()
        &&& self.data@.len() <= max_count::<T>()
    }

    /// The byte image of the buffer.
    pub open spec fn image(self) -> Seq<u8> {
        buffer_image(self@)
    }

    /// The largest number of records that a buffer of `T` holds.
    pub fn capacity_limit() -> (r: usize)
        ensures
            r == max_count::<T>(),
    {
        proof {
            lemma_sizes::<T>(0);
            T::lemma_layout();
        }
        (MAX_BUFFER_BYTES - T::align_bytes()) / T::stride_bytes()
    }

    /// A buffer without records.
    pub fn new() -> (r: Self)
        ensures
            r@ == Seq::<T>::empty(),
    {
        GpuBuffer { count: 0, data: Vec::new() }
    }

    /// The buffer of the given records, in their order; none is changed or
    /// left out. Fails when there are more than [`max_count`].
    pub fn pack(records: Vec<T>) -> (r: Result<Self, BufferError>)
        ensures
            records@.len() <= max_count::<T>() ==> r is Ok && r->Ok_0@ == records@ && r->Ok_0@.len()
                == records@.len(),
            records@.len() > max_count::<T>() ==> r == Err::<Self, BufferError>(
                BufferError::TooManyElements,
            ),
    {
        let limit: usize = Self::capacity_limit();
        let n: usize = records.len();
        if n > limit {
            return Err(BufferError::TooManyElements);
        }
        proof {
            lemma_sizes::<T>(0);
        }
        Ok(GpuBuffer { count: n as u32, data: records })
    }

    /// The buffer of `n` records that all equal `record`.
    pub(crate) fn filled(record: T, n: usize) -> (r: Self) where T: Copy
        requires
            n <= max_count::<T>(),
        ensures
            r@ == Seq::new(n as nat, |i: int| record),
    {
        proof {
            lemma_sizes::<T>(0);
        }
        let mut data: Vec<T> = Vec::with_capacity(n);
        let mut i: usize = 0;
        while i < n
            invariant
                i <= n,
                data@ == Seq::new(i as nat, |j: int| record),
            decreases n - i,
        {
            data.push(record);
            i = i + 1;
            assert(data@ =~= Seq::new(i as nat, |j: int| record));
        }
        GpuBuffer { count: n as u32, data }
    }

    /// The number of records that the device is to read.
    pub fn count(&self) -> (r: u32)
        ensures
            r == self@.len(),
    {
        proof {
            use_type_invariant(self);
        }
        self.count
    }

    /// The records, in order.
    pub fn records(&self) -> (r: &Vec<T>)
        ensures
            r@ == self@,
            r@.len() <= max_count::<T>(),
    {
        proof {
            use_type_invariant(self);
        }
        &self.data
    }

    /// The record at `index`, if there is one.
    pub fn get(&self, index: usize) -> (r: Option<T>) where T: Copy
        ensures
            r == (if index < self@.len() {
                Some(self@[index as int])
            } else {
                None
            }),
    {
        if index < self.data.len() {
            Some(self.data[index])
        } else {
            None
        }
    }

    /// Puts `record` in the place of the record at `index`. Without such a
    /// record the buffer is left as it is.
    pub fn set(&mut self, index: usize, record: T) -> (r: Result<(), BufferError>)
        ensures
            index < old(self)@.len() ==> r is Ok && final(self)@ == old(self)@.update(
                index as int,
                record,
            ),
            index >= old(self)@.len() ==> r == Err::<(), BufferError>(
                BufferError::OutOfRange { index },
            ) && final(self)@ == old(self)@,
    {
        proof {
            use_type_invariant(&*self);
        }
        if index >= self.data.len() {
            return Err(BufferError::OutOfRange { index });
        }
        let mut taken = Self::new();
        core::mem::swap(self, &mut taken);
        let GpuBuffer { count, data } = taken;
        let mut data = data;
        data.set(index, record);
        *self = GpuBuffer { count, data };
        Ok(())
    }

    /// Appends one record. A full buffer is left as it is.
    pub fn push(&mut self, record: T) -> (r: Result<(), BufferError>)
        ensures
            old(self)@.len() < max_count::<T>() ==> r is Ok && final(self)@ == old(self)@.push(
                record,
            ),
            old(self)@.len() >= max_count::<T>() ==> r == Err::<(), BufferError>(
                BufferError::TooManyElements,
            ) && final(self)@ == old(self)@,
    {
        proof {
            use_type_invariant(&*self);
            lemma_sizes::<T>(0);
        }
        let limit: usize = Self::capacity_limit();
        if self.data.len() >= limit {
            return Err(BufferError::TooManyElements);
        }
        let mut taken = Self::new();
        core::mem::swap(self, &mut taken);
        let GpuBuffer { count, data } = taken;
        let mut data = data;
        data.push(record);
        *self = GpuBuffer { count: count + 1, data };
        Ok(())
    }

    /// Removes every record; the storage stays for the next frame.
    pub fn clear(&mut self)
        ensures
            final(self)@ == Seq::<T>::empty(),
    {
        let mut taken = Self::new();
        core::mem::swap(self, &mut taken);
        let GpuBuffer { count, data } = taken;
        let mut data = data;
        data.clear();
        *self = GpuBuffer { count: 0, data };
    }

    /// Length of the byte image.
    pub fn byte_len(&self) -> (r: usize)
        ensures
            r == image_len::<T>(self@.len()),
            r == self.image().len(),
            r <= MAX_BUFFER_BYTES,
    {
        proof {
            use_type_invariant(self);
            lemma_sizes::<T>(self@.len());
            lemma_image_round_trip(self@);
        }
        let n: usize = self.data.len();
        let slots: usize = if n == 0 { 1 } else { n };
        T::align_bytes() + T::stride_bytes() * slots
    }

    /// The byte image of the buffer.
    pub fn encode(&self) -> (r: Vec<u8>)
        ensures
            r@ == self.image(),
    {
        proof {
            use_type_invariant(self);
            lemma_sizes::<T>(self@.len());
            T::lemma_layout();
        }
        let mut out: Vec<u8> = Vec::new();
        put_word(&mut out, self.count);
        put_padding(&mut out, T::align_bytes() - WORD_BYTES);
        let ghost head = out@;
        let n: usize = self.data.len();
        if n == 0 {
            put_padding(&mut out, T::stride_bytes());
        } else {
            let mut i: usize = 0;
            while i < n
                invariant
                    i <= n,
                    n == self.data@.len(),
                    out@ == head + images(self.data@.take(i as int)),
                decreases n - i,
            {
                self.data[i].put(&mut out);
                proof {
                    let next = self.data@.take(i + 1);
                    assert(next.drop_last() =~= self.data@.take(i as int));
                    assert(next.last() == self.data@[i as int]);
                }
                i = i + 1;
            }
            assert(self.data@.take(n as int) =~= self.data@);
        }
        proof {
            lemma_images_len(self@);
            lemma_word_round_trip(Seq::empty(), self.count, Seq::empty());
            assert(out@ =~= self.image());
        }
        out
    }

    /// Reads a buffer back from its byte image. Padding is not looked at.
    pub fn decode(bytes: &[u8]) -> (r: Result<Self, BufferError>)
        ensures
            well_formed::<T>(bytes@) ==> r is Ok && r->Ok_0@ == parsed::<T>(bytes@),
            !well_formed::<T>(bytes@) ==> r == Err::<Self, BufferError>(
                BufferError::MalformedImage,
            ),
    {
        let len: usize = bytes.len();
        if len < WORD_BYTES {
            return Err(BufferError::MalformedImage);
        }
        let count: u32 = get_word(bytes, 0);
        let limit: usize = Self::capacity_limit();
        proof {
            lemma_sizes::<T>(count as nat);
            T::lemma_layout();
        }
        if count as usize > limit {
            return Err(BufferError::MalformedImage);
        }
        let n: usize = count as usize;
        let slots: usize = if n == 0 { 1 } else { n };
        let header: usize = T::align_bytes();
        let stride: usize = T::stride_bytes();
        if len != header + stride * slots {
            return Err(BufferError::MalformedImage);
        }
        let mut data: Vec<T> = Vec::new();
        let mut i: usize = 0;
        while i < n
            invariant
                i <= n,
                n == count,
                n <= max_count::<T>(),
                header == header_len::<T>(),
                stride == T::stride(),
                stride > 0,
                header + stride * n <= bytes@.len() <= MAX_BUFFER_BYTES,
                data@.len() == i,
                forall|j: int|
                    0 <= j < i ==> data@[j] == T::parse_at(bytes@, header + stride * j),
            decreases n - i,
        {
            assert(stride * i + stride <= stride * n) by (nonlinear_arith)
                requires
                    i < n,
                    stride > 0,
            ;
            let record = T::get(bytes, header + stride * i);
            data.push(record);
            i = i + 1;
        }
        assert(data@ =~= parsed::<T>(bytes@));
        Ok(GpuBuffer { count, data })
    }
}

} // verus!
