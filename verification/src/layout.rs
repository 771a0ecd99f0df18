//! Byte images: how words and records lie in a buffer that the device reads.
//!
//! Every field is made of 32-bit words, each written least significant byte
//! first. A field starts at the next multiple of its alignment; the bytes
//! skipped to get there are padding, written as zeros and ignored on reading.

use vstd::prelude::*;

verus! {

/// The largest byte image this crate builds: 128 MiB, the largest storage
/// buffer binding that a device offers unless more is asked of it.
pub const MAX_BUFFER_BYTES: usize = 0x0800_0000;

/// Size of one word in bytes.
pub const WORD_BYTES: usize = 4;

/// The four bytes of a word, least significant first.
#[verifier::opaque]
pub open spec fn word_image(v: u32) -> Seq<u8> {
    seq![
        (v % 256) as u8,
        (v / 0x100 % 256) as u8,
        (v / 0x1_0000 % 256) as u8,
        (v / 0x100_0000) as u8,
    ]
}

/// The word whose four bytes start at `at`.
#[verifier::opaque]
pub open spec fn word_at(bytes: Seq<u8>, at: int) -> u32
    recommends
        0 <= at,
        at + 4 <= bytes.len(),
{
    (bytes[at] + bytes[at + 1] * 0x100 + bytes[at + 2] * 0x1_0000 + bytes[at + 3] * 0x100_0000) as u32
}

/// The word that stands for a signed number: its two's complement.
pub open spec fn signed_word(v: i32) -> u32 {
    if v >= 0 {
        v as u32
    } else {
        (v + 0x1_0000_0000) as u32
    }
}

/// The signed number that a word stands for.
pub open spec fn word_signed(w: u32) -> i32 {
    if w < 0x8000_0000 {
        w as i32
    } else {
        (w - 0x1_0000_0000) as i32
    }
}

/// `n` zero bytes.
pub open spec fn zeros(n: nat) -> Seq<u8> {
    Seq::new(n, |i: int| 0u8)
}

/// The least multiple of `align` that is not below `offset`.
pub open spec fn round_up(offset: nat, align: nat) -> nat
    recommends
        align > 0,
{
    if offset % align == 0 {
        offset
    } else {
        (offset + align - offset % align) as nat
    }
}

/// The padding between `offset` and the next multiple of `align`.
pub open spec fn padding_for(offset: nat, align: nat) -> nat
    recommends
        align > 0,
{
    (round_up(offset, align) - offset) as nat
}

/// The image `so_far` with one more field: padding up to the field's
/// alignment, then the field's image.
pub open spec fn place(so_far: Seq<u8>, field: Seq<u8>, align: nat) -> Seq<u8>
    recommends
        align > 0,
{
    so_far + zeros(padding_for(so_far.len(), align)) + field
}

/// The image `so_far` of all the fields of a structure, padded to a multiple of
/// the structure's alignment.
pub open spec fn close(so_far: Seq<u8>, align: nat) -> Seq<u8>
    recommends
        align > 0,
{
    so_far + zeros(padding_for(so_far.len(), align))
}

/// Reading back the image of a word gives the word, wherever the image stands.
pub proof fn lemma_word_round_trip(before: Seq<u8>, v: u32, after: Seq<u8>)
    ensures
        word_at(before + word_image(v) + after, before.len() as int) == v,
        word_image(v).len() == 4,
{
    reveal(word_image);
    reveal(word_at);
    let s = before + word_image(v) + after;
    let at = before.len() as int;
    assert(s[at] == word_image(v)[0]);
    assert(s[at + 1] == word_image(v)[1]);
    assert(s[at + 2] == word_image(v)[2]);
    assert(s[at + 3] == word_image(v)[3]);
}

/// A signed number and its word determine each other.
pub proof fn lemma_signed_round_trip(v: i32)
    ensures
        word_signed(signed_word(v)) == v,
{
}

/// Appends the image of a word.
pub fn put_word(out: &mut Vec<u8>, v: u32)
    ensures
        final(out)@ == old(out)@ + word_image(v),
{
    proof {
        reveal(word_image);
    }
    out.push((v % 256) as u8);
    out.push((v / 0x100 % 256) as u8);
    out.push((v / 0x1_0000 % 256) as u8);
    out.push((v / 0x100_0000) as u8);
    assert(out@ == old(out)@ + word_image(v));
}

/// Appends `n` bytes of padding.
pub fn put_padding(out: &mut Vec<u8>, n: usize)
    ensures
        final(out)@ == old(out)@ + zeros(n as nat),
{
    let mut i: usize = 0;
    while i < n
        invariant
            i <= n,
            out@ == old(out)@ + zeros(i as nat),
        decreases n - i,
    {
        out.push(0u8);
        i = i + 1;
        assert(out@ == old(out)@ + zeros(i as nat));
    }
}

/// Reads the word whose four bytes start at `at`.
pub fn get_word(bytes: &[u8], at: usize) -> (v: u32)
    requires
        at + 4 <= bytes.len(),
    ensures
        v == word_at(bytes@, at as int),
{
    proof {
        reveal(word_at);
    }
    let b0: u32 = bytes[at] as u32;
    let b1: u32 = bytes[at + 1] as u32;
    let b2: u32 = bytes[at + 2] as u32;
    let b3: u32 = bytes[at + 3] as u32;
    b0 + b1 * 0x100 + b2 * 0x1_0000 + b3 * 0x100_0000
}

/// The word of a signed number.
pub fn to_word(v: i32) -> (w: u32)
    ensures
        w == signed_word(v),
{
    if v >= 0 {
        v as u32
    } else {
        let low: i32 = v - i32::MIN;
        low as u32 + 0x8000_0000
    }
}

/// The signed number of a word.
pub fn from_word(w: u32) -> (v: i32)
    ensures
        v == word_signed(w),
{
    if w < 0x8000_0000 {
        w as i32
    } else {
        let low: u32 = w - 0x8000_0000;
        low as i32 + i32::MIN
    }
}

} // verus!
