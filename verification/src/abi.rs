use vstd::prelude::*;

use crate::buf::{pad32_checked, word_u64, write_bytes_at, Frame, Reader};
use crate::bytes::{
    be_bytes, be_bytes_exec, be_val, be_val_exec, lemma_be_bytes_leading_zeros, lemma_be_bytes_len,
    lemma_be_val_be_bytes, lemma_be_val_bound, lemma_be_val_skip_zeros, lemma_pow256_mono, pad32,
    pow256, splice, zeros,
};
use crate::errors::RollupError;
use crate::hexutil::{zero_vec, Address, U256};
use vstd::slice::slice_subrange;
use vstd::slice::slice_to_vec;

verus! {

/// The `u32` whose big-endian bytes are `a`, `b`, `c`, `d`.
pub open spec fn sel_word(a: u8, b: u8, c: u8, d: u8) -> u32 {
    (0x1000000 * a + 0x10000 * b + 0x100 * c + d) as u32
}

/// The 32-byte slot that starts at `at`.
pub open spec fn word_at(data: Seq<u8>, at: int) -> Seq<u8> {
    data.subrange(at, at + 32)
}

/// The 32-byte slot encoding a boolean.
pub open spec fn bool_word(b: bool) -> Seq<u8> {
    zeros(31).push(
        if b {
            1u8
        } else {
            0u8
        },
    )
}

/// The 32-byte slot encoding a 20-byte address.
pub open spec fn address_word(a: Seq<u8>) -> Seq<u8> {
    zeros(12) + a
}

/// A big-endian byte string left-padded with zeros into a 32-byte slot.
pub open spec fn uint_be_word(bs: Seq<u8>) -> Seq<u8> {
    zeros((32 - bs.len()) as nat) + bs
}

/// A payload zero-padded to the next 32-byte boundary.
pub open spec fn padded_bytes(p: Seq<u8>) -> Seq<u8> {
    p + zeros((pad32(p.len()) - p.len()) as nat)
}

/// The tail section of a dynamic-bytes field: a 32-byte length word
/// followed by the payload, zero-padded to a 32-byte boundary.
pub open spec fn dyn_section(p: Seq<u8>) -> Seq<u8> {
    be_bytes(p.len(), 32) + padded_bytes(p)
}

/// Pack four bytes into a big-endian selector value.
pub fn funsel(a: u8, b: u8, c: u8, d: u8) -> (r: u32)
    ensures
        r == sel_word(a, b, c, d),
{
    0x1000000 * (a as u32) + 0x10000 * (b as u32) + 0x100 * (c as u32) + (d as u32)
}

/// `256^n` as a `u64`, for `n` up to 7.
fn pow256_exec(n: usize) -> (r: u64)
    requires
        n <= 7,
    ensures
        r as nat == pow256(n as nat),
    decreases n,
{
    proof {
        reveal_with_fuel(pow256, 9);
    }
    if n == 0 {
        1
    } else {
        256 * pow256_exec(n - 1)
    }
}

/// Encode an unsigned integer of declared width `n` (at most 8 bytes) into
/// a left-zero-padded 32-byte slot.
pub fn encode_uint(n: usize, v: u64) -> (r: Result<Vec<u8>, RollupError>)
    ensures
        match r {
            Ok(w) => n <= 8 && (v as nat) < pow256(n as nat) && w@ == be_bytes(v as nat, 32),
            Err(e) => e == RollupError::EncodingRangeError && (n > 8 || (v as nat) >= pow256(
                n as nat,
            )),
        },
{
    if n > 8 {
        return Err(RollupError::EncodingRangeError);
    }
    if n < 8 {
        let limit = pow256_exec(n);
        if v >= limit {
            return Err(RollupError::EncodingRangeError);
        }
    } else {
        proof {
            lemma_be_val_bound(be_bytes(v as nat, 32));
            assert(pow256(8) == 0x1_0000_0000_0000_0000) by {
                reveal_with_fuel(pow256, 9);
            }
        }
    }
    Ok(be_bytes_exec(v, 32))
}

/// Encode a raw big-endian byte string of at most 32 bytes into a 32-byte
/// slot, left-padding with zeros and validating nothing else.
pub fn encode_uint_nr(n: usize, data: &[u8]) -> (r: Result<Vec<u8>, RollupError>)
    requires
        data@.len() == n,
    ensures
        match r {
            Ok(w) => n <= 32 && w@ == uint_be_word(data@),
            Err(e) => e == RollupError::EncodingRangeError && n > 32,
        },
{
    if n > 32 {
        return Err(RollupError::EncodingRangeError);
    }
    let mut w = zero_vec(32 - data.len());
    w.extend_from_slice(data);
    Ok(w)
}

/// Encode a big-endian byte string whose value must fit a declared width
/// `n`: any bytes beyond the low-order `n` must be zero.
pub fn encode_uint_nn(n: usize, data: &[u8]) -> (r: Result<Vec<u8>, RollupError>)
    requires
        data@.len() <= 32,
    ensures
        match r {
            Ok(w) => n <= 32 && (forall|i: int| 0 <= i < data@.len() - n ==> data@[i] == 0) && w@
                == uint_be_word(data@),
            Err(e) => e == RollupError::EncodingRangeError && (n > 32 || exists|i: int|
                0 <= i < data@.len() - n && data@[i] != 0),
        },
{
    if n > 32 {
        return Err(RollupError::EncodingRangeError);
    }
    let mut i: usize = 0;
    while i < data.len() && n < data.len() - i
        invariant
            0 <= i <= data@.len() <= 32,
            forall|j: int| 0 <= j < i ==> data@[j] == 0,
        decreases data@.len() - i,
    {
        if data[i] != 0 {
            return Err(RollupError::EncodingRangeError);
        }
        i = i + 1;
    }
    let mut w = zero_vec(32 - data.len());
    w.extend_from_slice(data);
    Ok(w)
}

/// Decode an unsigned integer of declared width `n` (at most 8 bytes) from
/// a 32-byte slot; all padding bytes outside the width must be zero.
pub fn decode_uint(word: &[u8], n: usize) -> (r: Result<u64, RollupError>)
    requires
        word@.len() == 32,
    ensures
        match r {
            Ok(v) => n <= 8 && (forall|i: int| 0 <= i < 32 - n ==> word@[i] == 0) && v as nat
                == be_val(word@),
            Err(e) => e == RollupError::EncodingRangeError && (n > 8 || exists|i: int|
                0 <= i < 32 - n && word@[i] != 0),
        },
{
    if n > 8 {
        return Err(RollupError::EncodingRangeError);
    }
    let mut i: usize = 0;
    while i < 32 - n
        invariant
            0 <= i <= 32 - n,
            n <= 8,
            word@.len() == 32,
            forall|j: int| 0 <= j < i ==> word@[j] == 0,
        decreases 32 - n - i,
    {
        if word[i] != 0 {
            return Err(RollupError::EncodingRangeError);
        }
        i = i + 1;
    }
    let low = slice_subrange(word, 24, 32);
    proof {
        assert(low@ =~= word@.skip(24));
        lemma_be_val_skip_zeros(word@, 24);
        lemma_be_val_bound(low@);
    }
    Ok(be_val_exec(low))
}

/// Extract the low-order `n` bytes of a 32-byte slot, validating nothing.
pub fn decode_uint_nr(word: &[u8], n: usize) -> (r: Result<Vec<u8>, RollupError>)
    requires
        word@.len() == 32,
    ensures
        match r {
            Ok(v) => n <= 32 && v@ == word@.subrange(32 - n, 32),
            Err(e) => e == RollupError::EncodingRangeError && n > 32,
        },
{
    if n > 32 {
        return Err(RollupError::EncodingRangeError);
    }
    Ok(slice_to_vec(slice_subrange(word, 32 - n, 32)))
}

/// Extract the low-order `n` bytes of a 32-byte slot, requiring all
/// higher-order padding bytes to be exactly zero.
pub fn decode_uint_nn(word: &[u8], n: usize) -> (r: Result<Vec<u8>, RollupError>)
    requires
        word@.len() == 32,
    ensures
        match r {
            Ok(v) => n <= 32 && (forall|i: int| 0 <= i < 32 - n ==> word@[i] == 0) && v@
                == word@.subrange(32 - n, 32),
            Err(e) => e == RollupError::EncodingRangeError && (n > 32 || exists|i: int|
                0 <= i < 32 - n && word@[i] != 0),
        },
{
    if n > 32 {
        return Err(RollupError::EncodingRangeError);
    }
    let mut i: usize = 0;
    while i < 32 - n
        invariant
            0 <= i <= 32 - n,
            n <= 32,
            word@.len() == 32,
            forall|j: int| 0 <= j < i ==> word@[j] == 0,
        decreases 32 - n - i,
    {
        if word[i] != 0 {
            return Err(RollupError::EncodingRangeError);
        }
        i = i + 1;
    }
    Ok(slice_to_vec(slice_subrange(word, 32 - n, 32)))
}

/// Open a fresh zeroed frame of `capacity` bytes whose head region holds
/// the first `head_size` bytes.
pub fn start_frame(capacity: usize, head_size: usize) -> (r: Result<Frame, RollupError>)
    ensures
        match r {
            Ok(f) => head_size <= capacity && f.wf() && f.data@ == zeros(capacity as nat) && f.head
                == 0 && f.head_end == head_size && f.tail == head_size,
            Err(e) => e == RollupError::BufferOverflow && head_size > capacity,
        },
{
    if head_size > capacity {
        return Err(RollupError::BufferOverflow);
    }
    Ok(Frame { data: zero_vec(capacity), head: 0, head_end: head_size, tail: head_size })
}

/// Write `w` at the head cursor; the caller has checked the space.
fn write_head(f: &mut Frame, w: &[u8])
    requires
        old(f).wf(),
        old(f).head + w@.len() <= old(f).head_end,
    ensures
        final (f).wf(),
        final (f).data@ == splice(old(f).data@, old(f).head as int, w@),
        final (f).head == old(f).head + w@.len(),
        final (f).head_end == old(f).head_end,
        final (f).tail == old(f).tail,
{
    write_bytes_at(&mut f.data, f.head, w);
    f.head = f.head + w.len();
}

/// Write `w` at the tail cursor; the caller has checked the space.
fn write_tail(f: &mut Frame, w: &[u8])
    requires
        old(f).wf(),
        old(f).tail + w@.len() <= old(f).data@.len(),
    ensures
        final (f).wf(),
        final (f).data@ == splice(old(f).data@, old(f).tail as int, w@),
        final (f).tail == old(f).tail + w@.len(),
        final (f).head_end == old(f).head_end,
        final (f).head == old(f).head,
{
    let total = f.data.len();
    write_bytes_at(&mut f.data, f.tail, w);
    proof {
        assert(f.tail + w@.len() <= total);
    }
    f.tail = f.tail + w.len();
}

/// Write the four big-endian bytes of a selector at the head cursor.
pub fn put_funsel(f: &mut Frame, sel: u32) -> (r: Result<(), RollupError>)
    requires
        old(f).wf(),
    ensures
        match r {
            Ok(()) => old(f).head + 4 <= old(f).head_end && final (f).wf() && final (f).data@
                == splice(old(f).data@, old(f).head as int, be_bytes(sel as nat, 4)) && final(f).head == old(f).head + 4 && final (f).head_end == old(f).head_end && final (f).tail
                == old(f).tail,
            Err(e) => e == RollupError::BufferOverflow && old(f).head + 4 > old(f).head_end && *
            final (f) == *old(f),
        },
{
    if f.head_end - f.head < 4 {
        return Err(RollupError::BufferOverflow);
    }
    let w = be_bytes_exec(sel as u64, 4);
    proof {
        lemma_be_bytes_len(sel as nat, 4);
    }
    write_head(f, w.as_slice());
    Ok(())
}

/// Write an unsigned integer of declared width `n` (at most 8 bytes) as a
/// 32-byte head slot.
pub fn put_uint(f: &mut Frame, n: usize, v: u64) -> (r: Result<(), RollupError>)
    requires
        old(f).wf(),
    ensures
        match r {
            Ok(()) => n <= 8 && (v as nat) < pow256(n as nat) && old(f).head + 32 <= old(f).head_end && final (f).wf() && final (f).data@ == splice(
                old(f).data@,
                old(f).head as int,
                be_bytes(v as nat, 32),
            ) && final (f).head == old(f).head + 32 && final (f).head_end == old(f).head_end
                && final (f).tail == old(f).tail,
            Err(e) => *final (f) == *old(f) && ((e == RollupError::EncodingRangeError && (n > 8 || (
            v as nat) >= pow256(n as nat))) || (e == RollupError::BufferOverflow && n <= 8 && (
            v as nat) < pow256(n as nat) && old(f).head + 32 > old(f).head_end)),
        },
{
    let w = encode_uint(n, v)?;
    if f.head_end - f.head < 32 {
        return Err(RollupError::BufferOverflow);
    }
    proof {
        lemma_be_bytes_len(v as nat, 32);
    }
    write_head(f, w.as_slice());
    Ok(())
}

/// Write a raw big-endian byte string of at most 32 bytes as a
/// left-zero-padded 32-byte head slot.
pub fn put_uint_be(f: &mut Frame, data: &[u8]) -> (r: Result<(), RollupError>)
    requires
        old(f).wf(),
    ensures
        match r {
            Ok(()) => data@.len() <= 32 && old(f).head + 32 <= old(f).head_end && final (f).wf()
                && final (f).data@ == splice(
                old(f).data@,
                old(f).head as int,
                uint_be_word(data@),
            ) && final (f).head == old(f).head + 32 && final (f).head_end == old(f).head_end
                && final (f).tail == old(f).tail,
            Err(e) => *final (f) == *old(f) && ((e == RollupError::EncodingRangeError && data@.len()
                > 32) || (e == RollupError::BufferOverflow && data@.len() <= 32 && old(f).head + 32
                > old(f).head_end)),
        },
{
    if data.len() > 32 {
        return Err(RollupError::EncodingRangeError);
    }
    if f.head_end - f.head < 32 {
        return Err(RollupError::BufferOverflow);
    }
    let mut w = zero_vec(32 - data.len());
    w.extend_from_slice(data);
    write_head(f, w.as_slice());
    Ok(())
}

/// Write a 256-bit value as a 32-byte head slot.
pub fn put_uint256(f: &mut Frame, v: &U256) -> (r: Result<(), RollupError>)
    requires
        old(f).wf(),
        v.wf(),
    ensures
        match r {
            Ok(()) => old(f).head + 32 <= old(f).head_end && final (f).wf() && final (f).data@
                == splice(old(f).data@, old(f).head as int, v.data@) && final (f).head == old(f).head + 32 && final (f).head_end == old(f).head_end && final (f).tail == old(f).tail,
            Err(e) => e == RollupError::BufferOverflow && old(f).head + 32 > old(f).head_end && *
            final (f) == *old(f),
        },
{
    if f.head_end - f.head < 32 {
        return Err(RollupError::BufferOverflow);
    }
    write_head(f, v.data.as_slice());
    Ok(())
}

/// Write a boolean as a 32-byte head slot holding 0 or 1.
pub fn put_bool(f: &mut Frame, b: bool) -> (r: Result<(), RollupError>)
    requires
        old(f).wf(),
    ensures
        match r {
            Ok(()) => old(f).head + 32 <= old(f).head_end && final (f).wf() && final (f).data@
                == splice(old(f).data@, old(f).head as int, bool_word(b)) && final (f).head == old(f).head + 32 && final (f).head_end == old(f).head_end && final (f).tail == old(f).tail,
            Err(e) => e == RollupError::BufferOverflow && old(f).head + 32 > old(f).head_end && *
            final (f) == *old(f),
        },
{
    if f.head_end - f.head < 32 {
        return Err(RollupError::BufferOverflow);
    }
    let mut w = zero_vec(31);
    w.push(if b {
        1u8
    } else {
        0u8
    });
    write_head(f, w.as_slice());
    Ok(())
}

/// Write a 20-byte address right-aligned in a 32-byte head slot.
pub fn put_address(f: &mut Frame, a: &Address) -> (r: Result<(), RollupError>)
    requires
        old(f).wf(),
        a.wf(),
    ensures
        match r {
            Ok(()) => old(f).head + 32 <= old(f).head_end && final (f).wf() && final (f).data@
                == splice(old(f).data@, old(f).head as int, address_word(a.data@)) && final(f).head == old(f).head + 32 && final (f).head_end == old(f).head_end && final (f).tail
                == old(f).tail,
            Err(e) => e == RollupError::BufferOverflow && old(f).head + 32 > old(f).head_end && *
            final (f) == *old(f),
        },
{
    if f.head_end - f.head < 32 {
        return Err(RollupError::BufferOverflow);
    }
    let mut w = zero_vec(12);
    w.extend_from_slice(a.data.as_slice());
    write_head(f, w.as_slice());
    Ok(())
}

/// Write a fixed-length payload inline at the head cursor, zero-padded to
/// the next 32-byte boundary.
pub fn put_bytes_s(f: &mut Frame, payload: &[u8]) -> (r: Result<(), RollupError>)
    requires
        old(f).wf(),
    ensures
        match r {
            Ok(()) => old(f).head + pad32(payload@.len()) <= old(f).head_end && final (f).wf()
                && final (f).data@ == splice(
                old(f).data@,
                old(f).head as int,
                padded_bytes(payload@),
            ) && final (f).head == old(f).head + pad32(payload@.len()) && final (f).head_end == old(f).head_end && final (f).tail == old(f).tail,
            Err(e) => e == RollupError::BufferOverflow && old(f).head + pad32(payload@.len()) > old(f).head_end && *final (f) == *old(f),
        },
{
    let avail = f.head_end - f.head;
    match pad32_checked(payload.len(), avail) {
        None => Err(RollupError::BufferOverflow),
        Some(p) => {
            let mut w: Vec<u8> = Vec::new();
            w.extend_from_slice(payload);
            while w.len() < p
                invariant
                    payload@.len() <= w@.len() <= p,
                    p == pad32(payload@.len()),
                    w@.subrange(0, payload@.len() as int) == payload@,
                    forall|j: int| payload@.len() <= j < w@.len() ==> w@[j] == 0,
                decreases p - w@.len(),
            {
                w.push(0u8);
                proof {
                    assert(w@.subrange(0, payload@.len() as int) =~= payload@);
                }
            }
            proof {
                assert(w@ =~= padded_bytes(payload@));
            }
            write_head(f, w.as_slice());
            Ok(())
        },
    }
}

} // verus!

verus! {

/// A payload zero-padded to exactly `p == pad32(len)` bytes.
fn padded_vec(payload: &[u8], p: usize) -> (r: Vec<u8>)
    requires
        p == pad32(payload@.len()),
    ensures
        r@ == padded_bytes(payload@),
{
    let mut w: Vec<u8> = Vec::new();
    w.extend_from_slice(payload);
    while w.len() < p
        invariant
            payload@.len() <= w@.len() <= p,
            p == pad32(payload@.len()),
            w@.subrange(0, payload@.len() as int) == payload@,
            forall|j: int| payload@.len() <= j < w@.len() ==> w@[j] == 0,
        decreases p - w@.len(),
    {
        w.push(0u8);
        proof {
            assert(w@.subrange(0, payload@.len() as int) =~= payload@);
        }
    }
    proof {
        assert(w@ =~= padded_bytes(payload@));
    }
    w
}

/// Write a dynamic-bytes field: an offset word (the current tail position,
/// relative to the frame start) goes into the head, and a length word
/// followed by the zero-padded payload goes to the tail.
pub fn put_bytes_d(f: &mut Frame, payload: &[u8]) -> (r: Result<(), RollupError>)
    requires
        old(f).wf(),
    ensures
        match r {
            Ok(()) => old(f).head + 32 <= old(f).head_end
                && old(f).tail + 32 + pad32(payload@.len()) <= old(f).data@.len()
                && final(f).wf()
                && final(f).data@ == splice(
                    splice(old(f).data@, old(f).head as int, be_bytes(old(f).tail as nat, 32)),
                    old(f).tail as int,
                    dyn_section(payload@),
                )
                && final(f).head == old(f).head + 32
                && final(f).tail == old(f).tail + 32 + pad32(payload@.len())
                && final(f).head_end == old(f).head_end,
            Err(e) => e == RollupError::BufferOverflow
                && (old(f).head + 32 > old(f).head_end
                    || old(f).tail + 32 + pad32(payload@.len()) > old(f).data@.len())
                && *final(f) == *old(f),
        },
{
    if f.head_end - f.head < 32 {
        return Err(RollupError::BufferOverflow);
    }
    let total = f.data.len();
    let tail_avail = total - f.tail;
    if tail_avail < 32 {
        return Err(RollupError::BufferOverflow);
    }
    match pad32_checked(payload.len(), tail_avail - 32) {
        None => Err(RollupError::BufferOverflow),
        Some(p) => {
            let off_word = be_bytes_exec(f.tail as u64, 32);
            proof {
                lemma_be_bytes_len(f.tail as nat, 32);
                lemma_be_bytes_len(payload@.len(), 32);
            }
            let mut section = be_bytes_exec(payload.len() as u64, 32);
            let padded = padded_vec(payload, p);
            section.extend_from_slice(padded.as_slice());
            proof {
                assert(section@ =~= dyn_section(payload@));
            }
            write_head(f, off_word.as_slice());
            write_tail(f, section.as_slice());
            Ok(())
        },
    }
}

/// Reserve a dynamic-bytes field of `n` zero bytes and return the buffer
/// position where the payload region begins, so it can be filled later
/// with `fill_reserved`.
pub fn reserve_bytes_d(f: &mut Frame, n: usize) -> (r: Result<usize, RollupError>)
    requires
        old(f).wf(),
    ensures
        match r {
            Ok(at) => at == old(f).tail + 32
                && old(f).head + 32 <= old(f).head_end
                && old(f).tail + 32 + pad32(n as nat) <= old(f).data@.len()
                && final(f).wf()
                && final(f).data@ == splice(
                    splice(old(f).data@, old(f).head as int, be_bytes(old(f).tail as nat, 32)),
                    old(f).tail as int,
                    be_bytes(n as nat, 32) + zeros(pad32(n as nat)),
                )
                && final(f).head == old(f).head + 32
                && final(f).tail == old(f).tail + 32 + pad32(n as nat)
                && final(f).head_end == old(f).head_end,
            Err(e) => e == RollupError::BufferOverflow
                && (old(f).head + 32 > old(f).head_end
                    || old(f).tail + 32 + pad32(n as nat) > old(f).data@.len())
                && *final(f) == *old(f),
        },
{
    if f.head_end - f.head < 32 {
        return Err(RollupError::BufferOverflow);
    }
    let total = f.data.len();
    let tail_avail = total - f.tail;
    if tail_avail < 32 {
        return Err(RollupError::BufferOverflow);
    }
    match pad32_checked(n, tail_avail - 32) {
        None => Err(RollupError::BufferOverflow),
        Some(p) => {
            let at = f.tail + 32;
            let off_word = be_bytes_exec(f.tail as u64, 32);
            proof {
                lemma_be_bytes_len(f.tail as nat, 32);
                lemma_be_bytes_len(n as nat, 32);
            }
            let mut section = be_bytes_exec(n as u64, 32);
            let z = zero_vec(p);
            section.extend_from_slice(z.as_slice());
            proof {
                assert(section@ =~= be_bytes(n as nat, 32) + zeros(pad32(n as nat)));
            }
            write_head(f, off_word.as_slice());
            write_tail(f, section.as_slice());
            Ok(at)
        },
    }
}

/// Overwrite part of an already reserved tail region.
pub fn fill_reserved(f: &mut Frame, at: usize, data_in: &[u8])
    requires
        old(f).wf(),
        old(f).head_end <= at,
        at + data_in@.len() <= old(f).tail,
    ensures
        final(f).wf(),
        final(f).data@ == splice(old(f).data@, at as int, data_in@),
        final(f).head == old(f).head,
        final(f).head_end == old(f).head_end,
        final(f).tail == old(f).tail,
{
    write_bytes_at(&mut f.data, at, data_in);
}

/// Begin a nested frame for decoding: offsets of dynamic fields read from
/// here on are resolved relative to the current position.
pub fn mark_frame(r: &mut Reader)
    requires
        old(r).wf(),
    ensures
        final(r).wf(),
        final(r).base == old(r).pos,
        final(r).pos == old(r).pos,
        final(r).data@ == old(r).data@,
{
    r.base = r.pos;
}

/// Read the next 32-byte slot and advance.
fn read_word(r: &mut Reader) -> (res: Result<Vec<u8>, RollupError>)
    requires
        old(r).wf(),
    ensures
        match res {
            Ok(w) => old(r).pos + 32 <= old(r).data@.len()
                && w@ == word_at(old(r).data@, old(r).pos as int)
                && final(r).pos == old(r).pos + 32
                && final(r).data@ == old(r).data@
                && final(r).base == old(r).base
                && final(r).wf(),
            Err(e) => e == RollupError::BufferUnderflow && old(r).pos + 32 > old(r).data@.len()
                && *final(r) == *old(r),
        },
{
    let total = r.data.len();
    if total - r.pos < 32 {
        return Err(RollupError::BufferUnderflow);
    }
    let w = slice_to_vec(slice_subrange(r.data.as_slice(), r.pos, r.pos + 32));
    r.pos = r.pos + 32;
    Ok(w)
}

/// Read a 256-bit value from the next 32-byte slot.
pub fn get_uint256(r: &mut Reader) -> (res: Result<U256, RollupError>)
    requires
        old(r).wf(),
    ensures
        match res {
            Ok(u) => old(r).pos + 32 <= old(r).data@.len()
                && u.wf()
                && u.data@ == word_at(old(r).data@, old(r).pos as int)
                && final(r).pos == old(r).pos + 32
                && final(r).data@ == old(r).data@
                && final(r).base == old(r).base
                && final(r).wf(),
            Err(e) => e == RollupError::BufferUnderflow && old(r).pos + 32 > old(r).data@.len()
                && *final(r) == *old(r),
        },
{
    let w = read_word(r)?;
    Ok(U256 { data: w })
}

/// Read an unsigned integer of declared width `n` (at most 8 bytes) from
/// the next 32-byte slot; all padding bytes outside the width must be zero.
pub fn get_uint(r: &mut Reader, n: usize) -> (res: Result<u64, RollupError>)
    requires
        old(r).wf(),
    ensures
        match res {
            Ok(v) => old(r).pos + 32 <= old(r).data@.len()
                && n <= 8
                && (forall|i: int| 0 <= i < 32 - n
                    ==> word_at(old(r).data@, old(r).pos as int)[i] == 0)
                && v as nat == be_val(word_at(old(r).data@, old(r).pos as int))
                && final(r).pos == old(r).pos + 32
                && final(r).data@ == old(r).data@
                && final(r).base == old(r).base
                && final(r).wf(),
            Err(e) => *final(r) == *old(r)
                && ((e == RollupError::BufferUnderflow && old(r).pos + 32 > old(r).data@.len())
                    || (e == RollupError::EncodingRangeError && old(r).pos + 32 <= old(r).data@.len()
                        && (n > 8 || exists|i: int| 0 <= i < 32 - n
                            && word_at(old(r).data@, old(r).pos as int)[i] != 0))),
        },
{
    let total = r.data.len();
    if total - r.pos < 32 {
        return Err(RollupError::BufferUnderflow);
    }
    let word = slice_subrange(r.data.as_slice(), r.pos, r.pos + 32);
    proof {
        assert(word@ =~= word_at(r.data@, r.pos as int));
    }
    let v = match decode_uint(word, n) {
        Ok(v) => v,
        Err(e) => {
            return Err(e);
        },
    };
    r.pos = r.pos + 32;
    Ok(v)
}

/// Read the raw low-order `n` bytes (at most 32) of the next 32-byte slot,
/// validating nothing.
pub fn get_uint_be(r: &mut Reader, n: usize) -> (res: Result<Vec<u8>, RollupError>)
    requires
        old(r).wf(),
    ensures
        match res {
            Ok(v) => old(r).pos + 32 <= old(r).data@.len()
                && n <= 32
                && v@ == word_at(old(r).data@, old(r).pos as int).subrange(32 - n, 32)
                && final(r).pos == old(r).pos + 32
                && final(r).data@ == old(r).data@
                && final(r).base == old(r).base
                && final(r).wf(),
            Err(e) => *final(r) == *old(r)
                && ((e == RollupError::BufferUnderflow && old(r).pos + 32 > old(r).data@.len())
                    || (e == RollupError::EncodingRangeError && old(r).pos + 32 <= old(r).data@.len()
                        && n > 32)),
        },
{
    let total = r.data.len();
    if total - r.pos < 32 {
        return Err(RollupError::BufferUnderflow);
    }
    let word = slice_subrange(r.data.as_slice(), r.pos, r.pos + 32);
    let v = match decode_uint_nr(word, n) {
        Ok(v) => v,
        Err(e) => {
            return Err(e);
        },
    };
    r.pos = r.pos + 32;
    Ok(v)
}

/// Read a boolean from the next 32-byte slot; its low-order byte must be 0
/// or 1.
pub fn get_bool(r: &mut Reader) -> (res: Result<bool, RollupError>)
    requires
        old(r).wf(),
    ensures
        match res {
            Ok(b) => old(r).pos + 32 <= old(r).data@.len()
                && word_at(old(r).data@, old(r).pos as int)[31] == (if b { 1u8 } else { 0u8 })
                && final(r).pos == old(r).pos + 32
                && final(r).data@ == old(r).data@
                && final(r).base == old(r).base
                && final(r).wf(),
            Err(e) => *final(r) == *old(r)
                && ((e == RollupError::BufferUnderflow && old(r).pos + 32 > old(r).data@.len())
                    || (e == RollupError::InvalidBoolEncoding
                        && old(r).pos + 32 <= old(r).data@.len()
                        && word_at(old(r).data@, old(r).pos as int)[31] > 1)),
        },
{
    let total = r.data.len();
    if total - r.pos < 32 {
        return Err(RollupError::BufferUnderflow);
    }
    let low = r.data[r.pos + 31];
    if low > 1 {
        return Err(RollupError::InvalidBoolEncoding);
    }
    r.pos = r.pos + 32;
    Ok(low == 1)
}

/// Read a 20-byte address from the next 32-byte slot; its 12 high-order
/// padding bytes must be zero.
pub fn get_address(r: &mut Reader) -> (res: Result<Address, RollupError>)
    requires
        old(r).wf(),
    ensures
        match res {
            Ok(a) => old(r).pos + 32 <= old(r).data@.len()
                && (forall|i: int| 0 <= i < 12
                    ==> word_at(old(r).data@, old(r).pos as int)[i] == 0)
                && a.wf()
                && a.data@ == word_at(old(r).data@, old(r).pos as int).subrange(12, 32)
                && final(r).pos == old(r).pos + 32
                && final(r).data@ == old(r).data@
                && final(r).base == old(r).base
                && final(r).wf(),
            Err(e) => *final(r) == *old(r)
                && ((e == RollupError::BufferUnderflow && old(r).pos + 32 > old(r).data@.len())
                    || (e == RollupError::InvalidAddressEncoding
                        && old(r).pos + 32 <= old(r).data@.len()
                        && exists|i: int| 0 <= i < 12
                            && word_at(old(r).data@, old(r).pos as int)[i] != 0)),
        },
{
    let total = r.data.len();
    if total - r.pos < 32 {
        return Err(RollupError::BufferUnderflow);
    }
    let mut i: usize = 0;
    while i < 12
        invariant
            0 <= i <= 12,
            r.wf(),
            r.data@.len() == total,
            r.pos + 32 <= r.data@.len(),
            forall|j: int| 0 <= j < i ==> #[trigger] r.data@[r.pos + j] == 0,
        decreases 12 - i,
    {
        if r.data[r.pos + i] != 0 {
            proof {
                assert(word_at(r.data@, r.pos as int)[i as int] != 0);
            }
            return Err(RollupError::InvalidAddressEncoding);
        }
        i = i + 1;
    }
    let a = slice_to_vec(slice_subrange(r.data.as_slice(), r.pos + 12, r.pos + 32));
    proof {
        assert(a@ =~= word_at(r.data@, r.pos as int).subrange(12, 32));
        assert(forall|j: int| 0 <= j < 12
            ==> word_at(r.data@, r.pos as int)[j] == r.data@[r.pos + j]);
    }
    r.pos = r.pos + 32;
    Ok(Address { data: a })
}

/// Read the leading four-byte selector without consuming it.
pub fn peek_funsel(r: &Reader) -> (res: Result<u32, RollupError>)
    requires
        r.wf(),
    ensures
        match res {
            Ok(s) => r.pos + 4 <= r.data@.len()
                && s == sel_word(
                    r.data@[r.pos as int],
                    r.data@[r.pos + 1],
                    r.data@[r.pos + 2],
                    r.data@[r.pos + 3],
                ),
            Err(e) => e == RollupError::BufferUnderflow && r.pos + 4 > r.data@.len(),
        },
{
    let total = r.data.len();
    if total - r.pos < 4 {
        return Err(RollupError::BufferUnderflow);
    }
    Ok(funsel(r.data[r.pos], r.data[r.pos + 1], r.data[r.pos + 2], r.data[r.pos + 3]))
}

/// Consume the leading four-byte selector, which must equal `expected`.
pub fn check_funsel(r: &mut Reader, expected: u32) -> (res: Result<(), RollupError>)
    requires
        old(r).wf(),
    ensures
        match res {
            Ok(()) => old(r).pos + 4 <= old(r).data@.len()
                && sel_word(
                    old(r).data@[old(r).pos as int],
                    old(r).data@[old(r).pos + 1],
                    old(r).data@[old(r).pos + 2],
                    old(r).data@[old(r).pos + 3],
                ) == expected
                && final(r).pos == old(r).pos + 4
                && final(r).data@ == old(r).data@
                && final(r).base == old(r).base
                && final(r).wf(),
            Err(e) => *final(r) == *old(r)
                && ((e == RollupError::BufferUnderflow && old(r).pos + 4 > old(r).data@.len())
                    || (e == RollupError::SelectorMismatch && old(r).pos + 4 <= old(r).data@.len()
                        && sel_word(
                            old(r).data@[old(r).pos as int],
                            old(r).data@[old(r).pos + 1],
                            old(r).data@[old(r).pos + 2],
                            old(r).data@[old(r).pos + 3],
                        ) != expected)),
        },
{
    let total = r.data.len();
    if total - r.pos < 4 {
        return Err(RollupError::BufferUnderflow);
    }
    let sel = funsel(r.data[r.pos], r.data[r.pos + 1], r.data[r.pos + 2], r.data[r.pos + 3]);
    if sel != expected {
        return Err(RollupError::SelectorMismatch);
    }
    r.pos = r.pos + 4;
    Ok(())
}

/// Read a fixed-length payload of `n` bytes inline, consuming its
/// zero-padding to the next 32-byte boundary.
pub fn get_bytes_s(r: &mut Reader, n: usize) -> (res: Result<Vec<u8>, RollupError>)
    requires
        old(r).wf(),
    ensures
        match res {
            Ok(v) => old(r).pos + pad32(n as nat) <= old(r).data@.len()
                && v@ == old(r).data@.subrange(old(r).pos as int, old(r).pos + n)
                && final(r).pos == old(r).pos + pad32(n as nat)
                && final(r).data@ == old(r).data@
                && final(r).base == old(r).base
                && final(r).wf(),
            Err(e) => e == RollupError::BufferUnderflow
                && old(r).pos + pad32(n as nat) > old(r).data@.len()
                && *final(r) == *old(r),
        },
{
    let total = r.data.len();
    let avail = total - r.pos;
    match pad32_checked(n, avail) {
        None => Err(RollupError::BufferUnderflow),
        Some(p) => {
            let v = slice_to_vec(slice_subrange(r.data.as_slice(), r.pos, r.pos + n));
            r.pos = r.pos + p;
            Ok(v)
        },
    }
}

/// The dynamic-bytes field at `pos` resolves inside the buffer: the offset
/// word can be read, and the offset and the length it points to stay in
/// bounds.
pub open spec fn bytes_d_ok(data: Seq<u8>, base: int, pos: int) -> bool {
    let off = be_val(word_at(data, pos));
    let n = be_val(word_at(data, base + off));
    &&& pos + 32 <= data.len()
    &&& base + off + 32 <= data.len()
    &&& base + off + 32 + n <= data.len()
}

/// The payload of the dynamic-bytes field at `pos`.
pub open spec fn bytes_d_value(data: Seq<u8>, base: int, pos: int) -> Seq<u8> {
    let off = be_val(word_at(data, pos));
    let n = be_val(word_at(data, base + off));
    data.subrange(base + off + 32, base + off + 32 + n)
}

/// Read a dynamic-bytes field without consuming the offset word: the
/// 32-byte offset word at the current position points (relative to the
/// frame base) to a 32-byte length word followed by that many bytes.
pub fn peek_bytes_d(r: &Reader) -> (res: Result<Vec<u8>, RollupError>)
    requires
        r.wf(),
    ensures
        match res {
            Ok(v) => bytes_d_ok(r.data@, r.base as int, r.pos as int)
                && v@ == bytes_d_value(r.data@, r.base as int, r.pos as int),
            Err(e) => (e == RollupError::BufferUnderflow && r.pos + 32 > r.data@.len())
                || (e == RollupError::DanglingOffset && r.pos + 32 <= r.data@.len()
                    && !bytes_d_ok(r.data@, r.base as int, r.pos as int)),
        },
{
    let total = r.data.len();
    if total - r.pos < 32 {
        return Err(RollupError::BufferUnderflow);
    }
    let ghost goff = be_val(word_at(r.data@, r.pos as int));
    let off_word = slice_subrange(r.data.as_slice(), r.pos, r.pos + 32);
    proof {
        assert(off_word@ =~= word_at(r.data@, r.pos as int));
        assert(pow256(8) == 0x1_0000_0000_0000_0000) by {
            reveal_with_fuel(pow256, 9);
        }
    }
    let off64 = match word_u64(off_word) {
        None => {
            return Err(RollupError::DanglingOffset);
        },
        Some(o) => o,
    };
    let base_avail = total - r.base;
    if off64 > base_avail as u64 {
        return Err(RollupError::DanglingOffset);
    }
    let off = off64 as usize;
    let loc = r.base + off;
    if total - loc < 32 {
        return Err(RollupError::DanglingOffset);
    }
    let ghost gn = be_val(word_at(r.data@, r.base + goff));
    let len_word = slice_subrange(r.data.as_slice(), loc, loc + 32);
    proof {
        assert(len_word@ =~= word_at(r.data@, r.base + goff));
    }
    let n64 = match word_u64(len_word) {
        None => {
            return Err(RollupError::DanglingOffset);
        },
        Some(x) => x,
    };
    let rem = total - loc - 32;
    if n64 > rem as u64 {
        return Err(RollupError::DanglingOffset);
    }
    let n = n64 as usize;
    let v = slice_to_vec(slice_subrange(r.data.as_slice(), loc + 32, loc + 32 + n));
    proof {
        assert(v@ =~= bytes_d_value(r.data@, r.base as int, r.pos as int));
    }
    Ok(v)
}

/// Read a dynamic-bytes field and consume its 32-byte offset word.
pub fn get_bytes_d(r: &mut Reader) -> (res: Result<Vec<u8>, RollupError>)
    requires
        old(r).wf(),
    ensures
        match res {
            Ok(v) => bytes_d_ok(old(r).data@, old(r).base as int, old(r).pos as int)
                && v@ == bytes_d_value(old(r).data@, old(r).base as int, old(r).pos as int)
                && final(r).pos == old(r).pos + 32
                && final(r).data@ == old(r).data@
                && final(r).base == old(r).base
                && final(r).wf(),
            Err(e) => *final(r) == *old(r)
                && ((e == RollupError::BufferUnderflow && old(r).pos + 32 > old(r).data@.len())
                    || (e == RollupError::DanglingOffset && old(r).pos + 32 <= old(r).data@.len()
                        && !bytes_d_ok(old(r).data@, old(r).base as int, old(r).pos as int))),
        },
{
    let total = r.data.len();
    match peek_bytes_d(r) {
        Ok(v) => {
            proof {
                assert(r.pos + 32 <= total);
            }
            r.pos = r.pos + 32;
            Ok(v)
        },
        Err(e) => Err(e),
    }
}

} // verus!

verus! {

/// A splice keeps the buffer length and writes `w` over `[at, at+w.len())`,
/// leaving every other byte unchanged.
pub proof fn lemma_splice_index(s: Seq<u8>, at: int, w: Seq<u8>)
    requires
        0 <= at,
        at + w.len() <= s.len(),
    ensures
        splice(s, at, w).len() == s.len(),
        forall|i: int|
            0 <= i < s.len() ==> #[trigger] splice(s, at, w)[i] == (if at <= i < at + w.len() {
                w[i - at]
            } else {
                s[i]
            }),
{
    assert forall|i: int| 0 <= i < s.len() implies #[trigger] splice(s, at, w)[i] == (if at <= i
        < at + w.len() {
        w[i - at]
    } else {
        s[i]
    }) by {
        if i < at {
            assert(splice(s, at, w)[i] == s.subrange(0, at)[i]);
        } else if i < at + w.len() {
            assert(splice(s, at, w)[i] == w[i - at]);
        } else {
            assert(splice(s, at, w)[i] == s.subrange(at + w.len(), s.len() as int)[i - at
                - w.len()]);
        }
    }
}

/// Law: for every supported width `n` and value `v` below `256^n`, the
/// encoded 32-byte slot has zero bytes everywhere outside the width and
/// decodes back to exactly `v`: encoding then decoding at the same width
/// is the identity.
pub proof fn lemma_uint_round_trip(n: nat, v: u64)
    requires
        n <= 8,
        (v as nat) < pow256(n),
    ensures
        be_bytes(v as nat, 32).len() == 32,
        forall|i: int| 0 <= i < 32 - n ==> be_bytes(v as nat, 32)[i] == 0,
        be_val(be_bytes(v as nat, 32)) == v,
{
    lemma_be_bytes_len(v as nat, 32);
    lemma_pow256_mono(n, 32);
    lemma_be_val_be_bytes(v as nat, 32);
    assert((v as nat) % pow256(32) == v as nat) by (nonlinear_arith)
        requires
            (v as nat) < pow256(32),
    ;
    lemma_be_bytes_leading_zeros(v as nat, 32, n);
}

/// Law: a 20-byte address round-trips through its 32-byte slot: the twelve
/// high-order padding bytes are zero, and the low twenty bytes are the
/// address itself, so decoding accepts the slot and returns the address.
pub proof fn lemma_address_round_trip(a: Seq<u8>)
    requires
        a.len() == 20,
    ensures
        address_word(a).len() == 32,
        forall|i: int| 0 <= i < 12 ==> address_word(a)[i] == 0,
        address_word(a).subrange(12, 32) == a,
{
    assert(address_word(a).subrange(12, 32) =~= a);
}

/// Law: a boolean round-trips through its 32-byte slot: the low-order byte
/// is 1 exactly for `true` and is always a legal boolean encoding, so
/// decoding accepts the slot and returns the boolean.
pub proof fn lemma_bool_round_trip(b: bool)
    ensures
        bool_word(b).len() == 32,
        bool_word(b)[31] == (if b {
            1u8
        } else {
            0u8
        }),
        bool_word(b)[31] == 0 || bool_word(b)[31] == 1,
{
}

/// Law: a dynamic-bytes payload written into a frame (offset word at
/// `head`, length word and padded payload at `tail`) decodes back to
/// exactly the original bytes, for any payload; the encoding occupies
/// 32 bytes of head and `32 + pad32(len)` bytes of tail.
pub proof fn lemma_bytes_d_round_trip(data: Seq<u8>, head: int, tail: int, payload: Seq<u8>)
    requires
        0 <= head,
        head + 32 <= tail,
        tail + 32 + pad32(payload.len()) <= data.len(),
        data.len() < pow256(8),
    ensures
        ({
            let enc = splice(
                splice(data, head, be_bytes(tail as nat, 32)),
                tail,
                dyn_section(payload),
            );
            &&& enc.len() == data.len()
            &&& bytes_d_ok(enc, 0, head)
            &&& bytes_d_value(enc, 0, head) == payload
        }),
{
    let offw = be_bytes(tail as nat, 32);
    lemma_be_bytes_len(tail as nat, 32);
    let lenw = be_bytes(payload.len(), 32);
    lemma_be_bytes_len(payload.len(), 32);
    let sec = dyn_section(payload);
    let d1 = splice(data, head, offw);
    lemma_splice_index(data, head, offw);
    let enc = splice(d1, tail, sec);
    lemma_splice_index(d1, tail, sec);
    lemma_pow256_mono(8, 32);
    // the offset word reads back as `tail`
    assert(word_at(enc, head) =~= offw);
    lemma_be_val_be_bytes(tail as nat, 32);
    assert((tail as nat) % pow256(32) == tail as nat) by (nonlinear_arith)
        requires
            (tail as nat) < pow256(32),
    ;
    assert(be_val(word_at(enc, head)) == tail as nat);
    // the length word reads back as the payload length
    assert(word_at(enc, tail) =~= lenw);
    lemma_be_val_be_bytes(payload.len(), 32);
    assert(payload.len() % pow256(32) == payload.len()) by (nonlinear_arith)
        requires
            payload.len() < pow256(32),
    ;
    assert(be_val(word_at(enc, tail)) == payload.len());
    // the payload reads back unchanged
    assert(enc.subrange(tail + 32, tail + 32 + payload.len()) =~= payload) by {
        assert forall|k: int| 0 <= k < payload.len() implies enc[tail + 32 + k] == payload[k] by {
            assert(enc[tail + 32 + k] == sec[32 + k]);
            assert(sec[32 + k] == padded_bytes(payload)[k]);
        }
    }
}

} // verus!
