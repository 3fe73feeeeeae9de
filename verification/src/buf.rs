use vstd::prelude::*;

use crate::bytes::{be_val, pad32, pow256, splice};
use crate::errors::RollupError;
use vstd::slice::slice_subrange;
use vstd::slice::slice_to_vec;

verus! {

/// An encoding region with a head cursor for fixed-size fields and a tail
/// cursor for variable-length payloads, over an owned byte buffer.
///
/// Dynamic-field offsets written into the head are relative to the start of
/// the buffer, and always point into the tail region.
pub struct Frame {
    /// The whole reserved region.
    pub data: Vec<u8>,
    /// Next write position for head fields.
    pub head: usize,
    /// End of the reserved head region; the tail begins here.
    pub head_end: usize,
    /// Next write position for tail payloads.
    pub tail: usize,
}

impl Frame {
    /// The cursors sit in order inside the buffer.
    pub open spec fn wf(&self) -> bool {
        self.head <= self.head_end <= self.tail <= self.data@.len()
    }
}

/// A decoding cursor over an owned byte buffer. `base` is the start of the
/// current frame, against which dynamic-field offsets are resolved.
pub struct Reader {
    /// The bytes being decoded.
    pub data: Vec<u8>,
    /// Next read position.
    pub pos: usize,
    /// Start of the current frame.
    pub base: usize,
}

impl Reader {
    /// Both cursors lie inside the buffer.
    pub open spec fn wf(&self) -> bool {
        self.base <= self.data@.len() && self.pos <= self.data@.len()
    }

    /// Begin decoding a buffer from its start.
    pub fn new(data: Vec<u8>) -> (r: Reader)
        ensures
            r.wf(),
            r.data@ == data@,
            r.pos == 0,
            r.base == 0,
    {
        Reader { data, pos: 0, base: 0 }
    }
}

/// The number of bytes that remain to be read.
pub fn buffer_len(r: &Reader) -> (n: usize)
    requires
        r.wf(),
    ensures
        n == r.data@.len() - r.pos,
{
    r.data.len() - r.pos
}

/// Split a buffer into its first `lhs_length` bytes and the rest.
pub fn split(data: &Vec<u8>, lhs_length: usize) -> (r: Result<(Vec<u8>, Vec<u8>), RollupError>)
    ensures
        match r {
            Ok(p) => lhs_length <= data@.len() && p.0@ == data@.subrange(0, lhs_length as int)
                && p.1@ == data@.skip(lhs_length as int),
            Err(e) => e == RollupError::BufferUnderflow && lhs_length > data@.len(),
        },
{
    if lhs_length > data.len() {
        return Err(RollupError::BufferUnderflow);
    }
    let lhs = slice_to_vec(slice_subrange(data.as_slice(), 0, lhs_length));
    let rhs = slice_to_vec(slice_subrange(data.as_slice(), lhs_length, data.len()));
    proof {
        assert(data@.skip(lhs_length as int) =~= data@.subrange(
            lhs_length as int,
            data@.len() as int,
        ));
    }
    Ok((lhs, rhs))
}

/// Overwrite `w@.len()` bytes of `data` starting at `at`.
pub(crate) fn write_bytes_at(data: &mut Vec<u8>, at: usize, w: &[u8])
    requires
        at + w@.len() <= old(data)@.len(),
    ensures
        final (data)@ == splice(old(data)@, at as int, w@),
{
    let n = w.len();
    let total = data.len();
    let mut i: usize = 0;
    while i < n
        invariant
            0 <= i <= n,
            n == w@.len(),
            at + n <= data@.len(),
            data@.len() == total,
            data@.len() == old(data)@.len(),
            forall|j: int| 0 <= j < at ==> data@[j] == old(data)@[j],
            forall|j: int| at <= j < at + i ==> data@[j] == w@[j - at],
            forall|j: int| at + i <= j < data@.len() ==> data@[j] == old(data)@[j],
        decreases n - i,
    {
        data[at + i] = w[i];
        i = i + 1;
    }
    proof {
        assert(final (data)@ =~= splice(old(data)@, at as int, w@));
    }
}

/// Round `n` up to the next multiple of 32 if the result stays within
/// `avail`; report `None` otherwise. Never overflows.
pub(crate) fn pad32_checked(n: usize, avail: usize) -> (r: Option<usize>)
    ensures
        match r {
            Some(p) => p == pad32(n as nat) && p <= avail,
            None => pad32(n as nat) > avail,
        },
{
    let q = n / 32;
    let rem = n % 32;
    proof {
        assert(n == 32 * q + rem && rem < 32) by (nonlinear_arith)
            requires
                q == n / 32 && rem == n % 32,
        ;
    }
    if rem == 0 {
        if n <= avail {
            Some(n)
        } else {
            None
        }
    } else {
        let cap = avail / 32;
        proof {
            assert(pad32(n as nat) == 32 * q + 32);
            assert(avail >= 32 * cap && avail < 32 * cap + 32) by (nonlinear_arith)
                requires
                    cap == avail / 32,
            ;
            assert((q + 1 <= cap) == (32 * q + 32 <= avail)) by (nonlinear_arith)
                requires
                    avail >= 32 * cap && avail < 32 * cap + 32,
            ;
        }
        if q + 1 <= cap {
            Some((q + 1) * 32)
        } else {
            None
        }
    }
}

/// Read a 32-byte big-endian word as a `u64` if its value fits; report
/// `None` when the value is `2^64` or more.
pub(crate) fn word_u64(w: &[u8]) -> (r: Option<u64>)
    requires
        w@.len() == 32,
    ensures
        match r {
            Some(v) => v as nat == be_val(w@) && be_val(w@) < pow256(8),
            None => be_val(w@) >= pow256(8),
        },
{
    let mut i: usize = 0;
    while i < 24
        invariant
            0 <= i <= 24,
            w@.len() == 32,
            forall|j: int| 0 <= j < i ==> w@[j] == 0,
        decreases 24 - i,
    {
        if w[i] != 0 {
            proof {
                crate::bytes::lemma_be_val_digit_lower_bound(w@, i as int);
                crate::bytes::lemma_pow256_mono(8, (31 - i) as nat);
                crate::bytes::lemma_pow256_pos((31 - i) as nat);
                assert(w@[i as int] * pow256((31 - i) as nat) >= 1 * pow256((31 - i) as nat))
                    by (nonlinear_arith)
                    requires
                        w@[i as int] >= 1 && pow256((31 - i) as nat) >= 1,
                ;
            }
            return None;
        }
        i = i + 1;
    }
    let low = slice_subrange(w, 24, 32);
    proof {
        assert(low@ =~= w@.skip(24));
        crate::bytes::lemma_be_val_skip_zeros(w@, 24);
        crate::bytes::lemma_be_val_bound(low@);
    }
    Some(crate::bytes::be_val_exec(low))
}

} // verus!
