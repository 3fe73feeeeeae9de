use vstd::prelude::*;

verus! {

/// 256 raised to the power `n`.
pub open spec fn pow256(n: nat) -> nat
    decreases n,
{
    if n == 0 {
        1
    } else {
        256 * pow256((n - 1) as nat)
    }
}

/// The unsigned big-endian value of a byte string.
pub open spec fn be_val(s: Seq<u8>) -> nat
    decreases s.len(),
{
    if s.len() == 0 {
        0
    } else {
        (256 * be_val(s.drop_last()) + s.last()) as nat
    }
}

/// The `len`-byte big-endian digit string of `v % 256^len`.
pub open spec fn be_bytes(v: nat, len: nat) -> Seq<u8>
    decreases len,
{
    if len == 0 {
        Seq::empty()
    } else {
        be_bytes(v / 256, (len - 1) as nat).push((v % 256) as u8)
    }
}

/// `n` zero bytes.
pub open spec fn zeros(n: nat) -> Seq<u8> {
    Seq::new(n, |i: int| 0u8)
}

/// `n` rounded up to the next multiple of 32.
pub open spec fn pad32(n: nat) -> nat {
    if n % 32 == 0 {
        n
    } else {
        (n + (32 - n % 32)) as nat
    }
}

/// `s` with `w` written over the bytes starting at offset `at`.
pub open spec fn splice(s: Seq<u8>, at: int, w: Seq<u8>) -> Seq<u8> {
    s.subrange(0, at) + w + s.subrange(at + w.len(), s.len() as int)
}

pub proof fn lemma_pow256_pos(n: nat)
    ensures
        pow256(n) >= 1,
    decreases n,
{
    if n > 0 {
        lemma_pow256_pos((n - 1) as nat);
    }
}

pub proof fn lemma_pow256_mono(a: nat, b: nat)
    requires
        a <= b,
    ensures
        pow256(a) <= pow256(b),
    decreases b,
{
    if a < b && b > 0 {
        lemma_pow256_mono(a, (b - 1) as nat);
        lemma_pow256_pos((b - 1) as nat);
    }
}

pub proof fn lemma_be_bytes_len(v: nat, len: nat)
    ensures
        be_bytes(v, len).len() == len,
    decreases len,
{
    if len > 0 {
        lemma_be_bytes_len(v / 256, (len - 1) as nat);
    }
}

pub proof fn lemma_be_val_be_bytes(v: nat, len: nat)
    ensures
        be_val(be_bytes(v, len)) == v % pow256(len),
    decreases len,
{
    lemma_be_bytes_len(v, len);
    if len == 0 {
        assert(pow256(0) == 1);
        assert(v % 1 == 0) by (nonlinear_arith);
    } else {
        let prefix = be_bytes(v / 256, (len - 1) as nat);
        lemma_be_bytes_len(v / 256, (len - 1) as nat);
        assert(be_bytes(v, len).drop_last() =~= prefix);
        lemma_be_val_be_bytes(v / 256, (len - 1) as nat);
        lemma_pow256_pos((len - 1) as nat);
        // v % (256 * p) == 256 * ((v / 256) % p) + v % 256
        lemma_mod_split(v, pow256((len - 1) as nat));
    }
}

/// For `p >= 1`: `v % (256 * p) == 256 * ((v / 256) % p) + v % 256`.
proof fn lemma_mod_split(v: nat, p: nat)
    requires
        p >= 1,
    ensures
        v % (256 * p) == 256 * ((v / 256) % p) + v % 256,
{
    let q = v / 256;
    let r = v % 256;
    assert(v == 256 * q + r) by (nonlinear_arith)
        requires
            q == v / 256 && r == v % 256,
    ;
    let qq = q / p;
    let qr = q % p;
    assert(q == p * qq + qr && qr < p) by (nonlinear_arith)
        requires
            p >= 1 && qq == q / p && qr == q % p,
    ;
    assert(v == (256 * p) * qq + (256 * qr + r)) by (nonlinear_arith)
        requires
            v == 256 * q + r && q == p * qq + qr,
    ;
    assert(256 * qr + r < 256 * p) by (nonlinear_arith)
        requires
            qr < p && r < 256,
    ;
    assert(v % (256 * p) == 256 * qr + r) by (nonlinear_arith)
        requires
            v == (256 * p) * qq + (256 * qr + r) && 256 * qr + r < 256 * p && p >= 1,
    ;
}

pub proof fn lemma_be_val_bound(s: Seq<u8>)
    ensures
        be_val(s) < pow256(s.len()),
    decreases s.len(),
{
    if s.len() > 0 {
        lemma_be_val_bound(s.drop_last());
    }
}

/// A byte string of zeros has value zero.
pub proof fn lemma_be_val_zeros(s: Seq<u8>)
    requires
        forall|i: int| 0 <= i < s.len() ==> s[i] == 0,
    ensures
        be_val(s) == 0,
    decreases s.len(),
{
    if s.len() > 0 {
        lemma_be_val_zeros(s.drop_last());
    }
}

/// Dropping leading zero bytes does not change the big-endian value.
pub proof fn lemma_be_val_skip_zeros(s: Seq<u8>, k: int)
    requires
        0 <= k <= s.len(),
        forall|i: int| 0 <= i < k ==> s[i] == 0,
    ensures
        be_val(s.skip(k)) == be_val(s),
    decreases s.len(),
{
    if s.len() == k {
        assert(s.skip(k) =~= Seq::empty());
        lemma_be_val_zeros(s);
    } else {
        assert(s.skip(k).drop_last() =~= s.drop_last().skip(k));
        assert(s.skip(k).last() == s.last());
        lemma_be_val_skip_zeros(s.drop_last(), k);
    }
}

/// The big-endian value splits at any cut point `k`.
pub proof fn lemma_be_val_split(s: Seq<u8>, k: int)
    requires
        0 <= k <= s.len(),
    ensures
        be_val(s) == be_val(s.subrange(0, k)) * pow256((s.len() - k) as nat) + be_val(s.skip(k)),
    decreases s.len(),
{
    if s.len() == k {
        assert(s.subrange(0, k) =~= s);
        assert(s.skip(k) =~= Seq::empty());
        assert(pow256(0) == 1);
        assert(be_val(s) * 1 == be_val(s)) by (nonlinear_arith);
    } else {
        let d = s.drop_last();
        assert(d.subrange(0, k) =~= s.subrange(0, k));
        assert(s.skip(k).drop_last() =~= d.skip(k));
        assert(s.skip(k).last() == s.last());
        lemma_be_val_split(d, k);
        let h = be_val(s.subrange(0, k));
        let p = pow256((d.len() - k) as nat);
        assert(pow256((s.len() - k) as nat) == 256 * p);
        assert(be_val(s) == 256 * be_val(d) + s.last());
        assert(be_val(s.skip(k)) == 256 * be_val(d.skip(k)) + s.last());
        assert(be_val(d) == h * p + be_val(d.skip(k)));
        assert(256 * (h * p + be_val(d.skip(k))) + s.last() == h * (256 * p) + (256 * be_val(
            d.skip(k),
        ) + s.last())) by (nonlinear_arith);
    }
}

/// A digit bounds the big-endian value from below by its place value.
pub proof fn lemma_be_val_digit_lower_bound(s: Seq<u8>, i: int)
    requires
        0 <= i < s.len(),
    ensures
        be_val(s) >= s[i] * pow256((s.len() - 1 - i) as nat),
{
    let pre = s.subrange(0, i + 1);
    lemma_be_val_split(s, i + 1);
    assert(pre.last() == s[i]);
    assert(be_val(pre) >= s[i]);
    let p = pow256((s.len() - 1 - i) as nat);
    lemma_pow256_pos((s.len() - 1 - i) as nat);
    assert(be_val(pre) * p >= s[i] * p) by (nonlinear_arith)
        requires
            be_val(pre) >= s[i] && p >= 1,
    ;
}

/// A value below `256^m` written into `len >= m` digits has zero leading digits.
pub proof fn lemma_be_bytes_leading_zeros(v: nat, len: nat, m: nat)
    requires
        m <= len,
        v < pow256(m),
    ensures
        forall|i: int| 0 <= i < len - m ==> be_bytes(v, len)[i] == 0,
    decreases len,
{
    lemma_be_bytes_len(v, len);
    if len > m {
        let prefix = be_bytes(v / 256, (len - 1) as nat);
        lemma_be_bytes_len(v / 256, (len - 1) as nat);
        let m2: nat = if m == 0 {
            0
        } else {
            (m - 1) as nat
        };
        assert(v / 256 < pow256(m2)) by {
            if m == 0 {
                assert(v == 0);
            } else {
                assert(v < 256 * pow256(m2));
                assert(v / 256 < pow256(m2)) by (nonlinear_arith)
                    requires
                        v < 256 * pow256(m2),
                ;
            }
        }
        lemma_be_bytes_leading_zeros(v / 256, (len - 1) as nat, m2);
        assert forall|i: int| 0 <= i < len - m implies be_bytes(v, len)[i] == 0 by {
            if i < len - 1 {
                assert(be_bytes(v, len)[i] == prefix[i]);
                assert(i < (len - 1) - m2);
            } else {
                assert(m == 0 && v == 0);
                assert(be_bytes(v, len)[i] == (v % 256) as u8);
            }
        }
    }
}

/// Exact characterization of each digit of `be_bytes`.
pub proof fn lemma_be_bytes_index(v: nat, len: nat, i: int)
    requires
        0 <= i < len,
    ensures
        be_bytes(v, len)[i] == ((v / pow256((len - 1 - i) as nat)) % 256) as u8,
    decreases len,
{
    lemma_be_bytes_len(v, len);
    if i == len - 1 {
        assert(pow256(0) == 1);
        assert(v / 1 == v) by (nonlinear_arith);
    } else {
        lemma_be_bytes_len(v / 256, (len - 1) as nat);
        lemma_be_bytes_index(v / 256, (len - 1) as nat, i);
        let k = (len - 2 - i) as nat;
        lemma_pow256_pos(k);
        assert((v / 256) / pow256(k) == v / (256 * pow256(k))) by (nonlinear_arith)
            requires
                pow256(k) >= 1,
        ;
        assert(pow256((len - 1 - i) as nat) == 256 * pow256(k));
    }
}

/// Build the big-endian digits of `v` in `len` bytes, mirroring `be_bytes`.
pub fn be_bytes_exec(v: u64, len: usize) -> (r: Vec<u8>)
    ensures
        r@ == be_bytes(v as nat, len as nat),
    decreases len,
{
    if len == 0 {
        let r: Vec<u8> = Vec::new();
        assert(r@ =~= be_bytes(v as nat, 0));
        r
    } else {
        let mut r = be_bytes_exec(v / 256, len - 1);
        r.push((v % 256) as u8);
        assert(r@ =~= be_bytes(v as nat, len as nat));
        r
    }
}

/// Read the big-endian value of at most eight bytes.
pub fn be_val_exec(s: &[u8]) -> (r: u64)
    requires
        s@.len() <= 8,
    ensures
        r as nat == be_val(s@),
{
    let n = s.len();
    let mut acc: u64 = 0;
    let mut i: usize = 0;
    proof {
        assert(s@.subrange(0, 0) =~= Seq::empty());
    }
    while i < n
        invariant
            0 <= i <= n,
            n == s@.len() <= 8,
            acc as nat == be_val(s@.subrange(0, i as int)),
        decreases n - i,
    {
        let b = s[i];
        proof {
            let prefix = s@.subrange(0, i as int);
            let next = s@.subrange(0, i + 1);
            assert(next.drop_last() =~= prefix);
            assert(next.last() == s@[i as int]);
            lemma_be_val_split(s@, i + 1);
            lemma_be_val_bound(s@);
            lemma_pow256_pos((s@.len() - (i + 1)) as nat);
            lemma_pow256_mono(s@.len(), 8);
            assert(pow256(8) == 0x1_0000_0000_0000_0000) by {
                reveal_with_fuel(pow256, 9);
            }
            assert(be_val(next) * 1 <= be_val(next) * pow256((s@.len() - (i + 1)) as nat))
                by (nonlinear_arith)
                requires
                    pow256((s@.len() - (i + 1)) as nat) >= 1,
            ;
            assert(be_val(next) < 0x1_0000_0000_0000_0000);
        }
        acc = acc * 256 + (b as u64);
        i = i + 1;
    }
    proof {
        assert(s@.subrange(0, n as int) =~= s@);
    }
    acc
}

} // verus!
