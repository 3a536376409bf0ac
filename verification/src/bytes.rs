//! Byte-string helpers shared by the key encodings and the wire protocol.
use vstd::prelude::*;

verus! {

/// `a` sorts strictly before `b` in lexicographic byte order, the order in
/// which the store keeps its keys.
pub open spec fn lex_lt(a: Seq<u8>, b: Seq<u8>) -> bool {
    exists|i: int|
        #![trigger a.take(i), b.take(i)]
        0 <= i <= a.len() && i <= b.len() && a.take(i) == b.take(i) && ((i == a.len() && i
            < b.len()) || (i < a.len() && i < b.len() && a[i] < b[i]))
}

/// Copies a fixed array of bytes into a fresh vector.
pub fn array_to_vec<const N: usize>(a: &[u8; N]) -> (r: Vec<u8>)
    ensures
        r@ == a@,
{
    let mut r: Vec<u8> = Vec::new();
    let mut i: usize = 0;
    while i < N
        invariant
            0 <= i <= N,
            a@.len() == N,
            r@ == a@.take(i as int),
        decreases N - i,
    {
        r.push(a[i]);
        i = i + 1;
        assert(r@ == a@.take(i as int));
    }
    assert(a@.take(N as int) == a@);
    r
}

/// Copies `n` bytes starting at `start` into a fresh array of sixteen bytes.
pub fn take16(s: &[u8], start: usize) -> (r: [u8; 16])
    requires
        start + 16 <= s@.len(),
    ensures
        r@ == s@.subrange(start as int, start + 16),
{
    let mut r: [u8; 16] = [0u8; 16];
    let mut i: usize = 0;
    while i < 16
        invariant
            0 <= i <= 16,
            start + 16 <= s.len(),
            r@.len() == 16,
            forall|j: int| 0 <= j < i ==> r@[j] == s@[start + j],
        decreases 16 - i,
    {
        r[i] = s[start + i];
        i = i + 1;
    }
    assert(r@ == s@.subrange(start as int, start + 16));
    r
}

/// Byte-wise equality of two sixteen-byte arrays.
pub fn equal16(a: &[u8; 16], b: &[u8; 16]) -> (r: bool)
    ensures
        r == (a@ == b@),
{
    let mut i: usize = 0;
    while i < 16
        invariant
            0 <= i <= 16,
            a@.len() == 16,
            b@.len() == 16,
            forall|j: int| 0 <= j < i ==> a@[j] == b@[j],
        decreases 16 - i,
    {
        if a[i] != b[i] {
            return false;
        }
        i = i + 1;
    }
    assert(a@ =~= b@);
    true
}

/// Byte-wise equality of two 32-byte arrays.
pub fn equal32(a: &[u8; 32], b: &[u8; 32]) -> (r: bool)
    ensures
        r == (a@ == b@),
{
    let mut i: usize = 0;
    while i < 32
        invariant
            0 <= i <= 32,
            a@.len() == 32,
            b@.len() == 32,
            forall|j: int| 0 <= j < i ==> a@[j] == b@[j],
        decreases 32 - i,
    {
        if a[i] != b[i] {
            return false;
        }
        i = i + 1;
    }
    assert(a@ =~= b@);
    true
}

/// Where `a` and `b` first differ at `i`, with `a[i] < b[i]`, `a` sorts
/// strictly before `b` and not after it.
pub proof fn lemma_lex_first_diff(a: Seq<u8>, b: Seq<u8>, i: int)
    requires
        0 <= i < a.len(),
        i < b.len(),
        a.take(i) == b.take(i),
        a[i] < b[i],
    ensures
        lex_lt(a, b),
        !lex_lt(b, a),
        a != b,
{
    assert(a.take(i) == b.take(i));
    if lex_lt(b, a) {
        let j = choose|j: int|
            #![trigger b.take(j), a.take(j)]
            0 <= j <= b.len() && j <= a.len() && b.take(j) == a.take(j) && ((j == b.len() && j
                < a.len()) || (j < b.len() && j < a.len() && b[j] < a[j]));
        if j < i {
            assert(a.take(i)[j] == a[j]);
            assert(b.take(i)[j] == b[j]);
        } else if j > i {
            assert(b.take(j)[i] == b[i]);
            assert(a.take(j)[i] == a[i]);
        }
    }
    if a == b {
        assert(a[i] == b[i]);
    }
}

/// Where `a` is a proper prefix of `b`, `a` sorts strictly before `b` and
/// not after it.
pub proof fn lemma_lex_prefix(a: Seq<u8>, b: Seq<u8>)
    requires
        a.len() < b.len(),
        b.take(a.len() as int) == a,
    ensures
        lex_lt(a, b),
        !lex_lt(b, a),
        a != b,
{
    let n = a.len() as int;
    assert(a.take(n) =~= a);
    assert(a.take(n) == b.take(n));
    if lex_lt(b, a) {
        let j = choose|j: int|
            #![trigger b.take(j), a.take(j)]
            0 <= j <= b.len() && j <= a.len() && b.take(j) == a.take(j) && ((j == b.len() && j
                < a.len()) || (j < b.len() && j < a.len() && b[j] < a[j]));
        assert(b.take(n)[j] == b[j]);
    }
}

/// No byte string sorts strictly before itself.
pub proof fn lemma_lex_irreflexive(a: Seq<u8>)
    ensures
        !lex_lt(a, a),
{
}

/// How `a` sorts against `b` in byte order: -1 before, 0 equal, 1 after.
pub fn compare_bytes(a: &[u8], b: &[u8]) -> (r: i8)
    ensures
        -1 <= r <= 1,
        r == -1 <==> lex_lt(a@, b@),
        r == 0 <==> a@ == b@,
        r == 1 <==> lex_lt(b@, a@),
{
    let mut i: usize = 0;
    while i < a.len() && i < b.len()
        invariant
            0 <= i <= a@.len(),
            i <= b@.len(),
            a@.take(i as int) == b@.take(i as int),
        decreases a@.len() - i,
    {
        if a[i] < b[i] {
            proof {
                lemma_lex_first_diff(a@, b@, i as int);
            }
            return -1;
        }
        if b[i] < a[i] {
            proof {
                lemma_lex_first_diff(b@, a@, i as int);
            }
            return 1;
        }
        proof {
            assert(a@.take(i + 1) =~= a@.take(i as int).push(a@[i as int]));
            assert(b@.take(i + 1) =~= b@.take(i as int).push(b@[i as int]));
        }
        i = i + 1;
    }
    if a.len() == b.len() {
        proof {
            assert(a@ =~= a@.take(i as int));
            assert(b@ =~= b@.take(i as int));
            lemma_lex_irreflexive(a@);
        }
        0
    } else if a.len() < b.len() {
        proof {
            assert(a@ =~= a@.take(i as int));
            lemma_lex_prefix(a@, b@);
        }
        -1
    } else {
        proof {
            assert(b@ =~= b@.take(i as int));
            lemma_lex_prefix(b@, a@);
        }
        1
    }
}

/// Byte strings of the same length `n` keep their order when each is
/// followed by more bytes.
pub proof fn lemma_lex_extend(a: Seq<u8>, b: Seq<u8>, x: Seq<u8>, y: Seq<u8>)
    requires
        a.len() == b.len(),
        lex_lt(a, b),
    ensures
        lex_lt(a + x, b + y),
{
    let i = choose|i: int|
        #![trigger a.take(i), b.take(i)]
        0 <= i <= a.len() && i <= b.len() && a.take(i) == b.take(i) && ((i == a.len() && i
            < b.len()) || (i < a.len() && i < b.len() && a[i] < b[i]));
    assert((a + x).take(i) =~= a.take(i));
    assert((b + y).take(i) =~= b.take(i));
    assert((a + x)[i] == a[i]);
    assert((b + y)[i] == b[i]);
}

/// Byte strings keep their order behind a common prefix.
pub proof fn lemma_lex_common_prefix(p: Seq<u8>, x: Seq<u8>, y: Seq<u8>)
    requires
        lex_lt(x, y),
    ensures
        lex_lt(p + x, p + y),
{
    let i = choose|i: int|
        #![trigger x.take(i), y.take(i)]
        0 <= i <= x.len() && i <= y.len() && x.take(i) == y.take(i) && ((i == x.len() && i
            < y.len()) || (i < x.len() && i < y.len() && x[i] < y[i]));
    let j = p.len() + i;
    assert((p + x).take(j) =~= p + x.take(i));
    assert((p + y).take(j) =~= p + y.take(i));
    if i < x.len() {
        assert((p + x)[j] == x[i]);
    }
    if i < y.len() {
        assert((p + y)[j] == y[i]);
    }
    assert((p + x).take(j) == (p + y).take(j));
}

/// `256` to the power `n`.
pub open spec fn pow256(n: nat) -> nat
    decreases n,
{
    if n == 0 {
        1
    } else {
        256 * pow256((n - 1) as nat)
    }
}

/// `pow256` grows with its exponent.
pub proof fn lemma_pow256_mono(a: nat, b: nat)
    requires
        a <= b,
    ensures
        1 <= pow256(a) <= pow256(b),
    decreases b,
{
    if b > a {
        lemma_pow256_mono(a, (b - 1) as nat);
    } else if a > 0 {
        lemma_pow256_mono((a - 1) as nat, (a - 1) as nat);
    }
}

/// The number that the bytes `s` write, most significant first.
pub open spec fn be_value(s: Seq<u8>) -> nat
    decreases s.len(),
{
    if s.len() == 0 {
        0
    } else {
        be_value(s.drop_last()) * 256 + s.last() as nat
    }
}

/// The 128-bit number that sixteen bytes write, most significant first, as
/// `u128::from_be_bytes` reads them.
pub fn be_u128(bytes: &[u8; 16]) -> (r: u128)
    ensures
        r == be_value(bytes@),
{
    let mut v: u128 = 0;
    let mut i: usize = 0;
    proof {
        assert(bytes@.take(0) =~= Seq::<u8>::empty());
    }
    while i < 16
        invariant
            i <= 16,
            bytes@.len() == 16,
            v == be_value(bytes@.take(i as int)),
            v < pow256(i as nat),
        decreases 16 - i,
    {
        proof {
            assert(bytes@.take(i + 1).drop_last() =~= bytes@.take(i as int));
            lemma_pow256_mono((i + 1) as nat, 16);
            assert(pow256(16) == 0x1_0000_0000_0000_0000_0000_0000_0000_0000) by {
                reveal_with_fuel(pow256, 17);
            }
        }
        v = v * 256 + bytes[i] as u128;
        i = i + 1;
    }
    proof {
        assert(bytes@.take(16) =~= bytes@);
    }
    v
}

/// The lowest `n` bytes of `m`, most significant first.
pub open spec fn be_bytes(m: nat, n: nat) -> Seq<u8>
    decreases n,
{
    if n == 0 {
        Seq::empty()
    } else {
        be_bytes(m / 256, (n - 1) as nat).push((m % 256) as u8)
    }
}

/// `be_bytes(m, n)` has `n` bytes.
pub proof fn lemma_be_bytes_len(m: nat, n: nat)
    ensures
        be_bytes(m, n).len() == n,
    decreases n,
{
    if n > 0 {
        lemma_be_bytes_len(m / 256, (n - 1) as nat);
    }
}

/// Numbers below `256^n` keep their order when written in `n` bytes, most
/// significant first.
pub proof fn lemma_be_bytes_order(m1: nat, m2: nat, n: nat)
    requires
        m1 < m2,
        m2 < pow256(n),
    ensures
        lex_lt(be_bytes(m1, n), be_bytes(m2, n)),
    decreases n,
{
    if n == 0 {
        assert(false);
    } else {
        let p = pow256((n - 1) as nat);
        let q1 = m1 / 256;
        let q2 = m2 / 256;
        let r1 = m1 % 256;
        let r2 = m2 % 256;
        assert(q1 <= q2) by (nonlinear_arith)
            requires
                m1 < m2,
                q1 == m1 / 256,
                q2 == m2 / 256,
        ;
        assert(q2 < p) by (nonlinear_arith)
            requires
                m2 < 256 * p,
                q2 == m2 / 256,
        ;
        lemma_be_bytes_len(q1, (n - 1) as nat);
        lemma_be_bytes_len(q2, (n - 1) as nat);
        let a = be_bytes(q1, (n - 1) as nat);
        let b = be_bytes(q2, (n - 1) as nat);
        assert(be_bytes(m1, n) =~= a + seq![r1 as u8]);
        assert(be_bytes(m2, n) =~= b + seq![r2 as u8]);
        if q1 < q2 {
            lemma_be_bytes_order(q1, q2, (n - 1) as nat);
            lemma_lex_extend(a, b, seq![r1 as u8], seq![r2 as u8]);
        } else {
            assert(r1 < r2) by (nonlinear_arith)
                requires
                    m1 < m2,
                    q1 == q2,
                    q1 == m1 / 256,
                    q2 == m2 / 256,
                    r1 == m1 % 256,
                    r2 == m2 % 256,
            ;
            let x = be_bytes(m1, n);
            let y = be_bytes(m2, n);
            assert(x.take(n - 1) =~= a);
            assert(y.take(n - 1) =~= b);
            lemma_lex_first_diff(x, y, n - 1);
        }
    }
}

} // verus!
