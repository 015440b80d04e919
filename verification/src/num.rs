//! Big-endian byte strings as unbounded integers, and the byte-level
//! comparisons the key-generation and signature paths rely on.

use vstd::prelude::*;

verus! {

/// The integer value of a big-endian byte string.
pub open spec fn be_val(s: Seq<u8>) -> nat
    decreases s.len(),
{
    if s.len() == 0 {
        0
    } else {
        be_val(s.drop_last()) * 256 + (s.last() as nat)
    }
}

/// `256^n`, the number of values an `n`-byte string can take.
pub open spec fn pow256(n: nat) -> nat
    decreases n,
{
    if n == 0 {
        1
    } else {
        256 * pow256((n - 1) as nat)
    }
}

/// A byte string's value is zero exactly when every byte is zero.
pub proof fn lemma_be_val_zero(s: Seq<u8>)
    ensures
        (be_val(s) == 0) <==> (forall|i: int| 0 <= i < s.len() ==> s[i] == 0),
    decreases s.len(),
{
    if s.len() > 0 {
        lemma_be_val_zero(s.drop_last());
        assert(forall|i: int| 0 <= i < s.len() - 1 ==> s[i] == s.drop_last()[i]);
        if be_val(s) == 0 {
            assert(be_val(s.drop_last()) == 0);
        }
        if forall|i: int| 0 <= i < s.len() ==> s[i] == 0 {
            assert(s.last() == 0);
        }
    }
}

/// Splitting off the most significant byte.
pub proof fn lemma_be_val_first(s: Seq<u8>)
    requires
        s.len() > 0,
    ensures
        be_val(s) == (s[0] as nat) * pow256((s.len() - 1) as nat) + be_val(s.drop_first()),
    decreases s.len(),
{
    if s.len() == 1 {
        assert(s.drop_last() =~= Seq::<u8>::empty());
        assert(s.drop_first() =~= Seq::<u8>::empty());
        assert(be_val(s) == be_val(s.drop_last()) * 256 + (s.last() as nat));
        assert(be_val(Seq::<u8>::empty()) == 0);
        assert(pow256(0) == 1);
        assert(s.last() == s[0]);
        assert((s[0] as nat) * 1 == s[0] as nat) by (nonlinear_arith);
    } else {
        let b = s.drop_last();
        let f = s.drop_first();
        lemma_be_val_first(b);
        assert(b.drop_first() =~= f.drop_last());
        assert(f.last() == s.last());
        assert(b[0] == s[0]);
        let h = s[0] as nat;
        let p = pow256((s.len() - 2) as nat);
        let x = be_val(f.drop_last());
        assert(be_val(s) == be_val(b) * 256 + (s.last() as nat));
        assert(be_val(b) == h * p + x);
        assert(be_val(f) == x * 256 + (f.last() as nat));
        assert((h * p + x) * 256 == h * (256 * p) + x * 256) by (nonlinear_arith);
        assert(pow256((s.len() - 1) as nat) == 256 * p);
        assert(be_val(s) == h * (256 * p) + (x * 256 + (s.last() as nat)));
        assert(h * (256 * p) == h * pow256((s.len() - 1) as nat)) by (nonlinear_arith)
            requires 256 * p == pow256((s.len() - 1) as nat),
        ;
        assert(be_val(s) == (s[0] as nat) * pow256((s.len() - 1) as nat) + be_val(s.drop_first()));
    }
}

/// A byte string with a nonzero leading byte has a value of at least
/// `256^(len-1)`.
pub proof fn lemma_be_val_leading_nonzero(s: Seq<u8>)
    requires
        s.len() > 0,
        s[0] != 0,
    ensures
        be_val(s) >= pow256((s.len() - 1) as nat),
{
    lemma_be_val_first(s);
    assert((s[0] as nat) * pow256((s.len() - 1) as nat) >= pow256((s.len() - 1) as nat))
        by (nonlinear_arith)
        requires s[0] >= 1,
    ;
}

/// `256^m <= 256^n` when `m <= n`.
pub proof fn lemma_pow256_monotonic(m: nat, n: nat)
    requires
        m <= n,
    ensures
        pow256(m) <= pow256(n),
    decreases n,
{
    if m < n {
        lemma_pow256_monotonic(m, (n - 1) as nat);
        assert(pow256((n - 1) as nat) <= 256 * pow256((n - 1) as nat)) by (nonlinear_arith)
            requires pow256((n - 1) as nat) >= 0,
        ;
    }
}

/// The value of two equal-length byte strings is ordered as their first
/// differing byte.
pub proof fn lemma_be_val_lt(a: Seq<u8>, b: Seq<u8>, i: int)
    requires
        a.len() == b.len(),
        0 <= i < a.len(),
        forall|j: int| 0 <= j < i ==> a[j] == b[j],
        a[i] < b[i],
    ensures
        be_val(a) < be_val(b),
    decreases a.len(),
{
    if i == a.len() - 1 {
        assert(a.drop_last() =~= b.drop_last());
    } else {
        assert(forall|j: int| 0 <= j < i ==> a.drop_last()[j] == b.drop_last()[j]);
        lemma_be_val_lt(a.drop_last(), b.drop_last(), i);
    }
}

/// Leading zero bytes, which do not change the value.
pub open spec fn strip_leading_zeros(s: Seq<u8>) -> Seq<u8>
    decreases s.len(),
{
    if s.len() > 0 && s[0] == 0 {
        strip_leading_zeros(s.drop_first())
    } else {
        s
    }
}

/// Stripping leading zeros keeps the value.
pub proof fn lemma_strip_preserves_val(s: Seq<u8>)
    ensures
        be_val(strip_leading_zeros(s)) == be_val(s),
        strip_leading_zeros(s).len() > 0 ==> strip_leading_zeros(s)[0] != 0,
        strip_leading_zeros(s).len() <= s.len(),
    decreases s.len(),
{
    if s.len() > 0 && s[0] == 0 {
        lemma_be_val_first(s);
        lemma_strip_preserves_val(s.drop_first());
    }
}

/// The stripped string is the suffix that starts at the first nonzero byte.
pub proof fn lemma_strip_is_suffix(s: Seq<u8>, k: int)
    requires
        0 <= k <= s.len(),
        forall|j: int| 0 <= j < k ==> s[j] == 0,
        k < s.len() ==> s[k] != 0,
    ensures
        strip_leading_zeros(s) == s.skip(k),
    decreases k,
{
    if k == 0 {
        assert(s.skip(0) =~= s);
    } else {
        assert(forall|j: int| 0 <= j < k - 1 ==> s.drop_first()[j] == s[j + 1]);
        lemma_strip_is_suffix(s.drop_first(), k - 1);
        assert(s.drop_first().skip(k - 1) =~= s.skip(k));
    }
}

/// Prepending zero bytes keeps the value.
pub proof fn lemma_pad_preserves_val(z: Seq<u8>, s: Seq<u8>)
    requires
        forall|j: int| 0 <= j < z.len() ==> z[j] == 0,
    ensures
        be_val(z + s) == be_val(s),
    decreases z.len(),
{
    if z.len() > 0 {
        lemma_be_val_first(z + s);
        assert((z + s).drop_first() =~= z.drop_first() + s);
        assert(forall|j: int| 0 <= j < z.len() - 1 ==> z.drop_first()[j] == z[j + 1]);
        lemma_pad_preserves_val(z.drop_first(), s);
    }
}

/// A left-zero-padded fixed-width form of a byte string: `None` when the
/// value does not fit in `n` bytes.
pub open spec fn spec_fixed_width(c: Seq<u8>, n: nat) -> Option<Seq<u8>> {
    let t = strip_leading_zeros(c);
    if t.len() <= n {
        Some(Seq::new((n - t.len()) as nat, |i: int| 0u8) + t)
    } else {
        None
    }
}

/// Compare two equal-length big-endian byte strings by value.
pub fn be_bytes_lt(a: &Vec<u8>, b: &Vec<u8>) -> (r: bool)
    requires
        a@.len() == b@.len(),
    ensures
        r == (be_val(a@) < be_val(b@)),
{
    let n = a.len();
    let mut i: usize = 0;
    while i < n
        invariant
            n == a@.len(),
            n == b@.len(),
            i <= n,
            forall|j: int| 0 <= j < i ==> a@[j] == b@[j],
        decreases n - i,
    {
        if a[i] < b[i] {
            proof {
                lemma_be_val_lt(a@, b@, i as int);
            }
            return true;
        }
        if a[i] > b[i] {
            proof {
                lemma_be_val_lt(b@, a@, i as int);
            }
            return false;
        }
        i = i + 1;
    }
    proof {
        assert(a@ =~= b@);
    }
    false
}

/// Whether a big-endian byte string has a nonzero value.
pub fn be_bytes_nonzero(a: &Vec<u8>) -> (r: bool)
    ensures
        r == (be_val(a@) >= 1),
{
    let n = a.len();
    let mut i: usize = 0;
    while i < n
        invariant
            n == a@.len(),
            i <= n,
            forall|j: int| 0 <= j < i ==> a@[j] == 0,
        decreases n - i,
    {
        if a[i] != 0 {
            proof {
                lemma_be_val_zero(a@);
            }
            return true;
        }
        i = i + 1;
    }
    proof {
        lemma_be_val_zero(a@);
    }
    false
}

/// Copy the bytes of `v` between `start` and `end` into a fresh vector.
pub fn copy_range(v: &Vec<u8>, start: usize, end: usize) -> (out: Vec<u8>)
    requires
        start <= end <= v@.len(),
    ensures
        out@ == v@.subrange(start as int, end as int),
{
    let mut out: Vec<u8> = Vec::new();
    let mut i: usize = start;
    while i < end
        invariant
            start <= i <= end <= v@.len(),
            out@ == v@.subrange(start as int, i as int),
        decreases end - i,
    {
        out.push(v[i]);
        proof {
            assert(v@.subrange(start as int, (i + 1) as int) =~= v@.subrange(
                start as int,
                i as int,
            ).push(v@[i as int]));
        }
        i = i + 1;
    }
    out
}

/// Normalize a big-endian byte string to exactly `n` bytes by stripping
/// leading zeros and left-padding with zeros; `None` when the value needs
/// more than `n` bytes.
pub fn fixed_width(c: &Vec<u8>, n: usize) -> (r: Option<Vec<u8>>)
    ensures
        match r {
            Some(v) => {
                &&& spec_fixed_width(c@, n as nat) == Some(v@)
                &&& v@.len() == n
                &&& be_val(v@) == be_val(c@)
            },
            None => {
                &&& spec_fixed_width(c@, n as nat) is None
                &&& be_val(c@) >= pow256(n as nat)
            },
        },
{
    let len = c.len();
    let mut start: usize = 0;
    while start < len && c[start] == 0
        invariant
            len == c@.len(),
            start <= len,
            forall|j: int| 0 <= j < start ==> c@[j] == 0,
        decreases len - start,
    {
        start = start + 1;
    }
    proof {
        lemma_strip_is_suffix(c@, start as int);
        lemma_strip_preserves_val(c@);
    }
    let rem = len - start;
    if rem > n {
        proof {
            let t = strip_leading_zeros(c@);
            lemma_be_val_leading_nonzero(t);
            lemma_pow256_monotonic(n as nat, (t.len() - 1) as nat);
        }
        return None;
    }
    let mut out: Vec<u8> = Vec::new();
    let mut i: usize = 0;
    while i < n - rem
        invariant
            i <= n - rem,
            rem <= n,
            out@ =~= Seq::new(i as nat, |k: int| 0u8),
        decreases n - rem - i,
    {
        out.push(0u8);
        proof {
            assert(out@ =~= Seq::new((i + 1) as nat, |k: int| 0u8));
        }
        i = i + 1;
    }
    let mut j: usize = start;
    while j < len
        invariant
            start <= j <= len,
            len == c@.len(),
            rem == len - start,
            rem <= n,
            out@ =~= Seq::new((n - rem) as nat, |k: int| 0u8) + c@.subrange(
                start as int,
                j as int,
            ),
        decreases len - j,
    {
        out.push(c[j]);
        proof {
            assert(out@ =~= Seq::new((n - rem) as nat, |k: int| 0u8) + c@.subrange(
                start as int,
                (j + 1) as int,
            ));
        }
        j = j + 1;
    }
    proof {
        let t = strip_leading_zeros(c@);
        assert(c@.subrange(start as int, len as int) =~= c@.skip(start as int));
        assert(out@ =~= Seq::new((n - t.len()) as nat, |k: int| 0u8) + t);
        lemma_pad_preserves_val(Seq::new((n - t.len()) as nat, |k: int| 0u8), t);
    }
    Some(out)
}

} // verus!
