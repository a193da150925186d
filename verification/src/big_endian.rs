//! Numbers as bytes, the most significant byte first.

use vstd::prelude::*;

verus! {

/// The last `k` bytes of `n`, the most significant first.
pub open spec fn be_bytes(n: int, k: nat) -> Seq<u8>
    decreases k,
{
    if k == 0 {
        Seq::empty()
    } else {
        be_bytes(n / 256, (k - 1) as nat).push((n % 256) as u8)
    }
}

/// The number that a sequence of bytes denotes.
pub open spec fn be_value(s: Seq<u8>) -> int
    decreases s.len(),
{
    if s.len() == 0 {
        0
    } else {
        be_value(s.drop_last()) * 256 + s.last()
    }
}

/// How many numbers `k` bytes can tell apart.
pub open spec fn be_range(k: nat) -> int
    decreases k,
{
    if k == 0 {
        1
    } else {
        256 * be_range((k - 1) as nat)
    }
}

/// The encoding has the asked length.
pub proof fn lemma_be_len(n: int, k: nat)
    ensures
        be_bytes(n, k).len() == k,
    decreases k,
{
    if k > 0 {
        lemma_be_len(n / 256, (k - 1) as nat);
    }
}

/// A number that fits is read back from its bytes.
pub proof fn lemma_be_reads_back(n: int, k: nat)
    requires
        0 <= n < be_range(k),
    ensures
        be_value(be_bytes(n, k)) == n,
        be_bytes(n, k).len() == k,
    decreases k,
{
    if k > 0 {
        lemma_be_reads_back(n / 256, (k - 1) as nat);
        assert(be_bytes(n, k).drop_last() =~= be_bytes(n / 256, (k - 1) as nat));
    }
}

/// Bytes are the encoding of the number that they denote.
pub proof fn lemma_be_writes_back(s: Seq<u8>)
    ensures
        be_bytes(be_value(s), s.len()) == s,
        0 <= be_value(s) < be_range(s.len()),
    decreases s.len(),
{
    if s.len() > 0 {
        lemma_be_writes_back(s.drop_last());
        let n = be_value(s);
        assert(n / 256 == be_value(s.drop_last()));
        assert(n % 256 == s.last());
        assert(be_bytes(n, s.len()) =~= s);
    } else {
        assert(be_bytes(0, 0) =~= s);
    }
}

/// The sizes of the fixed-width encodings.
pub proof fn lemma_be_ranges()
    ensures
        be_range(1) == 0x100,
        be_range(2) == 0x1_0000,
        be_range(4) == 0x1_0000_0000,
        be_range(8) == 0x1_0000_0000_0000_0000,
{
    reveal_with_fuel(be_range, 9);
}

/// Whether `a` comes before `b` in the order of byte strings.
pub open spec fn bytes_less(a: Seq<u8>, b: Seq<u8>) -> bool {
    exists|i: int|
        {
            &&& 0 <= i <= a.len()
            &&& i < b.len()
            &&& a.take(i) == b.take(i)
            &&& i == a.len() || a[i] < #[trigger] b[i]
        }
}

/// Byte order is the order of the encoded numbers.
pub proof fn lemma_be_order(n: int, m: int, k: nat)
    requires
        0 <= n < be_range(k),
        0 <= m < be_range(k),
    ensures
        bytes_less(be_bytes(n, k), be_bytes(m, k)) <==> n < m,
{
    lemma_be_len(n, k);
    lemma_be_len(m, k);
    if n < m {
        lemma_be_less(n, m, k);
    } else if bytes_less(be_bytes(n, k), be_bytes(m, k)) {
        let a = be_bytes(n, k);
        let b = be_bytes(m, k);
        let i = choose|i: int|
            {
                &&& 0 <= i <= a.len()
                &&& i < b.len()
                &&& a.take(i) == b.take(i)
                &&& i == a.len() || a[i] < #[trigger] b[i]
            };
        if m < n {
            lemma_be_less(m, n, k);
            let j = choose|j: int|
                {
                    &&& 0 <= j <= b.len()
                    &&& j < a.len()
                    &&& b.take(j) == a.take(j)
                    &&& j == b.len() || b[j] < #[trigger] a[j]
                };
            if i < j {
                assert(a.take(j)[i] == b.take(j)[i]);
            } else if j < i {
                assert(a.take(i)[j] == b.take(i)[j]);
            }
        }
    }
}

proof fn lemma_be_less(n: int, m: int, k: nat)
    requires
        0 <= n < m < be_range(k),
    ensures
        bytes_less(be_bytes(n, k), be_bytes(m, k)),
    decreases k,
{
    let a = be_bytes(n, k);
    let b = be_bytes(m, k);
    lemma_be_len(n, k);
    lemma_be_len(m, k);
    if k > 0 {
        let k1 = (k - 1) as nat;
        let a1 = be_bytes(n / 256, k1);
        let b1 = be_bytes(m / 256, k1);
        lemma_be_len(n / 256, k1);
        lemma_be_len(m / 256, k1);
        if n / 256 < m / 256 {
            lemma_be_less(n / 256, m / 256, k1);
            let i = choose|i: int|
                {
                    &&& 0 <= i <= a1.len()
                    &&& i < b1.len()
                    &&& a1.take(i) == b1.take(i)
                    &&& i == a1.len() || a1[i] < #[trigger] b1[i]
                };
            assert(a.take(i) =~= a1.take(i));
            assert(b.take(i) =~= b1.take(i));
            assert(a[i] < b[i]);
        } else {
            assert(a.take(k1 as int) =~= a1);
            assert(b.take(k1 as int) =~= b1);
            assert(a[k1 as int] < b[k1 as int]);
        }
    }
}

/// Appends the last `k` bytes of `n`.
pub fn put_be(out: &mut Vec<u8>, n: u64, k: usize)
    ensures
        final(out)@ == old(out)@ + be_bytes(n as int, k as nat),
    decreases k,
{
    if k == 0 {
        assert(out@ =~= old(out)@ + be_bytes(n as int, k as nat));
    } else {
        put_be(out, n / 256, k - 1);
        out.push((n % 256) as u8);
        assert(out@ =~= old(out)@ + be_bytes(n as int, k as nat));
    }
}

/// Reads the number that `k` bytes at the position `at` denote.
pub fn get_be(b: &[u8], at: usize, k: usize) -> (r: u64)
    requires
        k <= 8,
        at + k <= b@.len(),
    ensures
        r == be_value(b@.subrange(at as int, at + k)),
        r < be_range(k as nat),
    decreases k,
{
    proof {
        lemma_be_ranges();
    }
    if k == 0 {
        0
    } else {
        let high = get_be(b, at, k - 1);
        let n: usize = b.len();
        let low = b[at + (k - 1)];
        proof {
            let s = b@.subrange(at as int, at + k);
            assert(s.drop_last() =~= b@.subrange(at as int, at + k - 1));
            lemma_be_writes_back(s);
            lemma_be_range_grows(k as nat, 8);
        }
        high * 256 + low as u64
    }
}

proof fn lemma_be_range_grows(i: nat, j: nat)
    requires
        i <= j,
    ensures
        0 < be_range(i) <= be_range(j),
    decreases j,
{
    if i < j {
        lemma_be_range_grows(i, (j - 1) as nat);
    } else if i > 0 {
        lemma_be_range_grows((i - 1) as nat, (i - 1) as nat);
    }
}

} // verus!
