//! Cutting a stream of samples into blocks of a fixed size.
//!
//! Deliveries arrive in any size; the stages downstream take whole blocks
//! only. What does not fill a block waits for the next delivery.

use vstd::arithmetic::div_mod::lemma_fundamental_div_mod;
use vstd::arithmetic::div_mod::lemma_fundamental_div_mod_converse;
use vstd::prelude::*;

verus! {

/// The whole blocks of `n` samples that `s` holds, first to last.
pub open spec fn whole_blocks(s: Seq<i16>, n: int) -> Seq<Seq<i16>> {
    Seq::new((s.len() as int / n) as nat, |i: int| s.subrange(i * n, i * n + n))
}

/// What is left of `s` behind its last whole block of `n` samples.
pub open spec fn leftover(s: Seq<i16>, n: int) -> Seq<i16> {
    s.skip((s.len() as int / n) * n)
}

/// The blocks of `blocks` laid end to end.
pub open spec fn joined(blocks: Seq<Seq<i16>>) -> Seq<i16>
    decreases blocks.len(),
{
    if blocks.len() == 0 {
        Seq::empty()
    } else {
        joined(blocks.drop_last()) + blocks.last()
    }
}

/// The contents of a vector of vectors.
pub open spec fn contents(v: Seq<Vec<i16>>) -> Seq<Seq<i16>> {
    Seq::new(v.len(), |i: int| v[i]@)
}

/// `s` padded at the end with zeros up to `n` samples.
pub open spec fn padded(s: Seq<i16>, n: int) -> Seq<i16> {
    if s.len() >= n {
        s
    } else {
        s + Seq::new((n - s.len()) as nat, |i: int| 0i16)
    }
}

/// How many whole blocks there are and how long the leftover is.
pub proof fn lemma_block_counts(s: Seq<i16>, n: int)
    requires
        n > 0,
    ensures
        whole_blocks(s, n).len() == s.len() as int / n,
        leftover(s, n).len() == s.len() as int % n,
        0 <= leftover(s, n).len() < n,
        forall|i: int|
            0 <= i < whole_blocks(s, n).len() ==> (#[trigger] whole_blocks(s, n)[i]).len() == n,
{
    let len = s.len() as int;
    lemma_fundamental_div_mod(len, n);
    let q = len / n;
    assert(n * q == q * n) by (nonlinear_arith);
    assert(0 <= len % n < n) by (nonlinear_arith)
        requires
            n > 0,
    ;
    assert(q >= 0) by (nonlinear_arith)
        requires
            len >= 0,
            n > 0,
            q == len / n,
    ;
    assert forall|i: int| 0 <= i < whole_blocks(s, n).len() implies (#[trigger] whole_blocks(
        s,
        n,
    )[i]).len() == n by {
        assert(i * n + n <= q * n) by (nonlinear_arith)
            requires
                0 <= i < q,
                n > 0,
        ;
        assert(0 <= i * n) by (nonlinear_arith)
            requires
                0 <= i,
                n > 0,
        ;
    }
}

/// How many blocks leave in all once the leftover, if there is one, has
/// been padded to a block of its own: the length divided by the block
/// size, rounded up.
pub proof fn lemma_block_count_with_padding(s: Seq<i16>, n: int)
    requires
        n > 0,
    ensures
        whole_blocks(s, n).len() + (if leftover(s, n).len() > 0 {
            1int
        } else {
            0int
        }) == (s.len() + n - 1) / n,
        leftover(s, n).len() > 0 ==> padded(leftover(s, n), n).len() == n,
{
    lemma_block_counts(s, n);
    let len = s.len() as int;
    let q = len / n;
    let r = len % n;
    lemma_fundamental_div_mod(len, n);
    assert(n * q == q * n) by (nonlinear_arith);
    if r > 0 {
        assert((q + 1) * n == q * n + n) by (nonlinear_arith);
        lemma_fundamental_div_mod_converse(len + n - 1, n, q + 1, r - 1);
    } else {
        lemma_fundamental_div_mod_converse(len + n - 1, n, q, n - 1);
    }
}

/// Nothing is lost and nothing changes place: the whole blocks followed by
/// the leftover are the samples that went in.
pub proof fn lemma_blocks_lossless(s: Seq<i16>, n: int)
    requires
        n > 0,
    ensures
        joined(whole_blocks(s, n)) + leftover(s, n) == s,
{
    lemma_block_counts(s, n);
    lemma_joined_prefix(s, n, s.len() as int / n);
    let q = s.len() as int / n;
    lemma_fundamental_div_mod(s.len() as int, n);
    assert(n * q == q * n) by (nonlinear_arith);
    assert(0 <= q * n <= s.len());
    assert(whole_blocks(s, n).take(q) =~= whole_blocks(s, n));
    assert(s.take(q * n) + s.skip(q * n) =~= s);
}

/// The first `k` whole blocks laid end to end are the first `k * n` samples.
proof fn lemma_joined_prefix(s: Seq<i16>, n: int, k: int)
    requires
        n > 0,
        0 <= k <= s.len() as int / n,
    ensures
        joined(whole_blocks(s, n).take(k)) == s.take(k * n),
    decreases k,
{
    lemma_block_counts(s, n);
    let blocks = whole_blocks(s, n);
    let q = s.len() as int / n;
    lemma_fundamental_div_mod(s.len() as int, n);
    assert(n * q == q * n) by (nonlinear_arith);
    if k == 0 {
        assert(blocks.take(0).len() == 0);
        assert(s.take(0 * n) =~= Seq::<i16>::empty());
    } else {
        lemma_joined_prefix(s, n, k - 1);
        assert((k - 1) * n + n == k * n) by (nonlinear_arith);
        assert(0 <= (k - 1) * n) by (nonlinear_arith)
            requires
                k >= 1,
                n > 0,
        ;
        assert(k * n <= q * n) by (nonlinear_arith)
            requires
                k <= q,
                n > 0,
        ;
        assert(blocks.take(k).drop_last() =~= blocks.take(k - 1));
        assert(blocks.take(k).last() == s.subrange((k - 1) * n, (k - 1) * n + n));
        assert(s.take((k - 1) * n) + s.subrange((k - 1) * n, k * n) =~= s.take(k * n));
    }
}

/// Cutting is indifferent to how the samples were delivered: handing over
/// `a` and then `b` yields the same blocks, and leaves the same leftover,
/// as handing over `a + b` at once.
pub proof fn lemma_blocks_of_concat(a: Seq<i16>, b: Seq<i16>, n: int)
    requires
        n > 0,
    ensures
        whole_blocks(a + b, n) == whole_blocks(a, n) + whole_blocks(leftover(a, n) + b, n),
        leftover(a + b, n) == leftover(leftover(a, n) + b, n),
{
    lemma_block_counts(a, n);
    lemma_block_counts(a + b, n);
    let rest = leftover(a, n);
    lemma_block_counts(rest + b, n);
    let la = a.len() as int;
    let lb = b.len() as int;
    let qa = la / n;
    let r = la % n;
    let q2 = (r + lb) / n;
    let r2 = (r + lb) % n;
    lemma_fundamental_div_mod(la, n);
    lemma_fundamental_div_mod(r + lb, n);
    assert(n * qa == qa * n) by (nonlinear_arith);
    assert(n * q2 == q2 * n) by (nonlinear_arith);
    assert((qa + q2) * n == qa * n + q2 * n) by (nonlinear_arith);
    assert(0 <= r2 < n) by (nonlinear_arith)
        requires
            n > 0,
            r2 == (r + lb) % n,
    ;
    lemma_fundamental_div_mod_converse(la + lb, n, qa + q2, r2);
    assert((rest + b).len() == r + lb);
    let whole = whole_blocks(a + b, n);
    let split = whole_blocks(a, n) + whole_blocks(rest + b, n);
    assert(qa >= 0 && q2 >= 0) by (nonlinear_arith)
        requires
            la >= 0,
            r + lb >= 0,
            n > 0,
            qa == la / n,
            q2 == (r + lb) / n,
    ;
    assert(whole.len() == split.len());
    assert forall|i: int| 0 <= i < whole.len() implies whole[i] == split[i] by {
        assert(0 <= i * n) by (nonlinear_arith)
            requires
                0 <= i,
                n > 0,
        ;
        if i < qa {
            assert(i * n + n <= qa * n) by (nonlinear_arith)
                requires
                    0 <= i < qa,
                    n > 0,
            ;
            assert((a + b).subrange(i * n, i * n + n) =~= a.subrange(i * n, i * n + n));
        } else {
            let j = i - qa;
            assert(i * n == qa * n + j * n) by (nonlinear_arith)
                requires
                    j == i - qa,
            ;
            assert(0 <= j * n) by (nonlinear_arith)
                requires
                    0 <= j,
                    n > 0,
            ;
            assert(j * n + n <= q2 * n) by (nonlinear_arith)
                requires
                    0 <= j < q2,
                    n > 0,
            ;
            assert((a + b).subrange(i * n, i * n + n) =~= (rest + b).subrange(j * n, j * n + n));
        }
    }
    assert(whole =~= split);
    assert(leftover(a + b, n) =~= leftover(rest + b, n));
}

/// The blocks handed out over a run of deliveries: each delivery joins what
/// the one before left over, and every whole block leaves at once.
pub open spec fn blocks_after(waiting: Seq<i16>, deliveries: Seq<Seq<i16>>, n: int) -> Seq<
    Seq<i16>,
>
    decreases deliveries.len(),
{
    if deliveries.len() == 0 {
        whole_blocks(waiting, n)
    } else {
        blocks_after(waiting, deliveries.drop_last(), n) + whole_blocks(
            rest_after(waiting, deliveries.drop_last(), n) + deliveries.last(),
            n,
        )
    }
}

/// What waits after a run of deliveries.
pub open spec fn rest_after(waiting: Seq<i16>, deliveries: Seq<Seq<i16>>, n: int) -> Seq<i16>
    decreases deliveries.len(),
{
    if deliveries.len() == 0 {
        leftover(waiting, n)
    } else {
        leftover(rest_after(waiting, deliveries.drop_last(), n) + deliveries.last(), n)
    }
}

/// The sizes of the deliveries do not matter: whatever way a stream of
/// samples is cut into deliveries, the blocks handed out, and what waits at
/// the end, are those of the whole stream delivered at once.
pub proof fn lemma_delivery_sizes_do_not_matter(
    waiting: Seq<i16>,
    deliveries: Seq<Seq<i16>>,
    n: int,
)
    requires
        n > 0,
    ensures
        blocks_after(waiting, deliveries, n) == whole_blocks(waiting + joined(deliveries), n),
        rest_after(waiting, deliveries, n) == leftover(waiting + joined(deliveries), n),
    decreases deliveries.len(),
{
    if deliveries.len() == 0 {
        assert(waiting + joined(deliveries) =~= waiting);
    } else {
        let front = deliveries.drop_last();
        let last = deliveries.last();
        lemma_delivery_sizes_do_not_matter(waiting, front, n);
        lemma_blocks_of_concat(waiting + joined(front), last, n);
        assert((waiting + joined(front)) + last =~= waiting + joined(deliveries));
    }
}

/// The left channel of interleaved stereo samples, as far as they pair up.
pub open spec fn left_channel(pcm: Seq<i16>) -> Seq<i16> {
    Seq::new(pcm.len() / 2, |i: int| pcm[2 * i])
}

/// The right channel of interleaved stereo samples.
pub open spec fn right_channel(pcm: Seq<i16>) -> Seq<i16> {
    Seq::new(pcm.len() / 2, |i: int| pcm[2 * i + 1])
}

/// The sample at the end of `pcm` that has no partner yet: a left sample
/// whose right sample is still to come. Nothing where the samples pair up.
pub open spec fn unpaired(pcm: Seq<i16>) -> Seq<i16> {
    if pcm.len() % 2 == 1 {
        seq![pcm.last()]
    } else {
        Seq::empty()
    }
}

/// Samples delivered in two parts carry, channel by channel, what the two
/// parts carry together, wherever the cut falls: a sample that the first
/// part leaves without partner is paired with the first of the second.
pub proof fn lemma_channels_of_concat(a: Seq<i16>, b: Seq<i16>)
    ensures
        left_channel(a + b) == left_channel(a) + left_channel(unpaired(a) + b),
        right_channel(a + b) == right_channel(a) + right_channel(unpaired(a) + b),
        unpaired(a + b) == unpaired(unpaired(a) + b),
{
    let whole = a + b;
    let carry = unpaired(a) + b;
    let pairs = a.len() as int / 2;
    assert(carry.len() == a.len() - 2 * pairs + b.len());
    assert(whole.len() / 2 == pairs + carry.len() / 2);
    assert forall|k: int| 0 <= k < carry.len() implies carry[k] == whole[2 * pairs + k] by {
        if a.len() % 2 == 1 && k == 0 {
            assert(carry[0] == a.last());
        }
    }
    assert(left_channel(whole) =~= left_channel(a) + left_channel(carry));
    assert(right_channel(whole) =~= right_channel(a) + right_channel(carry));
    if whole.len() % 2 == 1 {
        assert(whole.last() == carry.last());
    }
    assert(unpaired(whole) =~= unpaired(carry));
}

/// A copy of the samples of `v` from `from` up to `to`.
pub fn copy_range(v: &Vec<i16>, from: usize, to: usize) -> (out: Vec<i16>)
    requires
        from <= to <= v.len(),
    ensures
        out@ == v@.subrange(from as int, to as int),
{
    let mut out: Vec<i16> = Vec::new();
    let mut i: usize = from;
    while i < to
        invariant
            from <= i <= to <= v.len(),
            out@ == v@.subrange(from as int, i as int),
        decreases to - i,
    {
        out.push(v[i]);
        i += 1;
        assert(out@ =~= v@.subrange(from as int, i as int));
    }
    out
}

/// A copy of `v` padded with silence up to `n` samples.
pub fn pad_with_silence(v: &Vec<i16>, n: usize) -> (out: Vec<i16>)
    ensures
        out@ == padded(v@, n as int),
{
    let mut out = copy_range(v, 0, v.len());
    while out.len() < n
        invariant
            v@.len() <= out@.len(),
            out@.len() <= n || out@.len() == v@.len(),
            out@ == v@ + Seq::new((out@.len() - v@.len()) as nat, |i: int| 0i16),
        decreases n - out.len(),
    {
        out.push(0);
        assert(out@ =~= v@ + Seq::new((out@.len() - v@.len()) as nat, |i: int| 0i16));
    }
    assert(out@ =~= padded(v@, n as int));
    out
}

/// Takes every whole block of `n` samples out of `buf`, first to last, and
/// leaves in `buf` what did not fill a block.
pub fn take_blocks(buf: &mut Vec<i16>, n: usize) -> (blocks: Vec<Vec<i16>>)
    requires
        n > 0,
    ensures
        contents(blocks@) == whole_blocks(old(buf)@, n as int),
        final(buf)@ == leftover(old(buf)@, n as int),
{
    let ghost s = buf@;
    let len = buf.len();
    let mut blocks: Vec<Vec<i16>> = Vec::new();
    let mut start: usize = 0;
    let ghost mut k: int = 0;
    while len - start >= n
        invariant
            n > 0,
            len == s.len(),
            buf@ == s,
            start <= len,
            k >= 0,
            start == k * n,
            blocks@.len() == k,
            forall|i: int|
                0 <= i < k ==> (#[trigger] blocks@[i])@ == s.subrange(i * n, i * n + n),
        decreases len - start,
    {
        let block = copy_range(buf, start, start + n);
        blocks.push(block);
        proof {
            assert((k + 1) * n == k * n + n) by (nonlinear_arith);
            k = k + 1;
        }
        start = start + n;
    }
    let rest = copy_range(buf, start, len);
    proof {
        lemma_fundamental_div_mod_converse(len as int, n as int, k, len - start);
        assert(contents(blocks@) =~= whole_blocks(s, n as int));
        assert(rest@ =~= leftover(s, n as int));
    }
    *buf = rest;
    blocks
}

} // verus!
