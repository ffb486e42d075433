use vstd::prelude::*;

use crate::error::ShapeError;
use crate::window::rows_view;

verus! {

/// The first `(s.len() / b) * b` items of `s`, cut into `s.len() / b` consecutive
/// groups of `b`: group `k` holds the items at `k * b .. k * b + b`.
pub open spec fn batched<A>(s: Seq<A>, b: nat) -> Seq<Seq<A>> {
    Seq::new(s.len() / b, |k: int| s.subrange(k * b, k * b + b))
}

/// The number of items that batching `n` items by `b` keeps.
pub open spec fn kept_len(n: nat, b: nat) -> nat {
    (n / b) * b
}

/// The first constraint of the batching transform that the counts and the
/// batch size break, if any.
pub open spec fn batch_error(n_lpm: nat, n_pcr: nat, b: nat) -> Option<ShapeError> {
    if b == 0 {
        Some(ShapeError::BatchTooSmall)
    } else if n_lpm != n_pcr {
        Some(ShapeError::CountMismatch)
    } else if n_lpm < b {
        Some(ShapeError::TooFewWindows)
    } else {
        None
    }
}

proof fn lemma_kept_len(n: nat, b: nat, k: nat)
    requires
        1 <= b,
        k <= n / b,
    ensures
        k * b <= kept_len(n, b) <= n,
        k >= 1 ==> (k - 1) * b + b == k * b,
        n >= b ==> n / b >= 1,
{
    assert(k * b <= (n / b) * b) by (nonlinear_arith)
        requires
            k <= n / b,
            1 <= b,
    ;
    assert((n / b) * b <= n) by (nonlinear_arith)
        requires
            1 <= b,
    ;
    assert(k >= 1 ==> (k - 1) * b + b == k * b) by (nonlinear_arith);
    assert(n >= b ==> n / b >= 1) by (nonlinear_arith)
        requires
            1 <= b,
    ;
}

/// Groups the windows `lpm` and their change rates `pcr` into consecutive
/// batches of `batch_size`, dropping the trailing windows that do not fill a
/// whole batch.
pub fn make_mini_batches<L, P>(lpm: Vec<L>, pcr: Vec<P>, batch_size: usize) -> (r: Result<
    (Vec<Vec<L>>, Vec<Vec<P>>),
    ShapeError,
>)
    ensures
        r is Err <==> batch_error(lpm@.len(), pcr@.len(), batch_size as nat) is Some,
        r matches Err(e) ==> batch_error(lpm@.len(), pcr@.len(), batch_size as nat) == Some(e),
        r matches Ok((lb, pb)) ==> {
            &&& rows_view(lb@) == batched(lpm@, batch_size as nat)
            &&& rows_view(pb@) == batched(pcr@, batch_size as nat)
        },
{
    if batch_size == 0 {
        return Err(ShapeError::BatchTooSmall);
    }
    if lpm.len() != pcr.len() {
        return Err(ShapeError::CountMismatch);
    }
    let n = lpm.len();
    if n < batch_size {
        return Err(ShapeError::TooFewWindows);
    }
    let ghost b = batch_size as nat;
    let ghost s = lpm@;
    let ghost t = pcr@;
    let n_batch = n / batch_size;
    proof {
        lemma_kept_len(n as nat, b, n_batch as nat);
    }
    let kept = n_batch * batch_size;
    let mut lpm = lpm;
    let mut pcr = pcr;
    lpm.truncate(kept);
    pcr.truncate(kept);
    let mut lb: Vec<Vec<L>> = Vec::new();
    let mut pb: Vec<Vec<P>> = Vec::new();
    let mut k: usize = n_batch;
    while k > 0
        invariant
            1 <= b,
            b == batch_size,
            n_batch == s.len() / b,
            s.len() == t.len(),
            k <= n_batch,
            lpm@ == s.subrange(0, k * b),
            pcr@ == t.subrange(0, k * b),
            rows_view(lb@) == batched(s, b).subrange(k as int, n_batch as int),
            rows_view(pb@) == batched(t, b).subrange(k as int, n_batch as int),
        decreases k,
    {
        proof {
            lemma_kept_len(s.len(), b, k as nat);
        }
        let at = lpm.len() - batch_size;
        let ghost old_lb = rows_view(lb@);
        let ghost old_pb = rows_view(pb@);
        let bl = lpm.split_off(at);
        let bp = pcr.split_off(at);
        assert(bl@ =~= batched(s, b)[k - 1]);
        assert(bp@ =~= batched(t, b)[k - 1]);
        lb.insert(0, bl);
        pb.insert(0, bp);
        assert(rows_view(lb@) =~= old_lb.insert(0, bl@));
        assert(rows_view(pb@) =~= old_pb.insert(0, bp@));
        assert(batched(s, b).subrange(k - 1, n_batch as int) =~= batched(s, b).subrange(
            k as int,
            n_batch as int,
        ).insert(0, batched(s, b)[k - 1]));
        assert(batched(t, b).subrange(k - 1, n_batch as int) =~= batched(t, b).subrange(
            k as int,
            n_batch as int,
        ).insert(0, batched(t, b)[k - 1]));
        k -= 1;
    }
    assert(batched(s, b).subrange(0, n_batch as int) =~= batched(s, b));
    assert(batched(t, b).subrange(0, n_batch as int) =~= batched(t, b));
    Ok((lb, pb))
}

proof fn lemma_flatten_first_batches<A>(s: Seq<A>, b: nat, m: nat)
    requires
        1 <= b,
        m * b <= s.len(),
    ensures
        batched(s, b).take(m as int).flatten() == s.subrange(0, (m * b) as int),
    decreases m,
{
    if m == 0 {
        assert(batched(s, b).take(0) =~= Seq::<Seq<A>>::empty());
        assert(s.subrange(0, 0) =~= Seq::<A>::empty());
    } else {
        assert(m <= s.len() / b && (m - 1) * b + b == m * b) by (nonlinear_arith)
            requires
                1 <= b,
                1 <= m,
                m * b <= s.len(),
        ;
        lemma_flatten_first_batches(s, b, (m - 1) as nat);
        let prev = batched(s, b).take(m - 1);
        let last = batched(s, b)[m - 1];
        assert(batched(s, b).take(m as int) =~= prev.push(last));
        prev.lemma_flatten_push(last);
        assert(s.subrange(0, (m * b) as int) =~= s.subrange(0, (m - 1) * b) + last);
    }
}

/// Flattening the batches, batch after batch, gives back the items that were
/// kept, in their original order: the first `kept_len` items of `s`.
pub proof fn lemma_batches_flatten_to_prefix<A>(s: Seq<A>, b: nat)
    requires
        1 <= b,
    ensures
        batched(s, b).flatten() == s.subrange(0, kept_len(s.len(), b) as int),
{
    lemma_kept_len(s.len(), b, s.len() / b);
    lemma_flatten_first_batches(s, b, s.len() / b);
    assert(batched(s, b).take((s.len() / b) as int) =~= batched(s, b));
}

/// Batching `s` by `b` gives `s.len() / b` batches of exactly `b` items, keeps
/// `kept_len` items and drops the last `s.len() % b`. Where a batch is made, the
/// first item kept is `s[0]` and the last one is `s[kept_len - 1]`; nothing from
/// index `kept_len` on is kept.
pub proof fn lemma_batch_truncation<A>(s: Seq<A>, b: nat)
    requires
        1 <= b,
    ensures
        batched(s, b).len() == s.len() / b,
        forall|k: int| 0 <= k < batched(s, b).len() ==> (#[trigger] batched(s, b)[k]).len() == b,
        kept_len(s.len(), b) <= s.len(),
        s.len() - kept_len(s.len(), b) == s.len() % b,
        batched(s, b).flatten() == s.subrange(0, kept_len(s.len(), b) as int),
        s.len() >= b ==> {
            &&& batched(s, b).len() >= 1
            &&& batched(s, b)[0][0] == s[0]
            &&& batched(s, b).last().last() == s[kept_len(s.len(), b) - 1]
        },
{
    let n = s.len();
    let kk = n / b;
    lemma_kept_len(n, b, kk);
    lemma_batches_flatten_to_prefix(s, b);
    assert(n - kk * b == n % b) by (nonlinear_arith)
        requires
            1 <= b,
            kk == n / b,
    ;
    assert forall|k: int| 0 <= k < batched(s, b).len() implies (#[trigger] batched(s, b)[k]).len()
        == b by {
        assert(k * b + b <= kk * b) by (nonlinear_arith)
            requires
                0 <= k < kk,
                1 <= b,
        ;
    }
    if n >= b {
        assert(kk >= 1);
        assert(0 * b == 0);
        assert((kk - 1) * b + b == kk * b);
    }
}

/// Flattening the batches and batching the result again by the same size gives
/// the same batches.
pub proof fn lemma_rebatch_flattened<A>(s: Seq<A>, b: nat)
    requires
        1 <= b,
    ensures
        batched(batched(s, b).flatten(), b) == batched(s, b),
{
    let n = s.len();
    let kk = n / b;
    lemma_kept_len(n, b, kk);
    lemma_batches_flatten_to_prefix(s, b);
    let p = s.subrange(0, (kk * b) as int);
    assert((kk * b) / b == kk) by (nonlinear_arith)
        requires
            1 <= b,
    ;
    assert forall|k: int| 0 <= k < kk implies #[trigger] batched(p, b)[k] == batched(s, b)[k] by {
        assert(k * b + b <= kk * b) by (nonlinear_arith)
            requires
                0 <= k < kk,
                1 <= b,
        ;
        assert(batched(p, b)[k] =~= batched(s, b)[k]);
    }
    assert(batched(p, b) =~= batched(s, b));
}

} // verus!
