use vstd::prelude::*;

verus! {

/// `r` lists, in increasing order and each once, exactly the positions `i` in `0..n`
/// at which `p(i)` holds.
pub open spec fn lists_exactly(r: Seq<usize>, n: int, p: spec_fn(int) -> bool) -> bool {
    &&& forall|a: int, b: int| 0 <= a < b < r.len() ==> r[a] < r[b]
    &&& forall|a: int| 0 <= a < r.len() ==> r[a] < n && p(r[a] as int)
    &&& forall|i: usize| #![trigger p(i as int)] #![trigger r.contains(i)] (i as int) < n && p(i as int) ==> r.contains(i)
}

/// Extending the range by one position keeps the listing exact when that position is
/// appended exactly if it qualifies.
pub proof fn lemma_lists_exactly_extend(r: Seq<usize>, n: int, p: spec_fn(int) -> bool)
    requires
        0 <= n < usize::MAX,
        lists_exactly(r, n, p),
    ensures
        p(n) ==> lists_exactly(r.push(n as usize), n + 1, p),
        !p(n) ==> lists_exactly(r, n + 1, p),
{
    if p(n) {
        let s = r.push(n as usize);
        assert forall|i: usize| (i as int) < n + 1 && #[trigger] p(i as int) implies s.contains(i) by {
            if i as int == n {
                assert(s[r.len() as int] == i);
            } else {
                let k = choose|k: int| 0 <= k < r.len() && r[k] == i;
                assert(s[k] == i);
            }
        }
    }
}

/// The empty listing is exact for the empty range.
pub proof fn lemma_lists_exactly_empty(p: spec_fn(int) -> bool)
    ensures
        lists_exactly(Seq::empty(), 0, p),
{
}

/// A listing of positions below `n` has at most `n` entries.
pub proof fn lemma_lists_exactly_len(r: Seq<usize>, n: int, p: spec_fn(int) -> bool)
    requires
        0 <= n,
        lists_exactly(r, n, p),
    ensures
        r.len() <= n,
    decreases r.len(),
{
    if r.len() > 0 {
        let last = r.len() - 1;
        let rest = r.drop_last();
        assert forall|a: int| 0 <= a < rest.len() implies rest[a] < r[last] && p(rest[a] as int) by {
            assert(rest[a] == r[a]);
        }
        assert forall|a: int, b: int| 0 <= a < b < rest.len() implies rest[a] < rest[b] by {
            assert(rest[a] == r[a] && rest[b] == r[b]);
        }
        assert forall|i: usize| (i as int) < r[last] && #[trigger] p(i as int) implies rest.contains(i) by {
            let k = choose|k: int| 0 <= k < r.len() && r[k] == i;
            assert(k != last);
            assert(rest[k] == i);
        }
        lemma_lists_exactly_len(rest, r[last] as int, p);
    }
}

/// Two exact listings of the same positions agree below index `k`.
proof fn lemma_lists_exactly_prefix(r1: Seq<usize>, r2: Seq<usize>, n: int, p: spec_fn(int) -> bool, k: int)
    requires
        lists_exactly(r1, n, p),
        lists_exactly(r2, n, p),
        0 <= k,
    ensures
        forall|j: int| 0 <= j < k && j < r1.len() && j < r2.len() ==> r1[j] == r2[j],
    decreases k,
{
    if k > 0 {
        lemma_lists_exactly_prefix(r1, r2, n, p, k - 1);
        let j = k - 1;
        if j < r1.len() && j < r2.len() && r1[j] != r2[j] {
            if r1[j] < r2[j] {
                let x = r1[j];
                assert(p(x as int));
                let m = choose|m: int| 0 <= m < r2.len() && r2[m] == x;
                if m < j {
                    assert(r1[m] == r2[m]);
                } else {
                    assert(m != j);
                }
            } else {
                let x = r2[j];
                assert(p(x as int));
                let m = choose|m: int| 0 <= m < r1.len() && r1[m] == x;
                if m < j {
                    assert(r1[m] == r2[m]);
                } else {
                    assert(m != j);
                }
            }
        }
    }
}

/// An exact listing is unique: two listings of the positions below `n` where `p`
/// holds are the same sequence.
pub proof fn lemma_lists_exactly_unique(r1: Seq<usize>, r2: Seq<usize>, n: int, p: spec_fn(int) -> bool)
    requires
        lists_exactly(r1, n, p),
        lists_exactly(r2, n, p),
    ensures
        r1 == r2,
{
    let k = if r1.len() < r2.len() { r1.len() as int } else { r2.len() as int };
    lemma_lists_exactly_prefix(r1, r2, n, p, k);
    if r1.len() < r2.len() {
        let x = r2[k];
        assert(p(x as int));
        let m = choose|m: int| 0 <= m < r1.len() && r1[m] == x;
        assert(r1[m] == r2[m]);
    } else if r2.len() < r1.len() {
        let x = r1[k];
        assert(p(x as int));
        let m = choose|m: int| 0 <= m < r2.len() && r2[m] == x;
        assert(r1[m] == r2[m]);
    }
    assert(r1 =~= r2);
}

} // verus!
