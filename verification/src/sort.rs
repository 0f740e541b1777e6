use vstd::prelude::*;
use crate::models::{RepoInfo, SortBy};
use crate::order::{
    key_le, lemma_text_le_first_difference, lemma_text_le_prefix, moment_lt, lemma_ordered_total, lemma_ordered_trans, ordered, same_key, RowKey,
    row_key_ordered, SortKey,
};
use crate::text::{chars_of, lowercase_of, option_text, to_lowercase};

verus! {

/// `p` lists each of the positions `0..n` exactly once.
pub open spec fn is_permutation(p: Seq<int>, n: int) -> bool {
    &&& p.len() == n
    &&& forall|k: int| 0 <= k < n ==> 0 <= #[trigger] p[k] < n
    &&& forall|a: int, b: int| 0 <= a < b < n ==> #[trigger] p[a] != #[trigger] p[b]
}

/// Sorts `items` by `keys` (held side by side) with insertion sort, which
/// keeps rows of equal key in their original order. Returns the arrangement:
/// position `k` of the result holds what position `perm[k]` held before.
pub fn stable_sort<T>(items: &mut Vec<T>, keys: &mut Vec<RowKey>, asc: bool) -> (perm: Ghost<Seq<int>>)
    requires
        old(items)@.len() == old(keys)@.len(),
    ensures
        final(items)@.len() == old(items)@.len(),
        final(keys)@.len() == old(keys)@.len(),
        is_permutation(perm@, old(items)@.len() as int),
        forall|k: int| 0 <= k < final(items)@.len() ==> #[trigger] final(items)@[k] == old(items)@[perm@[k]],
        forall|k: int| 0 <= k < final(keys)@.len() ==> #[trigger] final(keys)@[k] == old(keys)@[perm@[k]],
        forall|a: int, b: int| 0 <= a < b < final(keys)@.len() ==>
            ordered(asc, #[trigger] final(keys)@[a]@, #[trigger] final(keys)@[b]@),
        forall|a: int, b: int| 0 <= a < b < final(keys)@.len()
            && same_key(#[trigger] final(keys)@[a]@, #[trigger] final(keys)@[b]@) ==> perm@[a] < perm@[b],
{
    let n = items.len();
    let ghost items0 = items@;
    let ghost keys0 = keys@;
    let ghost mut p: Seq<int> = Seq::new(n as nat, |k: int| k);
    let mut i: usize = 0;
    while i < n
        invariant
            0 <= i <= n,
            n == items0.len(),
            items0.len() == keys0.len(),
            items@.len() == n,
            keys@.len() == n,
            is_permutation(p, n as int),
            forall|k: int| 0 <= k < n ==> #[trigger] items@[k] == items0[p[k]],
            forall|k: int| 0 <= k < n ==> #[trigger] keys@[k] == keys0[p[k]],
            forall|k: int| i <= k < n ==> #[trigger] p[k] == k,
            forall|k: int| 0 <= k < i ==> #[trigger] p[k] < i,
            forall|a: int, b: int| 0 <= a < b < i ==> ordered(asc, #[trigger] keys@[a]@, #[trigger] keys@[b]@),
            forall|a: int, b: int| 0 <= a < b < i && same_key(#[trigger] keys@[a]@, #[trigger] keys@[b]@)
                ==> p[a] < p[b],
        decreases n - i,
    {
        let ghost items_before = items@;
        let ghost keys_before = keys@;
        let ghost p_before = p;
        let x = items.remove(i);
        let kx = keys.remove(i);
        let mut j: usize = i;
        while j > 0 && !row_key_ordered(asc, &keys[j - 1], &kx)
            invariant
                0 <= j <= i,
                i < n,
                keys@.len() == n - 1,
                keys_before.len() == n,
                keys@ == keys_before.remove(i as int),
                kx == keys_before[i as int],
                forall|k: int| j <= k < i ==> !ordered(asc, #[trigger] keys@[k]@, kx@),
            decreases j,
        {
            j -= 1;
        }
        items.insert(j, x);
        keys.insert(j, kx);
        proof {
            let q = p_before.remove(i as int).insert(j as int, i as int);
            // keys@ is keys_before with the element at i moved to j
            assert forall|k: int| 0 <= k < n implies #[trigger] keys@[k] == keys0[q[k]] by {
                if k < j {
                } else if k == j {
                } else if k <= i {
                    assert(keys@[k] == keys_before[k - 1]);
                } else {
                }
            }
            assert forall|k: int| 0 <= k < n implies #[trigger] items@[k] == items0[q[k]] by {
                if k < j {
                } else if k == j {
                } else if k <= i {
                    assert(items@[k] == items_before[k - 1]);
                } else {
                }
            }
            assert forall|k: int| 0 <= k < n implies 0 <= #[trigger] q[k] < n by {
                if k < j {
                } else if k == j {
                } else if k <= i {
                    assert(q[k] == p_before[k - 1]);
                } else {
                    assert(q[k] == p_before[k]);
                }
            }
            assert forall|a: int, b: int| 0 <= a < b < n implies #[trigger] q[a] != #[trigger] q[b] by {
                let oa = if a < j { a } else if a == j { i as int } else if a <= i { a - 1 } else { a };
                let ob = if b < j { b } else if b == j { i as int } else if b <= i { b - 1 } else { b };
                assert(q[a] == p_before[oa]);
                assert(q[b] == p_before[ob]);
            }
            assert forall|a: int, b: int| 0 <= a < b < i + 1 implies ordered(asc, #[trigger] keys@[a]@, #[trigger] keys@[b]@) by {
                if b < j {
                    assert(keys@[a] == keys_before[a]);
                    assert(keys@[b] == keys_before[b]);
                } else if b == j {
                    assert(keys@[a] == keys_before[a]);
                    assert(keys@[j - 1] == keys_before[j - 1]);
                    if a < j - 1 {
                        lemma_ordered_trans(asc, keys@[a]@, keys@[j - 1]@, kx@);
                    }
                } else if a == j {
                    assert(keys@[b] == keys_before[b - 1]);
                    lemma_ordered_total(asc, keys_before[b - 1]@, kx@);
                } else if a < j {
                    // a before j, b after j: go through kx
                    assert(keys@[a] == keys_before[a]);
                    assert(keys@[b] == keys_before[b - 1]);
                    assert(keys_before.remove(i as int)[b - 1] == keys_before[b - 1]);
                    lemma_ordered_total(asc, keys_before[b - 1]@, kx@);
                    if j > 0 {
                        assert(keys@[j - 1] == keys_before[j - 1]);
                        if a < j - 1 {
                            lemma_ordered_trans(asc, keys@[a]@, keys@[j - 1]@, kx@);
                        }
                    }
                    lemma_ordered_trans(asc, keys@[a]@, kx@, keys@[b]@);
                } else {
                    assert(keys@[a] == keys_before[a - 1]);
                    assert(keys@[b] == keys_before[b - 1]);
                }
            }
            assert forall|a: int, b: int| 0 <= a < b < i + 1 && same_key(#[trigger] keys@[a]@, #[trigger] keys@[b]@)
                implies q[a] < q[b] by {
                if b < j {
                    assert(keys@[a] == keys_before[a]);
                    assert(keys@[b] == keys_before[b]);
                } else if b == j {
                    assert(q[a] == p_before[a]);
                } else if a == j {
                    assert(keys@[b] == keys_before[b - 1]);
                    assert(keys_before.remove(i as int)[b - 1] == keys_before[b - 1]);
                    assert(!ordered(asc, keys_before[b - 1]@, kx@));
                } else if a < j {
                    assert(q[a] == p_before[a]);
                    assert(q[b] == p_before[b - 1]);
                    assert(keys@[a] == keys_before[a]);
                    assert(keys@[b] == keys_before[b - 1]);
                    // a and b were both in the sorted prefix before the step
                } else {
                    assert(q[a] == p_before[a - 1]);
                    assert(q[b] == p_before[b - 1]);
                    assert(keys@[a] == keys_before[a - 1]);
                    assert(keys@[b] == keys_before[b - 1]);
                }
            }
            p = q;
        }
        i += 1;
    }
    Ghost(p)
}

/// The key by which a repository is ordered under the given column: its last
/// activity, the lower-case form of its path, or its branch (empty where none).
pub open spec fn repo_key(by: SortBy, r: RepoInfo) -> SortKey {
    match by {
        SortBy::LastActivity => (r.last_activity_utc, seq![]),
        SortBy::Path => (None, lowercase_of(r.path@)),
        SortBy::Branch => (None, option_text(r.branch)),
    }
}

/// Every repository comes before or together with each one after it.
pub open spec fn repos_sorted(by: SortBy, asc: bool, s: Seq<RepoInfo>) -> bool {
    forall|a: int, b: int| 0 <= a < b < s.len() ==>
        ordered(asc, #[trigger] repo_key(by, s[a]), #[trigger] repo_key(by, s[b]))
}

/// `after` holds the repositories of `before`, position `k` the one at `p[k]`,
/// and repositories of equal key keep their order.
pub open spec fn stable_rearrangement(
    by: SortBy,
    before: Seq<RepoInfo>,
    after: Seq<RepoInfo>,
    p: Seq<int>,
) -> bool {
    &&& after.len() == before.len()
    &&& is_permutation(p, before.len() as int)
    &&& forall|k: int| 0 <= k < after.len() ==> #[trigger] after[k] == before[p[k]]
    &&& forall|a: int, b: int| 0 <= a < b < after.len()
        && same_key(#[trigger] repo_key(by, after[a]), #[trigger] repo_key(by, after[b])) ==> p[a] < p[b]
}

/// `after` is `before` sorted stably by the column, ascending or descending.
pub open spec fn stably_sorted(by: SortBy, asc: bool, before: Seq<RepoInfo>, after: Seq<RepoInfo>) -> bool {
    &&& repos_sorted(by, asc, after)
    &&& exists|p: Seq<int>| stable_rearrangement(by, before, after, p)
}

/// The key of one repository under the given column.
fn repo_row_key(by: SortBy, r: &RepoInfo) -> (k: RowKey)
    ensures
        k@ == repo_key(by, *r),
{
    match by {
        SortBy::LastActivity => RowKey { moment: r.last_activity_utc, text: Vec::new() },
        SortBy::Path => {
            let lower = to_lowercase(r.path.as_str());
            RowKey { moment: None, text: chars_of(lower.as_str()) }
        },
        SortBy::Branch => {
            let text = match &r.branch {
                Some(b) => chars_of(b.as_str()),
                None => Vec::new(),
            };
            RowKey { moment: None, text }
        },
    }
}

/// Sorts repositories by a column, ascending or descending; repositories of
/// equal key keep their relative order.
pub fn sort_repos(repos: &mut Vec<RepoInfo>, by: SortBy, asc: bool)
    ensures
        stably_sorted(by, asc, old(repos)@, final(repos)@),
{
    let mut keys: Vec<RowKey> = Vec::new();
    let mut i: usize = 0;
    while i < repos.len()
        invariant
            i <= repos.len(),
            keys@.len() == i,
            forall|k: int| 0 <= k < i ==> #[trigger] keys@[k]@ == repo_key(by, repos@[k]),
        decreases repos.len() - i,
    {
        let k = repo_row_key(by, &repos[i]);
        keys.push(k);
        i += 1;
    }
    let ghost before = repos@;
    let ghost keys_before = keys@;
    let perm = stable_sort(repos, &mut keys, asc);
    proof {
        let p = perm@;
        assert forall|k: int| 0 <= k < keys@.len() implies #[trigger] keys@[k]@ == repo_key(by, repos@[k]) by {
            assert(keys@[k] == keys_before[p[k]]);
            assert(repos@[k] == before[p[k]]);
        }
        assert forall|a: int, b: int| 0 <= a < b < repos@.len() implies
            ordered(asc, #[trigger] repo_key(by, repos@[a]), #[trigger] repo_key(by, repos@[b])) by {
            assert(keys@[a]@ == repo_key(by, repos@[a]));
            assert(keys@[b]@ == repo_key(by, repos@[b]));
        }
        assert forall|a: int, b: int| 0 <= a < b < repos@.len()
            && same_key(#[trigger] repo_key(by, repos@[a]), #[trigger] repo_key(by, repos@[b])) implies p[a] < p[b] by {
            assert(keys@[a]@ == repo_key(by, repos@[a]));
            assert(keys@[b]@ == repo_key(by, repos@[b]));
        }
        assert(stable_rearrangement(by, before, repos@, p));
    }
}

/// Sorting a list that is already sorted by the same column and direction
/// leaves it as it was.
pub proof fn lemma_sort_of_sorted_is_identity(
    by: SortBy,
    asc: bool,
    before: Seq<RepoInfo>,
    after: Seq<RepoInfo>,
)
    requires
        repos_sorted(by, asc, before),
        stably_sorted(by, asc, before, after),
    ensures
        after == before,
{
    let p = choose|p: Seq<int>| stable_rearrangement(by, before, after, p);
    let n = before.len() as int;
    // p is strictly increasing
    assert forall|a: int, b: int| 0 <= a < b < n implies #[trigger] p[a] < #[trigger] p[b] by {
        if p[a] > p[b] {
            assert(after[a] == before[p[a]]);
            assert(after[b] == before[p[b]]);
            assert(ordered(asc, repo_key(by, before[p[b]]), repo_key(by, before[p[a]])));
            assert(ordered(asc, repo_key(by, after[a]), repo_key(by, after[b])));
            assert(same_key(repo_key(by, after[a]), repo_key(by, after[b])));
        } else {
            assert(p[a] != p[b]);
        }
    }
    lemma_increasing_permutation_is_identity(p, n);
    assert forall|k: int| 0 <= k < n implies #[trigger] after[k] == before[k] by {
        assert(after[k] == before[p[k]]);
    }
    assert(after =~= before);
}

proof fn lemma_increasing_permutation_is_identity(p: Seq<int>, n: int)
    requires
        is_permutation(p, n),
        forall|a: int, b: int| 0 <= a < b < n ==> #[trigger] p[a] < #[trigger] p[b],
    ensures
        forall|k: int| 0 <= k < n ==> #[trigger] p[k] == k,
{
    assert forall|k: int| 0 <= k < n implies #[trigger] p[k] >= k by {
        lemma_increasing_lower_bound(p, n, k);
    }
    assert forall|k: int| 0 <= k < n implies #[trigger] p[k] <= k by {
        lemma_increasing_upper_bound(p, n, k);
    }
}

proof fn lemma_increasing_lower_bound(p: Seq<int>, n: int, k: int)
    requires
        is_permutation(p, n),
        forall|a: int, b: int| 0 <= a < b < n ==> #[trigger] p[a] < #[trigger] p[b],
        0 <= k < n,
    ensures
        p[k] >= k,
    decreases k,
{
    if k > 0 {
        lemma_increasing_lower_bound(p, n, k - 1);
        assert(p[k - 1] < p[k]);
    }
}

proof fn lemma_increasing_upper_bound(p: Seq<int>, n: int, k: int)
    requires
        is_permutation(p, n),
        forall|a: int, b: int| 0 <= a < b < n ==> #[trigger] p[a] < #[trigger] p[b],
        0 <= k < n,
    ensures
        p[k] <= k,
    decreases n - k,
{
    if k < n - 1 {
        lemma_increasing_upper_bound(p, n, k + 1);
        assert(p[k] < p[k + 1]);
    } else {
        assert(p[k] < n);
    }
}

/// In a sorted table, a repository whose key comes strictly before another's
/// stands above it when ascending and below it when descending.
pub proof fn lemma_sorted_strictly_before(
    by: SortBy,
    asc: bool,
    before: Seq<RepoInfo>,
    after: Seq<RepoInfo>,
    i: int,
    j: int,
)
    requires
        stably_sorted(by, asc, before, after),
        0 <= i < after.len(),
        0 <= j < after.len(),
        key_le(repo_key(by, after[i]), repo_key(by, after[j])),
        !key_le(repo_key(by, after[j]), repo_key(by, after[i])),
    ensures
        asc ==> i < j,
        !asc ==> j < i,
{
    if i == j {
    } else if asc && j < i {
        assert(ordered(asc, repo_key(by, after[j]), repo_key(by, after[i])));
    } else if !asc && i < j {
        assert(ordered(asc, repo_key(by, after[i]), repo_key(by, after[j])));
    }
}

/// By path: the lower-case paths are compared character by character, the
/// first difference deciding, whatever their lengths; a path that begins
/// another (in lower case) comes before it.
pub proof fn lemma_path_order(
    a: RepoInfo,
    b: RepoInfo,
    p: Seq<char>,
    c: char,
    d: char,
    x: Seq<char>,
    y: Seq<char>,
)
    requires
        c < d,
        lowercase_of(a.path@) == p.push(c) + x,
        lowercase_of(b.path@) == p.push(d) + y,
    ensures
        key_le(repo_key(SortBy::Path, a), repo_key(SortBy::Path, b)),
        !key_le(repo_key(SortBy::Path, b), repo_key(SortBy::Path, a)),
{
    lemma_text_le_first_difference(p, c, d, x, y);
}

/// By path: a lower-case path comes strictly before every longer one it begins.
pub proof fn lemma_path_prefix_order(a: RepoInfo, b: RepoInfo, x: Seq<char>)
    requires
        x.len() > 0,
        lowercase_of(b.path@) == lowercase_of(a.path@) + x,
    ensures
        key_le(repo_key(SortBy::Path, a), repo_key(SortBy::Path, b)),
        !key_le(repo_key(SortBy::Path, b), repo_key(SortBy::Path, a)),
{
    lemma_text_le_prefix(lowercase_of(a.path@), x);
}

/// By branch: the branches are compared character by character as they are
/// (no case folding), the first difference deciding; no branch counts as the
/// empty text, before every named branch.
pub proof fn lemma_branch_order(
    a: RepoInfo,
    b: RepoInfo,
    p: Seq<char>,
    c: char,
    d: char,
    x: Seq<char>,
    y: Seq<char>,
)
    requires
        c < d,
        option_text(a.branch) == p.push(c) + x,
        option_text(b.branch) == p.push(d) + y,
    ensures
        key_le(repo_key(SortBy::Branch, a), repo_key(SortBy::Branch, b)),
        !key_le(repo_key(SortBy::Branch, b), repo_key(SortBy::Branch, a)),
{
    lemma_text_le_first_difference(p, c, d, x, y);
}

/// By branch: a repository without a branch comes strictly before one with a
/// non-empty branch.
pub proof fn lemma_no_branch_first(a: RepoInfo, b: RepoInfo)
    requires
        a.branch.is_none(),
        option_text(b.branch).len() > 0,
    ensures
        key_le(repo_key(SortBy::Branch, a), repo_key(SortBy::Branch, b)),
        !key_le(repo_key(SortBy::Branch, b), repo_key(SortBy::Branch, a)),
{
    let e: Seq<char> = seq![];
    lemma_text_le_prefix(e, option_text(b.branch));
    assert(e + option_text(b.branch) =~= option_text(b.branch));
    assert(option_text(a.branch) =~= e);
}

/// By last activity: an earlier moment (fewer seconds, or as many and fewer
/// nanoseconds) comes strictly before a later one, and no moment before any.
pub proof fn lemma_activity_order(a: RepoInfo, b: RepoInfo)
    requires
        match (a.last_activity_utc, b.last_activity_utc) {
            (None, Some(_)) => true,
            (Some(x), Some(y)) => x.0 < y.0 || (x.0 == y.0 && x.1 < y.1),
            _ => false,
        },
    ensures
        key_le(repo_key(SortBy::LastActivity, a), repo_key(SortBy::LastActivity, b)),
        !key_le(repo_key(SortBy::LastActivity, b), repo_key(SortBy::LastActivity, a)),
{
    assert(moment_lt(a.last_activity_utc, b.last_activity_utc));
}

} // verus!
