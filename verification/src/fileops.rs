use vstd::prelude::*;
use vstd::set_lib::{lemma_int_range, lemma_len_subset, lemma_map_size, lemma_map_size_bound,
    set_int_range};
use vstd::string::StringExecFns;

use crate::digits::{dec_digits, lemma_dec_digits_injective, u64_to_string};

verus! {

/// Some string in `xs` has exactly the characters `p`.
pub open spec fn in_views(xs: Seq<String>, p: Seq<char>) -> bool {
    exists|i: int| 0 <= i < xs.len() && xs[i]@ == p
}

/// Whether some string in `xs` has exactly the characters of `p`.
pub fn contains_view(xs: &Vec<String>, p: &String) -> (r: bool)
    ensures
        r == in_views(xs@, p@),
{
    let n: usize = xs.len();
    let mut i: usize = 0;
    while i < n
        invariant
            0 <= i <= n == xs@.len(),
            forall|j: int| 0 <= j < i ==> xs@[j]@ != p@,
        decreases n - i,
    {
        if xs[i].eq(p) {
            return true;
        }
        i = i + 1;
    }
    false
}

// ---------------------------------------------------------------------------
// Batch selection: which directory entries an operation touches.
// ---------------------------------------------------------------------------

/// The paths a directory hash visits: from the listed `(path, is regular
/// file)` entries, the regular files whose path is not in the skip set, in
/// listing order.
pub open spec fn spec_select_to_hash(entries: Seq<(String, bool)>, skip: Seq<String>) -> Seq<
    String,
>
    decreases entries.len(),
{
    if entries.len() == 0 {
        Seq::<String>::empty()
    } else {
        let rest = spec_select_to_hash(entries.drop_last(), skip);
        let e = entries.last();
        if e.1 && !in_views(skip, e.0@) {
            rest.push(e.0)
        } else {
            rest
        }
    }
}

/// Select the paths a directory hash visits.
pub fn select_files_to_hash(entries: &Vec<(String, bool)>, skip: &Vec<String>) -> (r: Vec<String>)
    ensures
        r@ == spec_select_to_hash(entries@, skip@),
{
    let n: usize = entries.len();
    let mut r: Vec<String> = Vec::new();
    let mut k: usize = 0;
    while k < n
        invariant
            0 <= k <= n == entries@.len(),
            r@ == spec_select_to_hash(entries@.subrange(0, k as int), skip@),
        decreases n - k,
    {
        if entries[k].1 && !contains_view(skip, &entries[k].0) {
            let p: String = entries[k].0.clone();
            r.push(p);
        }
        proof {
            let pre = entries@.subrange(0, k as int);
            let cur = entries@.subrange(0, k + 1);
            assert(cur.drop_last() =~= pre);
            assert(cur.last() == entries@[k as int]);
        }
        k = k + 1;
    }
    proof {
        assert(entries@.subrange(0, n as int) =~= entries@);
    }
    r
}

/// Law: the skip set excludes exactly the listed paths. A path text is
/// among the selected ones if and only if some directory entry carries it
/// as a regular file and it is not in the skip set; an empty listing
/// selects nothing.
pub proof fn lemma_select_to_hash_exact(
    entries: Seq<(String, bool)>,
    skip: Seq<String>,
    p: Seq<char>,
)
    ensures
        in_views(spec_select_to_hash(entries, skip), p) <==> (exists|i: int|
            0 <= i < entries.len() && entries[i].0@ == p && entries[i].1) && !in_views(skip, p),
        entries.len() == 0 ==> spec_select_to_hash(entries, skip).len() == 0,
    decreases entries.len(),
{
    if entries.len() > 0 {
        lemma_select_to_hash_exact(entries.drop_last(), skip, p);
        let rest = spec_select_to_hash(entries.drop_last(), skip);
        let e = entries.last();
        let sel = spec_select_to_hash(entries, skip);
        if e.1 && !in_views(skip, e.0@) {
            assert(sel == rest.push(e.0));
            assert forall|v: Seq<char>| in_views(sel, v) implies (in_views(rest, v) || e.0@
                == v) by {
                let i = choose|i: int| 0 <= i < sel.len() && sel[i]@ == v;
                if i < rest.len() {
                    assert(rest[i]@ == v);
                } else {
                    assert(sel[i] == e.0);
                }
            }
            if in_views(sel, p) {
                if in_views(rest, p) {
                    let i = choose|i: int|
                        0 <= i < entries.drop_last().len() && entries.drop_last()[i].0@ == p
                            && entries.drop_last()[i].1;
                    assert(entries[i].0@ == p && entries[i].1);
                } else {
                    assert(e.0@ == p);
                    assert(entries[entries.len() - 1].0@ == p && entries[entries.len() - 1].1);
                }
            }
            if (exists|i: int| 0 <= i < entries.len() && entries[i].0@ == p && entries[i].1)
                && !in_views(skip, p) {
                let i = choose|i: int|
                    0 <= i < entries.len() && entries[i].0@ == p && entries[i].1;
                if i < entries.len() - 1 {
                    assert(entries.drop_last()[i].0@ == p && entries.drop_last()[i].1);
                    let j = choose|j: int| 0 <= j < rest.len() && rest[j]@ == p;
                    assert(sel[j]@ == p);
                } else {
                    assert(sel[sel.len() - 1]@ == p);
                }
            }
        } else {
            assert(sel == rest);
            if (exists|i: int| 0 <= i < entries.len() && entries[i].0@ == p && entries[i].1)
                && !in_views(skip, p) {
                let i = choose|i: int|
                    0 <= i < entries.len() && entries[i].0@ == p && entries[i].1;
                if i < entries.len() - 1 {
                    assert(entries.drop_last()[i].0@ == p && entries.drop_last()[i].1);
                } else {
                    assert(!(e.1 && !in_views(skip, e.0@)));
                }
            }
            if in_views(sel, p) {
                let i = choose|i: int|
                    0 <= i < entries.drop_last().len() && entries.drop_last()[i].0@ == p
                        && entries.drop_last()[i].1;
                assert(entries[i].0@ == p && entries[i].1);
            }
        }
    }
}

/// The files a keep-list sweep deletes: every listed path that is not in
/// the keep list, in listing order.
pub open spec fn spec_select_unlisted(entries: Seq<String>, keep: Seq<String>) -> Seq<String>
    decreases entries.len(),
{
    if entries.len() == 0 {
        Seq::<String>::empty()
    } else {
        let rest = spec_select_unlisted(entries.drop_last(), keep);
        let e = entries.last();
        if !in_views(keep, e@) {
            rest.push(e)
        } else {
            rest
        }
    }
}

/// Select the files a keep-list sweep deletes.
pub fn select_unlisted_files(entries: &Vec<String>, keep: &Vec<String>) -> (r: Vec<String>)
    ensures
        r@ == spec_select_unlisted(entries@, keep@),
{
    let n: usize = entries.len();
    let mut r: Vec<String> = Vec::new();
    let mut k: usize = 0;
    while k < n
        invariant
            0 <= k <= n == entries@.len(),
            r@ == spec_select_unlisted(entries@.subrange(0, k as int), keep@),
        decreases n - k,
    {
        if !contains_view(keep, &entries[k]) {
            let p: String = entries[k].clone();
            r.push(p);
        }
        proof {
            let pre = entries@.subrange(0, k as int);
            let cur = entries@.subrange(0, k + 1);
            assert(cur.drop_last() =~= pre);
            assert(cur.last() == entries@[k as int]);
        }
        k = k + 1;
    }
    proof {
        assert(entries@.subrange(0, n as int) =~= entries@);
    }
    r
}

// ---------------------------------------------------------------------------
// Collision-free copy names.
// ---------------------------------------------------------------------------

/// The `k`-th fallback name for a file: the counter, an underscore, then
/// the original name.
pub open spec fn candidate_name(name: Seq<char>, k: int) -> Seq<char> {
    dec_digits(k) + "_"@ + name
}

/// Two distinct counters give distinct fallback names.
proof fn lemma_candidate_injective(name: Seq<char>, k1: int, k2: int)
    requires
        k1 >= 0,
        k2 >= 0,
        candidate_name(name, k1) == candidate_name(name, k2),
    ensures
        k1 == k2,
{
    let d1 = dec_digits(k1);
    let d2 = dec_digits(k2);
    assert(candidate_name(name, k1).len() == d1.len() + "_"@.len() + name.len());
    assert(candidate_name(name, k2).len() == d2.len() + "_"@.len() + name.len());
    assert(d1.len() == d2.len());
    assert forall|i: int| 0 <= i < d1.len() implies d1[i] == d2[i] by {
        assert(candidate_name(name, k1)[i] == d1[i]);
        assert(candidate_name(name, k2)[i] == d2[i]);
    }
    assert(d1 =~= d2);
    lemma_dec_digits_injective(k1, k2);
}

/// Among the first `n + 1` fallback counters, where `n` strings exist, some
/// counter's name is free: there is one more candidate than there are
/// existing strings, and the candidates are pairwise distinct.
proof fn lemma_free_candidate_exists(existing: Seq<String>, name: Seq<char>)
    ensures
        exists|k: int|
            1 <= k <= existing.len() + 1 && !in_views(existing, candidate_name(name, k)),
{
    let n = existing.len() as int;
    if forall|k: int| 1 <= k <= n + 1 ==> #[trigger] in_views(existing, candidate_name(name, k)) {
        let cf = |k: int| candidate_name(name, k);
        let ks = set_int_range(1, n + 2);
        lemma_int_range(1, n + 2);
        let cands = ks.map(cf);
        assert(vstd::relations::injective_on(cf, ks)) by {
            assert forall|k1: int, k2: int|
                ks.contains(k1) && ks.contains(k2) && #[trigger] cf(k1) == #[trigger] cf(
                    k2,
                ) implies k1 == k2 by {
                lemma_candidate_injective(name, k1, k2);
            }
        }
        lemma_map_size(ks, cands, cf);
        let ixf = |i: int| existing[i]@;
        let ixs = set_int_range(0, n);
        lemma_int_range(0, n);
        let views = ixs.map(ixf);
        lemma_map_size_bound(ixs, views, ixf);
        assert(cands.subset_of(views)) by {
            assert forall|v: Seq<char>| cands.contains(v) implies views.contains(v) by {
                let k = choose|k: int| ks.contains(k) && cf(k) == v;
                assert(in_views(existing, candidate_name(name, k)));
                let i = choose|i: int| 0 <= i < existing.len() && existing[i]@ == candidate_name(
                    name,
                    k,
                );
                assert(ixs.contains(i) && ixf(i) == v);
            }
        }
        lemma_len_subset(cands, views);
        assert(false);
    }
}

/// Choose a name under which a file can be copied into a directory without
/// colliding with any of the names already there: the file's own name if it
/// is free, else the first counter-prefixed fallback that is free.
pub fn generate_unique_filename(existing: &Vec<String>, file_name: &String) -> (r: String)
    requires
        existing@.len() < u64::MAX,
    ensures
        !in_views(existing@, r@),
        !in_views(existing@, file_name@) ==> r@ == file_name@,
        in_views(existing@, file_name@) ==> exists|k: int|
            {
                &&& 1 <= k
                &&& r@ == candidate_name(file_name@, k)
                &&& forall|j: int|
                    1 <= j < k ==> in_views(existing@, #[trigger] candidate_name(file_name@, j))
            },
{
    if !contains_view(existing, file_name) {
        return file_name.clone();
    }
    let n: u64 = existing.len() as u64;
    let mut k: u64 = 1;
    loop
        invariant
            1 <= k <= n + 1,
            n == existing@.len(),
            n < u64::MAX,
            in_views(existing@, file_name@),
            forall|j: int|
                1 <= j < k ==> in_views(existing@, #[trigger] candidate_name(file_name@, j)),
        decreases n + 1 - k,
    {
        let mut cand = u64_to_string(k);
        cand.append("_");
        cand.append(file_name.as_str());
        proof {
            assert(cand@ =~= candidate_name(file_name@, k as int));
        }
        if !contains_view(existing, &cand) {
            return cand;
        }
        proof {
            if k == n + 1 {
                lemma_free_candidate_exists(existing@, file_name@);
                let k0 = choose|k0: int|
                    1 <= k0 <= existing@.len() + 1 && !in_views(
                        existing@,
                        candidate_name(file_name@, k0),
                    );
                assert(in_views(existing@, candidate_name(file_name@, k0)));
            }
        }
        k = k + 1;
    }
}

} // verus!
