use vstd::prelude::*;

use crate::smf::{saturate_u32, HISTOGRAM_BINS};
use crate::store::RecordingId;

verus! {

/// A stored recording's name and NoteOn histogram.
#[derive(Debug, Clone)]
pub struct ClassifyEntry {
    pub id: RecordingId,
    pub name: String,
    pub histogram: Vec<u32>,
}

/// The summed histogram of all recordings of one name.
#[derive(Debug, Clone)]
pub struct NameGroup {
    pub name: String,
    pub histogram: Vec<u32>,
}

/// A recording takes part in the classification of `target` when it is
/// named and is not the target itself.
pub open spec fn eligible(e: ClassifyEntry, target: RecordingId) -> bool {
    e.name@.len() > 0 && e.id != target
}

/// The sum of bin `k` over the eligible entries named `name`.
pub open spec fn name_total(
    entries: Seq<ClassifyEntry>,
    target: RecordingId,
    name: Seq<char>,
    k: int,
) -> int
    decreases entries.len(),
{
    if entries.len() == 0 {
        0
    } else {
        name_total(entries.drop_last(), target, name, k) + if eligible(entries.last(), target)
            && entries.last().name@ == name {
            entries.last().histogram@[k] as int
        } else {
            0
        }
    }
}

/// Some eligible entry among the first `upto` is named `name`.
pub open spec fn has_eligible(entries: Seq<ClassifyEntry>, target: RecordingId, name: Seq<char>, upto: int) -> bool {
    exists|j: int| 0 <= j < upto && eligible(#[trigger] entries[j], target) && entries[j].name@ == name
}

/// Some group is named `name`.
pub open spec fn has_group(groups: Seq<NameGroup>, name: Seq<char>) -> bool {
    exists|g: int| 0 <= g < groups.len() && (#[trigger] groups[g]).name@ == name
}

pub open spec fn histograms_sized(entries: Seq<ClassifyEntry>) -> bool {
    forall|i: int| 0 <= i < entries.len() ==> (#[trigger] entries[i]).histogram@.len() == HISTOGRAM_BINS
}

proof fn lemma_name_total_nonneg(entries: Seq<ClassifyEntry>, target: RecordingId, name: Seq<char>, k: int)
    ensures
        name_total(entries, target, name, k) >= 0,
    decreases entries.len(),
{
    if entries.len() > 0 {
        lemma_name_total_nonneg(entries.drop_last(), target, name, k);
    }
}

proof fn lemma_name_total_absent(entries: Seq<ClassifyEntry>, target: RecordingId, name: Seq<char>, k: int)
    requires
        forall|j: int| 0 <= j < entries.len() && eligible(#[trigger] entries[j], target) ==> entries[j].name@ != name,
    ensures
        name_total(entries, target, name, k) == 0,
    decreases entries.len(),
{
    if entries.len() > 0 {
        let p = entries.drop_last();
        assert forall|j: int| 0 <= j < p.len() && eligible(#[trigger] p[j], target) implies p[j].name@ != name by {
            assert(p[j] == entries[j]);
        }
        lemma_name_total_absent(p, target, name, k);
        assert(entries.last() == entries[entries.len() - 1]);
    }
}

/// The names of the groups, in order.
pub open spec fn group_names(groups: Seq<NameGroup>) -> Seq<Seq<char>> {
    Seq::new(groups.len(), |g: int| groups[g].name@)
}

/// The names of the recordings that take part in classifying `target`.
pub open spec fn eligible_names(entries: Seq<ClassifyEntry>, target: RecordingId) -> Set<Seq<char>> {
    Set::new(|n: Seq<char>| has_eligible(entries, target, n, entries.len() as int))
}

/// Groups with distinct names covering exactly the eligible names are as
/// many as those names.
proof fn lemma_group_count(entries: Seq<ClassifyEntry>, target: RecordingId, groups: Seq<NameGroup>)
    requires
        forall|a: int, b: int| 0 <= a < b < groups.len() ==> groups[a].name@ != groups[b].name@,
        forall|j: int| 0 <= j < entries.len() && eligible(#[trigger] entries[j], target) ==> has_group(groups, entries[j].name@),
        forall|g: int| 0 <= g < groups.len() ==> has_eligible(entries, target, (#[trigger] groups[g]).name@, entries.len() as int),
    ensures
        group_names(groups).to_set() == eligible_names(entries, target),
        groups.len() == eligible_names(entries, target).len(),
{
    let names = group_names(groups);
    assert forall|n: Seq<char>| names.to_set().contains(n) <==> eligible_names(entries, target).contains(n) by {
        if names.to_set().contains(n) {
            let g = choose|g: int| 0 <= g < names.len() && names[g] == n;
            assert(has_eligible(entries, target, groups[g].name@, entries.len() as int));
        }
        if eligible_names(entries, target).contains(n) {
            let j = choose|j: int| 0 <= j < entries.len() && eligible(#[trigger] entries[j], target) && entries[j].name@ == n;
            assert(has_group(groups, entries[j].name@));
            let g = choose|g: int| 0 <= g < groups.len() && (#[trigger] groups[g]).name@ == entries[j].name@;
            assert(names[g] == n);
        }
    }
    assert(names.to_set() =~= eligible_names(entries, target));
    assert(names.no_duplicates()) by {
        assert forall|a: int, b: int| 0 <= a < names.len() && 0 <= b < names.len() && a != b implies names[a] != names[b] by {
            if a < b {
                assert(groups[a].name@ != groups[b].name@);
            } else {
                assert(groups[b].name@ != groups[a].name@);
            }
        }
    }
    names.unique_seq_to_set();
}

/// Bin-wise sum, saturating at `u32::MAX`.
fn merge_histograms(acc: &Vec<u32>, h: &Vec<u32>) -> (r: Vec<u32>)
    requires
        acc@.len() == HISTOGRAM_BINS,
        h@.len() == HISTOGRAM_BINS,
    ensures
        r@.len() == HISTOGRAM_BINS,
        forall|k: int| 0 <= k < HISTOGRAM_BINS ==> #[trigger] r@[k] == saturate_u32(acc@[k] + h@[k]),
{
    let mut r: Vec<u32> = Vec::new();
    let mut k: usize = 0;
    while k < HISTOGRAM_BINS
        invariant
            k <= HISTOGRAM_BINS,
            acc@.len() == HISTOGRAM_BINS,
            h@.len() == HISTOGRAM_BINS,
            r@.len() == k,
            forall|j: int| 0 <= j < k ==> #[trigger] r@[j] == saturate_u32(acc@[j] + h@[j]),
        decreases HISTOGRAM_BINS - k,
    {
        let v = if acc[k] > u32::MAX - h[k] { u32::MAX } else { acc[k] + h[k] };
        r.push(v);
        k = k + 1;
    }
    r
}

fn find_group(groups: &Vec<NameGroup>, name: &String) -> (r: Option<usize>)
    ensures
        match r {
            Some(g) => g < groups@.len() && groups@[g as int].name@ == name@,
            None => forall|g: int| 0 <= g < groups@.len() ==> (#[trigger] groups@[g]).name@ != name@,
        },
{
    let mut g: usize = 0;
    while g < groups.len()
        invariant
            g <= groups@.len(),
            forall|j: int| 0 <= j < g ==> (#[trigger] groups@[j]).name@ != name@,
        decreases groups.len() - g,
    {
        if groups[g].name == *name {
            return Some(g);
        }
        g = g + 1;
    }
    None
}

/// Group the histograms of the recordings other than `target` that have a
/// name, summing them bin by bin per name (saturating at `u32::MAX`). Each
/// such name has exactly one group.
#[verifier::rlimit(60)]
#[verifier::spinoff_prover]
pub fn group_histograms(target: RecordingId, entries: &Vec<ClassifyEntry>) -> (groups: Vec<NameGroup>)
    requires
        histograms_sized(entries@),
    ensures
        forall|a: int, b: int| 0 <= a < b < groups@.len() ==> groups@[a].name@ != groups@[b].name@,
        forall|j: int| 0 <= j < entries@.len() && eligible(#[trigger] entries@[j], target) ==> has_group(groups@, entries@[j].name@),
        forall|g: int| 0 <= g < groups@.len() ==> has_eligible(entries@, target, (#[trigger] groups@[g]).name@, entries@.len() as int),
        forall|g: int| 0 <= g < groups@.len() ==> (#[trigger] groups@[g]).histogram@.len() == HISTOGRAM_BINS,
        forall|g: int, k: int| 0 <= g < groups@.len() && 0 <= k < HISTOGRAM_BINS ==>
            #[trigger] groups@[g].histogram@[k] == saturate_u32(name_total(entries@, target, groups@[g].name@, k)),
        group_names(groups@).to_set() == eligible_names(entries@, target),
        groups@.len() == eligible_names(entries@, target).len(),
{
    let mut groups: Vec<NameGroup> = Vec::new();
    let mut i: usize = 0;
    while i < entries.len()
        invariant
            i <= entries@.len(),
            histograms_sized(entries@),
            forall|a: int, b: int| 0 <= a < b < groups@.len() ==> groups@[a].name@ != groups@[b].name@,
            forall|j: int| 0 <= j < i && eligible(#[trigger] entries@[j], target) ==> has_group(groups@, entries@[j].name@),
            forall|g: int| 0 <= g < groups@.len() ==> has_eligible(entries@, target, (#[trigger] groups@[g]).name@, i as int),
            forall|g: int| 0 <= g < groups@.len() ==> (#[trigger] groups@[g]).histogram@.len() == HISTOGRAM_BINS,
            forall|g: int, k: int| 0 <= g < groups@.len() && 0 <= k < HISTOGRAM_BINS ==>
                #[trigger] groups@[g].histogram@[k] == saturate_u32(name_total(entries@.subrange(0, i as int), target, groups@[g].name@, k)),
        decreases entries.len() - i,
    {
        let e = &entries[i];
        let ghost prev = entries@.subrange(0, i as int);
        let ghost next = entries@.subrange(0, i + 1);
        proof {
            assert(next.drop_last() =~= prev);
            assert(next.last() == entries@[i as int]);
        }
        if !e.name.as_str().is_empty() && e.id != target {
            assert(eligible(entries@[i as int], target));
            let ghost old_groups = groups@;
            match find_group(&groups, &e.name) {
                Some(g) => {
                    let merged = merge_histograms(&groups[g].histogram, &e.histogram);
                    let name = groups[g].name.clone();
                    groups.set(g, NameGroup { name, histogram: merged });
                    proof {
                        assert forall|h: int, k: int| 0 <= h < groups@.len() && 0 <= k < HISTOGRAM_BINS implies
                            #[trigger] groups@[h].histogram@[k] == saturate_u32(name_total(next, target, groups@[h].name@, k)) by {
                            lemma_name_total_nonneg(prev, target, groups@[h].name@, k);
                            assert(groups@[h].name@ == old_groups[h].name@);
                        }
                        assert forall|j: int| 0 <= j < i + 1 && eligible(#[trigger] entries@[j], target) implies has_group(groups@, entries@[j].name@) by {
                            if j < i {
                                let h = choose|h: int| 0 <= h < old_groups.len() && (#[trigger] old_groups[h]).name@ == entries@[j].name@;
                                assert(groups@[h].name@ == old_groups[h].name@);
                            } else {
                                assert(groups@[g as int].name@ == entries@[j].name@);
                            }
                        }
                        assert forall|h: int| 0 <= h < groups@.len() implies has_eligible(entries@, target, (#[trigger] groups@[h]).name@, i + 1) by {
                            assert(groups@[h].name@ == old_groups[h].name@);
                            assert(has_eligible(entries@, target, old_groups[h].name@, i as int));
                            let j = choose|j: int| 0 <= j < i && eligible(#[trigger] entries@[j], target) && entries@[j].name@ == old_groups[h].name@;
                        }
                    }
                },
                None => {
                    let name = e.name.clone();
                    let zero = vec![0u32; HISTOGRAM_BINS];
                    let histogram = merge_histograms(&zero, &e.histogram);
                    groups.push(NameGroup { name, histogram });
                    proof {
                        let n = old_groups.len() as int;
                        assert forall|j: int| 0 <= j < prev.len() && eligible(#[trigger] prev[j], target) implies prev[j].name@ != e.name@ by {
                            assert(prev[j] == entries@[j]);
                            assert(has_group(old_groups, entries@[j].name@));
                        }
                        assert forall|h: int, k: int| 0 <= h < groups@.len() && 0 <= k < HISTOGRAM_BINS implies
                            #[trigger] groups@[h].histogram@[k] == saturate_u32(name_total(next, target, groups@[h].name@, k)) by {
                            if h == n {
                                lemma_name_total_absent(prev, target, e.name@, k);
                                assert(zero@[k] == 0);
                            } else {
                                assert(groups@[h] == old_groups[h]);
                                lemma_name_total_nonneg(prev, target, groups@[h].name@, k);
                            }
                        }
                        assert forall|j: int| 0 <= j < i + 1 && eligible(#[trigger] entries@[j], target) implies has_group(groups@, entries@[j].name@) by {
                            if j < i {
                                let h = choose|h: int| 0 <= h < old_groups.len() && (#[trigger] old_groups[h]).name@ == entries@[j].name@;
                                assert(groups@[h] == old_groups[h]);
                            } else {
                                assert(groups@[n].name@ == entries@[j].name@);
                            }
                        }
                        assert forall|h: int| 0 <= h < groups@.len() implies has_eligible(entries@, target, (#[trigger] groups@[h]).name@, i + 1) by {
                            if h < n {
                                assert(groups@[h] == old_groups[h]);
                                assert(has_eligible(entries@, target, old_groups[h].name@, i as int));
                                let j = choose|j: int| 0 <= j < i && eligible(#[trigger] entries@[j], target) && entries@[j].name@ == old_groups[h].name@;
                            } else {
                                assert(eligible(entries@[i as int], target));
                            }
                        }
                    }
                },
            }
        } else {
            proof {
                assert(!eligible(entries@[i as int], target));
                assert forall|h: int, k: int| 0 <= h < groups@.len() && 0 <= k < HISTOGRAM_BINS implies
                    #[trigger] groups@[h].histogram@[k] == saturate_u32(name_total(next, target, groups@[h].name@, k)) by {
                }
            }
        }
        i = i + 1;
    }
    proof {
        assert(entries@.subrange(0, entries@.len() as int) =~= entries@);
        lemma_group_count(entries@, target, groups@);
    }
    groups
}

/// The sum of `a[k] * b[k]` over the first `n` bins.
pub open spec fn dot(a: Seq<u32>, b: Seq<u32>, n: int) -> int
    decreases n,
{
    if n <= 0 {
        0
    } else {
        dot(a, b, n - 1) + (a[n - 1] as int) * (b[n - 1] as int)
    }
}

/// The integer parts of a cosine similarity: the dot product of the two
/// histograms and their squared magnitudes. The similarity is
/// `dot / (sqrt(norm_query) * sqrt(norm_group))`.
#[derive(Debug, Clone, Copy, PartialEq, Eq, Structural)]
pub struct SimilarityTerms {
    pub dot: u128,
    pub norm_query: u128,
    pub norm_group: u128,
}

proof fn lemma_dot_bound(a: Seq<u32>, b: Seq<u32>, n: int)
    requires
        0 <= n <= a.len(),
        n <= b.len(),
    ensures
        0 <= dot(a, b, n) <= n * 0x1_0000_0000_0000_0000,
    decreases n,
{
    if n > 0 {
        lemma_dot_bound(a, b, n - 1);
        let x = a[n - 1] as int;
        let y = b[n - 1] as int;
        assert(0 <= x * y <= 0x1_0000_0000_0000_0000) by (nonlinear_arith)
            requires 0 <= x <= 0xffff_ffff, 0 <= y <= 0xffff_ffff;
    }
}

/// Cauchy–Schwarz: the squared dot product is at most the product of the
/// squared magnitudes, so a cosine similarity of histograms lies in [0, 1].
pub proof fn lemma_cauchy_schwarz(a: Seq<u32>, b: Seq<u32>, n: int)
    requires
        0 <= n <= a.len(),
        n <= b.len(),
    ensures
        dot(a, b, n) * dot(a, b, n) <= dot(a, a, n) * dot(b, b, n),
    decreases n,
{
    if n > 0 {
        lemma_cauchy_schwarz(a, b, n - 1);
        lemma_dot_bound(a, b, n - 1);
        lemma_dot_bound(a, a, n - 1);
        lemma_dot_bound(b, b, n - 1);
        let c = dot(a, b, n - 1);
        let aa = dot(a, a, n - 1);
        let bb = dot(b, b, n - 1);
        let x = a[n - 1] as int;
        let y = b[n - 1] as int;
        let w = x * x * y * y;
        let u = aa * y * y;
        let v = bb * x * x;
        let z = c * x * y;
        assert(w >= 0) by (nonlinear_arith)
            requires w == x * x * y * y;
        assert(w * (aa * bb - c * c) >= 0) by (nonlinear_arith)
            requires w >= 0, aa * bb - c * c >= 0;
        assert(u * v == (aa * bb) * w) by (nonlinear_arith)
            requires u == aa * y * y, v == bb * x * x, w == x * x * y * y;
        assert(z * z == (c * c) * w) by (nonlinear_arith)
            requires z == c * x * y, w == x * x * y * y;
        assert(u * v - z * z == w * (aa * bb - c * c)) by (nonlinear_arith)
            requires u * v == (aa * bb) * w, z * z == (c * c) * w;
        let p = u + v;
        let q = 2 * z;
        assert(p * p - q * q == (u - v) * (u - v) + 4 * (u * v - z * z)) by (nonlinear_arith)
            requires p == u + v, q == 2 * z;
        assert((u - v) * (u - v) >= 0) by (nonlinear_arith);
        assert(p * p >= q * q);
        assert(p >= 0 && q >= 0) by (nonlinear_arith)
            requires aa >= 0, bb >= 0, c >= 0, x >= 0, y >= 0, p == aa * y * y + bb * x * x, q == 2 * (c * x * y);
        assert(p >= q) by (nonlinear_arith)
            requires p >= 0, q >= 0, p * p >= q * q;
        assert((c + x * y) * (c + x * y) == c * c + q + x * x * y * y) by (nonlinear_arith)
            requires q == 2 * (c * x * y);
        assert((aa + x * x) * (bb + y * y) == aa * bb + p + x * x * y * y) by (nonlinear_arith)
            requires p == aa * y * y + bb * x * x;
        assert(dot(a, b, n) == c + x * y);
        assert(dot(a, a, n) == aa + x * x);
        assert(dot(b, b, n) == bb + y * y);
    }
}

fn dot_product(a: &Vec<u32>, b: &Vec<u32>) -> (r: u128)
    requires
        a@.len() == HISTOGRAM_BINS,
        b@.len() == HISTOGRAM_BINS,
    ensures
        r == dot(a@, b@, HISTOGRAM_BINS as int),
{
    let mut acc: u128 = 0;
    let mut k: usize = 0;
    while k < HISTOGRAM_BINS
        invariant
            k <= HISTOGRAM_BINS,
            a@.len() == HISTOGRAM_BINS,
            b@.len() == HISTOGRAM_BINS,
            acc == dot(a@, b@, k as int),
        decreases HISTOGRAM_BINS - k,
    {
        proof {
            lemma_dot_bound(a@, b@, k + 1);
        }
        acc = acc + (a[k] as u128) * (b[k] as u128);
        k = k + 1;
    }
    acc
}

/// The similarity terms of a query histogram and a group's; `None` when
/// either has no NoteOn at all, where the similarity is undefined.
pub fn similarity_terms(query: &Vec<u32>, group: &Vec<u32>) -> (r: Option<SimilarityTerms>)
    requires
        query@.len() == HISTOGRAM_BINS,
        group@.len() == HISTOGRAM_BINS,
    ensures
        (dot(query@, query@, HISTOGRAM_BINS as int) == 0 || dot(group@, group@, HISTOGRAM_BINS as int) == 0)
            <==> r is None,
        r matches Some(t) ==> t.dot == dot(query@, group@, HISTOGRAM_BINS as int)
            && t.norm_query == dot(query@, query@, HISTOGRAM_BINS as int)
            && t.norm_group == dot(group@, group@, HISTOGRAM_BINS as int),
        r matches Some(t) ==> t.dot * t.dot <= t.norm_query * t.norm_group,
{
    let norm_query = dot_product(query, query);
    let norm_group = dot_product(group, group);
    if norm_query == 0 || norm_group == 0 {
        return None;
    }
    proof {
        lemma_cauchy_schwarz(query@, group@, HISTOGRAM_BINS as int);
    }
    Some(SimilarityTerms { dot: dot_product(query, group), norm_query, norm_group })
}

} // verus!
