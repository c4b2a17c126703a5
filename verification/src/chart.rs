//! The derived chart views over the committed collection: counts grouped by
//! resume version, by platform and by status, recomputed on demand.

use vstd::prelude::*;
use vstd::relations::{sorted_by, total_ordering};
use vstd::seq_lib::lemma_multiset_commutative;
use vstd::multiset::Multiset;
use crate::model::{Application, ApplicationV, Status};
use crate::text::{lex_leq, string_leq, lemma_lex_leq_total, lemma_lex_leq_antisym,
    lemma_lex_leq_trans};

verus! {

/// One chart entry as mathematics: a label and how often it occurs.
pub open spec fn gview(p: (String, u64)) -> (Seq<char>, nat) {
    (p.0@, p.1 as nat)
}

/// The entries of a chart, as mathematics.
pub open spec fn gviews(v: Seq<(String, u64)>) -> Seq<(Seq<char>, nat)> {
    v.map_values(|p: (String, u64)| gview(p))
}

// ---------------------------------------------------------------------------
// Grouping
// ---------------------------------------------------------------------------

/// Count one more occurrence of the label: bump its entry, or append a new
/// entry with count one; first-occurrence order is kept.
pub open spec fn spec_bump(g: Seq<(Seq<char>, nat)>, l: Seq<char>) -> Seq<(Seq<char>, nat)>
    decreases g.len(),
{
    if g.len() == 0 {
        seq![(l, 1nat)]
    } else if g[0].0 == l {
        seq![(g[0].0, (g[0].1 + 1) as nat)] + g.drop_first()
    } else {
        seq![g[0]] + spec_bump(g.drop_first(), l)
    }
}

/// The labels grouped into (label, count) entries, in first-occurrence
/// order.
pub open spec fn spec_groups(labels: Seq<Seq<char>>) -> Seq<(Seq<char>, nat)>
    decreases labels.len(),
{
    if labels.len() == 0 {
        Seq::empty()
    } else {
        spec_bump(spec_groups(labels.drop_last()), labels.last())
    }
}

/// When the label's first occurrence in the groups is at `j`, bumping
/// raises that entry's count by one and changes nothing else.
proof fn lemma_bump_update(g: Seq<(Seq<char>, nat)>, l: Seq<char>, j: int)
    requires
        0 <= j < g.len(),
        g[j].0 == l,
        forall|k: int| 0 <= k < j ==> (#[trigger] g[k]).0 != l,
    ensures
        spec_bump(g, l) =~= g.update(j, (l, (g[j].1 + 1) as nat)),
    decreases g.len(),
{
    if j == 0 {
        assert(g[0].0 == l);
        assert(spec_bump(g, l) == seq![(g[0].0, (g[0].1 + 1) as nat)] + g.drop_first());
    } else {
        assert(g[0].0 != l);
        lemma_bump_update(g.drop_first(), l, j - 1);
    }
}

/// When the label occurs in no entry, bumping appends a fresh entry with
/// count one.
proof fn lemma_bump_push(g: Seq<(Seq<char>, nat)>, l: Seq<char>)
    requires
        forall|k: int| 0 <= k < g.len() ==> (#[trigger] g[k]).0 != l,
    ensures
        spec_bump(g, l) =~= g.push((l, 1nat)),
    decreases g.len(),
{
    if g.len() > 0 {
        lemma_bump_push(g.drop_first(), l);
    }
}

/// Every count in the groups of some labels is at least one and at most
/// the number of labels.
proof fn lemma_groups_counts_bounded(labels: Seq<Seq<char>>)
    ensures
        forall|k: int|
            0 <= k < spec_groups(labels).len() ==> 1 <= (#[trigger] spec_groups(labels)[k]).1
                <= labels.len(),
    decreases labels.len(),
{
    if labels.len() > 0 {
        lemma_groups_counts_bounded(labels.drop_last());
        lemma_bump_counts(spec_groups(labels.drop_last()), labels.last(), labels.len() - 1);
    }
}

/// Bumping keeps every count within one of the old bound.
proof fn lemma_bump_counts(g: Seq<(Seq<char>, nat)>, l: Seq<char>, bound: int)
    requires
        forall|k: int| 0 <= k < g.len() ==> 1 <= (#[trigger] g[k]).1 <= bound,
        0 <= bound,
    ensures
        forall|k: int|
            0 <= k < spec_bump(g, l).len() ==> 1 <= (#[trigger] spec_bump(g, l)[k]).1 <= bound
                + 1,
    decreases g.len(),
{
    if g.len() == 0 {
    } else if g[0].0 == l {
    } else {
        lemma_bump_counts(g.drop_first(), l, bound);
        assert forall|k: int| 0 <= k < spec_bump(g, l).len() implies 1 <= (#[trigger] spec_bump(
            g,
            l,
        )[k]).1 <= bound + 1 by {
            if k > 0 {
                assert(spec_bump(g, l)[k] == spec_bump(g.drop_first(), l)[k - 1]);
            }
        }
    }
}

/// The first entry carrying the given label, if any.
fn find_label(g: &Vec<(String, u64)>, l: &String) -> (r: Option<usize>)
    ensures
        match r {
            Option::Some(j) => j < g@.len() && gviews(g@)[j as int].0 == l@ && (forall|k: int|
                0 <= k < j ==> (#[trigger] gviews(g@)[k]).0 != l@),
            Option::None => forall|k: int|
                0 <= k < g@.len() ==> (#[trigger] gviews(g@)[k]).0 != l@,
        },
{
    let mut j: usize = 0;
    while j < g.len()
        invariant
            j <= g@.len(),
            forall|k: int| 0 <= k < j ==> (#[trigger] gviews(g@)[k]).0 != l@,
        decreases g@.len() - j,
    {
        proof {
            assert(gviews(g@)[j as int] == gview(g@[j as int]));
        }
        if g[j].0 == *l {
            return Some(j);
        }
        j += 1;
    }
    None
}

/// Group a list of labels into (label, count) entries, counts exact, in
/// first-occurrence order.
fn group_labels(labels: Vec<String>) -> (g: Vec<(String, u64)>)
    ensures
        gviews(g@) == spec_groups(labels@.map_values(|s: String| s@)),
{
    let ghost lv = labels@.map_values(|s: String| s@);
    let mut g: Vec<(String, u64)> = Vec::new();
    let mut i: usize = 0;
    proof {
        assert(lv.take(0) =~= Seq::<Seq<char>>::empty());
        assert(gviews(g@) =~= spec_groups(lv.take(0)));
    }
    while i < labels.len()
        invariant
            i <= labels@.len(),
            lv == labels@.map_values(|s: String| s@),
            gviews(g@) == spec_groups(lv.take(i as int)),
        decreases labels@.len() - i,
    {
        let ghost prev = spec_groups(lv.take(i as int));
        proof {
            assert(lv[i as int] == labels@[i as int]@);
        }
        let hit = find_label(&g, &labels[i]);
        if let Some(j) = hit {
            proof {
                lemma_groups_counts_bounded(lv.take(i as int));
                assert(prev[j as int].1 <= i);
                assert(i <= usize::MAX);
            }
            let (lbl, c) = g.remove(j);
            g.insert(j, (lbl, c + 1));
            proof {
                lemma_bump_update(prev, lv[i as int], j as int);
                assert(gviews(g@) =~= prev.update(
                    j as int,
                    (lv[i as int], (prev[j as int].1 + 1) as nat),
                ));
            }
        } else {
            let lbl = labels[i].clone();
            g.push((lbl, 1));
            proof {
                lemma_bump_push(prev, lv[i as int]);
                assert(gviews(g@) =~= prev.push((lv[i as int], 1nat)));
            }
        }
        proof {
            assert(lv.take(i + 1).drop_last() =~= lv.take(i as int));
            assert(lv.take(i + 1).last() == lv[i as int]);
            assert(gviews(g@) =~= spec_groups(lv.take(i + 1)));
        }
        i += 1;
    }
    proof {
        assert(lv.take(labels@.len() as int) =~= lv);
    }
    g
}

// ---------------------------------------------------------------------------
// What the groups mean: distinct labels with exact occurrence counts
// ---------------------------------------------------------------------------

/// How often the label occurs in the list.
pub open spec fn count_label(labels: Seq<Seq<char>>, l: Seq<char>) -> nat
    decreases labels.len(),
{
    if labels.len() == 0 {
        0nat
    } else {
        count_label(labels.drop_last(), l) + if labels.last() == l {
            1nat
        } else {
            0nat
        }
    }
}

/// No two group entries carry the same label.
pub open spec fn distinct_keys(g: Seq<(Seq<char>, nat)>) -> bool {
    forall|i: int, j: int| 0 <= i < j < g.len() ==> (#[trigger] g[i]).0 != (#[trigger] g[j]).0
}

/// The groups of a label list carry distinct labels, every entry counts its
/// label's occurrences exactly, and an entry exists for precisely the
/// labels that occur.
pub proof fn lemma_groups_exact(labels: Seq<Seq<char>>)
    ensures
        distinct_keys(spec_groups(labels)),
        forall|j: int|
            0 <= j < spec_groups(labels).len() ==> (#[trigger] spec_groups(labels)[j]).1
                == count_label(labels, spec_groups(labels)[j].0),
        forall|l: Seq<char>|
            (exists|j: int|
                0 <= j < spec_groups(labels).len() && (#[trigger] spec_groups(labels)[j]).0 == l)
                <==> count_label(labels, l) > 0,
    decreases labels.len(),
{
    if labels.len() > 0 {
        let prev = labels.drop_last();
        let last = labels.last();
        let g = spec_groups(prev);
        let g2 = spec_groups(labels);
        lemma_groups_exact(prev);
        assert(forall|l: Seq<char>| count_label(labels, l) == count_label(prev, l) + (
        if last == l {
            1nat
        } else {
            0nat
        }));
        if exists|j: int| 0 <= j < g.len() && (#[trigger] g[j]).0 == last {
            let j0 = choose|j0: int| 0 <= j0 < g.len() && (#[trigger] g[j0]).0 == last;
            assert(forall|k: int| 0 <= k < j0 ==> (#[trigger] g[k]).0 != last);
            lemma_bump_update(g, last, j0);
            assert(g2 =~= g.update(j0, (last, (g[j0].1 + 1) as nat)));
            assert forall|j: int| 0 <= j < g2.len() implies (#[trigger] g2[j]).1 == count_label(
                labels,
                g2[j].0,
            ) by {
                if j != j0 {
                    assert(g2[j] == g[j]);
                    assert(g[j].0 != last);
                }
            }
            assert forall|l: Seq<char>|
                (exists|j: int| 0 <= j < g2.len() && (#[trigger] g2[j]).0 == l) implies count_label(
                labels,
                l,
            ) > 0 by {
                let j = choose|j: int| 0 <= j < g2.len() && (#[trigger] g2[j]).0 == l;
                if j != j0 {
                    assert(g[j].0 == l);
                }
            }
            assert forall|l: Seq<char>| count_label(labels, l) > 0 implies (exists|j: int|
                0 <= j < g2.len() && (#[trigger] g2[j]).0 == l) by {
                if l == last {
                    assert(g2[j0].0 == l);
                } else {
                    assert(count_label(prev, l) > 0);
                    let j = choose|j: int| 0 <= j < g.len() && (#[trigger] g[j]).0 == l;
                    assert(g2[j].0 == l);
                }
            }
        } else {
            lemma_bump_push(g, last);
            assert(g2 =~= g.push((last, 1nat)));
            assert(count_label(prev, last) == 0);
            assert forall|j: int| 0 <= j < g2.len() implies (#[trigger] g2[j]).1 == count_label(
                labels,
                g2[j].0,
            ) by {
                if j < g.len() {
                    assert(g2[j] == g[j]);
                    assert(g[j].0 != last);
                } else {
                    assert(g2[j] == (last, 1nat));
                }
            }
            assert forall|l: Seq<char>| count_label(labels, l) > 0 implies (exists|j: int|
                0 <= j < g2.len() && (#[trigger] g2[j]).0 == l) by {
                if l == last {
                    assert(g2[g.len() as int].0 == l);
                } else {
                    assert(count_label(prev, l) > 0);
                    let j = choose|j: int| 0 <= j < g.len() && (#[trigger] g[j]).0 == l;
                    assert(g2[j].0 == l);
                }
            }
            assert forall|l: Seq<char>|
                (exists|j: int| 0 <= j < g2.len() && (#[trigger] g2[j]).0 == l) implies count_label(
                labels,
                l,
            ) > 0 by {
                let j = choose|j: int| 0 <= j < g2.len() && (#[trigger] g2[j]).0 == l;
                if j < g.len() {
                    assert(g[j].0 == l);
                }
            }
        }
    }
}

/// The sorted charts keep exactly the grouped entries: every entry of a
/// sorted chart counts its label's occurrences exactly, and an entry
/// exists for precisely the labels that occur.
pub proof fn lemma_sorted_chart_exact(labels: Seq<Seq<char>>)
    ensures
        forall|j: int|
            0 <= j < spec_groups(labels).sort_by(chart_order()).len() ==> (
            #[trigger] spec_groups(labels).sort_by(chart_order())[j]).1 == count_label(
                labels,
                spec_groups(labels).sort_by(chart_order())[j].0,
            ),
        forall|l: Seq<char>|
            (exists|j: int|
                0 <= j < spec_groups(labels).sort_by(chart_order()).len() && (#[trigger] spec_groups(
                    labels,
                ).sort_by(chart_order())[j]).0 == l) <==> count_label(labels, l) > 0,
{
    broadcast use vstd::seq_lib::group_to_multiset_ensures;

    let g = spec_groups(labels);
    let s = g.sort_by(chart_order());
    lemma_groups_exact(labels);
    lemma_chart_order_total();
    g.lemma_sort_by_ensures(chart_order());
    assert(g.to_multiset() =~= s.to_multiset());
    assert forall|j: int| 0 <= j < s.len() implies (#[trigger] s[j]).1 == count_label(
        labels,
        s[j].0,
    ) by {
        assert(s.to_multiset().count(s[j]) > 0);
        assert(g.to_multiset().count(s[j]) > 0);
        assert(g.contains(s[j]));
        let k = choose|k: int| 0 <= k < g.len() && g[k] == s[j];
        assert(g[k].1 == count_label(labels, g[k].0));
    }
    assert forall|l: Seq<char>| count_label(labels, l) > 0 implies (exists|j: int|
        0 <= j < s.len() && (#[trigger] s[j]).0 == l) by {
        let k = choose|k: int| 0 <= k < g.len() && (#[trigger] g[k]).0 == l;
        assert(g.to_multiset().count(g[k]) > 0);
        assert(s.to_multiset().count(g[k]) > 0);
        assert(s.contains(g[k]));
        let j = choose|j: int| 0 <= j < s.len() && s[j] == g[k];
        assert(s[j].0 == l);
    }
    assert forall|l: Seq<char>|
        (exists|j: int| 0 <= j < s.len() && (#[trigger] s[j]).0 == l) implies count_label(
        labels,
        l,
    ) > 0 by {
        let j = choose|j: int| 0 <= j < s.len() && (#[trigger] s[j]).0 == l;
        assert(s.to_multiset().count(s[j]) > 0);
        assert(g.to_multiset().count(s[j]) > 0);
        assert(g.contains(s[j]));
        let k = choose|k: int| 0 <= k < g.len() && g[k] == s[j];
        assert(g[k].0 == l);
    }
}

// ---------------------------------------------------------------------------
// The chart order: count descending, then label ascending
// ---------------------------------------------------------------------------

pub open spec fn chart_leq(a: (Seq<char>, nat), b: (Seq<char>, nat)) -> bool {
    a.1 > b.1 || (a.1 == b.1 && lex_leq(a.0, b.0))
}

pub open spec fn chart_order() -> spec_fn((Seq<char>, nat), (Seq<char>, nat)) -> bool {
    |a: (Seq<char>, nat), b: (Seq<char>, nat)| chart_leq(a, b)
}

/// The chart order is a total order.
pub proof fn lemma_chart_order_total()
    ensures
        total_ordering(chart_order()),
{
    let leq = chart_order();
    assert forall|a: (Seq<char>, nat)| #[trigger] leq(a, a) by {
        lemma_lex_leq_total(a.0, a.0);
    }
    assert forall|a: (Seq<char>, nat), b: (Seq<char>, nat)| #[trigger] leq(a, b) && #[trigger] leq(
        b,
        a,
    ) implies a == b by {
        lemma_lex_leq_antisym(a.0, b.0);
    }
    assert forall|a: (Seq<char>, nat), b: (Seq<char>, nat), c: (Seq<char>, nat)|
        #[trigger] leq(a, b) && #[trigger] leq(b, c) implies leq(a, c) by {
        if a.1 == b.1 && b.1 == c.1 {
            lemma_lex_leq_trans(a.0, b.0, c.0);
        }
    }
    assert forall|a: (Seq<char>, nat), b: (Seq<char>, nat)| #[trigger] leq(a, b) || #[trigger] leq(
        b,
        a,
    ) by {
        lemma_lex_leq_total(a.0, b.0);
    }
}

/// Compare two chart entries in the chart order.
fn chart_entry_leq(a: &(String, u64), b: &(String, u64)) -> (r: bool)
    ensures
        r == chart_leq(gview(*a), gview(*b)),
{
    if a.1 > b.1 {
        true
    } else if a.1 == b.1 {
        string_leq(&a.0, &b.0)
    } else {
        false
    }
}

/// Sort chart entries: count descending, then label ascending.
fn sort_entries(v: Vec<(String, u64)>) -> (r: Vec<(String, u64)>)
    ensures
        gviews(r@) == gviews(v@).sort_by(chart_order()),
{
    let ghost leq = chart_order();
    proof {
        lemma_chart_order_total();
    }
    let mut out: Vec<(String, u64)> = Vec::new();
    let mut i: usize = 0;
    proof {
        assert(gviews(out@) =~= gviews(v@).take(0));
    }
    while i < v.len()
        invariant
            i <= v@.len(),
            leq == chart_order(),
            total_ordering(leq),
            sorted_by(gviews(out@), leq),
            gviews(out@).to_multiset() == gviews(v@).take(i as int).to_multiset(),
        decreases v@.len() - i,
    {
        let xs = v[i].0.clone();
        let xc = v[i].1;
        let x = (xs, xc);
        let ghost xv = gview(v@[i as int]);
        proof {
            assert(x == v@[i as int]);
        }
        let mut pos: usize = 0;
        while pos < out.len() && chart_entry_leq(&out[pos], &x)
            invariant
                i < v@.len(),
                pos <= out@.len(),
                leq == chart_order(),
                x == v@[i as int],
                xv == gview(v@[i as int]),
                forall|k: int| 0 <= k < pos ==> leq((#[trigger] gviews(out@)[k]), xv),
                sorted_by(gviews(out@), leq),
                total_ordering(leq),
            decreases out@.len() - pos,
        {
            proof {
                assert(gviews(out@)[pos as int] == gview(out@[pos as int]));
            }
            pos += 1;
        }
        proof {
            if pos < out@.len() {
                assert(!leq(gviews(out@)[pos as int], xv));
                assert forall|k: int| pos <= k < gviews(out@).len() implies leq(
                    xv,
                    (#[trigger] gviews(out@)[k]),
                ) by {
                    assert(leq(xv, gviews(out@)[pos as int]));
                    if k > pos {
                        assert(leq(gviews(out@)[pos as int], gviews(out@)[k]));
                    }
                }
            }
        }
        let ghost outv_old = gviews(out@);
        out.insert(pos, x);
        proof {
            assert(gviews(out@) =~= outv_old.insert(pos as int, xv));
            // sortedness of the result
            assert forall|a: int, b: int| 0 <= a < b < gviews(out@).len() implies leq(
                (#[trigger] gviews(out@)[a]),
                (#[trigger] gviews(out@)[b]),
            ) by {
                let s2 = outv_old.insert(pos as int, xv);
                assert(forall|k: int| 0 <= k < pos ==> s2[k] == outv_old[k]);
                assert(s2[pos as int] == xv);
                assert(forall|k: int|
                    pos < k < s2.len() ==> s2[k] == outv_old[k - 1]);
            }
            // multiset of the result
            let s2 = outv_old.insert(pos as int, xv);
            assert(s2 =~= outv_old.take(pos as int) + seq![xv] + outv_old.skip(pos as int));
            assert(outv_old =~= outv_old.take(pos as int) + outv_old.skip(pos as int));
            lemma_multiset_commutative(
                outv_old.take(pos as int) + seq![xv],
                outv_old.skip(pos as int),
            );
            lemma_multiset_commutative(outv_old.take(pos as int), seq![xv]);
            lemma_multiset_commutative(outv_old.take(pos as int), outv_old.skip(pos as int));
            assert(s2.to_multiset() =~= outv_old.to_multiset().add(seq![xv].to_multiset()));
            assert(gviews(v@).take(i + 1).drop_last() =~= gviews(v@).take(i as int));
            broadcast use vstd::seq_lib::group_to_multiset_ensures;
            assert(gviews(v@).take(i + 1) =~= gviews(v@).take(i as int).push(xv));
            assert(seq![xv] =~= Seq::<(Seq<char>, nat)>::empty().push(xv));
            assert(seq![xv].to_multiset() =~= Multiset::<(Seq<char>, nat)>::empty().insert(xv));
            assert(gviews(out@).to_multiset() =~= gviews(v@).take(i + 1).to_multiset());
        }
        i += 1;
    }
    proof {
        assert(gviews(v@).take(v@.len() as int) =~= gviews(v@));
        gviews(v@).lemma_sort_by_ensures(leq);
        vstd::seq_lib::lemma_sorted_unique(gviews(out@), gviews(v@).sort_by(leq), leq);
        assert(gviews(out@) =~= gviews(v@).sort_by(leq));
    }
    out
}

// ---------------------------------------------------------------------------
// The three aggregations
// ---------------------------------------------------------------------------

/// The records as mathematics.
pub open spec fn avs(apps: Seq<Application>) -> Seq<ApplicationV> {
    apps.map_values(|a: Application| a@)
}

/// The grouping label of a record's resume version: the version text, or
/// the literal label `None` when it is empty.
pub open spec fn spec_version_label(a: ApplicationV) -> Seq<char> {
    if a.resume_version.len() == 0 {
        "None"@
    } else {
        a.resume_version
    }
}

pub open spec fn version_labels(s: Seq<ApplicationV>) -> Seq<Seq<char>> {
    s.map_values(|a: ApplicationV| spec_version_label(a))
}

pub open spec fn platform_labels(s: Seq<ApplicationV>) -> Seq<Seq<char>> {
    s.map_values(|a: ApplicationV| a.platform.label_spec())
}

/// Counts by resume version, sorted by count descending then label
/// ascending.
pub open spec fn spec_by_resume_version(s: Seq<ApplicationV>) -> Seq<(Seq<char>, nat)> {
    spec_groups(version_labels(s)).sort_by(chart_order())
}

/// Counts by platform display text, sorted by count descending then label
/// ascending.
pub open spec fn spec_by_platform(s: Seq<ApplicationV>) -> Seq<(Seq<char>, nat)> {
    spec_groups(platform_labels(s)).sort_by(chart_order())
}

/// How many records have the given status.
pub open spec fn count_status(s: Seq<ApplicationV>, st: Status) -> nat
    decreases s.len(),
{
    if s.len() == 0 {
        0nat
    } else {
        count_status(s.drop_last(), st) + if s.last().status == st {
            1nat
        } else {
            0nat
        }
    }
}

/// The first entries of the sorted chart, at most ten.
pub open spec fn spec_top_ten(s: Seq<(Seq<char>, nat)>) -> Seq<(Seq<char>, nat)> {
    if s.len() <= 10 {
        s
    } else {
        s.take(10)
    }
}

/// Counts by resume version: exact counts for every distinct version label
/// (empty shown as `None`), sorted by count descending then label
/// ascending, truncated to the top ten.
pub fn aggregate_by_resume_version(apps: &Vec<Application>) -> (r: Vec<(String, u64)>)
    ensures
        gviews(r@) == spec_top_ten(spec_by_resume_version(avs(apps@))),
{
    let mut labels: Vec<String> = Vec::new();
    let mut i: usize = 0;
    while i < apps.len()
        invariant
            i <= apps@.len(),
            labels@.len() == i,
            forall|k: int|
                0 <= k < i ==> (#[trigger] labels@[k])@ == version_labels(avs(apps@))[k],
        decreases apps@.len() - i,
    {
        let l = if apps[i].resume_version.as_str().unicode_len() == 0 {
            String::from_str("None")
        } else {
            apps[i].resume_version.clone()
        };
        proof {
            assert(avs(apps@)[i as int] == apps@[i as int]@);
            assert(version_labels(avs(apps@))[i as int] == spec_version_label(
                apps@[i as int]@,
            ));
            assert(l@ == spec_version_label(apps@[i as int]@));
        }
        labels.push(l);
        i += 1;
    }
    proof {
        assert(labels@.map_values(|s: String| s@) =~= version_labels(avs(apps@)));
    }
    let grouped = group_labels(labels);
    let mut sorted = sort_entries(grouped);
    if sorted.len() > 10 {
        sorted.truncate(10);
        proof {
            assert(gviews(sorted@) =~= spec_top_ten(spec_by_resume_version(avs(apps@))));
        }
    } else {
        proof {
            assert(gviews(sorted@) =~= spec_top_ten(spec_by_resume_version(avs(apps@))));
        }
    }
    sorted
}

/// Counts by platform display text: exact counts for every distinct label,
/// sorted by count descending then label ascending.
pub fn aggregate_by_platform(apps: &Vec<Application>) -> (r: Vec<(String, u64)>)
    ensures
        gviews(r@) == spec_by_platform(avs(apps@)),
{
    let mut labels: Vec<String> = Vec::new();
    let mut i: usize = 0;
    while i < apps.len()
        invariant
            i <= apps@.len(),
            labels@.len() == i,
            forall|k: int|
                0 <= k < i ==> (#[trigger] labels@[k])@ == platform_labels(avs(apps@))[k],
        decreases apps@.len() - i,
    {
        let l = apps[i].platform.as_str();
        proof {
            assert(avs(apps@)[i as int] == apps@[i as int]@);
            assert(platform_labels(avs(apps@))[i as int] == apps@[i as int]@.platform.label_spec());
            assert(l@ == apps@[i as int]@.platform.label_spec());
        }
        labels.push(l);
        i += 1;
    }
    proof {
        assert(labels@.map_values(|s: String| s@) =~= platform_labels(avs(apps@)));
    }
    let grouped = group_labels(labels);
    sort_entries(grouped)
}

/// Counts by status: always all four statuses, in their fixed enumeration
/// order, each with its exact count.
pub fn aggregate_by_status(apps: &Vec<Application>) -> (r: Vec<(String, u64)>)
    ensures
        r@.len() == 4,
        forall|k: int|
            0 <= k < 4 ==> gviews(r@)[k] == (
                Status::all_spec()[k].label_spec(),
                count_status(avs(apps@), Status::all_spec()[k]),
            ),
{
    let mut applied: u64 = 0;
    let mut interview: u64 = 0;
    let mut offer: u64 = 0;
    let mut rejected: u64 = 0;
    let mut i: usize = 0;
    while i < apps.len()
        invariant
            i <= apps@.len(),
            applied == count_status(avs(apps@).take(i as int), Status::Applied),
            interview == count_status(avs(apps@).take(i as int), Status::Interview),
            offer == count_status(avs(apps@).take(i as int), Status::Offer),
            rejected == count_status(avs(apps@).take(i as int), Status::Rejected),
            applied <= i && interview <= i && offer <= i && rejected <= i,
        decreases apps@.len() - i,
    {
        proof {
            assert(avs(apps@).take(i + 1).drop_last() =~= avs(apps@).take(i as int));
            assert(avs(apps@).take(i + 1).last() == avs(apps@)[i as int]);
        }
        match apps[i].status {
            Status::Applied => {
                applied = applied + 1;
            },
            Status::Interview => {
                interview = interview + 1;
            },
            Status::Offer => {
                offer = offer + 1;
            },
            Status::Rejected => {
                rejected = rejected + 1;
            },
        }
        i += 1;
    }
    proof {
        assert(avs(apps@).take(apps@.len() as int) =~= avs(apps@));
    }
    let r = vec![
        (String::from_str("Applied"), applied),
        (String::from_str("Interview"), interview),
        (String::from_str("Offer"), offer),
        (String::from_str("Rejected"), rejected),
    ];
    proof {
        assert(gviews(r@)[0] == gview(r@[0]));
        assert(gviews(r@)[1] == gview(r@[1]));
        assert(gviews(r@)[2] == gview(r@[2]));
        assert(gviews(r@)[3] == gview(r@[3]));
    }
    r
}

/// Whether any entry counts at least one record; a chart without one shows
/// its no-data notice.
pub fn chart_has_data(data: &Vec<(String, u64)>) -> (b: bool)
    ensures
        b == exists|k: int| 0 <= k < data@.len() && (#[trigger] data@[k]).1 > 0,
{
    let mut i: usize = 0;
    while i < data.len()
        invariant
            i <= data@.len(),
            forall|k: int| 0 <= k < i ==> (#[trigger] data@[k]).1 == 0,
        decreases data@.len() - i,
    {
        if data[i].1 > 0 {
            return true;
        }
        i += 1;
    }
    false
}

} // verus!
