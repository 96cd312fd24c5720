//! Selection of the episodes to download, in feed order, up to a cap.
use vstd::prelude::*;
use crate::episode::Episode;
use crate::filename::{compose_filename, filename_of, opt_view, path_extension, pub_date_prefix};

verus! {

/// One download that the run will perform.
#[derive(Clone, Debug)]
pub struct PlannedDownload {
    /// Position of the episode in the feed.
    pub index: usize,
    pub url: String,
    pub filename: String,
}

/// Indices below `n` of the episodes that have an enclosure, in feed order.
pub open spec fn eligible_upto(eps: Seq<Episode>, n: int) -> Seq<int>
    decreases n,
{
    if n <= 0 {
        Seq::empty()
    } else {
        let p = eligible_upto(eps, n - 1);
        if eps[n - 1].eligible() {
            p.push(n - 1)
        } else {
            p
        }
    }
}

pub open spec fn eligible_indices(eps: Seq<Episode>) -> Seq<int> {
    eligible_upto(eps, eps.len() as int)
}

/// The cap on the number of downloads: the count asked for, or every episode.
pub open spec fn cap_of(eps: Seq<Episode>, count: Option<usize>) -> int {
    match count {
        Some(c) => c as int,
        None => eps.len() as int,
    }
}

/// The feed positions that are scheduled: the first eligible ones, at most
/// the cap of them.
pub open spec fn selected(eps: Seq<Episode>, count: Option<usize>) -> Seq<int> {
    let e = eligible_indices(eps);
    let c = cap_of(eps, count);
    if c < e.len() {
        e.take(c)
    } else {
        e
    }
}

pub open spec fn opt_text(s: Option<String>) -> Option<Seq<char>> {
    match s {
        Some(t) => Some(t@),
        None => None,
    }
}

/// The destination file name of an eligible episode.
pub open spec fn episode_filename(e: Episode) -> Seq<char> {
    filename_of(
        pub_date_prefix(opt_text(e.pub_date)),
        opt_text(e.title),
        path_extension(e.enclosure_url.unwrap()@),
    )
}

/// The download planned for the episode at feed position `i`.
pub open spec fn planned_for(d: PlannedDownload, eps: Seq<Episode>, i: int) -> bool {
    &&& d.index == i
    &&& d.url@ == eps[i].enclosure_url.unwrap()@
    &&& d.filename@ == episode_filename(eps[i])
}

proof fn lemma_eligible_upto_facts(eps: Seq<Episode>, n: int)
    requires
        0 <= n <= eps.len(),
    ensures
        eligible_upto(eps, n).len() <= n,
        forall|k: int|
            0 <= k < eligible_upto(eps, n).len() ==> 0 <= #[trigger] eligible_upto(eps, n)[k] < n
                && eps[eligible_upto(eps, n)[k]].eligible(),
        forall|k: int, l: int|
            0 <= k < l < eligible_upto(eps, n).len() ==> eligible_upto(eps, n)[k]
                < eligible_upto(eps, n)[l],
    decreases n,
{
    if n > 0 {
        lemma_eligible_upto_facts(eps, n - 1);
    }
}

proof fn lemma_eligible_upto_prefix(eps: Seq<Episode>, i: int, n: int)
    requires
        0 <= i <= n <= eps.len(),
    ensures
        eligible_upto(eps, i).len() <= eligible_upto(eps, n).len(),
        eligible_upto(eps, n).take(eligible_upto(eps, i).len() as int) == eligible_upto(eps, i),
    decreases n - i,
{
    if i < n {
        lemma_eligible_upto_prefix(eps, i, n - 1);
        let a = eligible_upto(eps, i);
        let b = eligible_upto(eps, n - 1);
        assert(eligible_upto(eps, n).take(a.len() as int) =~= b.take(a.len() as int));
    } else {
        assert(eligible_upto(eps, n).take(eligible_upto(eps, n).len() as int) =~= eligible_upto(
            eps,
            n,
        ));
    }
}

/// The downloads of a run: for each of the first eligible episodes in feed
/// order, up to `count` of them (every episode where `count` is absent),
/// its feed position, enclosure URL and destination file name.
pub fn plan_downloads(episodes: &Vec<Episode>, count: Option<usize>) -> (r: Vec<PlannedDownload>)
    ensures
        r.len() == selected(episodes@, count).len(),
        forall|k: int|
            0 <= k < r.len() ==> planned_for(#[trigger] r[k], episodes@, selected(episodes@, count)[k]),
{
    let ghost eps = episodes@;
    let cap: usize = match count {
        Some(c) => c,
        None => episodes.len(),
    };
    let mut out: Vec<PlannedDownload> = Vec::new();
    let mut i: usize = 0;
    while i < episodes.len()
        invariant
            eps == episodes@,
            cap == cap_of(eps, count),
            i <= eps.len(),
            out.len() == eligible_upto(eps, i as int).len(),
            out.len() <= cap,
            forall|k: int|
                0 <= k < out.len() ==> planned_for(#[trigger] out[k], eps, eligible_upto(eps, i as int)[k]),
        ensures
            i <= eps.len(),
            out.len() == eligible_upto(eps, i as int).len(),
            i < eps.len() ==> out.len() == cap,
            forall|k: int|
                0 <= k < out.len() ==> planned_for(#[trigger] out[k], eps, eligible_upto(eps, i as int)[k]),
        decreases eps.len() - i,
    {
        if out.len() == cap {
            break;
        }
        let e = &episodes[i];
        match &e.enclosure_url {
            Some(url) => {
                let filename = compose_filename(
                    match &e.pub_date {
                        Some(d) => Some(d.as_str()),
                        None => None,
                    },
                    match &e.title {
                        Some(t) => Some(t.as_str()),
                        None => None,
                    },
                    url.as_str(),
                );
                proof {
                    assert(filename@ == episode_filename(eps[i as int]));
                }
                out.push(PlannedDownload { index: i, url: url.clone(), filename });
            },
            None => {},
        }
        i = i + 1;
        proof {
            assert forall|k: int| 0 <= k < out.len() implies planned_for(
                #[trigger] out[k],
                eps,
                eligible_upto(eps, i as int)[k],
            ) by {
                assert(eligible_upto(eps, i - 1).len() <= i - 1) by {
                    lemma_eligible_upto_facts(eps, i - 1);
                }
            }
        }
    }
    proof {
        lemma_eligible_upto_prefix(eps, i as int, eps.len() as int);
        let e = eligible_indices(eps);
        if i < eps.len() {
            assert(out.len() == cap);
            assert(selected(eps, count) =~= eligible_upto(eps, i as int));
        } else {
            assert(eligible_upto(eps, i as int) == e);
        }
    }
    out
}

/// Positions below `n` of the episodes without an enclosure that the
/// selection passes over before the cap is reached: those with fewer than
/// `cap` eligible episodes ahead of them.
pub open spec fn missing_upto(eps: Seq<Episode>, n: int, cap: int) -> Seq<int>
    decreases n,
{
    if n <= 0 {
        Seq::empty()
    } else {
        let p = missing_upto(eps, n - 1, cap);
        if !eps[n - 1].eligible() && eligible_upto(eps, n - 1).len() < cap {
            p.push(n - 1)
        } else {
            p
        }
    }
}

pub open spec fn missing_enclosures(eps: Seq<Episode>, count: Option<usize>) -> Seq<int> {
    missing_upto(eps, eps.len() as int, cap_of(eps, count))
}

/// The feed positions, in order, of the episodes without an enclosure that
/// a run with this `count` reaches before its cap is filled; each of them
/// gets a notice.
pub fn episodes_without_enclosure(episodes: &Vec<Episode>, count: Option<usize>) -> (r: Vec<usize>)
    ensures
        r@.map_values(|x: usize| x as int) == missing_enclosures(episodes@, count),
{
    let ghost eps = episodes@;
    let cap: usize = match count {
        Some(c) => c,
        None => episodes.len(),
    };
    let mut out: Vec<usize> = Vec::new();
    let mut seen: usize = 0;
    let mut i: usize = 0;
    while i < episodes.len()
        invariant
            eps == episodes@,
            cap == cap_of(eps, count),
            i <= eps.len(),
            seen == eligible_upto(eps, i as int).len(),
            out@.map_values(|x: usize| x as int) == missing_upto(eps, i as int, cap as int),
        decreases eps.len() - i,
    {
        proof {
            lemma_eligible_upto_facts(eps, i as int);
        }
        if episodes[i].enclosure_url.is_none() {
            if seen < cap {
                out.push(i);
            }
        } else {
            seen = seen + 1;
        }
        i = i + 1;
        assert(out@.map_values(|x: usize| x as int) =~= missing_upto(eps, i as int, cap as int));
    }
    out
}

/// Episodes without an enclosure are never scheduled and do not use up the
/// cap: the scheduled positions are eligible, strictly increasing, and there
/// are as many as the cap or the number of eligible episodes allows.
pub proof fn lemma_selection_skips_missing_enclosures(eps: Seq<Episode>, count: Option<usize>)
    ensures
        ({
            let sel = selected(eps, count);
            let e = eligible_indices(eps).len();
            let c = cap_of(eps, count);
            &&& sel.len() == if c < e { c } else { e as int }
            &&& forall|k: int| 0 <= k < sel.len() ==> 0 <= #[trigger] sel[k] < eps.len() && eps[sel[k]].eligible()
            &&& forall|k: int, l: int| 0 <= k < l < sel.len() ==> sel[k] < sel[l]
        }),
{
    lemma_eligible_upto_facts(eps, eps.len() as int);
    let e = eligible_indices(eps);
    let c = cap_of(eps, count);
    if c < e.len() {
        let sel = e.take(c);
        assert forall|k: int| 0 <= k < sel.len() implies 0 <= #[trigger] sel[k] < eps.len() && eps[sel[k]].eligible() by {
            assert(sel[k] == e[k]);
        }
        assert forall|k: int, l: int| 0 <= k < l < sel.len() implies sel[k] < sel[l] by {
            assert(sel[k] == e[k]);
            assert(sel[l] == e[l]);
        }
    }
}

} // verus!
