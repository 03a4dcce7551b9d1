//! Selection of the latest release among the versions that an index offers.

use crate::laws::{
    chains, lemma_precedence_antisymmetric, lemma_precedence_reflexive,
    lemma_precedence_transitive,
};
use crate::precedence::Order;
use crate::version::{precedence, Version, VersionView};
use vstd::prelude::*;

verus! {

/// The values of a list of versions.
pub open spec fn views_of(versions: Seq<Version>) -> Seq<VersionView> {
    Seq::new(versions.len(), |i: int| versions[i]@)
}

/// Whether `versions` holds a release.
pub open spec fn has_stable(versions: Seq<VersionView>) -> bool {
    exists|j: int| 0 <= j < versions.len() && (#[trigger] versions[j]).is_stable()
}

/// Whether entry `i` is the latest release of `versions`: it is a release, no
/// release of the list stands above it, and every release before it stands
/// strictly below it. Pre-releases are ignored, however high their numbers.
pub open spec fn is_latest(versions: Seq<VersionView>, i: int) -> bool {
    &&& 0 <= i < versions.len()
    &&& versions[i].is_stable()
    &&& forall|j: int|
        0 <= j < versions.len() && (#[trigger] versions[j]).is_stable() ==> precedence(
            versions[j],
            versions[i],
        ) != Order::Greater
    &&& forall|j: int|
        0 <= j < i && (#[trigger] versions[j]).is_stable() ==> precedence(
            versions[j],
            versions[i],
        ) == Order::Less
}

/// The index of the latest release of `versions`, found by going through the
/// list once: a release replaces the one held so far only if it stands
/// strictly above it. `None` where the list holds no release.
pub open spec fn latest_of(versions: Seq<VersionView>) -> Option<int>
    decreases versions.len(),
{
    if versions.len() == 0 {
        None
    } else {
        let k = versions.len() - 1;
        let before = latest_of(versions.drop_last());
        if !versions[k].is_stable() {
            before
        } else {
            match before {
                None => Some(k),
                Some(i) => if precedence(versions[k], versions[i]) == Order::Greater {
                    Some(k)
                } else {
                    Some(i)
                },
            }
        }
    }
}

/// Selection returns the greatest release. Where the list holds a release,
/// [`latest_of`] names an entry that is a release, that no release of the
/// list exceeds, and that comes before every release level with it; a
/// pre-release is never chosen and never stands in the way. Where the list
/// holds no release, it names none.
pub proof fn lemma_latest_is_greatest_release(versions: Seq<VersionView>)
    ensures
        match latest_of(versions) {
            Some(i) => is_latest(versions, i),
            None => !has_stable(versions),
        },
    decreases versions.len(),
{
    if versions.len() > 0 {
        let k = versions.len() - 1;
        let head = versions.drop_last();
        lemma_latest_is_greatest_release(head);
        assert forall|j: int| 0 <= j < k implies head[j] == versions[j] by {}
        if !versions[k].is_stable() {
            match latest_of(head) {
                Some(i) => {
                    assert(is_latest(head, i));
                    assert(is_latest(versions, i));
                },
                None => {
                    if has_stable(versions) {
                        let j = choose|j: int|
                            0 <= j < versions.len() && (#[trigger] versions[j]).is_stable();
                        assert(head[j].is_stable());
                    }
                },
            }
        } else {
            lemma_precedence_reflexive(versions[k]);
            match latest_of(head) {
                None => {
                    assert forall|j: int| 0 <= j < k implies !(#[trigger] versions[j]).is_stable() by {
                        if versions[j].is_stable() {
                            assert(head[j].is_stable());
                        }
                    }
                    assert(is_latest(versions, k));
                },
                Some(i) => {
                    assert(is_latest(head, i));
                    if precedence(versions[k], versions[i]) == Order::Greater {
                        lemma_precedence_antisymmetric(versions[k], versions[i]);
                        assert forall|j: int|
                            0 <= j < k && (#[trigger] versions[j]).is_stable() implies precedence(
                            versions[j],
                            versions[k],
                        ) == Order::Less by {
                            assert(head[j].is_stable());
                            assert(precedence(versions[j], versions[i]) != Order::Greater);
                            assert(chains(
                                precedence(versions[j], versions[i]),
                                precedence(versions[i], versions[k]),
                            ));
                            lemma_precedence_transitive(versions[j], versions[i], versions[k]);
                        }
                        assert(is_latest(versions, k));
                    } else {
                        assert(is_latest(versions, i));
                    }
                },
            }
        }
    }
}

/// A list has at most one latest release.
pub proof fn lemma_latest_is_unique(versions: Seq<VersionView>, i: int, j: int)
    requires
        is_latest(versions, i),
        is_latest(versions, j),
    ensures
        i == j,
{
    if i < j {
        lemma_precedence_antisymmetric(versions[i], versions[j]);
    } else if j < i {
        lemma_precedence_antisymmetric(versions[j], versions[i]);
    }
}

/// Where every entry is a release, the selected entry is the maximum of the
/// whole list: no entry stands above it.
pub proof fn lemma_latest_of_releases_is_maximum(versions: Seq<VersionView>)
    requires
        versions.len() > 0,
        forall|j: int| 0 <= j < versions.len() ==> (#[trigger] versions[j]).is_stable(),
    ensures
        latest_of(versions) is Some,
        forall|j: int|
            0 <= j < versions.len() ==> precedence(
                (#[trigger] versions[j]),
                versions[latest_of(versions)->0],
            ) != Order::Greater,
{
    lemma_latest_is_greatest_release(versions);
    assert(versions[0].is_stable());
}

/// Picks the latest release of `versions`: the index of the greatest entry
/// without a pre-release tag, the first of them where several are level.
/// `None` where no entry is a release.
pub fn select_latest(versions: &Vec<Version>) -> (r: Option<usize>)
    ensures
        match r {
            Some(i) => latest_of(views_of(versions@)) == Some(i as int) && is_latest(
                views_of(versions@),
                i as int,
            ),
            None => latest_of(views_of(versions@)) is None && !has_stable(views_of(versions@)),
        },
{
    let ghost all = views_of(versions@);
    let mut best: Option<usize> = None;
    let mut i: usize = 0;
    assert(all.take(0) =~= Seq::<VersionView>::empty());
    while i < versions.len()
        invariant
            i <= versions.len(),
            all == views_of(versions@),
            match best {
                Some(b) => b < i && latest_of(all.take(i as int)) == Some(b as int),
                None => latest_of(all.take(i as int)) is None,
            },
        decreases versions.len() - i,
    {
        assert(all.take(i + 1).drop_last() =~= all.take(i as int));
        if versions[i].is_stable() {
            match best {
                None => {
                    best = Some(i);
                },
                Some(b) => {
                    match versions[i].compare(&versions[b]) {
                        Order::Greater => {
                            best = Some(i);
                        },
                        _ => {},
                    }
                },
            }
        }
        i = i + 1;
    }
    proof {
        assert(all.take(i as int) =~= all);
        lemma_latest_is_greatest_release(all);
    }
    best
}

} // verus!
