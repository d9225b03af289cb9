//! The supported assets: a set, kept as a list without repetitions.

use vstd::prelude::*;

verus! {

/// A list with every repetition of an earlier element left out.
pub open spec fn distinct(assets: Seq<u32>) -> Seq<u32>
    decreases assets.len(),
{
    if assets.len() == 0 {
        Seq::empty()
    } else if distinct(assets.drop_last()).contains(assets.last()) {
        distinct(assets.drop_last())
    } else {
        distinct(assets.drop_last()).push(assets.last())
    }
}

/// `distinct` keeps exactly the elements of the list, each once.
pub proof fn lemma_distinct(assets: Seq<u32>)
    ensures
        distinct(assets).no_duplicates(),
        forall|a: u32| distinct(assets).contains(a) <==> assets.contains(a),
        assets.no_duplicates() ==> distinct(assets) == assets,
    decreases assets.len(),
{
    if assets.len() > 0 {
        let front = assets.drop_last();
        let last = assets.last();
        lemma_distinct(front);
        let kept = distinct(front);
        assert forall|a: u32| distinct(assets).contains(a) <==> assets.contains(a) by {
            if assets.contains(a) {
                let i = choose|i: int| 0 <= i < assets.len() && assets[i] == a;
                if i < front.len() {
                    assert(front[i] == a);
                    assert(front.contains(a));
                    if !kept.contains(last) {
                        let j = choose|j: int| 0 <= j < kept.len() && kept[j] == a;
                        assert(kept.push(last)[j] == a);
                    }
                } else if !kept.contains(last) {
                    assert(kept.push(last)[kept.len() as int] == last);
                }
            }
            if distinct(assets).contains(a) && kept.contains(a) {
                assert(front.contains(a));
            }
        }
    }
}

/// Whether the asset is on the list.
pub fn is_supported(assets: &Vec<u32>, asset_id: u32) -> (found: bool)
    ensures
        found == assets@.contains(asset_id),
{
    let mut i: usize = 0;
    while i < assets.len()
        invariant
            i <= assets.len(),
            forall|j: int| 0 <= j < i ==> assets[j] != asset_id,
        decreases assets.len() - i,
    {
        if assets[i] == asset_id {
            return true;
        }
        i += 1;
    }
    false
}

/// The list with every repetition of an earlier asset left out.
pub fn without_repetitions(assets: &Vec<u32>) -> (kept: Vec<u32>)
    ensures
        kept@ == distinct(assets@),
{
    let mut kept: Vec<u32> = Vec::new();
    let mut i: usize = 0;
    while i < assets.len()
        invariant
            i <= assets.len(),
            kept@ == distinct(assets@.take(i as int)),
        decreases assets.len() - i,
    {
        proof {
            assert(assets@.take(i + 1).drop_last() == assets@.take(i as int));
        }
        if !is_supported(&kept, assets[i]) {
            kept.push(assets[i]);
        }
        i += 1;
    }
    proof {
        assert(assets@.take(i as int) == assets@);
    }
    kept
}

/// Whether no asset is listed twice.
pub fn listed_once(assets: &Vec<u32>) -> (once: bool)
    ensures
        once == assets@.no_duplicates(),
{
    let mut i: usize = 0;
    while i < assets.len()
        invariant
            i <= assets.len(),
            forall|a: int, b: int| 0 <= a < b < i ==> assets[a] != assets[b],
        decreases assets.len() - i,
    {
        let mut j: usize = 0;
        while j < i
            invariant
                j <= i < assets.len(),
                forall|a: int| 0 <= a < j ==> assets[a] != assets[i as int],
            decreases i - j,
        {
            if assets[j] == assets[i] {
                return false;
            }
            j += 1;
        }
        i += 1;
    }
    true
}

} // verus!
