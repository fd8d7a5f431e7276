//! The fixed parts of the graphics card labels, and which newly detected
//! cards join the list of known cards.
use vstd::prelude::*;

verus! {

/// The unit written after the graphics memory value: "GB" on a vertical
/// panel and " GB" on a horizontal one.
pub open spec fn vram_unit_text(vertical_panel: bool) -> Seq<char> {
    if vertical_panel {
        "GB"@
    } else {
        " GB"@
    }
}

pub fn vram_unit(vertical_panel: bool) -> (u: &'static str)
    ensures
        u@ == vram_unit_text(vertical_panel),
{
    if vertical_panel {
        "GB"
    } else {
        " GB"
    }
}

/// What the usage label of a stopped card shows.
pub open spec fn stopped_usage_text() -> Seq<char> {
    "---%"@
}

pub fn stopped_usage() -> (t: &'static str)
    ensures
        t@ == stopped_usage_text(),
{
    "---%"
}

/// The ids of a list of cards.
pub open spec fn id_views(ids: Seq<String>) -> Seq<Seq<char>> {
    ids.map_values(|id: String| id@)
}

/// Whether the detected card at position `i` joins the list: its id is not
/// among the known ids, and no earlier detected card has the same id.
pub open spec fn joins(known: Seq<Seq<char>>, detected: Seq<Seq<char>>, i: int) -> bool {
    &&& !known.contains(detected[i])
    &&& forall|j: int| 0 <= j < i ==> #[trigger] detected[j] != detected[i]
}

/// The positions, in order, of the detected cards that join the list.
pub open spec fn joining_positions(known: Seq<Seq<char>>, detected: Seq<Seq<char>>, n: int) -> Seq<usize>
    decreases n,
{
    if n <= 0 {
        seq![]
    } else {
        let earlier = joining_positions(known, detected, n - 1);
        if joins(known, detected, n - 1) {
            earlier.push((n - 1) as usize)
        } else {
            earlier
        }
    }
}

fn same_id(a: &String, b: &String) -> (r: bool)
    ensures
        r == (a@ == b@),
{
    a.eq(b)
}

fn id_in(ids: &Vec<String>, id: &String) -> (r: bool)
    ensures
        r == id_views(ids@).contains(id@),
{
    let mut i: usize = 0;
    while i < ids.len()
        invariant
            i <= ids.len(),
            forall|j: int| 0 <= j < i ==> id_views(ids@)[j] != id@,
        decreases ids.len() - i,
    {
        if same_id(&ids[i], id) {
            assert(id_views(ids@)[i as int] == id@);
            return true;
        }
        i = i + 1;
    }
    false
}

/// Redetection of one kind of card: of the cards just detected, in the
/// order detected, those join the known cards whose id is not known yet and
/// was not taken by an earlier detected card. Returns their positions.
pub fn joining_cards(known_ids: &Vec<String>, detected_ids: &Vec<String>) -> (r: Vec<usize>)
    ensures
        r@ == joining_positions(
            id_views(known_ids@),
            id_views(detected_ids@),
            detected_ids@.len() as int,
        ),
{
    let ghost known = id_views(known_ids@);
    let ghost detected = id_views(detected_ids@);
    let mut r: Vec<usize> = Vec::new();
    let mut i: usize = 0;
    while i < detected_ids.len()
        invariant
            i <= detected_ids.len(),
            known == id_views(known_ids@),
            detected == id_views(detected_ids@),
            r@ == joining_positions(known, detected, i as int),
        decreases detected_ids.len() - i,
    {
        let id = &detected_ids[i];
        assert(detected[i as int] == id@);
        let mut fresh = !id_in(known_ids, id);
        let mut j: usize = 0;
        while j < i
            invariant
                i < detected_ids.len(),
                j <= i,
                detected == id_views(detected_ids@),
                detected[i as int] == id@,
                fresh == (!known.contains(id@) && forall|k: int| 0 <= k < j ==> #[trigger] detected[k] != id@),
                known == id_views(known_ids@),
            decreases i - j,
        {
            if same_id(&detected_ids[j], id) {
                assert(detected[j as int] == id@);
                fresh = false;
            }
            j = j + 1;
        }
        if fresh {
            r.push(i);
        }
        i = i + 1;
    }
    r
}

/// A card joins at most once per id: the ids at the joining positions are
/// all different and none of them was known.
pub proof fn lemma_joining_ids_are_new(known: Seq<Seq<char>>, detected: Seq<Seq<char>>, n: int)
    requires
        0 <= n <= detected.len(),
        detected.len() <= usize::MAX,
    ensures
        forall|a: int|
            0 <= a < joining_positions(known, detected, n).len() ==> !known.contains(
                detected[#[trigger] joining_positions(known, detected, n)[a] as int],
            ),
        forall|a: int, b: int|
            0 <= a < b < joining_positions(known, detected, n).len() ==> detected[#[trigger] joining_positions(
                known,
                detected,
                n,
            )[a] as int] != detected[#[trigger] joining_positions(known, detected, n)[b] as int],
        forall|a: int|
            0 <= a < joining_positions(known, detected, n).len() ==> #[trigger] joining_positions(
                known,
                detected,
                n,
            )[a] < n,
    decreases n,
{
    if n > 0 {
        lemma_joining_ids_are_new(known, detected, n - 1);
        let earlier = joining_positions(known, detected, n - 1);
        let p = joining_positions(known, detected, n);
        if joins(known, detected, n - 1) {
            assert(p == earlier.push((n - 1) as usize));
            assert forall|a: int| 0 <= a < p.len() implies #[trigger] p[a] < n && !known.contains(
                detected[p[a] as int],
            ) by {
                if a < earlier.len() {
                    assert(p[a] == earlier[a]);
                }
            }
            assert forall|a: int, b: int| 0 <= a < b < p.len() implies detected[#[trigger] p[a] as int]
                != detected[#[trigger] p[b] as int] by {
                assert(p[a] == earlier[a]);
                assert(earlier[a] < n - 1);
                if b < earlier.len() {
                    assert(p[b] == earlier[b]);
                } else {
                    assert(p[b] == n - 1);
                    assert(detected[earlier[a] as int] != detected[n - 1]);
                }
            }
        }
    }
}

/// Every detected card whose id is neither known nor taken by an earlier
/// detected card joins: its position is in the result.
pub proof fn lemma_new_cards_all_join(known: Seq<Seq<char>>, detected: Seq<Seq<char>>, n: int)
    requires
        0 <= n <= detected.len(),
        detected.len() <= usize::MAX,
    ensures
        forall|i: int|
            0 <= i < n && !known.contains(detected[i]) && (forall|j: int|
                0 <= j < i ==> detected[j] != detected[i]) ==> joining_positions(
                known,
                detected,
                n,
            ).contains(i as usize),
        forall|a: int|
            0 <= a < joining_positions(known, detected, n).len() ==> {
                let i = #[trigger] joining_positions(known, detected, n)[a] as int;
                &&& 0 <= i < n
                &&& !known.contains(detected[i])
                &&& forall|j: int| 0 <= j < i ==> detected[j] != detected[i]
            },
    decreases n,
{
    if n > 0 {
        lemma_new_cards_all_join(known, detected, n - 1);
        let earlier = joining_positions(known, detected, n - 1);
        let p = joining_positions(known, detected, n);
        assert forall|i: int|
            0 <= i < n && !known.contains(detected[i]) && (forall|j: int|
                0 <= j < i ==> detected[j] != detected[i]) implies p.contains(i as usize) by {
            if i < n - 1 {
                assert(earlier.contains(i as usize));
                let a = choose|a: int| 0 <= a < earlier.len() && earlier[a] == i as usize;
                if joins(known, detected, n - 1) {
                    assert(p[a] == earlier[a]);
                }
            } else {
                assert(joins(known, detected, n - 1));
                assert(p[earlier.len() as int] == (n - 1) as usize);
            }
        }
        assert forall|a: int| 0 <= a < p.len() implies {
            let i = #[trigger] p[a] as int;
            &&& 0 <= i < n
            &&& !known.contains(detected[i])
            &&& forall|j: int| 0 <= j < i ==> detected[j] != detected[i]
        } by {
            if a < earlier.len() {
                assert(p[a] == earlier[a]);
            } else {
                assert(p[a] == (n - 1) as usize);
            }
        }
    }
}

} // verus!
