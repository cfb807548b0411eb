//! The graph model: places, the affordances they hold, and the breadboard
//! that owns both together with the two id counters.
//!
//! Entity ids are small sequential integers. A breadboard hands them out
//! through `generate_place_id` and `generate_affordance_id`; an id is never
//! handed out twice.

use vstd::prelude::*;
use crate::clock::current_timestamp;

verus! {

/// An action available at a place; `connects_to`, when present, names the
/// place that the action leads to. The named place need not exist.
#[derive(Debug, Clone)]
pub struct Affordance {
    pub id: u32,
    pub name: String,
    pub connects_to: Option<u32>,
}

/// A node of the graph. The order of `affordances` is the order in which
/// they were added, and it is the order of display and of navigation.
#[derive(Debug, Clone)]
pub struct Place {
    pub id: u32,
    pub name: String,
    pub group: Option<String>,
    pub affordances: Vec<Affordance>,
}

/// The whole document. `next_place_id` and `next_affordance_id` are the ids
/// that the next created place and affordance will get.
#[derive(Debug, Clone)]
pub struct Breadboard {
    pub name: String,
    pub created: String,
    pub places: Vec<Place>,
    pub next_place_id: u32,
    pub next_affordance_id: u32,
}

/// An affordance as a mathematical value: its name is a sequence of
/// characters.
pub ghost struct AffordanceView {
    pub id: u32,
    pub name: Seq<char>,
    pub connects_to: Option<u32>,
}

/// A place as a mathematical value: its texts are sequences of characters
/// and its affordances a sequence of values.
pub ghost struct PlaceView {
    pub id: u32,
    pub name: Seq<char>,
    pub group: Option<Seq<char>>,
    pub affordances: Seq<AffordanceView>,
}

/// A breadboard as a mathematical value.
pub ghost struct BreadboardView {
    pub name: Seq<char>,
    pub created: Seq<char>,
    pub places: Seq<PlaceView>,
    pub next_place_id: u32,
    pub next_affordance_id: u32,
}

impl View for Affordance {
    type V = AffordanceView;

    open spec fn view(&self) -> AffordanceView {
        AffordanceView { id: self.id, name: self.name@, connects_to: self.connects_to }
    }
}

impl View for Place {
    type V = PlaceView;

    open spec fn view(&self) -> PlaceView {
        PlaceView {
            id: self.id,
            name: self.name@,
            group: match self.group {
                Some(group) => Some(group@),
                None => None,
            },
            affordances: Seq::new(self.affordances@.len(), |j: int| self.affordances@[j]@),
        }
    }
}

impl View for Breadboard {
    type V = BreadboardView;

    open spec fn view(&self) -> BreadboardView {
        BreadboardView {
            name: self.name@,
            created: self.created@,
            places: Seq::new(self.places@.len(), |i: int| self.places@[i]@),
            next_place_id: self.next_place_id,
            next_affordance_id: self.next_affordance_id,
        }
    }
}

/// Two breadboards hold the same document but for the id counters: the
/// same name and creation time, and the same places with the same
/// affordances in the same order.
pub open spec fn same_content(a: Breadboard, b: Breadboard) -> bool {
    &&& a@.name == b@.name
    &&& a@.created == b@.created
    &&& a@.places == b@.places
}

/// The value of `next_place_id` for a document that does not record one.
pub fn default_next_place_id() -> (id: u32)
    ensures
        id == 1,
{
    1
}

/// The value of `next_affordance_id` for a document that does not record one.
pub fn default_next_affordance_id() -> (id: u32)
    ensures
        id == 1,
{
    1
}

/// `i` is the position of the first occurrence of `id` in `ids`.
pub open spec fn is_first_index(ids: Seq<u32>, id: u32, i: int) -> bool {
    &&& 0 <= i < ids.len()
    &&& ids[i] == id
    &&& forall|j: int| 0 <= j < i ==> ids[j] != id
}

/// `Some(i)` where `i` is the first position of `id` in `ids`, `None` where
/// `id` does not occur.
pub open spec fn first_index(ids: Seq<u32>, id: u32) -> Option<int> {
    if exists|i: int| is_first_index(ids, id, i) {
        Some(choose|i: int| is_first_index(ids, id, i))
    } else {
        None
    }
}

/// `first_index` finds `id` exactly where `ids` holds it, and what it finds
/// is the first position of `id`.
pub proof fn lemma_first_index(ids: Seq<u32>, id: u32)
    ensures
        ids.contains(id) <==> first_index(ids, id).is_some(),
        first_index(ids, id).is_some() ==> is_first_index(ids, id, first_index(ids, id).unwrap()),
    decreases ids.len(),
{
    if ids.contains(id) {
        let i = choose|i: int| 0 <= i < ids.len() && ids[i] == id;
        lemma_first_index_before(ids, id, i);
    }
    if first_index(ids, id).is_some() {
        let i = first_index(ids, id).unwrap();
        assert(ids[i] == id);
    }
}

/// Where `id` stands at position `i`, it has a first position.
proof fn lemma_first_index_before(ids: Seq<u32>, id: u32, i: int)
    requires
        0 <= i < ids.len(),
        ids[i] == id,
    ensures
        exists|k: int| is_first_index(ids, id, k),
    decreases i,
{
    if exists|j: int| 0 <= j < i && ids[j] == id {
        let j = choose|j: int| 0 <= j < i && ids[j] == id;
        lemma_first_index_before(ids, id, j);
    } else {
        assert(is_first_index(ids, id, i));
    }
}

/// The largest id of `ids`, 0 where there is none.
pub open spec fn max_id(ids: Seq<u32>) -> nat
    decreases ids.len(),
{
    if ids.len() == 0 {
        0
    } else {
        let rest = max_id(ids.drop_last());
        if ids.last() as nat > rest {
            ids.last() as nat
        } else {
            rest
        }
    }
}

/// The ids of a sequence of affordances, in order.
pub open spec fn affordance_ids(affordances: Seq<Affordance>) -> Seq<u32> {
    Seq::new(affordances.len(), |i: int| affordances[i].id)
}

/// The ids of a sequence of places, in order.
pub open spec fn place_ids(places: Seq<Place>) -> Seq<u32> {
    Seq::new(places.len(), |i: int| places[i].id)
}

/// The largest affordance id among the first `n` places, 0 where there is
/// none.
pub open spec fn max_affordance_id_upto(places: Seq<Place>, n: int) -> nat
    decreases n,
{
    if n <= 0 {
        0
    } else {
        let rest = max_affordance_id_upto(places, n - 1);
        let here = max_id(affordance_ids(places[n - 1].affordances@));
        if here > rest {
            here
        } else {
            rest
        }
    }
}

/// The affordances among the first `n` of `place` that lead to `target`,
/// each paired with `place`, in list order.
pub open spec fn incoming_in_place(place: Place, target: u32, n: int) -> Seq<(Place, Affordance)>
    decreases n,
{
    if n <= 0 {
        Seq::empty()
    } else {
        let rest = incoming_in_place(place, target, n - 1);
        let affordance = place.affordances@[n - 1];
        if affordance.connects_to == Some(target) {
            rest.push((place, affordance))
        } else {
            rest
        }
    }
}

/// The connections into `target` that start in one of the first `n` places:
/// place by place, and within a place affordance by affordance.
pub open spec fn incoming_upto(places: Seq<Place>, target: u32, n: int) -> Seq<(Place, Affordance)>
    decreases n,
{
    if n <= 0 {
        Seq::empty()
    } else {
        incoming_upto(places, target, n - 1) + incoming_in_place(
            places[n - 1],
            target,
            places[n - 1].affordances@.len() as int,
        )
    }
}

/// What `incoming_in_place` holds: one pair for each of the first `n`
/// affordances of `place` that lead to `target`, in the order of the
/// affordances. `source` gives for each pair the position of its
/// affordance.
pub proof fn lemma_incoming_in_place(place: Place, target: u32, n: int) -> (source: Seq<int>)
    requires
        0 <= n <= place.affordances@.len(),
    ensures
        source.len() == incoming_in_place(place, target, n).len(),
        forall|k: int|
            0 <= k < source.len() ==> 0 <= #[trigger] source[k] < n && incoming_in_place(
                place,
                target,
                n,
            )[k] == (place, place.affordances@[source[k]])
                && place.affordances@[source[k]].connects_to == Some(target),
        forall|k: int, l: int| 0 <= k < l < source.len() ==> source[k] < source[l],
        forall|j: int|
            0 <= j < n && (#[trigger] place.affordances@[j]).connects_to == Some(target)
                ==> source.contains(j),
    decreases n,
{
    if n <= 0 {
        Seq::empty()
    } else {
        let earlier = lemma_incoming_in_place(place, target, n - 1);
        if place.affordances@[n - 1].connects_to == Some(target) {
            let source = earlier.push(n - 1);
            assert forall|j: int|
                0 <= j < n && (#[trigger] place.affordances@[j]).connects_to == Some(
                    target,
                ) implies source.contains(j) by {
                if j < n - 1 {
                    let k = choose|k: int| 0 <= k < earlier.len() && earlier[k] == j;
                    assert(source[k] == j);
                } else {
                    assert(source[earlier.len() as int] == j);
                }
            }
            source
        } else {
            earlier
        }
    }
}

/// What `incoming_upto` holds: one pair for each affordance of the first
/// `n` places that leads to `target`, place by place and within a place
/// affordance by affordance. `source` gives for each pair the position of
/// its place and, in it, of its affordance.
pub proof fn lemma_incoming_upto(places: Seq<Place>, target: u32, n: int) -> (source: Seq<
    (int, int),
>)
    requires
        0 <= n <= places.len(),
    ensures
        source.len() == incoming_upto(places, target, n).len(),
        forall|k: int|
            0 <= k < source.len() ==> {
                let (i, j) = #[trigger] source[k];
                &&& 0 <= i < n
                &&& 0 <= j < places[i].affordances@.len()
                &&& incoming_upto(places, target, n)[k] == (places[i], places[i].affordances@[j])
                &&& places[i].affordances@[j].connects_to == Some(target)
            },
        forall|k: int, l: int|
            0 <= k < l < source.len() ==> source[k].0 < source[l].0 || (source[k].0 == source[l].0
                && source[k].1 < source[l].1),
        forall|i: int, j: int|
            0 <= i < n && 0 <= j < places[i].affordances@.len() && (
            #[trigger] places[i].affordances@[j]).connects_to == Some(target) ==> source.contains(
                (i, j),
            ),
    decreases n,
{
    if n <= 0 {
        Seq::empty()
    } else {
        let earlier = lemma_incoming_upto(places, target, n - 1);
        let place = places[n - 1];
        let here = lemma_incoming_in_place(place, target, place.affordances@.len() as int);
        let tail = Seq::new(here.len(), |k: int| (n - 1, here[k]));
        let source = earlier + tail;
        assert forall|i: int, j: int|
            0 <= i < n && 0 <= j < places[i].affordances@.len() && (
            #[trigger] places[i].affordances@[j]).connects_to == Some(
                target,
            ) implies source.contains((i, j)) by {
            if i < n - 1 {
                let k = choose|k: int| 0 <= k < earlier.len() && earlier[k] == (i, j);
                assert(source[k] == (i, j));
            } else {
                let k = choose|k: int| 0 <= k < here.len() && here[k] == j;
                assert(source[earlier.len() + k] == (i, j));
            }
        }
        source
    }
}

/// The counters that `sync_id_counters` sets depend on the ids that a
/// breadboard holds and on nothing else: two breadboards with the same
/// content get the same counters, whatever counters they recorded.
pub proof fn lemma_sync_ignores_recorded_counters(a: Breadboard, b: Breadboard)
    requires
        same_content(a, b),
    ensures
        a.max_place_id() == b.max_place_id(),
        a.max_affordance_id() == b.max_affordance_id(),
{
    assert(a.places@.len() == a@.places.len());
    assert(b.places@.len() == b@.places.len());
    assert forall|i: int| 0 <= i < a.places@.len() implies a.places@[i].id == b.places@[i].id
        && a.places@[i].affordance_ids() == b.places@[i].affordance_ids() by {
        assert(a@.places[i] == a.places@[i]@);
        assert(b@.places[i] == b.places@[i]@);
        let x = a.places@[i];
        let y = b.places@[i];
        assert(x@.affordances.len() == x.affordances@.len());
        assert(y@.affordances.len() == y.affordances@.len());
        assert forall|j: int| 0 <= j < x.affordances@.len() implies x.affordances@[j].id
            == y.affordances@[j].id by {
            assert(x@.affordances[j] == x.affordances@[j]@);
            assert(y@.affordances[j] == y.affordances@[j]@);
        }
        assert(x.affordance_ids() =~= y.affordance_ids());
    }
    assert(a.place_ids() =~= b.place_ids());
    lemma_same_affordance_ids_same_max(a.places@, b.places@, a.places@.len() as int);
}

/// Places with the same affordance ids have the same largest affordance
/// id.
proof fn lemma_same_affordance_ids_same_max(a: Seq<Place>, b: Seq<Place>, n: int)
    requires
        0 <= n <= a.len(),
        a.len() == b.len(),
        forall|i: int| 0 <= i < a.len() ==> a[i].affordance_ids() == b[i].affordance_ids(),
    ensures
        max_affordance_id_upto(a, n) == max_affordance_id_upto(b, n),
    decreases n,
{
    if n > 0 {
        lemma_same_affordance_ids_same_max(a, b, n - 1);
        assert(a[n - 1].affordance_ids() == b[n - 1].affordance_ids());
    }
}

/// `affordances` without those whose id is `id`, order kept.
pub open spec fn affordances_without(affordances: Seq<Affordance>, id: u32) -> Seq<Affordance>
    decreases affordances.len(),
{
    if affordances.len() == 0 {
        Seq::empty()
    } else {
        let rest = affordances_without(affordances.drop_last(), id);
        if affordances.last().id == id {
            rest
        } else {
            rest.push(affordances.last())
        }
    }
}

/// `places` without those whose id is `id`, order kept.
pub open spec fn places_without(places: Seq<Place>, id: u32) -> Seq<Place>
    decreases places.len(),
{
    if places.len() == 0 {
        Seq::empty()
    } else {
        let rest = places_without(places.drop_last(), id);
        if places.last().id == id {
            rest
        } else {
            rest.push(places.last())
        }
    }
}

/// Every id of `ids` is at most `max_id(ids)`, and where `ids` is not empty
/// one of them equals it.
pub proof fn lemma_max_id_is_greatest(ids: Seq<u32>)
    ensures
        forall|i: int| 0 <= i < ids.len() ==> ids[i] <= max_id(ids),
        ids.len() > 0 ==> exists|i: int| 0 <= i < ids.len() && ids[i] == max_id(ids),
        max_id(ids) <= u32::MAX,
    decreases ids.len(),
{
    if ids.len() > 0 {
        let front = ids.drop_last();
        lemma_max_id_is_greatest(front);
        assert forall|i: int| 0 <= i < ids.len() implies ids[i] <= max_id(ids) by {
            if i < front.len() {
                assert(front[i] == ids[i]);
            }
        }
        if ids.last() as nat > max_id(front) {
            assert(ids[ids.len() - 1] == max_id(ids));
        } else if front.len() == 0 {
            assert(ids[0] == max_id(ids));
        } else {
            let i = choose|i: int| 0 <= i < front.len() && front[i] == max_id(front);
            assert(ids[i] == max_id(ids));
        }
    }
}

/// Every affordance id of the first `n` places is at most
/// `max_affordance_id_upto(places, n)`, and where there is an affordance
/// among them one of their ids equals it.
pub proof fn lemma_max_affordance_id_is_greatest(places: Seq<Place>, n: int)
    requires
        0 <= n <= places.len(),
    ensures
        forall|i: int, j: int|
            0 <= i < n && 0 <= j < places[i].affordances@.len() ==> (
            #[trigger] places[i].affordances@[j]).id <= max_affordance_id_upto(places, n),
        max_affordance_id_upto(places, n) <= u32::MAX,
        max_affordance_id_upto(places, n) > 0 ==> exists|i: int, j: int|
            0 <= i < n && 0 <= j < places[i].affordances@.len() && (
            #[trigger] places[i].affordances@[j]).id == max_affordance_id_upto(places, n),
    decreases n,
{
    if n > 0 {
        lemma_max_affordance_id_is_greatest(places, n - 1);
        let ids = affordance_ids(places[n - 1].affordances@);
        lemma_max_id_is_greatest(ids);
        assert forall|i: int, j: int|
            0 <= i < n && 0 <= j < places[i].affordances@.len() implies (
        #[trigger] places[i].affordances@[j]).id <= max_affordance_id_upto(places, n) by {
            if i == n - 1 {
                assert(ids[j] == places[i].affordances@[j].id);
            }
        }
        if max_affordance_id_upto(places, n) > 0 {
            if max_id(ids) > max_affordance_id_upto(places, n - 1) {
                let j = choose|j: int| 0 <= j < ids.len() && ids[j] == max_id(ids);
                assert(places[n - 1].affordances@[j].id == max_affordance_id_upto(places, n));
            } else {
                let (i, j) = choose|i: int, j: int|
                    0 <= i < n - 1 && 0 <= j < places[i].affordances@.len() && (
                    #[trigger] places[i].affordances@[j]).id == max_affordance_id_upto(
                        places,
                        n - 1,
                    );
                assert(places[i].affordances@[j].id == max_affordance_id_upto(places, n));
            }
        }
    }
}

/// What `places_without` keeps and what it drops: each place it returns is
/// one of `places` with another id, it returns every such place, and it
/// keeps their order.
pub proof fn lemma_places_without(places: Seq<Place>, id: u32)
    ensures
        places_without(places, id).len() <= places.len(),
        forall|k: int|
            0 <= k < places_without(places, id).len() ==> (#[trigger] places_without(
                places,
                id,
            )[k]).id != id && places.contains(places_without(places, id)[k]),
        forall|i: int|
            0 <= i < places.len() && (#[trigger] places[i]).id != id ==> places_without(
                places,
                id,
            ).contains(places[i]),
        !place_ids(places).contains(id) ==> places_without(places, id) == places,
        place_ids(places).no_duplicates() ==> place_ids(places_without(places, id)).no_duplicates(),
    decreases places.len(),
{
    let kept = places_without(places, id);
    if places.len() > 0 {
        let front = places.drop_last();
        let rest = places_without(front, id);
        lemma_places_without(front, id);
        assert forall|k: int| 0 <= k < kept.len() implies (#[trigger] kept[k]).id != id
            && places.contains(kept[k]) by {
            if k < rest.len() {
                assert(front.contains(rest[k]));
                let i = choose|i: int| 0 <= i < front.len() && front[i] == rest[k];
                assert(places[i] == kept[k]);
            } else {
                assert(places[places.len() - 1] == kept[k]);
            }
        }
        assert forall|i: int| 0 <= i < places.len() && (#[trigger] places[i]).id != id implies kept.contains(
            places[i],
        ) by {
            if i < front.len() {
                assert(front[i] == places[i]);
                assert(rest.contains(front[i]));
                let k = choose|k: int| 0 <= k < rest.len() && rest[k] == front[i];
                assert(kept[k] == places[i]);
            } else {
                assert(kept[kept.len() - 1] == places[i]);
            }
        }
        if !place_ids(places).contains(id) {
            assert(place_ids(places)[places.len() - 1] == places.last().id);
            assert forall|i: int| 0 <= i < front.len() implies place_ids(front)[i] != id by {
                assert(place_ids(places)[i] == place_ids(front)[i]);
            }
            assert(kept =~= places);
        }
        if place_ids(places).no_duplicates() {
            assert forall|i: int, j: int|
                0 <= i < front.len() && 0 <= j < front.len() && i != j implies place_ids(front)[i]
                != place_ids(front)[j] by {
                assert(place_ids(places)[i] != place_ids(places)[j]);
            }
            let kept_ids = place_ids(kept);
            assert forall|a: int, b: int|
                0 <= a < kept_ids.len() && 0 <= b < kept_ids.len() && a != b implies kept_ids[a]
                != kept_ids[b] by {
                if a < rest.len() && b < rest.len() {
                    assert(place_ids(rest)[a] != place_ids(rest)[b]);
                } else {
                    let older = if a < rest.len() {
                        a
                    } else {
                        b
                    };
                    assert(front.contains(rest[older]));
                    let i = choose|i: int| 0 <= i < front.len() && front[i] == rest[older];
                    assert(place_ids(places)[i] != place_ids(places)[places.len() - 1]);
                }
            }
        }
    } else {
        assert(kept =~= places);
    }
}

/// What `affordances_without` keeps and what it drops: each affordance it
/// returns is one of `affordances` with another id, it returns every such
/// affordance, and it keeps their order.
pub proof fn lemma_affordances_without(affordances: Seq<Affordance>, id: u32)
    ensures
        affordances_without(affordances, id).len() <= affordances.len(),
        forall|k: int|
            0 <= k < affordances_without(affordances, id).len() ==> (#[trigger] affordances_without(
                affordances,
                id,
            )[k]).id != id && affordances.contains(affordances_without(affordances, id)[k]),
        forall|i: int|
            0 <= i < affordances.len() && (#[trigger] affordances[i]).id != id
                ==> affordances_without(affordances, id).contains(affordances[i]),
        !affordance_ids(affordances).contains(id) ==> affordances_without(affordances, id)
            == affordances,
        affordance_ids(affordances).no_duplicates() ==> affordance_ids(
            affordances_without(affordances, id),
        ).no_duplicates(),
    decreases affordances.len(),
{
    let kept = affordances_without(affordances, id);
    if affordances.len() > 0 {
        let front = affordances.drop_last();
        let rest = affordances_without(front, id);
        lemma_affordances_without(front, id);
        assert forall|k: int| 0 <= k < kept.len() implies (#[trigger] kept[k]).id != id
            && affordances.contains(kept[k]) by {
            if k < rest.len() {
                assert(front.contains(rest[k]));
                let i = choose|i: int| 0 <= i < front.len() && front[i] == rest[k];
                assert(affordances[i] == kept[k]);
            } else {
                assert(affordances[affordances.len() - 1] == kept[k]);
            }
        }
        assert forall|i: int|
            0 <= i < affordances.len() && (#[trigger] affordances[i]).id != id implies kept.contains(
            affordances[i],
        ) by {
            if i < front.len() {
                assert(front[i] == affordances[i]);
                assert(rest.contains(front[i]));
                let k = choose|k: int| 0 <= k < rest.len() && rest[k] == front[i];
                assert(kept[k] == affordances[i]);
            } else {
                assert(kept[kept.len() - 1] == affordances[i]);
            }
        }
        if !affordance_ids(affordances).contains(id) {
            assert(affordance_ids(affordances)[affordances.len() - 1] == affordances.last().id);
            assert forall|i: int| 0 <= i < front.len() implies affordance_ids(front)[i] != id by {
                assert(affordance_ids(affordances)[i] == affordance_ids(front)[i]);
            }
            assert(kept =~= affordances);
        }
        if affordance_ids(affordances).no_duplicates() {
            assert forall|i: int, j: int|
                0 <= i < front.len() && 0 <= j < front.len() && i != j implies affordance_ids(
                front,
            )[i] != affordance_ids(front)[j] by {
                assert(affordance_ids(affordances)[i] != affordance_ids(affordances)[j]);
            }
            let kept_ids = affordance_ids(kept);
            assert forall|a: int, b: int|
                0 <= a < kept_ids.len() && 0 <= b < kept_ids.len() && a != b implies kept_ids[a]
                != kept_ids[b] by {
                if a < rest.len() && b < rest.len() {
                    assert(affordance_ids(rest)[a] != affordance_ids(rest)[b]);
                } else {
                    let older = if a < rest.len() {
                        a
                    } else {
                        b
                    };
                    assert(front.contains(rest[older]));
                    let i = choose|i: int| 0 <= i < front.len() && front[i] == rest[older];
                    assert(affordance_ids(affordances)[i] != affordance_ids(
                        affordances,
                    )[affordances.len() - 1]);
                }
            }
        }
    } else {
        assert(kept =~= affordances);
    }
}


/// `after` is `before` with another list of affordances.
pub open spec fn same_place_but_affordances(before: Place, after: Place) -> bool {
    &&& after.id == before.id
    &&& after.name == before.name
    &&& after.group == before.group
}

/// `after` is `before` with another place at position `i`.
pub open spec fn same_places_but(before: Seq<Place>, after: Seq<Place>, i: int) -> bool {
    &&& after.len() == before.len()
    &&& forall|k: int| 0 <= k < before.len() && k != i ==> after[k] == before[k]
}

/// `after` is `before` with another affordance at position `j`.
pub open spec fn same_affordances_but(
    before: Seq<Affordance>,
    after: Seq<Affordance>,
    j: int,
) -> bool {
    &&& after.len() == before.len()
    &&& forall|k: int| 0 <= k < before.len() && k != j ==> after[k] == before[k]
}

/// `after` holds the places of `before` in the same order, each with the
/// id it had and with affordances of the same ids in the same order. Names,
/// groups and connections may differ.
pub open spec fn same_ids(before: Seq<Place>, after: Seq<Place>) -> bool {
    &&& place_ids(after) == place_ids(before)
    &&& forall|i: int|
        0 <= i < before.len() ==> (#[trigger] after[i]).affordance_ids() == before[i].affordance_ids()
}

/// A change that keeps every id and both counters keeps a breadboard
/// well-formed.
pub proof fn lemma_same_ids_keeps_wf(before: Breadboard, after: Breadboard)
    requires
        same_ids(before.places@, after.places@),
        after.next_place_id == before.next_place_id,
        after.next_affordance_id == before.next_affordance_id,
    ensures
        before.ids_unique() ==> after.ids_unique(),
        before.counters_ahead() ==> after.counters_ahead(),
        before.wf() ==> after.wf(),
{
    let old_places = before.places@;
    let new_places = after.places@;
    assert(new_places.len() == place_ids(new_places).len());
    assert(old_places.len() == place_ids(old_places).len());
    assert forall|i: int| 0 <= i < new_places.len() implies new_places[i].id
        == old_places[i].id by {
        assert(place_ids(new_places)[i] == place_ids(old_places)[i]);
    }
    assert forall|i: int, j: int|
        0 <= i < new_places.len() && 0 <= j < new_places[i].affordances@.len() implies 0 <= j
        < old_places[i].affordances@.len() && new_places[i].affordances@[j].id
        == old_places[i].affordances@[j].id by {
        assert(new_places[i].affordance_ids() == old_places[i].affordance_ids());
        assert(new_places[i].affordance_ids().len() == new_places[i].affordances@.len());
        assert(old_places[i].affordance_ids().len() == old_places[i].affordances@.len());
        assert(new_places[i].affordance_ids()[j] == old_places[i].affordance_ids()[j]);
    }
    if before.counters_ahead() {
        assert forall|i: int| 0 <= i < new_places.len() implies (#[trigger] new_places[i]).id
            < after.next_place_id by {
            assert(old_places[i].id < before.next_place_id);
        }
        assert forall|i: int, j: int|
            0 <= i < new_places.len() && 0 <= j < new_places[i].affordances@.len() implies (
        #[trigger] new_places[i].affordances@[j]).id < after.next_affordance_id by {
            assert(old_places[i].affordances@[j].id < before.next_affordance_id);
        }
    }
    if before.ids_unique() {
        assert forall|i: int| 0 <= i < new_places.len() implies (
        #[trigger] new_places[i]).ids_unique() by {
            assert(old_places[i].ids_unique());
        }
    }
}


/// `after` has the name, the creation time and the counters of `before`.
pub open spec fn same_header(before: Breadboard, after: Breadboard) -> bool {
    &&& after.name == before.name
    &&& after.created == before.created
    &&& after.next_place_id == before.next_place_id
    &&& after.next_affordance_id == before.next_affordance_id
}

/// `after` is `before` with `affordance` appended to the place `place_id`;
/// it is `before` where there is no such place.
pub open spec fn affordance_added(
    before: Breadboard,
    after: Breadboard,
    place_id: u32,
    affordance: Affordance,
) -> bool {
    &&& same_header(before, after)
    &&& match before.place_index(place_id) {
        Some(i) => {
            &&& same_places_but(before.places@, after.places@, i)
            &&& same_place_but_affordances(before.places@[i], after.places@[i])
            &&& after.places@[i].affordances@ == before.places@[i].affordances@.push(affordance)
        },
        None => after.places@ == before.places@,
    }
}

/// `after` is `before` with the place `place_id` named `name`; it is
/// `before` where there is no such place.
pub open spec fn place_renamed(
    before: Breadboard,
    after: Breadboard,
    place_id: u32,
    name: String,
) -> bool {
    &&& same_header(before, after)
    &&& match before.place_index(place_id) {
        Some(i) => {
            &&& same_places_but(before.places@, after.places@, i)
            &&& after.places@[i].name == name
            &&& after.places@[i].id == before.places@[i].id
            &&& after.places@[i].group == before.places@[i].group
            &&& after.places@[i].affordances == before.places@[i].affordances
        },
        None => after.places@ == before.places@,
    }
}

/// `after` is `before` with the affordance `affordance_id` of the place
/// `place_id` named `name`; it is `before` where there is no such
/// affordance.
pub open spec fn affordance_renamed(
    before: Breadboard,
    after: Breadboard,
    place_id: u32,
    affordance_id: u32,
    name: String,
) -> bool {
    &&& same_header(before, after)
    &&& match before.affordance_position(place_id, affordance_id) {
        Some((i, j)) => {
            &&& same_places_but(before.places@, after.places@, i)
            &&& same_place_but_affordances(before.places@[i], after.places@[i])
            &&& same_affordances_but(before.places@[i].affordances@, after.places@[i].affordances@, j)
            &&& after.places@[i].affordances@[j].name == name
            &&& after.places@[i].affordances@[j].id == affordance_id
            &&& after.places@[i].affordances@[j].connects_to
                == before.places@[i].affordances@[j].connects_to
        },
        None => after.places@ == before.places@,
    }
}

/// `after` is `before` with the affordance `affordance_id` of the place
/// `place_id` leading to `connects_to`; it is `before` where there is no
/// such affordance.
pub open spec fn connection_set(
    before: Breadboard,
    after: Breadboard,
    place_id: u32,
    affordance_id: u32,
    connects_to: Option<u32>,
) -> bool {
    &&& same_header(before, after)
    &&& match before.affordance_position(place_id, affordance_id) {
        Some((i, j)) => {
            &&& same_places_but(before.places@, after.places@, i)
            &&& same_place_but_affordances(before.places@[i], after.places@[i])
            &&& same_affordances_but(before.places@[i].affordances@, after.places@[i].affordances@, j)
            &&& after.places@[i].affordances@[j].connects_to == connects_to
            &&& after.places@[i].affordances@[j].id == affordance_id
            &&& after.places@[i].affordances@[j].name == before.places@[i].affordances@[j].name
        },
        None => after.places@ == before.places@,
    }
}

/// `after` is `before` without the affordances `affordance_id` of the place
/// `place_id`; it is `before` where there is no such place.
pub open spec fn affordance_removed(
    before: Breadboard,
    after: Breadboard,
    place_id: u32,
    affordance_id: u32,
) -> bool {
    &&& same_header(before, after)
    &&& match before.place_index(place_id) {
        Some(i) => {
            &&& same_places_but(before.places@, after.places@, i)
            &&& same_place_but_affordances(before.places@[i], after.places@[i])
            &&& after.places@[i].affordances@ == affordances_without(
                before.places@[i].affordances@,
                affordance_id,
            )
        },
        None => after.places@ == before.places@,
    }
}

/// `after` is `before` without the places whose id is `id`. No other place
/// and no affordance differs: one that led to a removed place still names
/// it.
pub open spec fn place_removed(before: Breadboard, after: Breadboard, id: u32) -> bool {
    &&& same_header(before, after)
    &&& after.places@ == places_without(before.places@, id)
}

/// `after` is `before` with one more place at the end: it has the id that
/// `before` would hand out next, the name `name`, no group and no
/// affordance. The place counter of `after` is one further.
pub open spec fn place_created(before: Breadboard, after: Breadboard, name: Seq<char>) -> bool {
    &&& after.name == before.name
    &&& after.created == before.created
    &&& after.next_affordance_id == before.next_affordance_id
    &&& after.next_place_id == before.next_place_id + 1
    &&& after.places@.len() == before.places@.len() + 1
    &&& after.places@.drop_last() == before.places@
    &&& after.places@.last().id == before.next_place_id
    &&& after.places@.last().name@ == name
    &&& after.places@.last().group.is_none()
    &&& after.places@.last().affordances@.len() == 0
}

/// `after` is `before` with one more affordance at the end of the place
/// `place_id`: it has the id that `before` would hand out next, the name
/// `name` and no connection. The affordance counter of `after` is one
/// further.
pub open spec fn affordance_created(
    before: Breadboard,
    after: Breadboard,
    place_id: u32,
    name: Seq<char>,
) -> bool {
    &&& after.name == before.name
    &&& after.created == before.created
    &&& after.next_place_id == before.next_place_id
    &&& after.next_affordance_id == before.next_affordance_id + 1
    &&& before.place_index(place_id).is_some()
    &&& {
        let i = before.place_index(place_id).unwrap();
        let list = after.places@[i].affordances@;
        &&& same_places_but(before.places@, after.places@, i)
        &&& same_place_but_affordances(before.places@[i], after.places@[i])
        &&& list.len() == before.places@[i].affordances@.len() + 1
        &&& list.drop_last() == before.places@[i].affordances@
        &&& list.last().id == before.next_affordance_id
        &&& list.last().name@ == name
        &&& list.last().connects_to.is_none()
    }
}


impl Affordance {
    /// An affordance that leads nowhere.
    pub fn new(id: u32, name: String) -> (res: Self)
        ensures
            res.id == id,
            res.name == name,
            res.connects_to.is_none(),
    {
        Affordance { id, name, connects_to: None }
    }

    /// This affordance, leading to the place `destination_place_id`.
    pub fn with_connection(self, destination_place_id: u32) -> (res: Self)
        ensures
            res.id == self.id,
            res.name == self.name,
            res.connects_to == Some(destination_place_id),
    {
        let mut affordance = self;
        affordance.connects_to = Some(destination_place_id);
        affordance
    }
}

impl Place {
    /// The ids of this place's affordances, in order.
    pub open spec fn affordance_ids(&self) -> Seq<u32> {
        affordance_ids(self.affordances@)
    }

    /// No affordance id occurs twice in this place.
    pub open spec fn ids_unique(&self) -> bool {
        self.affordance_ids().no_duplicates()
    }

    /// The position of the first affordance with this id.
    pub open spec fn affordance_index(&self, id: u32) -> Option<int> {
        first_index(self.affordance_ids(), id)
    }

    /// A place without group and without affordances.
    pub fn new(id: u32, name: String) -> (res: Self)
        ensures
            res.id == id,
            res.name == name,
            res.group.is_none(),
            res.affordances@.len() == 0,
    {
        Place { id, name, group: None, affordances: Vec::new() }
    }

    /// This place, in the group `group`.
    pub fn with_group(self, group: String) -> (res: Self)
        ensures
            res.id == self.id,
            res.name == self.name,
            res.group == Some(group),
            res.affordances == self.affordances,
    {
        let mut place = self;
        place.group = Some(group);
        place
    }

    /// Appends `affordance`; nothing else changes.
    pub fn add_affordance(&mut self, affordance: Affordance)
        ensures
            final(self).affordances@ == old(self).affordances@.push(affordance),
            final(self).id == old(self).id,
            final(self).name == old(self).name,
            final(self).group == old(self).group,
            old(self).ids_unique() && !old(self).affordance_ids().contains(affordance.id)
                ==> final(self).ids_unique(),
    {
        self.affordances.push(affordance);
        proof {
            let before = old(self).affordance_ids();
            let after = self.affordance_ids();
            assert(after =~= before.push(affordance.id));
            if old(self).ids_unique() && !before.contains(affordance.id) {
                assert forall|i: int, j: int|
                    0 <= i < after.len() && 0 <= j < after.len() && i != j implies after[i]
                    != after[j] by {
                    if i < before.len() && j < before.len() {
                        assert(before[i] != before[j]);
                    } else if i < before.len() {
                        assert(before.contains(before[i]));
                    } else {
                        assert(before.contains(before[j]));
                    }
                }
            }
        }
    }

    /// The position of the first affordance whose id is `id`.
    pub fn find_affordance_index(&self, id: u32) -> (res: Option<usize>)
        ensures
            match res {
                Some(i) => self.affordance_index(id) == Some(i as int),
                None => self.affordance_index(id).is_none(),
            },
            res.is_some() ==> res.unwrap() < self.affordances@.len(),
    {
        let n = self.affordances.len();
        let mut i: usize = 0;
        while i < n
            invariant
                n == self.affordances@.len(),
                i <= n,
                forall|j: int| 0 <= j < i ==> self.affordance_ids()[j] != id,
            decreases n - i,
        {
            if self.affordances[i].id == id {
                assert(is_first_index(self.affordance_ids(), id, i as int));
                return Some(i);
            }
            i += 1;
        }
        None
    }

    /// Removes every affordance whose id is `id` (at most one, where the ids
    /// are unique); the others keep their order.
    pub fn remove_affordance(&mut self, id: u32)
        ensures
            final(self).affordances@ == affordances_without(old(self).affordances@, id),
            final(self).id == old(self).id,
            final(self).name == old(self).name,
            final(self).group == old(self).group,
    {
        let ghost before = self.affordances@;
        let mut kept: usize = 0;
        let ghost mut seen: int = 0;
        while kept < self.affordances.len()
            invariant
                0 <= seen <= before.len(),
                kept <= self.affordances@.len(),
                self.affordances@.len() - kept == before.len() - seen,
                self.affordances@.take(kept as int) == affordances_without(before.take(seen), id),
                self.affordances@.skip(kept as int) == before.skip(seen),
                self.id == old(self).id,
                self.name == old(self).name,
                self.group == old(self).group,
            decreases self.affordances@.len() - kept,
        {
            let ghost current = self.affordances@;
            assert(current[kept as int] == current.skip(kept as int)[0]);
            assert(before.take(seen + 1).drop_last() =~= before.take(seen));
            if self.affordances[kept].id == id {
                self.affordances.remove(kept);
                assert(self.affordances@.take(kept as int) =~= current.take(kept as int));
                assert(self.affordances@.skip(kept as int) =~= current.skip(kept as int).skip(1));
                assert(before.skip(seen).skip(1) =~= before.skip(seen + 1));
            } else {
                assert(current.take(kept + 1) =~= current.take(kept as int).push(
                    current[kept as int],
                ));
                assert(current.skip(kept + 1) =~= current.skip(kept as int).skip(1));
                assert(before.skip(seen).skip(1) =~= before.skip(seen + 1));
                kept += 1;
            }
            proof {
                seen = seen + 1;
            }
        }
        assert(self.affordances@.take(kept as int) =~= self.affordances@);
        assert(before.take(seen) =~= before);
    }
}

impl Breadboard {
    /// The ids of the places, in order.
    pub open spec fn place_ids(&self) -> Seq<u32> {
        place_ids(self.places@)
    }

    /// The position of the first place with this id.
    pub open spec fn place_index(&self, id: u32) -> Option<int> {
        first_index(self.place_ids(), id)
    }

    /// Where the affordance `affordance_id` of the place `place_id` stands:
    /// the position of the first place with that id, and in it the position
    /// of the first affordance with that id.
    pub open spec fn affordance_position(&self, place_id: u32, affordance_id: u32) -> Option<
        (int, int),
    > {
        match self.place_index(place_id) {
            Some(i) => match self.places@[i].affordance_index(affordance_id) {
                Some(j) => Some((i, j)),
                None => None,
            },
            None => None,
        }
    }

    /// A place has the id `id` exactly where `place_index(id)` is some
    /// position, and that position is then the first with that id.
    pub proof fn lemma_place_index(&self, id: u32)
        ensures
            self.has_place(id) <==> self.place_index(id).is_some(),
            self.place_index(id).is_some() ==> is_first_index(
                self.place_ids(),
                id,
                self.place_index(id).unwrap(),
            ),
    {
        lemma_first_index(self.place_ids(), id);
    }

    /// Some place has this id.
    pub open spec fn has_place(&self, id: u32) -> bool {
        self.place_ids().contains(id)
    }

    /// No place id occurs twice, and within each place no affordance id
    /// occurs twice.
    pub open spec fn ids_unique(&self) -> bool {
        &&& self.place_ids().no_duplicates()
        &&& forall|i: int| 0 <= i < self.places@.len() ==> (#[trigger] self.places@[i]).ids_unique()
    }

    /// Both counters lie above every id in use, so that the next generated
    /// id is new.
    pub open spec fn counters_ahead(&self) -> bool {
        &&& forall|i: int|
            0 <= i < self.places@.len() ==> (#[trigger] self.places@[i]).id < self.next_place_id
        &&& forall|i: int, j: int|
            0 <= i < self.places@.len() && 0 <= j < self.places@[i].affordances@.len() ==> (
            #[trigger] self.places@[i].affordances@[j]).id < self.next_affordance_id
    }

    /// The invariant of a breadboard whose entities were all created through
    /// its id generators.
    pub open spec fn wf(&self) -> bool {
        self.ids_unique() && self.counters_ahead()
    }

    /// The largest place id, 0 where there is no place.
    pub open spec fn max_place_id(&self) -> nat {
        max_id(self.place_ids())
    }

    /// The largest affordance id of any place, 0 where there is no
    /// affordance.
    pub open spec fn max_affordance_id(&self) -> nat {
        max_affordance_id_upto(self.places@, self.places@.len() as int)
    }

    /// The connections into `place_id`, in place-then-affordance order.
    pub open spec fn incoming(&self, place_id: u32) -> Seq<(Place, Affordance)> {
        incoming_upto(self.places@, place_id, self.places@.len() as int)
    }

    /// An empty breadboard with the given name and creation time.
    pub fn with_created(name: String, created: String) -> (res: Self)
        ensures
            res.name == name,
            res.created == created,
            res.places@.len() == 0,
            res.next_place_id == 1,
            res.next_affordance_id == 1,
            res.wf(),
    {
        Breadboard { name, created, places: Vec::new(), next_place_id: 1, next_affordance_id: 1 }
    }

    /// An empty breadboard created now. `created` holds the current time as
    /// the clock reports it.
    pub fn new(name: String) -> (res: Self)
        ensures
            res.name == name,
            res.places@.len() == 0,
            res.next_place_id == 1,
            res.next_affordance_id == 1,
            res.wf(),
    {
        Breadboard::with_created(name, current_timestamp())
    }

    /// Appends `place`; nothing else changes.
    pub fn add_place(&mut self, place: Place)
        ensures
            final(self).places@ == old(self).places@.push(place),
            final(self).name == old(self).name,
            final(self).created == old(self).created,
            final(self).next_place_id == old(self).next_place_id,
            final(self).next_affordance_id == old(self).next_affordance_id,
            old(self).ids_unique() && !old(self).has_place(place.id) && place.ids_unique()
                ==> final(self).ids_unique(),
    {
        self.places.push(place);
        proof {
            let before = old(self).place_ids();
            let after = self.place_ids();
            assert(after =~= before.push(place.id));
            if old(self).ids_unique() && !before.contains(place.id) && place.ids_unique() {
                assert forall|i: int, j: int|
                    0 <= i < after.len() && 0 <= j < after.len() && i != j implies after[i]
                    != after[j] by {
                    if i < before.len() && j < before.len() {
                        assert(before[i] != before[j]);
                    } else if i < before.len() {
                        assert(before.contains(before[i]));
                    } else {
                        assert(before.contains(before[j]));
                    }
                }
                assert forall|i: int| 0 <= i < self.places@.len() implies (
                #[trigger] self.places@[i]).ids_unique() by {
                    if i < old(self).places@.len() {
                        assert(self.places@[i] == old(self).places@[i]);
                    }
                }
            }
        }
    }

    /// The position of the first place whose id is `id`.
    pub fn find_place_index(&self, id: u32) -> (res: Option<usize>)
        ensures
            match res {
                Some(i) => self.place_index(id) == Some(i as int),
                None => self.place_index(id).is_none(),
            },
            res.is_some() ==> res.unwrap() < self.places@.len(),
    {
        let n = self.places.len();
        let mut i: usize = 0;
        while i < n
            invariant
                n == self.places@.len(),
                i <= n,
                forall|j: int| 0 <= j < i ==> self.place_ids()[j] != id,
            decreases n - i,
        {
            if self.places[i].id == id {
                assert(is_first_index(self.place_ids(), id, i as int));
                return Some(i);
            }
            i += 1;
        }
        None
    }

    /// The first place whose id is `id`; `None` where there is none.
    pub fn find_place(&self, id: &u32) -> (res: Option<&Place>)
        ensures
            match res {
                Some(place) => self.place_index(*id).is_some() && *place == self.places@[self.place_index(
                    *id,
                ).unwrap()],
                None => self.place_index(*id).is_none(),
            },
    {
        match self.find_place_index(*id) {
            Some(i) => Some(&self.places[i]),
            None => None,
        }
    }

    /// The first place whose id is `id`, to be changed in place; `None`
    /// where there is none. Whatever the caller writes through the result
    /// is written to that place, and nothing else of the breadboard changes.
    pub fn find_place_mut(&mut self, id: &u32) -> (res: Option<&mut Place>)
        ensures
            match res {
                Some(place) => old(self).place_index(*id).is_some() && *place == old(self).places@[old(self).place_index(*id).unwrap()] && final(self).places@ == old(self).places@.update(old(self).place_index(*id).unwrap(), *final(place)),
                None => old(self).place_index(*id).is_none() && final(self).places@ == old(self).places@,
            },
            final(self).name == old(self).name,
            final(self).created == old(self).created,
            final(self).next_place_id == old(self).next_place_id,
            final(self).next_affordance_id == old(self).next_affordance_id,
    {
        match self.find_place_index(*id) {
            Some(i) => Some(&mut self.places[i]),
            None => None,
        }
    }

    /// Every connection into `place_id`, as (source place, source
    /// affordance), in place-then-affordance order.
    pub fn get_incoming_connections(&self, place_id: &u32) -> (res: Vec<(&Place, &Affordance)>)
        ensures
            res@.len() == self.incoming(*place_id).len(),
            forall|k: int|
                0 <= k < res@.len() ==> *(#[trigger] res@[k]).0 == self.incoming(*place_id)[k].0
                    && *res@[k].1 == self.incoming(*place_id)[k].1,
    {
        let target = *place_id;
        let mut found: Vec<(&Place, &Affordance)> = Vec::new();
        let mut i: usize = 0;
        while i < self.places.len()
            invariant
                i <= self.places@.len(),
                found@.len() == incoming_upto(self.places@, target, i as int).len(),
                forall|k: int|
                    0 <= k < found@.len() ==> *(#[trigger] found@[k]).0 == incoming_upto(
                        self.places@,
                        target,
                        i as int,
                    )[k].0 && *found@[k].1 == incoming_upto(self.places@, target, i as int)[k].1,
            decreases self.places@.len() - i,
        {
            let place = &self.places[i];
            let ghost base = incoming_upto(self.places@, target, i as int);
            let mut j: usize = 0;
            while j < place.affordances.len()
                invariant
                    i < self.places@.len(),
                    *place == self.places@[i as int],
                    j <= place.affordances@.len(),
                    base == incoming_upto(self.places@, target, i as int),
                    found@.len() == (base + incoming_in_place(*place, target, j as int)).len(),
                    forall|k: int|
                        0 <= k < found@.len() ==> *(#[trigger] found@[k]).0 == (base
                            + incoming_in_place(*place, target, j as int))[k].0 && *found@[k].1 == (
                        base + incoming_in_place(*place, target, j as int))[k].1,
                decreases place.affordances@.len() - j,
            {
                let affordance = &place.affordances[j];
                let leads_here = match affordance.connects_to {
                    Some(destination) => destination == target,
                    None => false,
                };
                if leads_here {
                    found.push((place, affordance));
                }
                j += 1;
            }
            i += 1;
        }
        found
    }

    /// Hands out the next place id and moves the counter on.
    pub fn generate_place_id(&mut self) -> (id: u32)
        requires
            old(self).next_place_id < u32::MAX,
        ensures
            id == old(self).next_place_id,
            final(self).next_place_id == id + 1,
            final(self).next_affordance_id == old(self).next_affordance_id,
            final(self).places == old(self).places,
            final(self).name == old(self).name,
            final(self).created == old(self).created,
            old(self).counters_ahead() ==> final(self).counters_ahead() && !final(self).has_place(
                id,
            ),
    {
        let id = self.next_place_id;
        self.next_place_id += 1;
        id
    }

    /// Hands out the next affordance id and moves the counter on.
    pub fn generate_affordance_id(&mut self) -> (id: u32)
        requires
            old(self).next_affordance_id < u32::MAX,
        ensures
            id == old(self).next_affordance_id,
            final(self).next_affordance_id == id + 1,
            final(self).next_place_id == old(self).next_place_id,
            final(self).places == old(self).places,
            final(self).name == old(self).name,
            final(self).created == old(self).created,
            old(self).counters_ahead() ==> final(self).counters_ahead(),
    {
        let id = self.next_affordance_id;
        self.next_affordance_id += 1;
        id
    }
    /// Removes every place whose id is `id` (at most one, where the ids are
    /// unique); the others keep their order, and no affordance changes:
    /// one that led to the removed place still names it.
    pub fn remove_place(&mut self, id: u32)
        ensures
            place_removed(*old(self), *final(self), id),
            !final(self).has_place(id),
            !old(self).has_place(id) ==> final(self).places@ == old(self).places@,
            old(self).ids_unique() ==> final(self).ids_unique(),
            old(self).counters_ahead() ==> final(self).counters_ahead(),
    {
        let ghost before = self.places@;
        let mut kept: usize = 0;
        let ghost mut seen: int = 0;
        while kept < self.places.len()
            invariant
                0 <= seen <= before.len(),
                kept <= self.places@.len(),
                self.places@.len() - kept == before.len() - seen,
                self.places@.take(kept as int) == places_without(before.take(seen), id),
                self.places@.skip(kept as int) == before.skip(seen),
                self.name == old(self).name,
                self.created == old(self).created,
                self.next_place_id == old(self).next_place_id,
                self.next_affordance_id == old(self).next_affordance_id,
            decreases self.places@.len() - kept,
        {
            let ghost current = self.places@;
            assert(current[kept as int] == current.skip(kept as int)[0]);
            assert(before.take(seen + 1).drop_last() =~= before.take(seen));
            if self.places[kept].id == id {
                self.places.remove(kept);
                assert(self.places@.take(kept as int) =~= current.take(kept as int));
                assert(self.places@.skip(kept as int) =~= current.skip(kept as int).skip(1));
                assert(before.skip(seen).skip(1) =~= before.skip(seen + 1));
            } else {
                assert(current.take(kept + 1) =~= current.take(kept as int).push(
                    current[kept as int],
                ));
                assert(current.skip(kept + 1) =~= current.skip(kept as int).skip(1));
                assert(before.skip(seen).skip(1) =~= before.skip(seen + 1));
                kept += 1;
            }
            proof {
                seen = seen + 1;
            }
        }
        assert(self.places@.take(kept as int) =~= self.places@);
        assert(before.take(seen) =~= before);
        proof {
            lemma_places_without(before, id);
            let after = self.places@;
            assert forall|k: int| 0 <= k < after.len() implies place_ids(after)[k] != id by {
                assert(after[k].id != id);
            }
            assert forall|k: int| 0 <= k < after.len() implies before.contains(
                #[trigger] after[k],
            ) by {}
            if old(self).ids_unique() {
                assert forall|k: int| 0 <= k < after.len() implies (
                #[trigger] after[k]).ids_unique() by {
                    assert(before.contains(after[k]));
                }
            }
            if old(self).counters_ahead() {
                assert forall|k: int| 0 <= k < after.len() implies (#[trigger] after[k]).id
                    < self.next_place_id by {
                    assert(before.contains(after[k]));
                }
                assert forall|k: int, j: int|
                    0 <= k < after.len() && 0 <= j < after[k].affordances@.len() implies (
                #[trigger] after[k].affordances@[j]).id < self.next_affordance_id by {
                    assert(before.contains(after[k]));
                    let i = choose|i: int| 0 <= i < before.len() && before[i] == after[k];
                    assert(before[i].affordances@[j].id < self.next_affordance_id);
                }
            }
        }
    }

    /// Sets both counters to one more than the largest id in use (to 1
    /// where there is none), whatever they held before. For a breadboard
    /// that was read from storage.
    pub fn sync_id_counters(&mut self)
        requires
            old(self).max_place_id() < u32::MAX,
            old(self).max_affordance_id() < u32::MAX,
        ensures
            final(self).next_place_id == old(self).max_place_id() + 1,
            final(self).next_affordance_id == old(self).max_affordance_id() + 1,
            same_content(*final(self), *old(self)),
            final(self).places == old(self).places,
            final(self).name == old(self).name,
            final(self).created == old(self).created,
            final(self).counters_ahead(),
    {
        let max_place = self.largest_place_id();
        let max_affordance = self.largest_affordance_id();
        self.next_place_id = max_place + 1;
        self.next_affordance_id = max_affordance + 1;
        proof {
            lemma_max_id_is_greatest(self.place_ids());
            lemma_max_affordance_id_is_greatest(self.places@, self.places@.len() as int);
            assert forall|i: int| 0 <= i < self.places@.len() implies (
            #[trigger] self.places@[i]).id < self.next_place_id by {
                assert(self.place_ids()[i] == self.places@[i].id);
            }
        }
    }

    /// The largest place id, 0 where there is no place.
    pub fn largest_place_id(&self) -> (res: u32)
        ensures
            res == self.max_place_id(),
    {
        let mut largest: u32 = 0;
        let mut i: usize = 0;
        while i < self.places.len()
            invariant
                i <= self.places@.len(),
                largest == max_id(self.place_ids().take(i as int)),
            decreases self.places@.len() - i,
        {
            assert(self.place_ids().take(i + 1).drop_last() =~= self.place_ids().take(i as int));
            if self.places[i].id > largest {
                largest = self.places[i].id;
            }
            i += 1;
        }
        assert(self.place_ids().take(i as int) =~= self.place_ids());
        largest
    }

    /// The largest affordance id of any place, 0 where there is no
    /// affordance.
    pub fn largest_affordance_id(&self) -> (res: u32)
        ensures
            res == self.max_affordance_id(),
    {
        let mut largest: u32 = 0;
        let mut i: usize = 0;
        while i < self.places.len()
            invariant
                i <= self.places@.len(),
                largest == max_affordance_id_upto(self.places@, i as int),
            decreases self.places@.len() - i,
        {
            let place = &self.places[i];
            let ghost ids = affordance_ids(place.affordances@);
            let mut here: u32 = 0;
            let mut j: usize = 0;
            while j < place.affordances.len()
                invariant
                    j <= place.affordances@.len(),
                    ids == affordance_ids(place.affordances@),
                    here == max_id(ids.take(j as int)),
                decreases place.affordances@.len() - j,
            {
                assert(ids.take(j + 1).drop_last() =~= ids.take(j as int));
                if place.affordances[j].id > here {
                    here = place.affordances[j].id;
                }
                j += 1;
            }
            assert(ids.take(j as int) =~= ids);
            if here > largest {
                largest = here;
            }
            i += 1;
        }
        largest
    }
    /// Appends `affordance` to the first place whose id is `place_id`.
    /// Nothing changes where no place has that id.
    pub fn add_affordance_to(&mut self, place_id: u32, affordance: Affordance)
        ensures
            affordance_added(*old(self), *final(self), place_id, affordance),
            old(self).ids_unique() && (forall|i: int, j: int|
                0 <= i < old(self).places@.len() && 0 <= j < old(self).places@[i].affordances@.len()
                    ==> (#[trigger] old(self).places@[i].affordances@[j]).id != affordance.id)
                ==> final(self).ids_unique(),
            old(self).counters_ahead() && affordance.id < old(self).next_affordance_id ==> final(self).counters_ahead(),
    {
        match self.find_place_index(place_id) {
            Some(i) => {
                let ghost before = self.places@[i as int];
                let ghost added = affordance;
                self.places[i].affordances.push(affordance);
                proof {
                    let after = self.places@[i as int];
                    assert(affordance_ids(after.affordances@) =~= affordance_ids(
                        before.affordances@,
                    ).push(added.id));
                    assert(self.place_ids() =~= old(self).place_ids());
                    if old(self).ids_unique() && (forall|i: int, j: int|
                        0 <= i < old(self).places@.len() && 0 <= j < old(self).places@[i].affordances@.len() ==> (#[trigger] old(self).places@[i].affordances@[j]).id != added.id) {
                        let old_ids = before.affordance_ids();
                        let new_ids = after.affordance_ids();
                        assert forall|a: int, b: int|
                            0 <= a < new_ids.len() && 0 <= b < new_ids.len() && a
                                != b implies new_ids[a] != new_ids[b] by {
                            if a < old_ids.len() && b < old_ids.len() {
                                assert(old_ids[a] != old_ids[b]);
                            } else if a < old_ids.len() {
                                assert(before.affordances@[a].id != added.id);
                            } else {
                                assert(before.affordances@[b].id != added.id);
                            }
                        }
                        assert forall|k: int| 0 <= k < self.places@.len() implies (
                        #[trigger] self.places@[k]).ids_unique() by {
                            if k != i {
                                assert(self.places@[k] == old(self).places@[k]);
                            }
                        }
                    }
                    if old(self).counters_ahead() && added.id < old(self).next_affordance_id {
                        assert forall|k: int| 0 <= k < self.places@.len() implies (
                        #[trigger] self.places@[k]).id < self.next_place_id by {
                            assert(old(self).places@[k].id < self.next_place_id);
                        }
                        assert forall|k: int, j: int|
                            0 <= k < self.places@.len() && 0 <= j
                                < self.places@[k].affordances@.len() implies (
                        #[trigger] self.places@[k].affordances@[j]).id
                            < self.next_affordance_id by {
                            if k != i {
                                assert(self.places@[k] == old(self).places@[k]);
                                assert(old(self).places@[k].affordances@[j].id
                                    < self.next_affordance_id);
                            } else if j < before.affordances@.len() {
                                assert(old(self).places@[k].affordances@[j].id
                                    < self.next_affordance_id);
                            }
                        }
                    }
                }
            },
            None => {},
        }
    }

    /// Gives the first place whose id is `place_id` the name `name`.
    /// Nothing changes where no place has that id.
    pub fn rename_place(&mut self, place_id: u32, name: String)
        ensures
            place_renamed(*old(self), *final(self), place_id, name),
            same_ids(old(self).places@, final(self).places@),
            old(self).wf() ==> final(self).wf(),
    {
        match self.find_place_index(place_id) {
            Some(i) => {
                self.places[i].name = name;
            },
            None => {},
        }
        proof {
            assert(self.place_ids() =~= old(self).place_ids());
            lemma_same_ids_keeps_wf(*old(self), *self);
        }
    }

    /// Gives the first affordance whose id is `affordance_id`, in the first
    /// place whose id is `place_id`, the name `name`. Nothing changes where
    /// there is no such place or no such affordance.
    pub fn rename_affordance(&mut self, place_id: u32, affordance_id: u32, name: String)
        ensures
            affordance_renamed(*old(self), *final(self), place_id, affordance_id, name),
            same_ids(old(self).places@, final(self).places@),
            old(self).wf() ==> final(self).wf(),
    {
        match self.find_place_index(place_id) {
            Some(i) => {
                match self.places[i].find_affordance_index(affordance_id) {
                    Some(j) => {
                        self.places[i].affordances[j].name = name;
                        proof {
                            assert(self.places@[i as int].affordance_ids() =~= old(self).places@[i as int].affordance_ids());
                        }
                    },
                    None => {},
                }
            },
            None => {},
        }
        proof {
            assert(self.place_ids() =~= old(self).place_ids());
            lemma_same_ids_keeps_wf(*old(self), *self);
        }
    }

    /// Sets the destination of the first affordance whose id is
    /// `affordance_id`, in the first place whose id is `place_id`, to
    /// `connects_to`; `None` removes the connection. Nothing changes where
    /// there is no such place or no such affordance. Whether a place with
    /// the destination's id exists is not looked at.
    pub fn set_connection(&mut self, place_id: u32, affordance_id: u32, connects_to: Option<u32>)
        ensures
            connection_set(*old(self), *final(self), place_id, affordance_id, connects_to),
            same_ids(old(self).places@, final(self).places@),
            old(self).wf() ==> final(self).wf(),
    {
        match self.find_place_index(place_id) {
            Some(i) => {
                match self.places[i].find_affordance_index(affordance_id) {
                    Some(j) => {
                        self.places[i].affordances[j].connects_to = connects_to;
                        proof {
                            assert(self.places@[i as int].affordance_ids() =~= old(self).places@[i as int].affordance_ids());
                        }
                    },
                    None => {},
                }
            },
            None => {},
        }
        proof {
            assert(self.place_ids() =~= old(self).place_ids());
            lemma_same_ids_keeps_wf(*old(self), *self);
        }
    }

    /// Removes the affordances whose id is `affordance_id` from the first
    /// place whose id is `place_id`. Nothing changes where no place has
    /// that id.
    pub fn remove_affordance_from(&mut self, place_id: u32, affordance_id: u32)
        ensures
            affordance_removed(*old(self), *final(self), place_id, affordance_id),
            old(self).ids_unique() ==> final(self).ids_unique(),
            old(self).counters_ahead() ==> final(self).counters_ahead(),
    {
        match self.find_place_index(place_id) {
            Some(i) => {
                let ghost before = self.places@[i as int];
                self.places[i].remove_affordance(affordance_id);
                proof {
                    let after = self.places@[i as int];
                    lemma_affordances_without(before.affordances@, affordance_id);
                    assert(self.place_ids() =~= old(self).place_ids());
                    if old(self).ids_unique() {
                        assert(before.ids_unique());
                        assert forall|k: int| 0 <= k < self.places@.len() implies (
                        #[trigger] self.places@[k]).ids_unique() by {
                            if k != i {
                                assert(self.places@[k] == old(self).places@[k]);
                            }
                        }
                    }
                    if old(self).counters_ahead() {
                        assert forall|k: int| 0 <= k < self.places@.len() implies (
                        #[trigger] self.places@[k]).id < self.next_place_id by {
                            assert(old(self).places@[k].id < self.next_place_id);
                        }
                        assert forall|k: int, j: int|
                            0 <= k < self.places@.len() && 0 <= j
                                < self.places@[k].affordances@.len() implies (
                        #[trigger] self.places@[k].affordances@[j]).id
                            < self.next_affordance_id by {
                            if k != i {
                                assert(self.places@[k] == old(self).places@[k]);
                                assert(old(self).places@[k].affordances@[j].id
                                    < self.next_affordance_id);
                            } else {
                                let kept = after.affordances@[j];
                                assert(before.affordances@.contains(kept));
                                let m = choose|m: int|
                                    0 <= m < before.affordances@.len() && before.affordances@[m]
                                        == kept;
                                assert(old(self).places@[k].affordances@[m].id
                                    < self.next_affordance_id);
                            }
                        }
                    }
                }
            },
            None => {},
        }
    }
    /// Creates a place named `name` with the next place id and appends it.
    /// Returns the new place's id.
    pub fn create_place(&mut self, name: String) -> (id: u32)
        requires
            old(self).next_place_id < u32::MAX,
        ensures
            id == old(self).next_place_id,
            place_created(*old(self), *final(self), name@),
            final(self).places@.last().name == name,
            old(self).wf() ==> final(self).wf(),
    {
        let id = self.generate_place_id();
        let place = Place::new(id, name);
        proof {
            assert(place.affordance_ids() =~= Seq::<u32>::empty());
        }
        self.add_place(place);
        proof {
            assert(self.places@.drop_last() =~= old(self).places@);
            if old(self).wf() {
                let places = self.places@;
                assert forall|i: int| 0 <= i < places.len() implies (#[trigger] places[i]).id
                    < self.next_place_id by {
                    if i < places.len() - 1 {
                        assert(old(self).places@[i].id < id);
                    }
                }
                assert forall|i: int, j: int|
                    0 <= i < places.len() && 0 <= j < places[i].affordances@.len() implies (
                #[trigger] places[i].affordances@[j]).id < self.next_affordance_id by {
                    assert(old(self).places@[i].affordances@[j].id < self.next_affordance_id);
                }
            }
        }
        id
    }

    /// Creates an affordance named `name` with the next affordance id and
    /// appends it to the place `place_id`. Returns the new affordance's id.
    pub fn create_affordance(&mut self, place_id: u32, name: String) -> (id: u32)
        requires
            old(self).next_affordance_id < u32::MAX,
            old(self).place_index(place_id).is_some(),
        ensures
            id == old(self).next_affordance_id,
            affordance_created(*old(self), *final(self), place_id, name@),
            old(self).wf() ==> final(self).wf(),
    {
        let id = self.generate_affordance_id();
        let ghost middle = *self;
        let affordance = Affordance::new(id, name);
        self.add_affordance_to(place_id, affordance);
        proof {
            let i = old(self).place_index(place_id).unwrap();
            assert(self.places@[i].affordances@.drop_last() =~= old(self).places@[i].affordances@);
            if old(self).wf() {
                assert(middle.counters_ahead());
                assert(middle.ids_unique());
                assert forall|a: int, b: int|
                    0 <= a < middle.places@.len() && 0 <= b
                        < middle.places@[a].affordances@.len() implies (
                #[trigger] middle.places@[a].affordances@[b]).id != id by {
                    assert(old(self).places@[a].affordances@[b].id < old(self).next_affordance_id);
                }
            }
        }
        id
    }
}

} // verus!
