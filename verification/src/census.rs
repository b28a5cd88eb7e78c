//! Counting the living: the identifiers of the snakes that have not lost are
//! as many as those snakes, when the identifiers are 1 to the number of
//! snakes and no two snakes share one.

use vstd::prelude::*;

use vstd::relations::injective_on;
use vstd::set_lib::lemma_int_range;
use vstd::set_lib::lemma_map_size;
use vstd::set_lib::lemma_subset_equality;
use vstd::set_lib::set_int_range;

use crate::game::Snake;
use crate::world::alive_count;
use crate::world::alive_ids;
use crate::world::index_of_id;
use crate::world::lemma_index_found;
use crate::world::lemma_own_index;

verus! {

/// The identifiers from 1 to `upto` of the snakes that have not lost.
pub open spec fn alive_id_set(players: Seq<Snake>, upto: int) -> Set<int> {
    Set::new(
        |id: int|
            1 <= id <= upto && index_of_id(players, id as u8, 0) < players.len()
                && !players[index_of_id(players, id as u8, 0)].has_lost,
    )
}

/// The indices below `upto` of the snakes that have not lost.
pub open spec fn alive_index_set(players: Seq<Snake>, upto: int) -> Set<int> {
    Set::new(|j: int| 0 <= j < upto && !players[j].has_lost)
}

/// The alive identifiers up to `upto` are as many as their list is long.
pub proof fn lemma_id_set_len(players: Seq<Snake>, upto: int)
    requires
        0 <= upto <= 255,
    ensures
        alive_id_set(players, upto).finite(),
        alive_id_set(players, upto).len() == alive_ids(players, upto).len(),
    decreases upto,
{
    let now = alive_id_set(players, upto);
    if upto == 0 {
        assert(now =~= Set::<int>::empty());
    } else {
        lemma_id_set_len(players, upto - 1);
        let before = alive_id_set(players, upto - 1);
        let i = index_of_id(players, upto as u8, 0);
        if i < players.len() && !players[i].has_lost {
            assert(now =~= before.insert(upto));
            assert(!before.contains(upto));
        } else {
            assert(now =~= before);
        }
    }
}

/// The alive snakes among the first `upto` are as many as `alive_count` says.
pub proof fn lemma_index_set_len(players: Seq<Snake>, upto: int)
    requires
        0 <= upto <= players.len(),
    ensures
        alive_index_set(players, upto).finite(),
        alive_index_set(players, upto).len() == alive_count(players.take(upto)),
    decreases upto,
{
    let now = alive_index_set(players, upto);
    if upto == 0 {
        assert(now =~= Set::<int>::empty());
        assert(players.take(0).len() == 0);
    } else {
        lemma_index_set_len(players, upto - 1);
        let before = alive_index_set(players, upto - 1);
        assert(players.take(upto).drop_last() =~= players.take(upto - 1));
        assert(players.take(upto).last() == players[upto - 1]);
        if !players[upto - 1].has_lost {
            assert(now =~= before.insert(upto - 1));
            assert(!before.contains(upto - 1));
        } else {
            assert(now =~= before);
        }
    }
}

/// When the identifiers are 1 to the number of snakes, each present, and no
/// two snakes share one, every snake's identifier is among them.
pub proof fn lemma_ids_in_range(players: Seq<Snake>)
    requires
        players.len() < 255,
        forall|i: int, j: int| 0 <= i < j < players.len() ==> players[i].id != players[j].id,
        forall|id: u8| 1 <= id <= players.len() ==> index_of_id(players, id, 0) < players.len(),
    ensures
        forall|j: int| 0 <= j < players.len() ==> 1 <= (#[trigger] players[j]).id <= players.len(),
{
    let n = players.len() as int;
    let ids = set_int_range(1, n + 1);
    let places = set_int_range(0, n);
    let f = |id: int| index_of_id(players, id as u8, 0);
    lemma_int_range(1, n + 1);
    lemma_int_range(0, n);
    assert forall|a: int, b: int| ids.contains(a) && ids.contains(b) && f(a) == f(b) implies a
        == b by {
        lemma_index_found(players, a as u8, 0);
        lemma_index_found(players, b as u8, 0);
    }
    assert(injective_on(f, ids));
    let image = ids.map(f);
    lemma_map_size(ids, image, f);
    assert forall|j: int| image.contains(j) implies places.contains(j) by {
        let a = choose|a: int| ids.contains(a) && j == f(a);
        lemma_index_found(players, a as u8, 0);
    }
    assert(image.subset_of(places));
    lemma_subset_equality(image, places);
    assert forall|j: int| 0 <= j < players.len() implies 1 <= (#[trigger] players[j]).id
        <= players.len() by {
        assert(places.contains(j));
        assert(image.contains(j));
        let a = choose|a: int| ids.contains(a) && j == f(a);
        lemma_index_found(players, a as u8, 0);
    }
}

/// When the identifiers are 1 to the number of snakes, each present, and no
/// two snakes share one, the list of alive identifiers is as long as the
/// number of snakes that have not lost.
pub proof fn lemma_alive_census(players: Seq<Snake>)
    requires
        players.len() < 255,
        forall|i: int, j: int| 0 <= i < j < players.len() ==> players[i].id != players[j].id,
        forall|id: u8| 1 <= id <= players.len() ==> index_of_id(players, id, 0) < players.len(),
    ensures
        alive_ids(players, players.len() as int).len() == alive_count(players),
{
    let n = players.len() as int;
    let f = |id: int| index_of_id(players, id as u8, 0);
    let ids = alive_id_set(players, n);
    let places = alive_index_set(players, n);
    lemma_id_set_len(players, n);
    lemma_index_set_len(players, n);
    assert(players.take(n) =~= players);
    lemma_ids_in_range(players);
    assert forall|a: int, b: int| ids.contains(a) && ids.contains(b) && f(a) == f(b) implies a
        == b by {
        lemma_index_found(players, a as u8, 0);
        lemma_index_found(players, b as u8, 0);
    }
    assert(injective_on(f, ids));
    assert forall|j: int| ids.map(f).contains(j) == places.contains(j) by {
        if ids.map(f).contains(j) {
            let a = choose|a: int| ids.contains(a) && j == f(a);
            lemma_index_found(players, a as u8, 0);
        }
        if places.contains(j) {
            let a = players[j].id as int;
            lemma_own_index(players, j, 0);
            assert(ids.contains(a) && j == f(a));
        }
    }
    assert(ids.map(f) =~= places);
    lemma_map_size(ids, places, f);
}

} // verus!
