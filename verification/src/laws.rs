//! Engine-wide laws, stated over the abstract state model and proved
//! from the same definitions the command contracts use.

use vstd::prelude::*;
use vstd::multiset::Multiset;
use crate::cards::{Card, Role, Suit};
use crate::engine::{full_deck, is_fresh, spec_run, StateModel};

verus! {

/// Number of cards of the given role and rank in a sequence.
pub open spec fn count_role_rank(s: Seq<Card>, role: Role, rank: u8) -> int
    decreases s.len(),
{
    if s.len() == 0 {
        0
    } else {
        count_role_rank(s.drop_last(), role, rank) + if s.last().role() == role && s.last().rank
            == rank {
            1int
        } else {
            0int
        }
    }
}

/// The same count read off a multiset: a role picks out one or two
/// concrete suits, so the count is a sum of multiset multiplicities.
pub open spec fn ms_count_role_rank(m: Multiset<Card>, role: Role, rank: u8) -> int {
    match role {
        Role::Monster => m.count(Card { suit: Suit::Spades, rank }) as int + m.count(
            Card { suit: Suit::Clubs, rank },
        ) as int,
        Role::Weapon => m.count(Card { suit: Suit::Diamonds, rank }) as int,
        Role::Potion => m.count(Card { suit: Suit::Hearts, rank }) as int,
    }
}

/// Counting by role and rank only depends on the multiset of cards:
/// shuffling cannot change the deck's composition.
pub proof fn lemma_count_via_multiset(s: Seq<Card>, role: Role, rank: u8)
    ensures
        count_role_rank(s, role, rank) == ms_count_role_rank(s.to_multiset(), role, rank),
    decreases s.len(),
{
    broadcast use vstd::seq_lib::group_to_multiset_ensures;
    broadcast use vstd::multiset::group_multiset_axioms;

    if s.len() == 0 {
        vstd::multiset::lemma_multiset_empty_len::<Card>(s.to_multiset());
    } else {
        lemma_count_via_multiset(s.drop_last(), role, rank);
        assert(s =~= s.drop_last().push(s.last()));
        assert(s.to_multiset() =~= s.drop_last().to_multiset().insert(s.last()));
    }
}

proof fn lemma_count_concat(a: Seq<Card>, b: Seq<Card>, role: Role, rank: u8)
    ensures
        count_role_rank(a + b, role, rank) == count_role_rank(a, role, rank) + count_role_rank(
            b,
            role,
            rank,
        ),
    decreases b.len(),
{
    if b.len() == 0 {
        assert(a + b =~= a);
    } else {
        lemma_count_concat(a, b.drop_last(), role, rank);
        assert((a + b).drop_last() =~= a + b.drop_last());
        assert((a + b).last() == b.last());
    }
}

proof fn lemma_count_run(suit: Suit, lo: int, hi: int, role: Role, rank: u8)
    requires
        2 <= lo,
        hi <= 14,
    ensures
        count_role_rank(spec_run(suit, lo, hi), role, rank) == if suit.spec_role() == role && lo
            <= rank <= hi {
            1int
        } else {
            0int
        },
    decreases hi + 1 - lo,
{
    if lo <= hi {
        lemma_count_run(suit, lo, hi - 1, role, rank);
        let c = Card { suit, rank: hi as u8 };
        assert(spec_run(suit, lo, hi) == spec_run(suit, lo, hi - 1).push(c));
        assert(spec_run(suit, lo, hi).drop_last() =~= spec_run(suit, lo, hi - 1));
        assert(spec_run(suit, lo, hi).last() == c);
    }
}

/// The composition of the full deck: every monster rank 2..=14 occurs
/// exactly twice (once per black suit), every weapon and every potion
/// rank 2..=10 exactly once, and nothing else occurs at all.
pub proof fn lemma_full_deck_composition(rank: u8)
    ensures
        count_role_rank(full_deck(), Role::Monster, rank) == if 2 <= rank <= 14 {
            2int
        } else {
            0int
        },
        count_role_rank(full_deck(), Role::Weapon, rank) == if 2 <= rank <= 10 {
            1int
        } else {
            0int
        },
        count_role_rank(full_deck(), Role::Potion, rank) == if 2 <= rank <= 10 {
            1int
        } else {
            0int
        },
{
    let spades = spec_run(Suit::Spades, 2, 14);
    let clubs = spec_run(Suit::Clubs, 2, 14);
    let hearts = spec_run(Suit::Hearts, 2, 10);
    let diamonds = spec_run(Suit::Diamonds, 2, 10);
    assert forall|role: Role| true implies count_role_rank(full_deck(), role, rank)
        == count_role_rank(spades, role, rank) + count_role_rank(clubs, role, rank)
        + count_role_rank(hearts, role, rank) + count_role_rank(diamonds, role, rank) by {
        lemma_count_concat(spades, clubs, role, rank);
        lemma_count_concat(spades + clubs, hearts, role, rank);
        lemma_count_concat(spades + clubs + hearts, diamonds, role, rank);
    }
    assert forall|suit: Suit, role: Role| true implies count_role_rank(
        spec_run(suit, 2, 14),
        role,
        rank,
    ) == (if suit.spec_role() == role && 2 <= rank <= 14 {
        1int
    } else {
        0int
    }) && count_role_rank(spec_run(suit, 2, 10), role, rank) == (if suit.spec_role() == role && 2
        <= rank <= 10 {
        1int
    } else {
        0int
    }) by {
        lemma_count_run(suit, 2, 14, role, rank);
        lemma_count_run(suit, 2, 10, role, rank);
    }
}

/// A freshly built game holds the full deck and nothing else: room
/// and dungeon together hold 44 cards, with every monster rank twice
/// and every weapon and potion rank once — however the shuffle fell.
pub proof fn lemma_fresh_deck_composition(s: StateModel)
    requires
        is_fresh(s),
    ensures
        s.room.len() + s.dungeon.len() == 44,
        forall|rank: u8| #[trigger]
            count_role_rank(s.room + s.dungeon, Role::Monster, rank) == if 2 <= rank <= 14 {
                2int
            } else {
                0int
            },
        forall|rank: u8| #[trigger]
            count_role_rank(s.room + s.dungeon, Role::Weapon, rank) == if 2 <= rank <= 10 {
                1int
            } else {
                0int
            },
        forall|rank: u8| #[trigger]
            count_role_rank(s.room + s.dungeon, Role::Potion, rank) == if 2 <= rank <= 10 {
                1int
            } else {
                0int
            },
{
    assert forall|role: Role, rank: u8| true implies count_role_rank(s.room + s.dungeon, role, rank)
        == count_role_rank(full_deck(), role, rank) by {
        lemma_count_via_multiset(s.room + s.dungeon, role, rank);
        lemma_count_via_multiset(full_deck(), role, rank);
    }
    assert forall|rank: u8| true implies #[trigger] count_role_rank(
        s.room + s.dungeon,
        Role::Monster,
        rank,
    ) == (if 2 <= rank <= 14 {
        2int
    } else {
        0int
    }) by {
        lemma_full_deck_composition(rank);
    }
    assert forall|rank: u8| true implies #[trigger] count_role_rank(
        s.room + s.dungeon,
        Role::Weapon,
        rank,
    ) == (if 2 <= rank <= 10 {
        1int
    } else {
        0int
    }) by {
        lemma_full_deck_composition(rank);
    }
    assert forall|rank: u8| true implies #[trigger] count_role_rank(
        s.room + s.dungeon,
        Role::Potion,
        rank,
    ) == (if 2 <= rank <= 10 {
        1int
    } else {
        0int
    }) by {
        lemma_full_deck_composition(rank);
    }
}

/// Counts the cards of the given role and rank in a pile.
pub fn count_cards(cards: &Vec<Card>, role: Role, rank: u8) -> (n: usize)
    ensures
        n as int == count_role_rank(cards@, role, rank),
{
    let mut n: usize = 0;
    let mut i: usize = 0;
    while i < cards.len()
        invariant
            i <= cards@.len(),
            n <= i,
            n as int == count_role_rank(cards@.take(i as int), role, rank),
        decreases cards@.len() - i,
    {
        let c = cards[i];
        let role_matches = match role {
            Role::Monster => c.is_monster(),
            Role::Weapon => c.is_weapon(),
            Role::Potion => c.is_potion(),
        };
        if role_matches && c.rank == rank {
            n = n + 1;
        }
        proof {
            assert(cards@.take(i + 1).drop_last() =~= cards@.take(i as int));
            assert(cards@.take(i + 1).last() == cards@[i as int]);
        }
        i = i + 1;
    }
    proof {
        assert(cards@.take(cards@.len() as int) =~= cards@);
    }
    n
}

/// Conservation of cards: every sound state distributes exactly the
/// 44 cards over dungeon, room, discard, trophies and the weapon
/// slot.  Every command's contract returns a sound state — rejected
/// commands return the old one — so this holds after every command.
pub proof fn lemma_inv_conservation(s: StateModel)
    requires
        s.inv(),
    ensures
        s.dungeon.len() + s.room.len() + s.discard.len() + s.trophies.len() + s.weapon_count()
            == 44,
{
}

/// The trophy stack records the weapon's kills in order, and their
/// ranks decrease strictly along the whole stack: weapon monotonicity
/// holds transitively across any sequence of kills.
pub proof fn lemma_trophies_strictly_decreasing(s: StateModel)
    requires
        s.inv(),
    ensures
        forall|i: int, j: int|
            0 <= i < j < s.trophies.len() ==> s.trophies[i].rank > s.trophies[j].rank,
{
}

/// After a weapon-kill of rank `v`, the kill is recorded as the new
/// dulling ceiling, and any later weapon-kill — in the very state the
/// fight produced — is allowed only against a rank strictly below
/// `v`.
pub proof fn lemma_weapon_kill_tightens(s: StateModel, i: int)
    requires
        s.inv(),
        !s.is_over(),
        0 <= i < s.room.len(),
        s.room[i].role() == Role::Monster,
        s.weapon_fight_allowed(i),
    ensures
        s.spec_fight(i, true).weapon matches Option::Some(w) && w.last_monster_slain
            == Option::Some(s.room[i].rank),
        forall|j: int|
            0 <= j < s.spec_fight(i, true).room.len() && s.spec_fight(i, true).weapon_fight_allowed(
                j,
            ) ==> s.spec_fight(i, true).room[j].rank < s.room[i].rank,
{
}

/// A skip never succeeds twice in a row: the state a successful skip
/// returns rejects the next skip, and a rejected skip leaves the room
/// untouched (its contract returns the state unchanged).
pub proof fn lemma_skip_rejected_twice(s: StateModel)
    requires
        s.inv(),
        s.skip_allowed(),
    ensures
        !s.spec_skip().skip_allowed(),
{
}

/// Two potions in the same room before any replenishment: the first
/// heals `min(rank, missing health)`, the second changes no health;
/// both cards end in the discard and each consumes one play.
pub proof fn lemma_second_potion_wasted(s: StateModel, i: int, j: int)
    requires
        s.inv(),
        !s.is_over(),
        s.played == 0,
        !s.potion_used,
        0 <= i < s.room.len(),
        s.room[i].role() == Role::Potion,
        0 <= j < s.spec_play_potion(i).room.len(),
        s.spec_play_potion(i).room[j].role() == Role::Potion,
    ensures
        s.spec_play_potion(i).health == s.health + (if s.room[i].rank as int <= s.max_health
            - s.health {
            s.room[i].rank as int
        } else {
            s.max_health - s.health
        }),
        s.spec_play_potion(i).potion_used,
        s.spec_play_potion(i).spec_play_potion(j).health == s.spec_play_potion(i).health,
        s.spec_play_potion(i).spec_play_potion(j).discard =~= s.discard.push(s.room[i]).push(
            s.spec_play_potion(i).room[j],
        ),
        s.spec_play_potion(i).spec_play_potion(j).played == s.played + 2,
{
    let t1 = s.spec_potion_step(i);
    assert(t1.spec_check_turn() == t1);
    let t2 = t1.spec_potion_step(j);
    assert(t2.spec_check_turn() == t2);
}

} // verus!
