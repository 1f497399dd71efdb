//! The game engine: zones, the turn state machine, combat, scoring
//! and the event log.
//!
//! Every observable state is summarised by the abstract [`StateModel`];
//! the public methods of [`GameState`] promise in their contracts that
//! the concrete state moves exactly as the spec-level transition
//! functions on the model say.

use vstd::prelude::*;
use vstd::string::StringExecFns;
use crate::cards::{Card, Role, Suit, Weapon};
use crate::text::{i32_string, spec_dec, u32_string};

verus! {

/// Where the turn state machine stands.
#[derive(Clone, Copy, PartialEq, Eq, Structural, Debug)]
pub enum Phase {
    /// Normal play.
    Active,
    /// The dungeon is empty and a lone card remains: it must be faced.
    FinalCard,
    /// The game ended, won or lost.
    Over { won: bool },
}

/// Why a command was rejected.  Every rejection leaves the state
/// byte-for-byte unchanged.
#[derive(Clone, Copy, PartialEq, Eq, Structural, Debug)]
pub enum GameError {
    /// Room position out of the current bounds.
    InvalidIndex,
    /// Skip repeated or after a play, play on an empty room, or any
    /// command once the game is over.
    InvalidAction,
    /// Weapon combat chosen with no weapon, or against a monster the
    /// dulled weapon may no longer hit.
    IllegalWeaponUse,
}

/// How a monster fight is resolved.
#[derive(Clone, Copy, PartialEq, Eq, Structural, Debug)]
pub enum CombatMode {
    Barehanded,
    Weapon,
}

/// What `play_card` did.
#[derive(Clone, Copy, PartialEq, Eq, Structural, Debug)]
pub enum PlayOutcome {
    /// The card was played and the state advanced.
    Resolved,
    /// A monster was chosen while a weapon is equipped: the caller
    /// must follow up with `choose_combat_mode`.
    CombatChoice,
}

/// The abstract view of a game state: the zones as sequences, the
/// counters as unbounded integers.  The event log is tracked
/// separately, since its text is narration rather than rule state.
#[verifier::ext_equal]
pub ghost struct StateModel {
    pub dungeon: Seq<Card>,
    pub room: Seq<Card>,
    pub discard: Seq<Card>,
    pub trophies: Seq<Card>,
    pub health: int,
    pub max_health: int,
    pub weapon: Option<Weapon>,
    pub played: int,
    pub potion_used: bool,
    pub just_skipped: bool,
    pub last_heal: Option<u8>,
    pub turn: int,
    pub phase: Phase,
}

/// All cards of the sequence respect their role's rank bounds.
pub open spec fn all_valid(s: Seq<Card>) -> bool {
    forall|i: int| 0 <= i < s.len() ==> (#[trigger] s[i]).valid()
}

/// `b` is `a` with zero or more entries appended: the log is never
/// truncated or rewritten.
pub open spec fn log_extends(a: Seq<String>, b: Seq<String>) -> bool {
    &&& a.len() <= b.len()
    &&& forall|i: int| 0 <= i < a.len() ==> a[i] == b[i]
}

/// The text of a log entry: the message tagged with the turn number.
pub open spec fn spec_log_entry(turn: int, msg: Seq<char>) -> Seq<char> {
    "[Turn "@ + spec_dec(turn) + "] "@ + msg
}

impl StateModel {
    /// 1 when a weapon is equipped, else 0.
    pub open spec fn weapon_count(self) -> int {
        if self.weapon is Some {
            1
        } else {
            0
        }
    }

    /// Cards in all zones plus the weapon slot.
    pub open spec fn card_total(self) -> int {
        self.dungeon.len() + self.room.len() + self.discard.len() + self.trophies.len()
            + self.weapon_count()
    }

    pub open spec fn is_over(self) -> bool {
        self.phase is Over
    }

    pub open spec fn is_won(self) -> bool {
        self.phase matches Phase::Over { won: true }
    }

    pub open spec fn is_lost(self) -> bool {
        self.phase matches Phase::Over { won: false }
    }

    /// Trophies are monsters, stacked in strictly decreasing rank:
    /// each weapon kill had to be strictly weaker than the one before.
    pub open spec fn trophies_ok(self) -> bool {
        &&& forall|i: int|
            0 <= i < self.trophies.len() ==> (#[trigger] self.trophies[i]).role() == Role::Monster
        &&& forall|i: int, j: int|
            0 <= i < j < self.trophies.len() ==> self.trophies[i].rank > self.trophies[j].rank
    }

    /// The weapon slot holds a weapon card; its dulling ceiling is the
    /// rank of the newest trophy, and trophies only exist under an
    /// equipped weapon that has slain something.
    pub open spec fn weapon_ok(self) -> bool {
        match self.weapon {
            Option::None => self.trophies.len() == 0,
            Option::Some(w) => {
                &&& w.card.role() == Role::Weapon
                &&& w.card.valid()
                &&& match w.last_monster_slain {
                    Option::None => self.trophies.len() == 0,
                    Option::Some(v) => self.trophies.len() > 0 && self.trophies.last().rank == v,
                }
            },
        }
    }

    /// Structural soundness of the zones, including conservation of
    /// the 44 cards.
    pub open spec fn zones_ok(self) -> bool {
        &&& all_valid(self.dungeon)
        &&& all_valid(self.room)
        &&& all_valid(self.discard)
        &&& all_valid(self.trophies)
        &&& self.room.len() <= 4
        &&& self.card_total() == 44
        &&& self.trophies_ok()
        &&& self.weapon_ok()
    }

    /// Health stays within 0..=20; it is 0 exactly in a lost game.
    pub open spec fn health_ok(self) -> bool {
        &&& self.max_health == 20
        &&& 0 <= self.health <= self.max_health
        &&& (self.is_lost() ==> self.health == 0)
        &&& (!self.is_lost() ==> self.health >= 1)
    }

    /// Every completed turn moved three cards out of dungeon and room:
    /// ties the turn counter to the zone sizes.
    pub open spec fn turn_eq(self) -> bool {
        3 * (self.turn - 1) + self.played == self.discard.len() + self.trophies.len()
            + self.weapon_count()
    }

    pub open spec fn base_inv(self) -> bool {
        &&& self.zones_ok()
        &&& self.health_ok()
        &&& self.turn >= 1
        &&& 0 <= self.played
        &&& (self.phase is FinalCard ==> self.dungeon.len() == 0 && self.room.len() <= 1)
    }

    /// The invariant of every settled state: what holds between
    /// commands, including immediately after a rejected one.
    pub open spec fn inv(self) -> bool {
        &&& self.base_inv()
        &&& (!self.is_over() ==> self.played <= 2 && self.turn_eq())
        &&& (self.is_over() ==> self.played <= 3 && self.turn <= 15)
    }

    /// The weaker invariant that holds after a card was played but
    /// before the end-of-turn check ran: the played counter may
    /// momentarily stand at 3.
    pub open spec fn step_inv(self) -> bool {
        &&& self.base_inv()
        &&& (!self.is_over() ==> self.played <= 3 && self.turn_eq())
        &&& (self.is_over() ==> self.played <= 3 && self.turn <= 15)
    }

    /// How many cards the next deal will draw.
    pub open spec fn deal_count(self) -> int {
        if self.room.len() >= 4 {
            0
        } else if self.dungeon.len() <= 4 - self.room.len() {
            self.dungeon.len() as int
        } else {
            4 - self.room.len()
        }
    }

    /// Dealing: the front of the dungeon refills the room to four
    /// cards, and the per-room flags reset.
    pub open spec fn spec_deal(self) -> StateModel {
        let k = self.deal_count();
        StateModel {
            room: self.room + self.dungeon.take(k),
            dungeon: self.dungeon.skip(k),
            played: 0,
            potion_used: false,
            last_heal: Option::None,
            ..self
        }
    }

    /// The end-of-turn check: after the third play of a turn the turn
    /// number advances and either the final-card phase begins, the
    /// game is won, or the next room is dealt.
    pub open spec fn spec_check_turn(self) -> StateModel {
        if self.played >= 3 {
            let t = StateModel { turn: self.turn + 1, ..self };
            if t.dungeon.len() == 0 && t.room.len() == 1 {
                StateModel { played: 0, potion_used: false, phase: Phase::FinalCard, ..t }
            } else if t.dungeon.len() == 0 && t.room.len() == 0 {
                StateModel { phase: Phase::Over { won: true }, ..t }
            } else {
                StateModel { just_skipped: false, ..t }.spec_deal()
            }
        } else {
            self
        }
    }

    /// Drinking the potion at room position `i`, before the
    /// end-of-turn check: heals up to the cap once per room, a second
    /// potion is wasted; either way the card is discarded and counts
    /// as a play.
    pub open spec fn spec_potion_step(self, i: int) -> StateModel {
        let c = self.room[i];
        if self.potion_used {
            StateModel {
                room: self.room.remove(i),
                discard: self.discard.push(c),
                played: self.played + 1,
                ..self
            }
        } else {
            let cap = self.max_health - self.health;
            let heal = if c.rank as int <= cap {
                c.rank as int
            } else {
                cap
            };
            StateModel {
                room: self.room.remove(i),
                discard: self.discard.push(c),
                health: self.health + heal,
                potion_used: true,
                last_heal: Option::Some(c.rank),
                played: self.played + 1,
                ..self
            }
        }
    }

    pub open spec fn spec_play_potion(self, i: int) -> StateModel {
        self.spec_potion_step(i).spec_check_turn()
    }

    /// Equipping the weapon at room position `i`, before the
    /// end-of-turn check: the old weapon and its trophies go to the
    /// discard, the new weapon starts at full durability.
    pub open spec fn spec_weapon_step(self, i: int) -> StateModel {
        let c = self.room[i];
        let d = match self.weapon {
            Option::Some(w) => self.discard.push(w.card) + self.trophies,
            Option::None => self.discard,
        };
        StateModel {
            room: self.room.remove(i),
            discard: d,
            trophies: Seq::empty(),
            weapon: Option::Some(Weapon { card: c, last_monster_slain: Option::None }),
            last_heal: Option::None,
            played: self.played + 1,
            ..self
        }
    }

    pub open spec fn spec_play_weapon(self, i: int) -> StateModel {
        self.spec_weapon_step(i).spec_check_turn()
    }

    /// The equipped weapon may still hit a monster of this rank.
    pub open spec fn weapon_can_hit(self, rank: u8) -> bool {
        match self.weapon {
            Option::Some(w) => w.spec_can_use_against(rank),
            Option::None => false,
        }
    }

    /// The weapon may be used against room position `i` only if one is
    /// equipped and the monster is strictly below the dulling ceiling.
    pub open spec fn weapon_fight_allowed(self, i: int) -> bool {
        self.weapon_can_hit(self.room[i].rank)
    }

    /// Fighting the monster at room position `i`, before the death and
    /// end-of-turn checks.  Barehanded: full damage, monster
    /// discarded.  With the weapon: damage reduced by the weapon's
    /// rank, monster stacked as a trophy, ceiling lowered to its rank.
    pub open spec fn spec_fight_step(self, i: int, use_weapon: bool) -> StateModel {
        let c = self.room[i];
        if use_weapon {
            match self.weapon {
                Option::Some(w) => {
                    let dmg = if c.rank >= w.card.rank {
                        c.rank - w.card.rank
                    } else {
                        0
                    };
                    StateModel {
                        room: self.room.remove(i),
                        trophies: self.trophies.push(c),
                        weapon: Option::Some(
                            Weapon { card: w.card, last_monster_slain: Option::Some(c.rank) },
                        ),
                        health: self.health - dmg,
                        last_heal: Option::None,
                        played: self.played + 1,
                        ..self
                    }
                },
                Option::None => self,
            }
        } else {
            StateModel {
                room: self.room.remove(i),
                discard: self.discard.push(c),
                health: self.health - c.rank,
                last_heal: Option::None,
                played: self.played + 1,
                ..self
            }
        }
    }

    /// A whole fight: if the damage empties the health bar the game is
    /// lost at once, health clamped to 0; otherwise the end-of-turn
    /// check runs.
    pub open spec fn spec_fight(self, i: int, use_weapon: bool) -> StateModel {
        let t = self.spec_fight_step(i, use_weapon);
        if t.health <= 0 {
            StateModel { health: 0, phase: Phase::Over { won: false }, ..t }
        } else {
            t.spec_check_turn()
        }
    }

    /// Skipping is allowed once per room, and only before any play.
    pub open spec fn skip_allowed(self) -> bool {
        &&& !self.is_over()
        &&& !self.just_skipped
        &&& self.played == 0
    }

    /// Skipping: the whole room goes to the back of the dungeon in
    /// order, and a fresh room is dealt at once.
    pub open spec fn spec_skip(self) -> StateModel {
        StateModel {
            dungeon: self.dungeon + self.room,
            room: Seq::empty(),
            just_skipped: true,
            ..self
        }.spec_deal()
    }

    /// The final score.  Won: health, plus the rank of the last potion
    /// as a bonus when at full health.  Otherwise: health minus the
    /// ranks of all monsters still unseen in dungeon and room.
    pub open spec fn spec_score(self) -> int {
        if self.is_won() {
            self.health + match self.last_heal {
                Option::Some(r) => if self.health == self.max_health {
                    r as int
                } else {
                    0
                },
                Option::None => 0,
            }
        } else {
            self.health - monster_sum(self.dungeon) - monster_sum(self.room)
        }
    }
}

/// A play command names a position the current room really has, and
/// the game is still running.
pub open spec fn play_accepted(s: StateModel, i: int) -> bool {
    &&& !s.is_over()
    &&& s.room.len() > 0
    &&& 0 <= i < s.room.len()
}

/// Sum of the ranks of the monster cards of the sequence.
pub open spec fn monster_sum(s: Seq<Card>) -> int
    decreases s.len(),
{
    if s.len() == 0 {
        0
    } else {
        monster_sum(s.drop_last()) + if s.last().role() == Role::Monster {
            s.last().rank as int
        } else {
            0
    }
    }
}

/// The cards of one suit with ranks `lo..=hi`, in rank order.
pub open spec fn spec_run(suit: Suit, lo: int, hi: int) -> Seq<Card>
    decreases hi + 1 - lo,
{
    if lo > hi {
        Seq::empty()
    } else {
        spec_run(suit, lo, hi - 1).push(Card { suit, rank: hi as u8 })
    }
}

/// The full 44-card deck in construction order: two monster suits with
/// ranks 2..=14, a potion suit and a weapon suit with ranks 2..=10.
pub open spec fn full_deck() -> Seq<Card> {
    spec_run(Suit::Spades, 2, 14) + spec_run(Suit::Clubs, 2, 14) + spec_run(Suit::Hearts, 2, 10)
        + spec_run(Suit::Diamonds, 2, 10)
}

pub proof fn lemma_run_shape(suit: Suit, lo: int, hi: int)
    requires
        2 <= lo,
        hi <= 14,
    ensures
        spec_run(suit, lo, hi).len() == if lo <= hi {
            hi - lo + 1
        } else {
            0
        },
        forall|i: int|
            0 <= i < spec_run(suit, lo, hi).len() ==> #[trigger] spec_run(suit, lo, hi)[i] == (Card {
                suit,
                rank: (lo + i) as u8,
            }),
    decreases hi + 1 - lo,
{
    if lo <= hi {
        lemma_run_shape(suit, lo, hi - 1);
    }
}

/// Every card of the full deck respects its rank bounds.
pub proof fn lemma_full_deck_valid()
    ensures
        full_deck().len() == 44,
        all_valid(full_deck()),
{
    lemma_run_shape(Suit::Spades, 2, 14);
    lemma_run_shape(Suit::Clubs, 2, 14);
    lemma_run_shape(Suit::Hearts, 2, 10);
    lemma_run_shape(Suit::Diamonds, 2, 10);
    assert forall|i: int| 0 <= i < full_deck().len() implies (
    #[trigger] full_deck()[i]).valid() by {}
}

/// Deterministic facts about a freshly built game, whatever order the
/// shuffle produced: full health, empty discard, a four-card room, and
/// room plus dungeon holding exactly the full deck.
pub open spec fn is_fresh(s: StateModel) -> bool {
    &&& (s.room + s.dungeon).to_multiset() == full_deck().to_multiset()
    &&& s.room.len() == 4
    &&& s.dungeon.len() == 40
    &&& s.discard.len() == 0
    &&& s.trophies.len() == 0
    &&& s.weapon is None
    &&& s.health == 20
    &&& s.max_health == 20
    &&& s.played == 0
    &&& !s.potion_used
    &&& !s.just_skipped
    &&& s.last_heal is None
    &&& s.turn == 1
    &&& s.phase == Phase::Active
}

proof fn lemma_all_valid_remove(s: Seq<Card>, i: int)
    requires
        all_valid(s),
        0 <= i < s.len(),
    ensures
        all_valid(s.remove(i)),
{
    assert forall|j: int| 0 <= j < s.remove(i).len() implies (#[trigger] s.remove(i)[j]).valid() by {
        if j < i {
            assert(s.remove(i)[j] == s[j]);
        } else {
            assert(s.remove(i)[j] == s[j + 1]);
        }
    }
}

proof fn lemma_all_valid_push(s: Seq<Card>, c: Card)
    requires
        all_valid(s),
        c.valid(),
    ensures
        all_valid(s.push(c)),
{
    assert forall|j: int| 0 <= j < s.push(c).len() implies (#[trigger] s.push(c)[j]).valid() by {
        if j < s.len() {
            assert(s.push(c)[j] == s[j]);
        } else {
            assert(s.push(c)[j] == c);
        }
    }
}

proof fn lemma_all_valid_concat(a: Seq<Card>, b: Seq<Card>)
    requires
        all_valid(a),
        all_valid(b),
    ensures
        all_valid(a + b),
{
    assert forall|j: int| 0 <= j < (a + b).len() implies (#[trigger] (a + b)[j]).valid() by {
        if j < a.len() {
            assert((a + b)[j] == a[j]);
        } else {
            assert((a + b)[j] == b[j - a.len()]);
        }
    }
}

/// What `deal_room` needs: a sound running state whose turn counter
/// already accounts for the three plays of the finished turn (or for
/// none, at the start of a room).
pub open spec fn deal_pre(s: StateModel) -> bool {
    &&& s.zones_ok()
    &&& s.health_ok()
    &&& s.turn >= 1
    &&& !s.is_over()
    &&& 3 * (s.turn - 1) == s.discard.len() + s.trophies.len() + s.weapon_count()
    &&& (s.phase is FinalCard ==> s.dungeon.len() + s.room.len() <= 1)
}

/// The whole game state.  Fields are public: they are the read-only
/// query surface; all mutation goes through the command methods.
pub struct GameState {
    /// Face-down draw pile, front card drawn first.
    pub dungeon: Vec<Card>,
    /// The up-to-four cards currently facing the player.
    pub room: Vec<Card>,
    /// Spent cards.
    pub discard: Vec<Card>,
    /// Monsters slain by the current weapon, newest last.
    pub trophies: Vec<Card>,
    pub health: i32,
    pub max_health: i32,
    pub weapon: Option<Weapon>,
    pub played_this_turn: u8,
    pub potion_used_this_room: bool,
    pub just_skipped: bool,
    /// Rank of the potion drunk by the most recent successful action,
    /// if that action was a non-wasted heal.
    pub last_action_was_heal: Option<u8>,
    pub turn_number: u32,
    pub phase: Phase,
    /// Append-only narration of everything that happened.
    pub log: Vec<String>,
}

impl View for GameState {
    type V = StateModel;

    open spec fn view(&self) -> StateModel {
        StateModel {
            dungeon: self.dungeon@,
            room: self.room@,
            discard: self.discard@,
            trophies: self.trophies@,
            health: self.health as int,
            max_health: self.max_health as int,
            weapon: self.weapon,
            played: self.played_this_turn as int,
            potion_used: self.potion_used_this_room,
            just_skipped: self.just_skipped,
            last_heal: self.last_action_was_heal,
            turn: self.turn_number as int,
            phase: self.phase,
        }
    }
}

/// Relies on rand's `SliceRandom::shuffle` (a Fisher–Yates pass of
/// in-place swaps driven by the thread-local generator): it permutes
/// the slice in place, so the cards are unchanged as a multiset.
#[verifier::external_body]
fn shuffle_cards(cards: &mut Vec<Card>)
    ensures
        final(cards)@.len() == old(cards)@.len(),
        final(cards)@.to_multiset() == old(cards)@.to_multiset(),
{
    let mut rng = rand::thread_rng();
    rand::seq::SliceRandom::shuffle(cards.as_mut_slice(), &mut rng);
}

/// Appends the cards `suit lo ..= suit hi` in rank order.
fn push_run(v: &mut Vec<Card>, suit: Suit, lo: u8, hi: u8)
    requires
        2 <= lo <= hi,
        hi <= 14,
    ensures
        final(v)@ == old(v)@ + spec_run(suit, lo as int, hi as int),
{
    let mut r: u8 = lo;
    proof {
        assert(v@ =~= old(v)@ + spec_run(suit, lo as int, lo as int - 1));
    }
    while r <= hi
        invariant
            2 <= lo <= r <= hi + 1,
            hi <= 14,
            v@ == old(v)@ + spec_run(suit, lo as int, r as int - 1),
        decreases hi + 1 - r,
    {
        v.push(Card { suit, rank: r });
        proof {
            assert(v@ =~= old(v)@ + spec_run(suit, lo as int, r as int));
        }
        r = r + 1;
    }
}

impl GameState {
    /// The settled-state invariant, seen from the concrete state.
    pub open spec fn wf(self) -> bool {
        self@.inv()
    }

    /// Appends `msg` to the log, tagged with the current turn number.
    pub fn log(&mut self, msg: String)
        ensures
            final(self)@ == old(self)@,
            final(self).log@.len() == old(self).log@.len() + 1,
            forall|i: int|
                0 <= i < old(self).log@.len() ==> final(self).log@[i] == old(self).log@[i],
            final(self).log@.last()@ == spec_log_entry(old(self).turn_number as int, msg@),
    {
        let mut entry = "[Turn ".to_owned();
        let t = u32_string(self.turn_number);
        entry.append(t.as_str());
        entry.append("] ");
        entry.append(msg.as_str());
        proof {
            assert(entry@ =~= spec_log_entry(self.turn_number as int, msg@));
        }
        self.log.push(entry);
    }

    /// The card displays of the room, comma-separated.
    fn room_listing(&self) -> String {
        let mut s = String::new();
        let mut i: usize = 0;
        while i < self.room.len()
            invariant
                i <= self.room@.len(),
            decreases self.room@.len() - i,
        {
            if i > 0 {
                s.append(", ");
            }
            let d = self.room[i].display();
            s.append(d.as_str());
            i = i + 1;
        }
        s
    }

    /// Refills the room to four cards from the front of the dungeon,
    /// preserving draw order, resets the per-room flags, and narrates
    /// the freshly visible room.
    pub fn deal_room(&mut self)
        requires
            deal_pre(old(self)@),
        ensures
            final(self)@ == old(self)@.spec_deal(),
            final(self).wf(),
            log_extends(old(self).log@, final(self).log@),
    {
        let ghost s0 = self@;
        let ghost mut n: int = 0;
        while self.room.len() < 4 && self.dungeon.len() > 0
            invariant
                deal_pre(s0),
                0 <= n <= s0.dungeon.len(),
                self.dungeon@ == s0.dungeon.skip(n),
                self.room@ == s0.room + s0.dungeon.take(n),
                self.room@.len() <= 4,
                self.discard@ == s0.discard,
                self.trophies@ == s0.trophies,
                self.health as int == s0.health,
                self.max_health as int == s0.max_health,
                self.weapon == s0.weapon,
                self.played_this_turn as int == s0.played,
                self.potion_used_this_room == s0.potion_used,
                self.just_skipped == s0.just_skipped,
                self.last_action_was_heal == s0.last_heal,
                self.turn_number as int == s0.turn,
                self.phase == s0.phase,
                self.log@ == old(self).log@,
            decreases self.dungeon@.len(),
        {
            let c = self.dungeon.remove(0);
            self.room.push(c);
            proof {
                assert(s0.dungeon.skip(n).remove(0) =~= s0.dungeon.skip(n + 1));
                assert((s0.room + s0.dungeon.take(n)).push(s0.dungeon.skip(n)[0]) =~= s0.room
                    + s0.dungeon.take(n + 1));
                n = n + 1;
            }
        }
        proof {
            assert(n == s0.deal_count());
        }
        self.played_this_turn = 0;
        self.potion_used_this_room = false;
        self.last_action_was_heal = Option::None;
        if self.room.len() > 0 {
            let listing = self.room_listing();
            let mut m = "Entered room: ".to_owned();
            m.append(listing.as_str());
            self.log(m);
        }
        proof {
            assert(self@ =~= s0.spec_deal());
            let t = s0.spec_deal();
            assert forall|i: int| 0 <= i < t.room.len() implies (#[trigger] t.room[i]).valid() by {
                if i < s0.room.len() {
                    assert(t.room[i] == s0.room[i]);
                } else {
                    assert(t.room[i] == s0.dungeon[i - s0.room.len()]);
                }
            }
            assert forall|i: int| 0 <= i < t.dungeon.len() implies (
            #[trigger] t.dungeon[i]).valid() by {
                assert(t.dungeon[i] == s0.dungeon[i + s0.deal_count()]);
            }
        }
    }

    /// The final score: health when the game was won — plus the rank
    /// of the last potion if it was drunk at full health — and health
    /// minus all unseen monster ranks otherwise.
    pub fn calculate_score(&self) -> (r: i32)
        requires
            self@.zones_ok(),
            self@.health_ok(),
        ensures
            r as int == self@.spec_score(),
    {
        if matches!(self.phase, Phase::Over { won: true }) {
            let mut score = self.health;
            if self.health == self.max_health {
                if let Option::Some(rk) = self.last_action_was_heal {
                    score = score + rk as i32;
                }
            }
            score
        } else {
            let ghost s = self@;
            let mut total: i32 = 0;
            let mut i: usize = 0;
            while i < self.dungeon.len()
                invariant
                    s == self@,
                    s.zones_ok(),
                    i <= s.dungeon.len(),
                    0 <= total as int <= 14 * i,
                    total as int == monster_sum(s.dungeon.take(i as int)),
                decreases s.dungeon.len() - i,
            {
                let c = self.dungeon[i];
                if c.is_monster() {
                    total = total + c.rank as i32;
                }
                proof {
                    assert(s.dungeon.take(i + 1).drop_last() =~= s.dungeon.take(i as int));
                    assert(s.dungeon.take(i + 1).last() == s.dungeon[i as int]);
                }
                i = i + 1;
            }
            proof {
                assert(s.dungeon.take(s.dungeon.len() as int) =~= s.dungeon);
            }
            let mut j: usize = 0;
            while j < self.room.len()
                invariant
                    s == self@,
                    s.zones_ok(),
                    j <= s.room.len(),
                    0 <= total as int <= 14 * (s.dungeon.len() + j),
                    total as int == monster_sum(s.dungeon) + monster_sum(s.room.take(j as int)),
                decreases s.room.len() - j,
            {
                let c = self.room[j];
                if c.is_monster() {
                    total = total + c.rank as i32;
                }
                proof {
                    assert(s.room.take(j + 1).drop_last() =~= s.room.take(j as int));
                    assert(s.room.take(j + 1).last() == s.room[j as int]);
                }
                j = j + 1;
            }
            proof {
                assert(s.room.take(s.room.len() as int) =~= s.room);
            }
            self.health - total
        }
    }

    /// The end-of-turn check: after the third play the turn number
    /// advances, then either the lone final card must be faced, the
    /// emptied dungeon means victory, or the next room is dealt.
    pub fn check_turn_complete(&mut self)
        requires
            old(self)@.step_inv(),
            !old(self)@.is_over(),
        ensures
            final(self)@ == old(self)@.spec_check_turn(),
            final(self)@.inv(),
            log_extends(old(self).log@, final(self).log@),
    {
        if self.played_this_turn >= 3 {
            proof {
                assert(self@.discard.len() + self@.trophies.len() + self@.weapon_count() <= 44);
            }
            self.turn_number = self.turn_number + 1;
            if self.dungeon.len() == 0 && self.room.len() == 1 {
                self.played_this_turn = 0;
                self.potion_used_this_room = false;
                self.phase = Phase::FinalCard;
                proof {
                    assert(self@ =~= old(self)@.spec_check_turn());
                }
            } else if self.dungeon.len() == 0 && self.room.len() == 0 {
                self.phase = Phase::Over { won: true };
                let sc = self.calculate_score();
                let mut m = "VICTORY! Score: ".to_owned();
                let sc_str = i32_string(sc);
                m.append(sc_str.as_str());
                self.log(m);
                proof {
                    assert(self@ =~= old(self)@.spec_check_turn());
                }
            } else {
                self.just_skipped = false;
                self.deal_room();
                proof {
                    assert(self@ =~= old(self)@.spec_check_turn());
                }
            }
        }
    }

    /// A fresh game: the shuffled 44-card dungeon, full health, and
    /// the first room dealt.
    pub fn new() -> (s: GameState)
        ensures
            s.wf(),
            is_fresh(s@),
            s.log@.len() >= 1,
    {
        let mut state = GameState {
            dungeon: Vec::new(),
            room: Vec::new(),
            discard: Vec::new(),
            trophies: Vec::new(),
            health: 20,
            max_health: 20,
            weapon: Option::None,
            played_this_turn: 0,
            potion_used_this_room: false,
            just_skipped: false,
            last_action_was_heal: Option::None,
            turn_number: 1,
            phase: Phase::Active,
            log: Vec::new(),
        };
        state.dungeon = shuffled_deck();
        state.log("Entered the dungeon with 20 HP".to_owned());
        let ghost before = state@;
        state.deal_room();
        proof {
            assert(state@.room + state@.dungeon =~= before.dungeon);
        }
        state
    }

    /// Drinks the potion at `index`: heals `min(rank, missing health)`
    /// once per room; a second potion in the same room is wasted.
    /// Either way the card is discarded and one play is consumed.
    pub fn play_potion(&mut self, index: usize)
        requires
            old(self).wf(),
            !old(self)@.is_over(),
            index < old(self).room@.len(),
            old(self).room@[index as int].role() == Role::Potion,
        ensures
            final(self)@ == old(self)@.spec_play_potion(index as int),
            final(self).wf(),
            log_extends(old(self).log@, final(self).log@),
    {
        let ghost s0 = self@;
        let card = self.room.remove(index);
        if self.potion_used_this_room {
            let mut m = "Wasted ".to_owned();
            let d = card.display();
            m.append(d.as_str());
            m.append(" (already used potion)");
            self.log(m);
        } else {
            let cap = self.max_health - self.health;
            let heal = if (card.rank as i32) <= cap {
                card.rank as i32
            } else {
                cap
            };
            self.health = self.health + heal;
            self.potion_used_this_room = true;
            self.last_action_was_heal = Option::Some(card.rank);
            let mut m = "Drank ".to_owned();
            let d = card.display();
            m.append(d.as_str());
            m.append(", healed ");
            let h = u32_string(heal as u32);
            m.append(h.as_str());
            m.append(" HP (now ");
            let hp = i32_string(self.health);
            m.append(hp.as_str());
            m.append(" HP)");
            self.log(m);
        }
        self.discard.push(card);
        self.played_this_turn = self.played_this_turn + 1;
        proof {
            assert(self@ =~= s0.spec_potion_step(index as int));
            lemma_all_valid_remove(s0.room, index as int);
            lemma_all_valid_push(s0.discard, s0.room[index as int]);
        }
        self.check_turn_complete();
    }

    /// Equips the weapon at `index`.  A previously equipped weapon and
    /// all its trophies go to the discard; the new weapon starts at
    /// full durability.  Consumes one play.
    pub fn play_weapon(&mut self, index: usize)
        requires
            old(self).wf(),
            !old(self)@.is_over(),
            index < old(self).room@.len(),
            old(self).room@[index as int].role() == Role::Weapon,
        ensures
            final(self)@ == old(self)@.spec_play_weapon(index as int),
            final(self).wf(),
            log_extends(old(self).log@, final(self).log@),
    {
        let ghost s0 = self@;
        let card = self.room.remove(index);
        match self.weapon {
            Option::Some(old_w) => {
                self.discard.push(old_w.card);
                self.discard.append(&mut self.trophies);
                let mut m = "Discarded ".to_owned();
                let d_old = old_w.card.display();
                m.append(d_old.as_str());
                m.append(", equipped ");
                let d_new = card.display();
                m.append(d_new.as_str());
                self.log(m);
            },
            Option::None => {
                let mut m = "Equipped ".to_owned();
                let d_new = card.display();
                m.append(d_new.as_str());
                self.log(m);
            },
        }
        self.weapon = Option::Some(Weapon { card, last_monster_slain: Option::None });
        self.last_action_was_heal = Option::None;
        self.played_this_turn = self.played_this_turn + 1;
        proof {
            if s0.weapon is None {
                assert(self.trophies@ =~= Seq::<Card>::empty());
            }
            assert(self@ =~= s0.spec_weapon_step(index as int));
            lemma_all_valid_remove(s0.room, index as int);
            match s0.weapon {
                Option::Some(w) => {
                    lemma_all_valid_push(s0.discard, w.card);
                    lemma_all_valid_concat(s0.discard.push(w.card), s0.trophies);
                },
                Option::None => {},
            }
        }
        self.check_turn_complete();
    }

    /// Whether the equipped weapon may be used against this card: it
    /// must exist and the card must be strictly below its ceiling.
    pub fn can_use_weapon_on(&self, card: &Card) -> (r: bool)
        ensures
            r == self@.weapon_can_hit(card.rank),
    {
        match self.weapon {
            Option::Some(w) => w.can_use_against(card.rank),
            Option::None => false,
        }
    }

    /// Fights the monster at `index`.  Barehanded costs its full rank
    /// in health and discards it; the weapon reduces damage by its
    /// rank, stacks the monster as a trophy and dulls to its rank.  If
    /// health is exhausted the game is lost on the spot; otherwise the
    /// end-of-turn check runs.  Consumes one play.
    pub fn fight_monster(&mut self, index: usize, use_weapon: bool)
        requires
            old(self).wf(),
            !old(self)@.is_over(),
            index < old(self).room@.len(),
            old(self).room@[index as int].role() == Role::Monster,
            use_weapon ==> old(self)@.weapon_fight_allowed(index as int),
        ensures
            final(self)@ == old(self)@.spec_fight(index as int, use_weapon),
            final(self).wf(),
            log_extends(old(self).log@, final(self).log@),
    {
        let ghost s0 = self@;
        let card = self.room.remove(index);
        let damage: i32;
        if use_weapon {
            let w = self.weapon.unwrap();
            let d = card.rank as i32 - w.card.rank as i32;
            damage = if d > 0 {
                d
            } else {
                0
            };
            self.weapon = Option::Some(
                Weapon { card: w.card, last_monster_slain: Option::Some(card.rank) },
            );
            self.trophies.push(card);
            let mut m = "Killed ".to_owned();
            let d_card = card.display();
            m.append(d_card.as_str());
            m.append(" with ");
            let d_w = w.card.display();
            m.append(d_w.as_str());
            m.append(", took ");
            let dmg_str = i32_string(damage);
            m.append(dmg_str.as_str());
            m.append(" dmg (now ");
            let hp = i32_string(self.health - damage);
            m.append(hp.as_str());
            m.append(" HP)");
            self.log(m);
        } else {
            damage = card.rank as i32;
            self.discard.push(card);
            let mut m = "Fought ".to_owned();
            let d_card = card.display();
            m.append(d_card.as_str());
            m.append(" barehanded, took ");
            let dmg_str = i32_string(damage);
            m.append(dmg_str.as_str());
            m.append(" dmg (now ");
            let hp = i32_string(self.health - damage);
            m.append(hp.as_str());
            m.append(" HP)");
            self.log(m);
        }
        self.health = self.health - damage;
        self.last_action_was_heal = Option::None;
        self.played_this_turn = self.played_this_turn + 1;
        proof {
            assert(self@ =~= s0.spec_fight_step(index as int, use_weapon));
            lemma_all_valid_remove(s0.room, index as int);
            if use_weapon {
                let c = s0.room[index as int];
                lemma_all_valid_push(s0.trophies, c);
                assert forall|i: int, j: int|
                    0 <= i < j < self.trophies@.len() implies self.trophies@[i].rank
                    > self.trophies@[j].rank by {
                    if j < s0.trophies.len() {
                        assert(self.trophies@[i] == s0.trophies[i]);
                        assert(self.trophies@[j] == s0.trophies[j]);
                    } else {
                        assert(self.trophies@[j] == c);
                        assert(self.trophies@[i] == s0.trophies[i]);
                        let v = s0.weapon.unwrap().last_monster_slain.unwrap();
                        assert(s0.trophies[s0.trophies.len() - 1].rank == v);
                        if i < s0.trophies.len() - 1 {
                            assert(s0.trophies[i].rank > s0.trophies[s0.trophies.len() - 1].rank);
                        }
                    }
                }
            } else {
                lemma_all_valid_push(s0.discard, s0.room[index as int]);
            }
        }
        if self.health <= 0 {
            self.health = 0;
            self.phase = Phase::Over { won: false };
            self.log("DIED!".to_owned());
            proof {
                assert(self@ =~= s0.spec_fight(index as int, use_weapon));
                assert(3 * (s0.turn - 1) <= 44);
            }
        } else {
            self.check_turn_complete();
        }
    }

    /// Returns the whole room to the back of the dungeon, in order,
    /// and deals afresh.  Rejected — leaving the state untouched —
    /// after a previous skip with no play in between, after any play
    /// this room, or once the game is over.
    pub fn skip_room(&mut self) -> (r: Result<(), GameError>)
        requires
            old(self).wf(),
        ensures
            final(self).wf(),
            log_extends(old(self).log@, final(self).log@),
            old(self)@.skip_allowed() ==> r == Ok::<(), GameError>(()) && final(self)@ == old(
                self,
            )@.spec_skip(),
            !old(self)@.skip_allowed() ==> r == Err::<(), GameError>(GameError::InvalidAction)
                && *final(self) == *old(self),
    {
        if matches!(self.phase, Phase::Over { .. }) {
            return Err(GameError::InvalidAction);
        }
        if self.just_skipped {
            return Err(GameError::InvalidAction);
        }
        if self.played_this_turn > 0 {
            return Err(GameError::InvalidAction);
        }
        let ghost s0 = self@;
        let listing = self.room_listing();
        self.dungeon.append(&mut self.room);
        self.just_skipped = true;
        let mut m = "Skipped room (".to_owned();
        m.append(listing.as_str());
        m.append(")");
        self.log(m);
        proof {
            lemma_all_valid_concat(s0.dungeon, s0.room);
            assert(self@ =~= StateModel {
                dungeon: s0.dungeon + s0.room,
                room: Seq::empty(),
                just_skipped: true,
                ..s0
            });
        }
        self.deal_room();
        Ok(())
    }

    /// The single mutation entry point for playing a card: dispatches
    /// on the card's role.  A potion or weapon resolves at once; a
    /// monster resolves barehanded when no weapon is equipped, and
    /// otherwise asks the caller to choose a combat mode.  Rejections
    /// leave the state untouched.
    pub fn play_card(&mut self, room_index: usize) -> (r: Result<PlayOutcome, GameError>)
        requires
            old(self).wf(),
        ensures
            final(self).wf(),
            log_extends(old(self).log@, final(self).log@),
            old(self)@.is_over() ==> r == Err::<PlayOutcome, GameError>(GameError::InvalidAction) && *final(self) == *old(self),
            !old(self)@.is_over() && old(self).room@.len() == 0 ==> r == Err::<PlayOutcome, GameError>(GameError::InvalidAction) && *final(self) == *old(self),
            !old(self)@.is_over() && old(self).room@.len() > 0 && room_index >= old(self).room@.len() ==> r == Err::<PlayOutcome, GameError>(GameError::InvalidIndex) && *final(self) == *old(self),
            play_accepted(old(self)@, room_index as int) ==> (match old(self).room@[room_index as int].role() {
                Role::Potion => r == Ok::<PlayOutcome, GameError>(PlayOutcome::Resolved) && final(self)@ == old(self)@.spec_play_potion(room_index as int),
                Role::Weapon => r == Ok::<PlayOutcome, GameError>(PlayOutcome::Resolved) && final(self)@ == old(self)@.spec_play_weapon(room_index as int),
                Role::Monster => if old(self)@.weapon is Some {
                    r == Ok::<PlayOutcome, GameError>(PlayOutcome::CombatChoice) && *final(self) == *old(self)
                } else {
                    r == Ok::<PlayOutcome, GameError>(PlayOutcome::Resolved) && final(self)@ == old(self)@.spec_fight(room_index as int, false)
                },
            }),
    {
        if matches!(self.phase, Phase::Over { .. }) {
            return Err(GameError::InvalidAction);
        }
        if self.room.len() == 0 {
            return Err(GameError::InvalidAction);
        }
        if room_index >= self.room.len() {
            return Err(GameError::InvalidIndex);
        }
        let card = self.room[room_index];
        if card.is_potion() {
            self.play_potion(room_index);
            Ok(PlayOutcome::Resolved)
        } else if card.is_weapon() {
            self.play_weapon(room_index);
            Ok(PlayOutcome::Resolved)
        } else if self.weapon.is_none() {
            self.fight_monster(room_index, false);
            Ok(PlayOutcome::Resolved)
        } else {
            Ok(PlayOutcome::CombatChoice)
        }
    }

    /// Resolves a monster fight in the chosen mode.  Weapon mode is
    /// rejected as `IllegalWeaponUse` when no weapon is equipped or
    /// the monster is not strictly below the dulling ceiling; naming a
    /// non-monster card is rejected as `InvalidAction`.  Rejections
    /// leave the state untouched.
    pub fn choose_combat_mode(&mut self, room_index: usize, mode: CombatMode) -> (r: Result<(), GameError>)
        requires
            old(self).wf(),
        ensures
            final(self).wf(),
            log_extends(old(self).log@, final(self).log@),
            old(self)@.is_over() ==> r == Err::<(), GameError>(GameError::InvalidAction) && *final(self) == *old(self),
            !old(self)@.is_over() && old(self).room@.len() == 0 ==> r == Err::<(), GameError>(GameError::InvalidAction) && *final(self) == *old(self),
            !old(self)@.is_over() && old(self).room@.len() > 0 && room_index >= old(self).room@.len() ==> r == Err::<(), GameError>(GameError::InvalidIndex) && *final(self) == *old(self),
            play_accepted(old(self)@, room_index as int) && old(self).room@[room_index as int].role() != Role::Monster ==> r == Err::<(), GameError>(GameError::InvalidAction) && *final(self) == *old(self),
            play_accepted(old(self)@, room_index as int) && old(self).room@[room_index as int].role() == Role::Monster && mode is Weapon && !old(self)@.weapon_fight_allowed(room_index as int) ==> r == Err::<(), GameError>(GameError::IllegalWeaponUse) && *final(self) == *old(self),
            play_accepted(old(self)@, room_index as int) && old(self).room@[room_index as int].role() == Role::Monster && mode is Weapon && old(self)@.weapon_fight_allowed(room_index as int) ==> r == Ok::<(), GameError>(()) && final(self)@ == old(self)@.spec_fight(room_index as int, true),
            play_accepted(old(self)@, room_index as int) && old(self).room@[room_index as int].role() == Role::Monster && mode is Barehanded ==> r == Ok::<(), GameError>(()) && final(self)@ == old(self)@.spec_fight(room_index as int, false),
    {
        if matches!(self.phase, Phase::Over { .. }) {
            return Err(GameError::InvalidAction);
        }
        if self.room.len() == 0 {
            return Err(GameError::InvalidAction);
        }
        if room_index >= self.room.len() {
            return Err(GameError::InvalidIndex);
        }
        let card = self.room[room_index];
        if !card.is_monster() {
            return Err(GameError::InvalidAction);
        }
        match mode {
            CombatMode::Weapon => {
                if !self.can_use_weapon_on(&card) {
                    return Err(GameError::IllegalWeaponUse);
                }
                self.fight_monster(room_index, true);
                Ok(())
            },
            CombatMode::Barehanded => {
                self.fight_monster(room_index, false);
                Ok(())
            },
        }
    }

    /// Abandons the current game and starts a fresh one.
    pub fn reset(&mut self)
        ensures
            final(self).wf(),
            is_fresh(final(self)@),
    {
        *self = GameState::new();
    }
}

/// Builds the 44-card deck and shuffles it.
fn shuffled_deck() -> (v: Vec<Card>)
    ensures
        v@.len() == 44,
        v@.to_multiset() == full_deck().to_multiset(),
        all_valid(v@),
{
    let mut v: Vec<Card> = Vec::new();
    push_run(&mut v, Suit::Spades, 2, 14);
    push_run(&mut v, Suit::Clubs, 2, 14);
    push_run(&mut v, Suit::Hearts, 2, 10);
    push_run(&mut v, Suit::Diamonds, 2, 10);
    proof {
        assert(v@ =~= full_deck());
        lemma_full_deck_valid();
    }
    shuffle_cards(&mut v);
    proof {
        broadcast use vstd::seq_lib::group_to_multiset_ensures;

        lemma_full_deck_valid();
        assert forall|i: int| 0 <= i < v@.len() implies (#[trigger] v@[i]).valid() by {
            assert(v@.contains(v@[i]));
            assert(full_deck().to_multiset().count(v@[i]) > 0);
            assert(full_deck().contains(v@[i]));
        }
    }
    v
}

} // verus!
