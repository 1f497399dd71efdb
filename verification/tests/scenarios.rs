use scoundrel::cards::{Card, Role, Suit, Weapon};
use scoundrel::engine::{CombatMode, GameError, GameState, Phase};
use scoundrel::laws::count_cards;

fn monster(rank: u8) -> Card {
    Card { suit: Suit::Spades, rank }
}

fn potion(rank: u8) -> Card {
    Card { suit: Suit::Hearts, rank }
}

fn weapon(rank: u8) -> Card {
    Card { suit: Suit::Diamonds, rank }
}

fn filler(n: usize) -> Vec<Card> {
    vec![Card { suit: Suit::Clubs, rank: 2 }; n]
}

fn blank() -> GameState {
    GameState {
        dungeon: Vec::new(),
        room: Vec::new(),
        discard: Vec::new(),
        trophies: Vec::new(),
        health: 20,
        max_health: 20,
        weapon: None,
        played_this_turn: 0,
        potion_used_this_room: false,
        just_skipped: false,
        last_action_was_heal: None,
        turn_number: 1,
        phase: Phase::Active,
        log: Vec::new(),
    }
}

#[test]
fn fresh_deck_composition() {
    let g = GameState::new();
    let mut total = 0usize;
    for rank in 2..=14u8 {
        let monsters =
            count_cards(&g.room, Role::Monster, rank) + count_cards(&g.dungeon, Role::Monster, rank);
        assert_eq!(monsters, 2, "monster rank {rank}");
        total += monsters;
    }
    for rank in 2..=10u8 {
        let weapons =
            count_cards(&g.room, Role::Weapon, rank) + count_cards(&g.dungeon, Role::Weapon, rank);
        let potions =
            count_cards(&g.room, Role::Potion, rank) + count_cards(&g.dungeon, Role::Potion, rank);
        assert_eq!(weapons, 1, "weapon rank {rank}");
        assert_eq!(potions, 1, "potion rank {rank}");
        total += weapons + potions;
    }
    for rank in 11..=14u8 {
        assert_eq!(count_cards(&g.room, Role::Weapon, rank), 0);
        assert_eq!(count_cards(&g.dungeon, Role::Weapon, rank), 0);
        assert_eq!(count_cards(&g.room, Role::Potion, rank), 0);
        assert_eq!(count_cards(&g.dungeon, Role::Potion, rank), 0);
    }
    assert_eq!(total, 44);
    assert_eq!(g.room.len() + g.dungeon.len(), 44);
}

#[test]
fn two_decks_differ_eventually() {
    // A uniform shuffle makes 44 fixed orders astronomically unlikely.
    let first = GameState::new();
    let mut any_different = false;
    for _ in 0..44 {
        let other = GameState::new();
        if other.dungeon != first.dungeon {
            any_different = true;
            break;
        }
    }
    assert!(any_different);
}

#[test]
fn two_potions_same_room() {
    let mut g = blank();
    g.health = 18;
    g.room = vec![potion(4), potion(5), monster(3), monster(6)];
    g.dungeon = filler(40);
    g.play_potion(0);
    // heal is capped at the missing health
    assert_eq!(g.health, 20);
    assert!(g.potion_used_this_room);
    assert_eq!(g.last_action_was_heal, Some(4));
    assert_eq!(g.played_this_turn, 1);
    g.play_potion(0);
    // the second potion of the room is wasted; the remembered heal is
    // untouched, since wasting is not a successful non-potion action
    assert_eq!(g.health, 20);
    assert_eq!(g.last_action_was_heal, Some(4));
    assert_eq!(g.played_this_turn, 2);
    assert_eq!(g.discard, vec![potion(4), potion(5)]);
    assert_eq!(g.room, vec![monster(3), monster(6)]);
}

#[test]
fn barehanded_fight_takes_full_damage() {
    let mut g = blank();
    g.room = vec![monster(10)];
    g.dungeon = filler(43);
    g.fight_monster(0, false);
    assert_eq!(g.health, 10);
    assert_eq!(g.discard, vec![monster(10)]);
    assert!(g.trophies.is_empty());
    assert_eq!(g.phase, Phase::Active);
}

#[test]
fn weapon_fight_reduces_damage_and_dulls() {
    let mut g = blank();
    g.room = vec![weapon(5), monster(8), monster(9), monster(2)];
    g.dungeon = filler(40);
    g.play_weapon(0);
    assert_eq!(g.choose_combat_mode(0, CombatMode::Weapon), Ok(()));
    assert_eq!(g.health, 17);
    assert_eq!(g.weapon, Some(Weapon { card: weapon(5), last_monster_slain: Some(8) }));
    assert_eq!(g.trophies, vec![monster(8)]);
    // rank 9 >= last slain 8: the dulled weapon may not be used
    let before_health = g.health;
    assert_eq!(g.choose_combat_mode(0, CombatMode::Weapon), Err(GameError::IllegalWeaponUse));
    assert_eq!(g.health, before_health);
    assert_eq!(g.trophies, vec![monster(8)]);
    assert_eq!(g.room, vec![monster(9), monster(2)]);
}

#[test]
fn weapon_kills_must_strictly_decrease() {
    let mut g = blank();
    g.room = vec![weapon(2), monster(8), monster(8), monster(9)];
    g.dungeon = filler(40);
    g.play_weapon(0);
    assert_eq!(g.choose_combat_mode(0, CombatMode::Weapon), Ok(()));
    assert_eq!(g.health, 14); // 8 - 2 = 6 damage
    // equal rank is rejected: strictly less is required
    assert_eq!(g.choose_combat_mode(0, CombatMode::Weapon), Err(GameError::IllegalWeaponUse));
    // but barehanded is still possible
    assert_eq!(g.choose_combat_mode(0, CombatMode::Barehanded), Ok(()));
    assert_eq!(g.health, 6);
    assert_eq!(g.trophies, vec![monster(8)]);
}

#[test]
fn lethal_fight_loses_the_game() {
    let mut g = blank();
    g.health = 9;
    g.room = vec![monster(14), monster(2), monster(2), monster(2)];
    g.dungeon = filler(40);
    g.fight_monster(0, false);
    assert_eq!(g.health, 0);
    assert_eq!(g.phase, Phase::Over { won: false });
    assert!(g.log.last().unwrap().contains("DIED!"));
    // no further commands are accepted
    assert_eq!(g.skip_room(), Err(GameError::InvalidAction));
}

#[test]
fn exactly_lethal_damage_also_loses() {
    let mut g = blank();
    g.health = 10;
    g.room = vec![monster(10), monster(2), monster(2), monster(2)];
    g.dungeon = filler(40);
    g.fight_monster(0, false);
    assert_eq!(g.health, 0);
    assert_eq!(g.phase, Phase::Over { won: false });
}

#[test]
fn won_game_score_with_full_health_heal_bonus() {
    let mut g = blank();
    g.discard = filler(44);
    g.phase = Phase::Over { won: true };
    g.health = 20;
    g.last_action_was_heal = Some(4);
    g.turn_number = 15;
    assert_eq!(g.calculate_score(), 24);
}

#[test]
fn won_game_score_without_bonus_below_full_health() {
    let mut g = blank();
    g.discard = filler(44);
    g.phase = Phase::Over { won: true };
    g.health = 19;
    g.last_action_was_heal = Some(4);
    g.turn_number = 15;
    assert_eq!(g.calculate_score(), 19);
}

#[test]
fn won_game_score_without_heal_has_no_bonus() {
    let mut g = blank();
    g.discard = filler(44);
    g.phase = Phase::Over { won: true };
    g.health = 20;
    g.last_action_was_heal = None;
    g.turn_number = 15;
    assert_eq!(g.calculate_score(), 20);
}

#[test]
fn lost_game_score_subtracts_unseen_monsters() {
    let mut g = blank();
    g.dungeon = vec![monster(14), Card { suit: Suit::Clubs, rank: 12 }, monster(10)];
    g.discard = filler(41);
    g.phase = Phase::Over { won: false };
    g.health = 0;
    g.turn_number = 14;
    assert_eq!(g.calculate_score(), -36);
}

#[test]
fn lost_game_score_ignores_unseen_potions_and_weapons() {
    let mut g = blank();
    g.dungeon = vec![monster(14), potion(9), weapon(8)];
    g.room = vec![Card { suit: Suit::Clubs, rank: 5 }];
    g.discard = filler(40);
    g.phase = Phase::Over { won: false };
    g.health = 0;
    g.turn_number = 14;
    assert_eq!(g.calculate_score(), -19);
}

#[test]
fn nonpotion_play_clears_heal_memory() {
    let mut g = blank();
    g.health = 17;
    g.room = vec![potion(2), monster(3), weapon(4), monster(5)];
    g.dungeon = filler(40);
    g.play_potion(0);
    assert_eq!(g.last_action_was_heal, Some(2));
    g.play_weapon(1); // the weapon now sits at position 1
    assert_eq!(g.last_action_was_heal, None);
}
