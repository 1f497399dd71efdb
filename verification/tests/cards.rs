use scoundrel::cards::{Card, Suit, Weapon};
use scoundrel::text::{i32_string, u32_string};

fn card(suit: Suit, rank: u8) -> Card {
    Card { suit, rank }
}

#[test]
fn rank_strings() {
    assert_eq!(card(Suit::Spades, 2).rank_str(), "2");
    assert_eq!(card(Suit::Spades, 10).rank_str(), "10");
    assert_eq!(card(Suit::Spades, 11).rank_str(), "J");
    assert_eq!(card(Suit::Clubs, 12).rank_str(), "Q");
    assert_eq!(card(Suit::Clubs, 13).rank_str(), "K");
    assert_eq!(card(Suit::Clubs, 14).rank_str(), "A");
}

#[test]
fn display_strings() {
    assert_eq!(card(Suit::Spades, 14).display(), "A♠");
    assert_eq!(card(Suit::Clubs, 10).display(), "10♣");
    assert_eq!(card(Suit::Hearts, 7).display(), "7♥");
    assert_eq!(card(Suit::Diamonds, 2).display(), "2♦");
}

#[test]
fn suit_symbols() {
    assert_eq!(Suit::Spades.symbol(), "♠");
    assert_eq!(Suit::Clubs.symbol(), "♣");
    assert_eq!(Suit::Hearts.symbol(), "♥");
    assert_eq!(Suit::Diamonds.symbol(), "♦");
}

#[test]
fn roles_follow_suits() {
    assert!(card(Suit::Spades, 5).is_monster());
    assert!(card(Suit::Clubs, 5).is_monster());
    assert!(!card(Suit::Hearts, 5).is_monster());
    assert!(card(Suit::Hearts, 5).is_potion());
    assert!(card(Suit::Diamonds, 5).is_weapon());
    assert!(!card(Suit::Diamonds, 5).is_potion());
}

#[test]
fn value_is_rank() {
    assert_eq!(card(Suit::Spades, 13).value(), 13);
    assert_eq!(card(Suit::Hearts, 2).value(), 2);
}

#[test]
fn type_descriptions() {
    assert_eq!(card(Suit::Spades, 10).type_str(), "Take 10 damage");
    assert_eq!(card(Suit::Diamonds, 5).type_str(), "5 attack power");
    assert_eq!(card(Suit::Hearts, 9).type_str(), "Heal 9 HP");
    assert_eq!(card(Suit::Spades, 3).type_label(), "MONSTER");
    assert_eq!(card(Suit::Diamonds, 3).type_label(), "WEAPON");
    assert_eq!(card(Suit::Hearts, 3).type_label(), "POTION");
    assert_eq!(card(Suit::Spades, 3).type_emoji(), "👹");
    assert_eq!(card(Suit::Diamonds, 3).type_emoji(), "⚔️");
    assert_eq!(card(Suit::Hearts, 3).type_emoji(), "🧪");
}

#[test]
fn weapon_dulling_rule() {
    let fresh = Weapon { card: card(Suit::Diamonds, 5), last_monster_slain: None };
    assert!(fresh.can_use_against(14));
    assert!(fresh.can_use_against(2));
    let dulled = Weapon { card: card(Suit::Diamonds, 5), last_monster_slain: Some(8) };
    assert!(dulled.can_use_against(7));
    assert!(!dulled.can_use_against(8));
    assert!(!dulled.can_use_against(14));
}

#[test]
fn decimal_rendering() {
    assert_eq!(u32_string(0), "0");
    assert_eq!(u32_string(7), "7");
    assert_eq!(u32_string(10), "10");
    assert_eq!(u32_string(12345), "12345");
    assert_eq!(u32_string(4294967295), "4294967295");
    assert_eq!(i32_string(0), "0");
    assert_eq!(i32_string(-36), "-36");
    assert_eq!(i32_string(-2147483648), "-2147483648");
    assert_eq!(i32_string(20), "20");
}
