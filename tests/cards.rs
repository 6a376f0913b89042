use kingdom_kards::action::{action_type_to_card, card_to_action_type, Action, NO_CARD};
use kingdom_kards::card::{Card, Color, Suit, Value};

const SUITS: [Suit; 4] = [Suit::Spades, Suit::Clubs, Suit::Hearts, Suit::Diamonds];
const VALUES: [Value; 13] = [
    Value::Ace,
    Value::Two,
    Value::Three,
    Value::Four,
    Value::Five,
    Value::Six,
    Value::Seven,
    Value::Eight,
    Value::Nine,
    Value::Ten,
    Value::Jack,
    Value::Queen,
    Value::King,
];

#[test]
fn new_card_keeps_suit_and_value() {
    let c = Card::new(Suit::Hearts, Value::Queen);
    assert_eq!(c.get_suit(), Suit::Hearts);
    assert_eq!(c.get_value(), Value::Queen);
}

#[test]
fn colors_follow_suits() {
    assert_eq!(Card::new(Suit::Spades, Value::Two).get_color(), Color::Black);
    assert_eq!(Card::new(Suit::Clubs, Value::Two).get_color(), Color::Black);
    assert_eq!(Card::new(Suit::Hearts, Value::Two).get_color(), Color::Red);
    assert_eq!(Card::new(Suit::Diamonds, Value::Two).get_color(), Color::Red);
}

#[test]
fn unicode_glyphs() {
    assert_eq!(Card::new(Suit::Spades, Value::Ace).to_unicode(), "🂡");
    assert_eq!(Card::new(Suit::Spades, Value::Queen).to_unicode(), "🂭");
    assert_eq!(Card::new(Suit::Clubs, Value::King).to_unicode(), "🃞");
    assert_eq!(Card::new(Suit::Hearts, Value::Ten).to_unicode(), "🂺");
    assert_eq!(Card::new(Suit::Diamonds, Value::Jack).to_unicode(), "🃋");
}

#[test]
fn unicode_glyphs_are_distinct() {
    let mut seen: Vec<String> = Vec::new();
    for s in SUITS {
        for v in VALUES {
            let c = Card::new(s, v);
            let g = c.to_unicode().to_string();
            assert_eq!(g.chars().count(), 1);
            assert!(!seen.contains(&g));
            seen.push(g);
        }
    }
    assert_eq!(seen.len(), 52);
}

#[test]
fn names_of_suits_values_colors() {
    assert_eq!(Suit::Diamonds.to_string(), "Diamonds");
    assert_eq!(Value::Seven.to_string(), "Seven");
    assert_eq!(Color::Red.to_string(), "Red");
}

#[test]
fn card_in_words() {
    assert_eq!(Card::new(Suit::Spades, Value::Ace).describe(), "Black Ace of Spades");
    assert_eq!(Card::new(Suit::Hearts, Value::King).describe(), "Red King of Hearts");
}

#[test]
fn colored_glyph() {
    assert_eq!(
        Card::new(Suit::Diamonds, Value::Two).to_colored_unicode(),
        "\x1b[47;31m🃂 \x1b[0m"
    );
    assert_eq!(
        Card::new(Suit::Clubs, Value::Ace).to_colored_unicode(),
        "\x1b[47;30m🃑 \x1b[0m"
    );
}

#[test]
fn action_codes() {
    assert_eq!(card_to_action_type(&Card::new(Suit::Spades, Value::Ace)), 1);
    assert_eq!(card_to_action_type(&Card::new(Suit::Clubs, Value::Two)), 15);
    assert_eq!(card_to_action_type(&Card::new(Suit::Diamonds, Value::King)), 52);
}

#[test]
fn every_card_round_trips_through_its_action_code() {
    let mut codes: Vec<u8> = Vec::new();
    for s in SUITS {
        for v in VALUES {
            let c = Card::new(s, v);
            let code = card_to_action_type(&c);
            assert_eq!(action_type_to_card(code), Some(c));
            assert!(!codes.contains(&code));
            codes.push(code);
        }
    }
}

#[test]
fn no_card_code_and_out_of_range_codes() {
    assert_eq!(action_type_to_card(NO_CARD), None);
    assert_eq!(action_type_to_card(53), None);
    assert_eq!(action_type_to_card(255), None);
}

#[test]
fn spades_ace_action_decodes_to_spades_ace() {
    let card = Card::new(Suit::Spades, Value::Ace);
    let action = card.to_action(3, "Alice", "Bob");
    assert_eq!(
        action,
        Action {
            action_type: 1,
            attachment: 3,
            from_player: String::from("Alice"),
            to_player: String::from("Bob"),
        }
    );
    assert_eq!(action_type_to_card(action.action_type), Some(Card::new(Suit::Spades, Value::Ace)));
}
