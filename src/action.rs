//! Game actions and the mapping between cards and their wire action codes.
//!
//! A card's action code is `1 + 13 * suit + value`, counting suits in the
//! order Spades, Clubs, Hearts, Diamonds and values from Ace (0) to King (12);
//! code 0 stands for "no card".

use vstd::prelude::*;
use crate::card::{Card, Suit, Value};

verus! {

/// The action code that carries no card.
pub const NO_CARD: u8 = 0;

/// The largest action code that stands for a card.
pub const LAST_CARD_CODE: u8 = 52;

/// A game action: a card (or none) moving from one player to another.
#[derive(Clone, Debug, PartialEq, Eq)]
pub struct Action {
    pub action_type: u8,
    pub attachment: u16,
    pub from_player: String,
    pub to_player: String,
}

/// What an action holds, with its player names as text.
pub struct ActionView {
    pub action_type: u8,
    pub attachment: u16,
    pub from_player: Seq<char>,
    pub to_player: Seq<char>,
}

impl View for Action {
    type V = ActionView;

    open spec fn view(&self) -> ActionView {
        ActionView {
            action_type: self.action_type,
            attachment: self.attachment,
            from_player: self.from_player@,
            to_player: self.to_player@,
        }
    }
}

pub open spec fn suit_index(s: Suit) -> int {
    match s {
        Suit::Spades => 0,
        Suit::Clubs => 1,
        Suit::Hearts => 2,
        Suit::Diamonds => 3,
    }
}

pub open spec fn value_index(v: Value) -> int {
    match v {
        Value::Ace => 0,
        Value::Two => 1,
        Value::Three => 2,
        Value::Four => 3,
        Value::Five => 4,
        Value::Six => 5,
        Value::Seven => 6,
        Value::Eight => 7,
        Value::Nine => 8,
        Value::Ten => 9,
        Value::Jack => 10,
        Value::Queen => 11,
        Value::King => 12,
    }
}

/// The suit at a position of the order Spades, Clubs, Hearts, Diamonds.
pub open spec fn suit_at(i: int) -> Suit {
    if i == 0 {
        Suit::Spades
    } else if i == 1 {
        Suit::Clubs
    } else if i == 2 {
        Suit::Hearts
    } else {
        Suit::Diamonds
    }
}

/// The value at a position of the order Ace to King.
pub open spec fn value_at(i: int) -> Value {
    if i == 0 {
        Value::Ace
    } else if i == 1 {
        Value::Two
    } else if i == 2 {
        Value::Three
    } else if i == 3 {
        Value::Four
    } else if i == 4 {
        Value::Five
    } else if i == 5 {
        Value::Six
    } else if i == 6 {
        Value::Seven
    } else if i == 7 {
        Value::Eight
    } else if i == 8 {
        Value::Nine
    } else if i == 9 {
        Value::Ten
    } else if i == 10 {
        Value::Jack
    } else if i == 11 {
        Value::Queen
    } else {
        Value::King
    }
}

/// The action code of a card.
pub open spec fn card_code(c: Card) -> u8 {
    (1 + 13 * suit_index(c.suit) + value_index(c.value)) as u8
}

/// The card that an action code stands for; none for code 0 and for codes past 52.
pub open spec fn card_of_code(t: u8) -> Option<Card> {
    if 1 <= t <= LAST_CARD_CODE {
        Some(Card { suit: suit_at((t - 1) / 13), value: value_at((t - 1) % 13) })
    } else {
        None
    }
}

/// The action code of a card.
pub fn card_to_action_type(card: &Card) -> (r: u8)
    ensures
        r == card_code(*card),
        1 <= r <= LAST_CARD_CODE,
{
    let s: u8 = match card.suit {
        Suit::Spades => 0,
        Suit::Clubs => 1,
        Suit::Hearts => 2,
        Suit::Diamonds => 3,
    };
    let v: u8 = match card.value {
        Value::Ace => 0,
        Value::Two => 1,
        Value::Three => 2,
        Value::Four => 3,
        Value::Five => 4,
        Value::Six => 5,
        Value::Seven => 6,
        Value::Eight => 7,
        Value::Nine => 8,
        Value::Ten => 9,
        Value::Jack => 10,
        Value::Queen => 11,
        Value::King => 12,
    };
    1 + 13 * s + v
}

/// The card that an action code stands for, or `None` for the "no card" code
/// and for codes that stand for no card.
pub fn action_type_to_card(action_type: u8) -> (r: Option<Card>)
    ensures
        r == card_of_code(action_type),
{
    if action_type == NO_CARD || action_type > LAST_CARD_CODE {
        return None;
    }
    let k: u8 = action_type - 1;
    let s: u8 = k / 13;
    let v: u8 = k % 13;
    let suit = if s == 0 {
        Suit::Spades
    } else if s == 1 {
        Suit::Clubs
    } else if s == 2 {
        Suit::Hearts
    } else {
        Suit::Diamonds
    };
    let value = if v == 0 {
        Value::Ace
    } else if v == 1 {
        Value::Two
    } else if v == 2 {
        Value::Three
    } else if v == 3 {
        Value::Four
    } else if v == 4 {
        Value::Five
    } else if v == 5 {
        Value::Six
    } else if v == 6 {
        Value::Seven
    } else if v == 7 {
        Value::Eight
    } else if v == 8 {
        Value::Nine
    } else if v == 9 {
        Value::Ten
    } else if v == 10 {
        Value::Jack
    } else if v == 11 {
        Value::Queen
    } else {
        Value::King
    };
    Some(Card { suit, value })
}

/// Every card comes back from its action code, and the "no card" code gives no card.
pub proof fn lemma_card_code_round_trip(c: Card)
    ensures
        card_of_code(card_code(c)) == Some(c),
        card_of_code(NO_CARD) == None::<Card>,
{
    let s = suit_index(c.suit);
    let v = value_index(c.value);
    assert((13 * s + v) / 13 == s && (13 * s + v) % 13 == v) by (nonlinear_arith)
        requires
            0 <= s < 4,
            0 <= v < 13,
    ;
}

/// Distinct cards have distinct action codes.
pub proof fn lemma_card_code_injective(c: Card, d: Card)
    ensures
        card_code(c) == card_code(d) ==> c == d,
{
    lemma_card_code_round_trip(c);
    lemma_card_code_round_trip(d);
}

impl Card {
    /// The action that moves this card from one player to another.
    pub fn to_action(&self, attachment: u16, from_player: &str, to_player: &str) -> (r: Action)
        ensures
            r.action_type == card_code(*self),
            1 <= r.action_type <= LAST_CARD_CODE,
            r.attachment == attachment,
            r.from_player@ == from_player@,
            r.to_player@ == to_player@,
    {
        let action_type = card_to_action_type(self);
        Action {
            action_type,
            attachment,
            from_player: from_player.to_owned(),
            to_player: to_player.to_owned(),
        }
    }
}

} // verus!
