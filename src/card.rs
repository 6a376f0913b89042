//! Playing cards: suit, value, derived color, and the Unicode glyph of each card.

use vstd::prelude::*;

verus! {

/// The four suits of a standard deck.
#[derive(Clone, Copy, PartialEq, Eq, Structural, Debug)]
pub enum Suit {
    Spades,
    Clubs,
    Hearts,
    Diamonds,
}

/// The thirteen values of a standard deck, from Ace up to King.
#[derive(Clone, Copy, PartialEq, Eq, Structural, Debug)]
pub enum Value {
    Ace,
    Two,
    Three,
    Four,
    Five,
    Six,
    Seven,
    Eight,
    Nine,
    Ten,
    Jack,
    Queen,
    King,
}

/// The color of a card, fixed by its suit.
#[derive(Clone, Copy, PartialEq, Eq, Structural, Debug)]
pub enum Color {
    Black,
    Red,
}

/// A playing card.
#[derive(Clone, Copy, PartialEq, Eq, Structural, Debug)]
pub struct Card {
    pub suit: Suit,
    pub value: Value,
}

/// The color of the cards of a suit.
pub open spec fn suit_color(s: Suit) -> Color {
    match s {
        Suit::Spades | Suit::Clubs => Color::Black,
        Suit::Hearts | Suit::Diamonds => Color::Red,
    }
}

/// The first code point of a suit's row in the Unicode "Playing Cards" block.
pub open spec fn suit_glyph_base(s: Suit) -> u32 {
    match s {
        Suit::Spades => 0x1F0A0,
        Suit::Hearts => 0x1F0B0,
        Suit::Diamonds => 0x1F0C0,
        Suit::Clubs => 0x1F0D0,
    }
}

/// The position of a value within a suit's row of the "Playing Cards" block;
/// the row's Knight (position 12) is not part of the deck.
pub open spec fn value_glyph_offset(v: Value) -> u32 {
    match v {
        Value::Ace => 1,
        Value::Two => 2,
        Value::Three => 3,
        Value::Four => 4,
        Value::Five => 5,
        Value::Six => 6,
        Value::Seven => 7,
        Value::Eight => 8,
        Value::Nine => 9,
        Value::Ten => 10,
        Value::Jack => 11,
        Value::Queen => 13,
        Value::King => 14,
    }
}

/// The code point of a card's glyph.
pub open spec fn glyph_code(c: Card) -> u32 {
    (suit_glyph_base(c.suit) + value_glyph_offset(c.value)) as u32
}

/// The name of a suit.
pub open spec fn suit_name(s: Suit) -> Seq<char> {
    match s {
        Suit::Spades => "Spades"@,
        Suit::Clubs => "Clubs"@,
        Suit::Hearts => "Hearts"@,
        Suit::Diamonds => "Diamonds"@,
    }
}

/// The name of a value.
pub open spec fn value_name(v: Value) -> Seq<char> {
    match v {
        Value::Ace => "Ace"@,
        Value::Two => "Two"@,
        Value::Three => "Three"@,
        Value::Four => "Four"@,
        Value::Five => "Five"@,
        Value::Six => "Six"@,
        Value::Seven => "Seven"@,
        Value::Eight => "Eight"@,
        Value::Nine => "Nine"@,
        Value::Ten => "Ten"@,
        Value::Jack => "Jack"@,
        Value::Queen => "Queen"@,
        Value::King => "King"@,
    }
}

/// The name of a color.
pub open spec fn color_name(c: Color) -> Seq<char> {
    match c {
        Color::Black => "Black"@,
        Color::Red => "Red"@,
    }
}

/// A card's glyph as text: the one character at its code point.
pub open spec fn glyph_text(c: Card) -> Seq<char> {
    seq![glyph_code(c) as char]
}

impl Suit {
    pub fn to_string(self) -> (r: &'static str)
        ensures
            r@ == suit_name(self),
    {
        match self {
            Suit::Spades => "Spades",
            Suit::Clubs => "Clubs",
            Suit::Hearts => "Hearts",
            Suit::Diamonds => "Diamonds",
        }
    }
}

impl Value {
    pub fn to_string(self) -> (r: &'static str)
        ensures
            r@ == value_name(self),
    {
        match self {
            Value::Ace => "Ace",
            Value::Two => "Two",
            Value::Three => "Three",
            Value::Four => "Four",
            Value::Five => "Five",
            Value::Six => "Six",
            Value::Seven => "Seven",
            Value::Eight => "Eight",
            Value::Nine => "Nine",
            Value::Ten => "Ten",
            Value::Jack => "Jack",
            Value::Queen => "Queen",
            Value::King => "King",
        }
    }
}

impl Color {
    pub fn to_string(self) -> (r: &'static str)
        ensures
            r@ == color_name(self),
    {
        match self {
            Color::Black => "Black",
            Color::Red => "Red",
        }
    }
}

/// Terminal escape that draws black on white.
pub const COLOR_BLACK: &'static str = "\x1b[47;30m";

/// Terminal escape that draws red on white.
pub const COLOR_RED: &'static str = "\x1b[47;31m";

/// Terminal escape that restores the default colors.
pub const COLOR_RESET: &'static str = "\x1b[0m";

/// The terminal escape that draws a card of the given color.
pub open spec fn color_escape(c: Color) -> Seq<char> {
    match c {
        Color::Black => COLOR_BLACK@,
        Color::Red => COLOR_RED@,
    }
}

impl Card {
    pub fn new(suit: Suit, value: Value) -> (r: Self)
        ensures
            r.suit == suit,
            r.value == value,
    {
        Self { suit, value }
    }

    pub fn get_suit(&self) -> (r: Suit)
        ensures
            r == self.suit,
    {
        self.suit
    }

    pub fn get_value(&self) -> (r: Value)
        ensures
            r == self.value,
    {
        self.value
    }

    pub fn get_color(&self) -> (r: Color)
        ensures
            r == suit_color(self.suit),
    {
        match self.suit {
            Suit::Spades | Suit::Clubs => Color::Black,
            Suit::Diamonds | Suit::Hearts => Color::Red,
        }
    }

    /// The card in words, as "Black Ace of Spades".
    pub fn describe(&self) -> (r: String)
        ensures
            r@ == color_name(suit_color(self.suit)) + " "@ + value_name(self.value) + " of "@
                + suit_name(self.suit),
    {
        let mut s = String::from_str(self.get_color().to_string());
        s.append(" ");
        s.append(self.value.to_string());
        s.append(" of ");
        s.append(self.suit.to_string());
        s
    }

    /// The card's glyph in its color on a white ground, followed by a space,
    /// for a terminal.
    pub fn to_colored_unicode(&self) -> (r: String)
        ensures
            r@ == color_escape(suit_color(self.suit)) + glyph_text(*self) + " "@ + COLOR_RESET@,
    {
        let escape = match self.get_color() {
            Color::Black => COLOR_BLACK,
            Color::Red => COLOR_RED,
        };
        let mut s = String::from_str(escape);
        s.append(self.to_unicode());
        s.append(" ");
        s.append(COLOR_RESET);
        s
    }

    /// The card as a single character of the Unicode "Playing Cards" block.
    pub fn to_unicode(&self) -> (r: &str)
        ensures
            r@ == glyph_text(*self),
    {
        match self.suit {
            Suit::Spades => match self.value {
                Value::Ace => {
                    proof { reveal_strlit("\u{1F0A1}"); }
                    "\u{1F0A1}"
                },
                Value::Two => {
                    proof { reveal_strlit("\u{1F0A2}"); }
                    "\u{1F0A2}"
                },
                Value::Three => {
                    proof { reveal_strlit("\u{1F0A3}"); }
                    "\u{1F0A3}"
                },
                Value::Four => {
                    proof { reveal_strlit("\u{1F0A4}"); }
                    "\u{1F0A4}"
                },
                Value::Five => {
                    proof { reveal_strlit("\u{1F0A5}"); }
                    "\u{1F0A5}"
                },
                Value::Six => {
                    proof { reveal_strlit("\u{1F0A6}"); }
                    "\u{1F0A6}"
                },
                Value::Seven => {
                    proof { reveal_strlit("\u{1F0A7}"); }
                    "\u{1F0A7}"
                },
                Value::Eight => {
                    proof { reveal_strlit("\u{1F0A8}"); }
                    "\u{1F0A8}"
                },
                Value::Nine => {
                    proof { reveal_strlit("\u{1F0A9}"); }
                    "\u{1F0A9}"
                },
                Value::Ten => {
                    proof { reveal_strlit("\u{1F0AA}"); }
                    "\u{1F0AA}"
                },
                Value::Jack => {
                    proof { reveal_strlit("\u{1F0AB}"); }
                    "\u{1F0AB}"
                },
                Value::Queen => {
                    proof { reveal_strlit("\u{1F0AD}"); }
                    "\u{1F0AD}"
                },
                Value::King => {
                    proof { reveal_strlit("\u{1F0AE}"); }
                    "\u{1F0AE}"
                },
            },
            Suit::Clubs => match self.value {
                Value::Ace => {
                    proof { reveal_strlit("\u{1F0D1}"); }
                    "\u{1F0D1}"
                },
                Value::Two => {
                    proof { reveal_strlit("\u{1F0D2}"); }
                    "\u{1F0D2}"
                },
                Value::Three => {
                    proof { reveal_strlit("\u{1F0D3}"); }
                    "\u{1F0D3}"
                },
                Value::Four => {
                    proof { reveal_strlit("\u{1F0D4}"); }
                    "\u{1F0D4}"
                },
                Value::Five => {
                    proof { reveal_strlit("\u{1F0D5}"); }
                    "\u{1F0D5}"
                },
                Value::Six => {
                    proof { reveal_strlit("\u{1F0D6}"); }
                    "\u{1F0D6}"
                },
                Value::Seven => {
                    proof { reveal_strlit("\u{1F0D7}"); }
                    "\u{1F0D7}"
                },
                Value::Eight => {
                    proof { reveal_strlit("\u{1F0D8}"); }
                    "\u{1F0D8}"
                },
                Value::Nine => {
                    proof { reveal_strlit("\u{1F0D9}"); }
                    "\u{1F0D9}"
                },
                Value::Ten => {
                    proof { reveal_strlit("\u{1F0DA}"); }
                    "\u{1F0DA}"
                },
                Value::Jack => {
                    proof { reveal_strlit("\u{1F0DB}"); }
                    "\u{1F0DB}"
                },
                Value::Queen => {
                    proof { reveal_strlit("\u{1F0DD}"); }
                    "\u{1F0DD}"
                },
                Value::King => {
                    proof { reveal_strlit("\u{1F0DE}"); }
                    "\u{1F0DE}"
                },
            },
            Suit::Hearts => match self.value {
                Value::Ace => {
                    proof { reveal_strlit("\u{1F0B1}"); }
                    "\u{1F0B1}"
                },
                Value::Two => {
                    proof { reveal_strlit("\u{1F0B2}"); }
                    "\u{1F0B2}"
                },
                Value::Three => {
                    proof { reveal_strlit("\u{1F0B3}"); }
                    "\u{1F0B3}"
                },
                Value::Four => {
                    proof { reveal_strlit("\u{1F0B4}"); }
                    "\u{1F0B4}"
                },
                Value::Five => {
                    proof { reveal_strlit("\u{1F0B5}"); }
                    "\u{1F0B5}"
                },
                Value::Six => {
                    proof { reveal_strlit("\u{1F0B6}"); }
                    "\u{1F0B6}"
                },
                Value::Seven => {
                    proof { reveal_strlit("\u{1F0B7}"); }
                    "\u{1F0B7}"
                },
                Value::Eight => {
                    proof { reveal_strlit("\u{1F0B8}"); }
                    "\u{1F0B8}"
                },
                Value::Nine => {
                    proof { reveal_strlit("\u{1F0B9}"); }
                    "\u{1F0B9}"
                },
                Value::Ten => {
                    proof { reveal_strlit("\u{1F0BA}"); }
                    "\u{1F0BA}"
                },
                Value::Jack => {
                    proof { reveal_strlit("\u{1F0BB}"); }
                    "\u{1F0BB}"
                },
                Value::Queen => {
                    proof { reveal_strlit("\u{1F0BD}"); }
                    "\u{1F0BD}"
                },
                Value::King => {
                    proof { reveal_strlit("\u{1F0BE}"); }
                    "\u{1F0BE}"
                },
            },
            Suit::Diamonds => match self.value {
                Value::Ace => {
                    proof { reveal_strlit("\u{1F0C1}"); }
                    "\u{1F0C1}"
                },
                Value::Two => {
                    proof { reveal_strlit("\u{1F0C2}"); }
                    "\u{1F0C2}"
                },
                Value::Three => {
                    proof { reveal_strlit("\u{1F0C3}"); }
                    "\u{1F0C3}"
                },
                Value::Four => {
                    proof { reveal_strlit("\u{1F0C4}"); }
                    "\u{1F0C4}"
                },
                Value::Five => {
                    proof { reveal_strlit("\u{1F0C5}"); }
                    "\u{1F0C5}"
                },
                Value::Six => {
                    proof { reveal_strlit("\u{1F0C6}"); }
                    "\u{1F0C6}"
                },
                Value::Seven => {
                    proof { reveal_strlit("\u{1F0C7}"); }
                    "\u{1F0C7}"
                },
                Value::Eight => {
                    proof { reveal_strlit("\u{1F0C8}"); }
                    "\u{1F0C8}"
                },
                Value::Nine => {
                    proof { reveal_strlit("\u{1F0C9}"); }
                    "\u{1F0C9}"
                },
                Value::Ten => {
                    proof { reveal_strlit("\u{1F0CA}"); }
                    "\u{1F0CA}"
                },
                Value::Jack => {
                    proof { reveal_strlit("\u{1F0CB}"); }
                    "\u{1F0CB}"
                },
                Value::Queen => {
                    proof { reveal_strlit("\u{1F0CD}"); }
                    "\u{1F0CD}"
                },
                Value::King => {
                    proof { reveal_strlit("\u{1F0CE}"); }
                    "\u{1F0CE}"
                },
            },
        }
    }
}

} // verus!
