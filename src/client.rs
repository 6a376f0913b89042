//! Client-side decisions: checking a chosen player name, building the join
//! request, and reading the operator's answer to "try again?".

use vstd::prelude::*;
use crate::join::{RejectReason, check_name_text, text_verdict};
use crate::wire::{encode_join, join_bytes};

verus! {

/// The client side of a session; it holds no state of its own.
pub struct ClientInstance {}

/// Why a chosen player name cannot be sent.
#[derive(Clone, Copy, PartialEq, Eq, Structural, Debug)]
pub enum Error {
    /// A character outside ASCII, or an empty name.
    InvalidCharacterFound,
    CommaFound,
}

/// The client's verdict on a name's text.
pub open spec fn name_error(n: Seq<char>) -> Option<Error> {
    match text_verdict(n) {
        Some(RejectReason::InvalidCharacter) => Some(Error::InvalidCharacterFound),
        Some(_) => Some(Error::CommaFound),
        None => None,
    }
}

fn to_client_error(reason: Option<RejectReason>) -> (r: Option<Error>)
    ensures
        r == match reason {
            Some(RejectReason::InvalidCharacter) => Some(Error::InvalidCharacterFound),
            Some(_) => Some(Error::CommaFound),
            None => None::<Error>,
        },
{
    match reason {
        Some(RejectReason::InvalidCharacter) => Some(Error::InvalidCharacterFound),
        Some(_) => Some(Error::CommaFound),
        None => None,
    }
}

/// Takes the name that the operator typed where it can be sent: it must be
/// non-empty, ASCII and hold no comma.
pub fn choose_player_name(input: &str) -> (r: Result<String, Error>)
    ensures
        match name_error(input@) {
            None => r matches Ok(name) && name@ == input@,
            Some(e) => r == Err::<String, Error>(e),
        },
{
    match to_client_error(check_name_text(input)) {
        Some(e) => Err(e),
        None => Ok(input.to_owned()),
    }
}

/// The `JOIN` message for a name, which is refused before it is sent where
/// the name is empty, not ASCII or holds a comma.
pub fn join_request(name: &str) -> (r: Result<Vec<u8>, Error>)
    ensures
        match name_error(name@) {
            None => r matches Ok(bytes) && bytes@ == join_bytes(name@),
            Some(e) => r == Err::<Vec<u8>, Error>(e),
        },
{
    match to_client_error(check_name_text(name)) {
        Some(e) => Err(e),
        None => Ok(encode_join(name)),
    }
}

/// The operator's answer declines, ignoring ASCII case: `n` or `no`.
pub open spec fn is_decline(s: Seq<char>) -> bool {
    ||| s.len() == 1 && (s[0] == 'n' || s[0] == 'N')
    ||| s.len() == 2 && (s[0] == 'n' || s[0] == 'N') && (s[1] == 'o' || s[1] == 'O')
}

/// Whether the operator's answer to "try again?" gives up.
pub fn declines_retry(answer: &str) -> (r: bool)
    ensures
        r == is_decline(answer@),
{
    if !answer.is_ascii() {
        return false;
    }
    let b = answer.as_bytes();
    proof {
        vstd::utf8::is_ascii_chars_encode_utf8(answer@);
    }
    let first_n = b.len() >= 1 && (b[0] == 110 || b[0] == 78);
    if b.len() == 1 {
        first_n
    } else if b.len() == 2 {
        first_n && (b[1] == 111 || b[1] == 79)
    } else {
        false
    }
}

/// How this process takes part in a session.
#[derive(Clone, Copy, PartialEq, Eq, Structural, Debug)]
pub enum Mode {
    HostGame,
    ConnectGame,
}

/// The mode that the operator's menu answer picks: `1` hosts, `2` connects.
pub fn mode_from_answer(answer: &str) -> (r: Option<Mode>)
    ensures
        r == if answer@ == seq!['1'] {
            Some(Mode::HostGame)
        } else if answer@ == seq!['2'] {
            Some(Mode::ConnectGame)
        } else {
            None::<Mode>
        },
{
    if !answer.is_ascii() {
        return None;
    }
    let b = answer.as_bytes();
    proof {
        vstd::utf8::is_ascii_chars_encode_utf8(answer@);
    }
    if b.len() != 1 {
        return None;
    }
    if b[0] == 49 {
        assert(answer@ =~= seq!['1']);
        Some(Mode::HostGame)
    } else if b[0] == 50 {
        assert(answer@ =~= seq!['2']);
        Some(Mode::ConnectGame)
    } else {
        None
    }
}

} // verus!
