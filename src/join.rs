//! The join handshake: name validation and the session's registry of
//! admitted player names.

use vstd::prelude::*;
use vstd::utf8::is_ascii_chars;
use crate::wire::{COMMA, trim_zeros, trimmed_len};

verus! {

/// Why a name was refused.
#[derive(Clone, Copy, PartialEq, Eq, Structural, Debug)]
pub enum RejectReason {
    /// The name holds a character outside ASCII, or no character at all.
    InvalidCharacter,
    /// The name holds the field delimiter `,`.
    DelimiterConflict,
    /// The name is already admitted to the session.
    NameTaken,
}

/// The answer to a join request.
#[derive(Clone, Copy, PartialEq, Eq, Structural, Debug)]
pub enum JoinResponse {
    Accepted,
    Rejected(RejectReason),
}

/// What is wrong with a name as text, if anything: a non-ASCII character
/// first, then a comma; an empty name counts as holding no valid character.
pub open spec fn text_verdict(n: Seq<char>) -> Option<RejectReason> {
    if !is_ascii_chars(n) {
        Some(RejectReason::InvalidCharacter)
    } else if n.contains(',') {
        Some(RejectReason::DelimiterConflict)
    } else if n.len() == 0 {
        Some(RejectReason::InvalidCharacter)
    } else {
        None
    }
}

/// Why a session with the given names refuses a name, if it does: the text
/// is checked before uniqueness.
pub open spec fn name_verdict(names: Seq<Seq<char>>, n: Seq<char>) -> Option<RejectReason> {
    match text_verdict(n) {
        Some(e) => Some(e),
        None => if names.contains(n) {
            Some(RejectReason::NameTaken)
        } else {
            None
        },
    }
}

/// One admission: the names afterwards and the answer.
pub open spec fn admit_step(names: Seq<Seq<char>>, n: Seq<char>) -> (Seq<Seq<char>>, JoinResponse) {
    match name_verdict(names, n) {
        None => (names.push(n), JoinResponse::Accepted),
        Some(e) => (names, JoinResponse::Rejected(e)),
    }
}

/// The registry holds valid names, each once.
pub open spec fn registry_wf(names: Seq<Seq<char>>) -> bool {
    &&& forall|i: int| 0 <= i < names.len() ==> text_verdict(#[trigger] names[i]) is None
    &&& forall|i: int, j: int| 0 <= i < j < names.len() ==> names[i] != names[j]
}

/// The names admitted to a session, in order of admission.
pub struct Session {
    names: Vec<String>,
}

impl View for Session {
    type V = Seq<Seq<char>>;

    closed spec fn view(&self) -> Seq<Seq<char>> {
        Seq::new(self.names@.len(), |i: int| self.names@[i]@)
    }
}

/// What is wrong with a name as text, if anything.
pub fn check_name_text(name: &str) -> (r: Option<RejectReason>)
    ensures
        r == text_verdict(name@),
{
    if !name.is_ascii() {
        return Some(RejectReason::InvalidCharacter);
    }
    let b = name.as_bytes();
    proof {
        vstd::utf8::is_ascii_chars_encode_utf8(name@);
    }
    let mut i: usize = 0;
    while i < b.len()
        invariant
            is_ascii_chars(name@),
            b@.len() == name@.len(),
            forall|k: int| 0 <= k < name@.len() ==> b@[k] == name@[k] as u8,
            i <= b@.len(),
            forall|k: int| 0 <= k < i ==> name@[k] != ',',
        decreases b@.len() - i,
    {
        if b[i] == COMMA {
            assert(name@[i as int] == ',');
            return Some(RejectReason::DelimiterConflict);
        }
        assert('\0' <= name@[i as int] <= '\u{7f}');
        i = i + 1;
    }
    if name.is_empty() {
        return Some(RejectReason::InvalidCharacter);
    }
    None
}

impl Session {
    pub open spec fn wf(&self) -> bool {
        registry_wf(self@)
    }

    /// A session with no player admitted yet.
    pub fn new() -> (r: Self)
        ensures
            r@ == Seq::<Seq<char>>::empty(),
            r.wf(),
    {
        let r = Session { names: Vec::new() };
        assert(r@ =~= Seq::<Seq<char>>::empty());
        r
    }

    /// The number of admitted players.
    pub fn len(&self) -> (r: usize)
        ensures
            r == self@.len(),
    {
        self.names.len()
    }

    /// Whether the name is admitted.
    pub fn contains(&self, name: &str) -> (r: bool)
        ensures
            r == self@.contains(name@),
    {
        let wanted = name.to_owned();
        let mut i: usize = 0;
        while i < self.names.len()
            invariant
                wanted@ == name@,
                i <= self@.len(),
                forall|k: int| 0 <= k < i ==> self@[k] != name@,
            decreases self@.len() - i,
        {
            if self.names[i] == wanted {
                assert(self@[i as int] == name@);
                return true;
            }
            i = i + 1;
        }
        false
    }

    /// Whether the session would accept the name, and if not, why.
    pub fn validate_name(&self, name: &str) -> (r: Result<(), RejectReason>)
        ensures
            r == match name_verdict(self@, name@) {
                None => Ok::<(), RejectReason>(()),
                Some(e) => Err(e),
            },
    {
        match check_name_text(name) {
            Some(e) => Err(e),
            None => if self.contains(name) {
                Err(RejectReason::NameTaken)
            } else {
                Ok(())
            },
        }
    }

    /// Admits the name where it is valid and free, and says so.
    pub fn admit_name(&mut self, name: &str) -> (r: JoinResponse)
        requires
            old(self).wf(),
        ensures
            final(self).wf(),
            (final(self)@, r) == admit_step(old(self)@, name@),
    {
        match self.validate_name(name) {
            Err(e) => JoinResponse::Rejected(e),
            Ok(()) => {
                let ghost before = self@;
                self.names.push(name.to_owned());
                assert(self@ =~= before.push(name@));
                assert(registry_wf(self@)) by {
                    assert forall|i: int, j: int| 0 <= i < j < self@.len() implies self@[i]
                        != self@[j] by {
                        if j == before.len() {
                            assert(before.contains(self@[i]));
                        }
                    }
                }
                JoinResponse::Accepted
            },
        }
    }
}

/// Names are refused for their text whatever the session holds: a
/// non-ASCII character always as `InvalidCharacter`, and an ASCII name with
/// a comma always as `DelimiterConflict`, before uniqueness is considered.
pub proof fn lemma_text_rejections(names: Seq<Seq<char>>, n: Seq<char>)
    ensures
        !is_ascii_chars(n) ==> name_verdict(names, n) == Some(RejectReason::InvalidCharacter),
        is_ascii_chars(n) && n.contains(',') ==> name_verdict(names, n) == Some(
            RejectReason::DelimiterConflict,
        ),
{
}

/// A name already in a well-formed registry is refused as taken.
pub proof fn lemma_registered_name_taken(names: Seq<Seq<char>>, n: Seq<char>)
    requires
        registry_wf(names),
        names.contains(n),
    ensures
        name_verdict(names, n) == Some(RejectReason::NameTaken),
{
    let i = choose|i: int| 0 <= i < names.len() && names[i] == n;
    assert(text_verdict(names[i]) is None);
}

/// Of two admissions of one name, one after the other, at most one is
/// accepted; where the first is, the second is refused as taken.
pub proof fn lemma_one_admission_per_name(names: Seq<Seq<char>>, n: Seq<char>)
    ensures
        ({
            let (after, first) = admit_step(names, n);
            let (_, second) = admit_step(after, n);
            &&& !(first == JoinResponse::Accepted && second == JoinResponse::Accepted)
            &&& first == JoinResponse::Accepted ==> second == JoinResponse::Rejected(
                RejectReason::NameTaken,
            )
        }),
{
    let (after, first) = admit_step(names, n);
    if first == JoinResponse::Accepted {
        assert(after[after.len() - 1] == n);
        assert(after.contains(n));
    }
}

/// Join requests handled one after another, in the order in which the
/// session's lock lets them through: the names afterwards and each answer.
pub open spec fn run_joins(names: Seq<Seq<char>>, reqs: Seq<Seq<char>>) -> (
    Seq<Seq<char>>,
    Seq<JoinResponse>,
)
    decreases reqs.len(),
{
    if reqs.len() == 0 {
        (names, Seq::empty())
    } else {
        let (before, answers) = run_joins(names, reqs.drop_last());
        let (after, answer) = admit_step(before, reqs.last());
        (after, answers.push(answer))
    }
}

/// One admission keeps the registry well formed and keeps every name in it.
pub proof fn lemma_admit_step_keeps(names: Seq<Seq<char>>, n: Seq<char>)
    requires
        registry_wf(names),
    ensures
        registry_wf(admit_step(names, n).0),
        forall|m: Seq<char>| names.contains(m) ==> admit_step(names, n).0.contains(m),
        admit_step(names, n).1 == JoinResponse::Accepted ==> admit_step(names, n).0.contains(n)
            && !names.contains(n),
{
    let after = admit_step(names, n).0;
    if name_verdict(names, n) is None {
        assert(after == names.push(n));
        assert(after[names.len() as int] == n);
        assert forall|m: Seq<char>| names.contains(m) implies after.contains(m) by {
            let i = choose|i: int| 0 <= i < names.len() && names[i] == m;
            assert(after[i] == m);
        }
        assert forall|i: int, j: int| 0 <= i < j < after.len() implies after[i] != after[j] by {
            if j == names.len() {
                assert(names[i] == after[i]);
            }
        }
    }
}

/// However many join requests arrive, handled one at a time: each name is
/// accepted at most once, a name already admitted is always refused as
/// taken, and the registry stays well formed, every name in it once.
pub proof fn lemma_joins_accept_each_name_once(names: Seq<Seq<char>>, reqs: Seq<Seq<char>>)
    requires
        registry_wf(names),
    ensures
        run_joins(names, reqs).1.len() == reqs.len(),
        registry_wf(run_joins(names, reqs).0),
        forall|m: Seq<char>| names.contains(m) ==> run_joins(names, reqs).0.contains(m),
        forall|i: int|
            0 <= i < reqs.len() && run_joins(names, reqs).1[i] == JoinResponse::Accepted
                ==> run_joins(names, reqs).0.contains(reqs[i]) && !names.contains(reqs[i]),
        forall|i: int, j: int|
            0 <= i < reqs.len() && 0 <= j < reqs.len() && reqs[i] == reqs[j]
                && run_joins(names, reqs).1[i] == JoinResponse::Accepted
                && run_joins(names, reqs).1[j] == JoinResponse::Accepted ==> i == j,
        forall|i: int|
            0 <= i < reqs.len() && names.contains(#[trigger] reqs[i]) ==> run_joins(names, reqs).1[i]
                == JoinResponse::Rejected(RejectReason::NameTaken),
    decreases reqs.len(),
{
    if reqs.len() > 0 {
        let prev = reqs.drop_last();
        let k = prev.len() as int;
        lemma_joins_accept_each_name_once(names, prev);
        let (before, answers) = run_joins(names, prev);
        let n = reqs.last();
        lemma_admit_step_keeps(before, n);
        let (after, answer) = admit_step(before, n);
        let all = answers.push(answer);
        assert(run_joins(names, reqs) == (after, all));
        assert forall|i: int| 0 <= i < k implies reqs[i] == prev[i] && all[i] == answers[i] by {}
        if names.contains(n) {
            lemma_registered_name_taken(before, n);
        }
        assert forall|i: int|
            0 <= i < reqs.len() && all[i] == JoinResponse::Accepted implies after.contains(reqs[i])
            && !names.contains(reqs[i]) by {
            if i < k {
                assert(before.contains(prev[i]));
            }
        }
        assert forall|i: int, j: int|
            0 <= i < reqs.len() && 0 <= j < reqs.len() && reqs[i] == reqs[j] && all[i]
                == JoinResponse::Accepted && all[j] == JoinResponse::Accepted implies i == j by {
            if i < k && j == k {
                assert(before.contains(prev[i]));
            } else if j < k && i == k {
                assert(before.contains(prev[j]));
            }
        }
        assert forall|i: int|
            0 <= i < reqs.len() && names.contains(#[trigger] reqs[i]) implies all[i]
            == JoinResponse::Rejected(RejectReason::NameTaken) by {
            if i < k {
                assert(names.contains(prev[i]));
            }
        }
    }
}

/// `ACCEPT`
pub open spec fn accept_token() -> Seq<u8> {
    seq![65, 67, 67, 69, 80, 84]
}

/// `REJECT`
pub open spec fn reject_token() -> Seq<u8> {
    seq![82, 69, 74, 69, 67, 84]
}

pub open spec fn reply_bytes(resp: JoinResponse) -> Seq<u8> {
    match resp {
        JoinResponse::Accepted => accept_token(),
        JoinResponse::Rejected(_) => reject_token(),
    }
}

/// The wire reply to a join request: `ACCEPT` or `REJECT`.
pub fn encode_reply(resp: JoinResponse) -> (r: Vec<u8>)
    ensures
        r@ == reply_bytes(resp),
{
    let r = match resp {
        JoinResponse::Accepted => vec![65u8, 67, 67, 69, 80, 84],
        JoinResponse::Rejected(_) => vec![82u8, 69, 74, 69, 67, 84],
    };
    assert(r@ =~= reply_bytes(resp));
    r
}

/// Whether a reply to a join request means acceptance: anything but `REJECT`
/// (with the buffer's zero padding ignored) does.
pub fn reply_accepted(reply: &[u8]) -> (r: bool)
    ensures
        r == (trim_zeros(reply@) != reject_token()),
{
    let len = trimmed_len(reply);
    let rejected = len == 6 && reply[0] == 82 && reply[1] == 69 && reply[2] == 74 && reply[3] == 69
        && reply[4] == 67 && reply[5] == 84;
    assert(reject_token().len() == 6);
    if len == 6 {
        let ghost t = reply@.take(6);
        assert(t[0] == reply@[0] && t[1] == reply@[1] && t[2] == reply@[2]);
        assert(t[3] == reply@[3] && t[4] == reply@[4] && t[5] == reply@[5]);
        let ghost k = reject_token();
        assert(k[0] == 82 && k[1] == 69 && k[2] == 74 && k[3] == 69 && k[4] == 67 && k[5] == 84);
        if rejected {
            assert(t =~= k);
        }
    }
    !rejected
}

} // verus!
