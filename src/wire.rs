//! The textual wire protocol: `<VERB>,<field>,<field>,...` in a fixed receive
//! buffer whose unused tail is zero bytes.

use vstd::prelude::*;
use vstd::utf8::{decode_utf8, encode_utf8, valid_utf8, is_ascii_chars};
use crate::action::{Action, ActionView, LAST_CARD_CODE};

verus! {

/// The capacity of one read or write cycle.
pub const BUFFER_SIZE: usize = 512;

/// The field delimiter, `,`.
pub const COMMA: u8 = 44;

/// Every byte of the buffer is zero.
pub open spec fn all_zero(b: Seq<u8>) -> bool {
    forall|i: int| 0 <= i < b.len() ==> b[i] == 0
}

/// The buffer without its trailing zero bytes.
pub open spec fn trim_zeros(b: Seq<u8>) -> Seq<u8>
    decreases b.len(),
{
    if b.len() > 0 && b.last() == 0 {
        trim_zeros(b.drop_last())
    } else {
        b
    }
}

/// The comma-separated fields of a byte sequence; there is always at least one.
pub open spec fn split_fields(b: Seq<u8>) -> Seq<Seq<u8>>
    decreases b.len(),
{
    if b.len() == 0 {
        seq![Seq::empty()]
    } else {
        let prev = split_fields(b.drop_last());
        if b.last() == COMMA {
            prev.push(Seq::empty())
        } else {
            prev.update(prev.len() - 1, prev.last().push(b.last()))
        }
    }
}

pub open spec fn is_digit(c: u8) -> bool {
    48 <= c <= 57
}

pub open spec fn all_digits(d: Seq<u8>) -> bool {
    forall|i: int| 0 <= i < d.len() ==> is_digit(d[i])
}

pub open spec fn digit_value(c: u8) -> nat {
    if is_digit(c) {
        (c - 48) as nat
    } else {
        0
    }
}

/// The number that a sequence of ASCII decimal digits spells.
pub open spec fn decimal_value(d: Seq<u8>) -> nat
    decreases d.len(),
{
    if d.len() == 0 {
        0
    } else {
        10 * decimal_value(d.drop_last()) + digit_value(d.last())
    }
}

/// The shortest ASCII decimal spelling of a number.
pub open spec fn decimal_digits(n: nat) -> Seq<u8>
    decreases n,
{
    if n < 10 {
        seq![(48 + n) as u8]
    } else {
        decimal_digits(n / 10).push((48 + n % 10) as u8)
    }
}

/// A field that spells a number no larger than `max`, and that number.
pub open spec fn number_field(d: Seq<u8>, max: nat) -> Option<nat> {
    if d.len() > 0 && all_digits(d) && decimal_value(d) <= max {
        Some(decimal_value(d))
    } else {
        None
    }
}

pub proof fn lemma_trim_empty_iff_all_zero(b: Seq<u8>)
    ensures
        trim_zeros(b).len() == 0 <==> all_zero(b),
    decreases b.len(),
{
    if b.len() > 0 {
        lemma_trim_empty_iff_all_zero(b.drop_last());
        if b.last() == 0 {
            if all_zero(b.drop_last()) {
                assert forall|i: int| 0 <= i < b.len() implies b[i] == 0 by {
                    if i < b.len() - 1 {
                        assert(b[i] == b.drop_last()[i]);
                    }
                }
            }
            if all_zero(b) {
                assert forall|i: int| 0 <= i < b.drop_last().len() implies b.drop_last()[i] == 0 by {
                    assert(b[i] == b.drop_last()[i]);
                }
            }
        } else {
            assert(b[b.len() - 1] != 0);
        }
    }
}

pub proof fn lemma_split_nonempty(b: Seq<u8>)
    ensures
        split_fields(b).len() >= 1,
    decreases b.len(),
{
    if b.len() > 0 {
        lemma_split_nonempty(b.drop_last());
    }
}

/// A sequence without a comma is a single field.
pub proof fn lemma_split_no_comma(x: Seq<u8>)
    requires
        forall|i: int| 0 <= i < x.len() ==> x[i] != COMMA,
    ensures
        split_fields(x) == seq![x],
    decreases x.len(),
{
    if x.len() > 0 {
        lemma_split_no_comma(x.drop_last());
        assert(x.drop_last().push(x.last()) =~= x);
        assert(split_fields(x) =~= seq![x]);
    } else {
        assert(x =~= Seq::<u8>::empty());
    }
}

/// Fields on both sides of a comma are split independently.
pub proof fn lemma_split_concat(x: Seq<u8>, y: Seq<u8>)
    ensures
        split_fields(x + seq![COMMA] + y) == split_fields(x) + split_fields(y),
    decreases y.len(),
{
    let z = x + seq![COMMA] + y;
    lemma_split_nonempty(x);
    if y.len() == 0 {
        assert(z.drop_last() =~= x);
        assert(split_fields(z) =~= split_fields(x) + split_fields(y));
    } else {
        let y1 = y.drop_last();
        assert(z.drop_last() =~= x + seq![COMMA] + y1);
        lemma_split_concat(x, y1);
        lemma_split_nonempty(y1);
        assert(split_fields(z) =~= split_fields(x) + split_fields(y));
    }
}

pub proof fn lemma_decimal_prefix_le(d: Seq<u8>, k: int)
    requires
        0 <= k <= d.len(),
    ensures
        decimal_value(d.take(k)) <= decimal_value(d),
    decreases d.len() - k,
{
    if k < d.len() {
        lemma_decimal_prefix_le(d, k + 1);
        assert(d.take(k + 1).drop_last() =~= d.take(k));
    } else {
        assert(d.take(k) =~= d);
    }
}

/// The decimal spelling of a number is made of digits and spells that number.
pub proof fn lemma_decimal_digits(n: nat)
    ensures
        decimal_digits(n).len() > 0,
        all_digits(decimal_digits(n)),
        decimal_value(decimal_digits(n)) == n,
    decreases n,
{
    if n >= 10 {
        lemma_decimal_digits(n / 10);
        let d = decimal_digits(n);
        assert(d.drop_last() =~= decimal_digits(n / 10));
        assert(d.last() == (48 + n % 10) as u8);
        assert(digit_value(d.last()) == n % 10);
        assert(n == 10 * (n / 10) + n % 10);
        assert(decimal_value(d) == 10 * decimal_value(d.drop_last()) + digit_value(d.last()));
        assert forall|i: int| 0 <= i < d.len() implies is_digit(d[i]) by {
            if i < d.len() - 1 {
                assert(d[i] == decimal_digits(n / 10)[i]);
            }
        }
    } else {
        let d = decimal_digits(n);
        assert(d.drop_last() =~= Seq::<u8>::empty());
        assert(decimal_value(d.drop_last()) == 0);
        assert(digit_value(d.last()) == n);
    }
}

/// Whether every byte of the buffer is zero.
pub fn is_zeroed(buf: &[u8]) -> (r: bool)
    ensures
        r == all_zero(buf@),
{
    let mut i: usize = 0;
    while i < buf.len()
        invariant
            0 <= i <= buf@.len(),
            forall|j: int| 0 <= j < i ==> buf@[j] == 0,
        decreases buf@.len() - i,
    {
        if buf[i] != 0 {
            return false;
        }
        i = i + 1;
    }
    true
}

/// The number of bytes left once trailing zero bytes are dropped.
pub(crate) fn trimmed_len(buf: &[u8]) -> (r: usize)
    ensures
        r <= buf@.len(),
        buf@.take(r as int) == trim_zeros(buf@),
{
    let mut end: usize = buf.len();
    assert(buf@.take(end as int) =~= buf@);
    while end > 0 && buf[end - 1] == 0
        invariant
            end <= buf@.len(),
            trim_zeros(buf@.take(end as int)) == trim_zeros(buf@),
        decreases end,
    {
        assert(buf@.take(end as int).drop_last() =~= buf@.take(end - 1));
        end = end - 1;
    }
    end
}

pub open spec fn fields_view(v: Seq<Vec<u8>>) -> Seq<Seq<u8>> {
    Seq::new(v.len(), |j: int| v[j]@)
}

/// The comma-separated fields of the first `len` bytes of the buffer.
fn split_at_commas(buf: &[u8], len: usize) -> (r: Vec<Vec<u8>>)
    requires
        len <= buf@.len(),
    ensures
        fields_view(r@) == split_fields(buf@.take(len as int)),
{
    let mut fields: Vec<Vec<u8>> = Vec::new();
    let mut cur: Vec<u8> = Vec::new();
    let mut i: usize = 0;
    assert(fields_view(fields@).push(cur@) =~= split_fields(buf@.take(0)));
    while i < len
        invariant
            i <= len <= buf@.len(),
            fields_view(fields@).push(cur@) == split_fields(buf@.take(i as int)),
        decreases len - i,
    {
        let c = buf[i];
        let ghost prev = split_fields(buf@.take(i as int));
        assert(buf@.take(i + 1).drop_last() =~= buf@.take(i as int));
        if c == COMMA {
            let ghost old_fields = fields@;
            fields.push(cur);
            cur = Vec::new();
            assert(fields_view(fields@) =~= fields_view(old_fields).push(prev.last()));
            assert(fields_view(fields@).push(cur@) =~= split_fields(buf@.take(i + 1)));
        } else {
            cur.push(c);
            assert(fields_view(fields@).push(cur@) =~= split_fields(buf@.take(i + 1)));
        }
        i = i + 1;
    }
    let ghost before = fields@;
    fields.push(cur);
    assert(fields_view(fields@) =~= fields_view(before).push(cur@));
    fields
}

/// The number that a field spells, where it spells one no larger than `max`.
fn parse_number(d: &[u8], max: u32) -> (r: Option<u32>)
    requires
        max <= 65535,
    ensures
        r matches Some(v) ==> number_field(d@, max as nat) == Some(v as nat),
        r is None ==> number_field(d@, max as nat) is None,
{
    if d.len() == 0 {
        return None;
    }
    let mut v: u32 = 0;
    let mut i: usize = 0;
    assert(d@.take(0) =~= Seq::<u8>::empty());
    while i < d.len()
        invariant
            max <= 65535,
            i <= d@.len(),
            v as nat == decimal_value(d@.take(i as int)),
            v <= max,
            all_digits(d@.take(i as int)),
        decreases d@.len() - i,
    {
        let c = d[i];
        if c < 48 || c > 57 {
            return None;
        }
        assert(d@.take(i + 1).drop_last() =~= d@.take(i as int));
        let nv: u32 = v * 10 + (c - 48) as u32;
        if nv > max {
            proof {
                lemma_decimal_prefix_le(d@, i + 1);
            }
            return None;
        }
        v = nv;
        i = i + 1;
        assert(all_digits(d@.take(i as int)));
    }
    assert(d@.take(i as int) =~= d@);
    Some(v)
}

/// Appends the decimal spelling of a number.
fn push_decimal(out: &mut Vec<u8>, n: u16)
    ensures
        final(out)@ == old(out)@ + decimal_digits(n as nat),
{
    let mut acc: Vec<u8> = Vec::new();
    let mut cur: u16 = n;
    assert(decimal_digits(n as nat) =~= decimal_digits(cur as nat) + acc@);
    while cur >= 10
        invariant
            decimal_digits(n as nat) == decimal_digits(cur as nat) + acc@,
        decreases cur,
    {
        let d: u8 = (cur % 10) as u8;
        acc.insert(0, 48 + d);
        assert(decimal_digits(cur as nat) == decimal_digits((cur / 10) as nat).push((48 + d) as u8));
        cur = cur / 10;
        assert(decimal_digits(n as nat) =~= decimal_digits(cur as nat) + acc@);
    }
    let ghost start = out@;
    out.push(48 + cur as u8);
    let mut i: usize = 0;
    while i < acc.len()
        invariant
            i <= acc@.len(),
            out@ == start + seq![(48 + cur) as u8] + acc@.take(i as int),
        decreases acc@.len() - i,
    {
        out.push(acc[i]);
        assert(acc@.take(i + 1) =~= acc@.take(i as int).push(acc@[i as int]));
        i = i + 1;
    }
    assert(acc@.take(i as int) =~= acc@);
    assert(decimal_digits(cur as nat) =~= seq![(48 + cur) as u8]);
    assert(out@ =~= start + decimal_digits(n as nat));
}

/// Appends bytes.
pub(crate) fn push_bytes(out: &mut Vec<u8>, b: &[u8])
    ensures
        final(out)@ == old(out)@ + b@,
{
    let ghost start = out@;
    let mut i: usize = 0;
    while i < b.len()
        invariant
            i <= b@.len(),
            out@ == start + b@.take(i as int),
        decreases b@.len() - i,
    {
        out.push(b[i]);
        assert(b@.take(i + 1) =~= b@.take(i as int).push(b@[i as int]));
        i = i + 1;
    }
    assert(b@.take(i as int) =~= b@);
}

/// The text of bytes read as UTF-8, with each invalid sequence replaced by U+FFFD.
pub uninterp spec fn lossy_text(b: Seq<u8>) -> Seq<char>;

/// The text that a received field stands for: its UTF-8 reading where the
/// bytes are valid UTF-8, the lossy reading otherwise.
pub open spec fn field_text(b: Seq<u8>) -> Seq<char> {
    if valid_utf8(b) {
        decode_utf8(b)
    } else {
        lossy_text(b)
    }
}

/// Relies on `String::from_utf8_lossy`: the text depends on the bytes alone,
/// and valid UTF-8 is read unchanged.
#[verifier::external_body]
fn text_of_bytes(b: &[u8]) -> (r: String)
    ensures
        r@ == lossy_text(b@),
        valid_utf8(b@) ==> r@ == decode_utf8(b@),
{
    String::from_utf8_lossy(b).into_owned()
}

/// `JOIN`
pub open spec fn join_verb() -> Seq<u8> {
    seq![74, 79, 73, 78]
}

/// `ACT`
pub open spec fn act_verb() -> Seq<u8> {
    seq![65, 67, 84]
}

/// A buffer that could not be read as a message.
#[derive(Clone, Copy, PartialEq, Eq, Structural, Debug)]
pub enum DecodeError {
    MalformedMessage,
}

/// A decoded message.
#[derive(Clone, Debug, PartialEq, Eq)]
pub enum Message {
    /// An all-zero buffer: nothing arrived this cycle.
    Idle,
    /// `JOIN,<name>`
    Join(String),
    /// `ACT,<action_type>,<attachment>,<from_player>,<to_player>`
    Act(Action),
}

pub enum MessageView {
    Idle,
    Join(Seq<char>),
    Act(ActionView),
}

impl View for Message {
    type V = MessageView;

    open spec fn view(&self) -> MessageView {
        match self {
            Message::Idle => MessageView::Idle,
            Message::Join(n) => MessageView::Join(n@),
            Message::Act(a) => MessageView::Act(a@),
        }
    }
}

pub open spec fn decode_result_view(r: Result<Message, DecodeError>) -> Result<MessageView, DecodeError> {
    match r {
        Ok(m) => Ok(m@),
        Err(e) => Err(e),
    }
}

/// `JOIN,`: everything after it is the name, commas included, so that the
/// join protocol can refuse a name with a comma.
pub open spec fn join_prefix() -> Seq<u8> {
    join_verb() + seq![COMMA]
}

/// What a buffer decodes to: `Idle` when nothing but zero bytes arrived;
/// a `JOIN` carrying all that follows `JOIN,`; or an `ACT` with four fields
/// whose first two spell an action code (at most 52) and a 16-bit attachment.
pub open spec fn decode_spec(b: Seq<u8>) -> Result<MessageView, DecodeError> {
    let t = trim_zeros(b);
    if t.len() == 0 {
        Ok(MessageView::Idle)
    } else if t.len() >= 5 && t.take(5) == join_prefix() {
        Ok(MessageView::Join(field_text(t.skip(5))))
    } else {
        let f = split_fields(t);
        if f.len() == 5 && f[0] == act_verb() && number_field(f[1], LAST_CARD_CODE as nat)
            is Some && number_field(f[2], 65535) is Some {
            Ok(
                MessageView::Act(
                    ActionView {
                        action_type: decimal_value(f[1]) as u8,
                        attachment: decimal_value(f[2]) as u16,
                        from_player: field_text(f[3]),
                        to_player: field_text(f[4]),
                    },
                ),
            )
        } else {
            Err(DecodeError::MalformedMessage)
        }
    }
}

/// The wire form of a join request.
pub open spec fn join_bytes(name: Seq<char>) -> Seq<u8> {
    join_prefix() + encode_utf8(name)
}

/// The wire form of an action.
pub open spec fn action_bytes(a: ActionView) -> Seq<u8> {
    act_verb() + seq![COMMA] + (decimal_digits(a.action_type as nat) + seq![COMMA] + (
    decimal_digits(a.attachment as nat) + seq![COMMA] + (encode_utf8(a.from_player) + seq![
        COMMA,
    ] + encode_utf8(a.to_player))))
}

/// Text that can travel as a field: ASCII without a comma.
pub open spec fn wire_text(s: Seq<char>) -> bool {
    is_ascii_chars(s) && !s.contains(',')
}

/// Text that can travel as the last field: it also does not end in a zero
/// byte, which the receiver would take for buffer padding.
pub open spec fn last_wire_text(s: Seq<char>) -> bool {
    wire_text(s) && (s.len() > 0 ==> s.last() != '\0')
}

/// Whether the bytes are exactly `ACT`.
fn is_act_verb(f: &[u8]) -> (r: bool)
    ensures
        r == (f@ == act_verb()),
{
    let r = f.len() == 3 && f[0] == 65 && f[1] == 67 && f[2] == 84;
    if r {
        assert(f@ =~= act_verb());
    }
    r
}

/// The bytes of `buf` from `start` up to `end`.
fn copy_range(buf: &[u8], start: usize, end: usize) -> (r: Vec<u8>)
    requires
        start <= end <= buf@.len(),
    ensures
        r@ == buf@.subrange(start as int, end as int),
{
    let mut out: Vec<u8> = Vec::new();
    let mut i: usize = start;
    while i < end
        invariant
            start <= i <= end <= buf@.len(),
            out@ == buf@.subrange(start as int, i as int),
        decreases end - i,
    {
        out.push(buf[i]);
        assert(buf@.subrange(start as int, i + 1) =~= buf@.subrange(start as int, i as int).push(
            buf@[i as int],
        ));
        i = i + 1;
    }
    out
}

/// Decodes one received buffer.
pub fn decode(buf: &[u8]) -> (r: Result<Message, DecodeError>)
    ensures
        decode_result_view(r) == decode_spec(buf@),
{
    let len = trimmed_len(buf);
    if len == 0 {
        return Ok(Message::Idle);
    }
    let ghost t = buf@.take(len as int);
    if len >= 5 && buf[0] == 74 && buf[1] == 79 && buf[2] == 73 && buf[3] == 78 && buf[4] == COMMA {
        assert(t.take(5) =~= join_prefix());
        let name_bytes = copy_range(buf, 5, len);
        assert(name_bytes@ =~= t.skip(5));
        let name = text_of_bytes(name_bytes.as_slice());
        return Ok(Message::Join(name));
    }
    if len >= 5 {
        assert(t.take(5)[0] == buf@[0] && t.take(5)[1] == buf@[1] && t.take(5)[2] == buf@[2]);
        assert(t.take(5)[3] == buf@[3] && t.take(5)[4] == buf@[4]);
        let ghost p = join_prefix();
        assert(p[0] == 74 && p[1] == 79 && p[2] == 73 && p[3] == 78 && p[4] == COMMA);
    }
    let fields = split_at_commas(buf, len);
    let ghost f = split_fields(t);
    proof {
        lemma_split_nonempty(t);
    }
    assert(fields_view(fields@)[0] == f[0]);
    if fields.len() == 5 && is_act_verb(fields[0].as_slice()) {
        assert(fields_view(fields@)[1] == f[1]);
        assert(fields_view(fields@)[2] == f[2]);
        assert(fields_view(fields@)[3] == f[3]);
        assert(fields_view(fields@)[4] == f[4]);
        let code = parse_number(fields[1].as_slice(), LAST_CARD_CODE as u32);
        let attachment = parse_number(fields[2].as_slice(), 65535);
        match (code, attachment) {
            (Some(code), Some(attachment)) => {
                let from_player = text_of_bytes(fields[3].as_slice());
                let to_player = text_of_bytes(fields[4].as_slice());
                return Ok(
                    Message::Act(
                        Action {
                            action_type: code as u8,
                            attachment: attachment as u16,
                            from_player,
                            to_player,
                        },
                    ),
                );
            },
            _ => {},
        }
    }
    Err(DecodeError::MalformedMessage)
}

/// The wire form of an action.
pub fn encode_action(action: &Action) -> (r: Vec<u8>)
    requires
        action.action_type <= LAST_CARD_CODE,
    ensures
        r@ == action_bytes(action@),
{
    let mut out: Vec<u8> = Vec::new();
    out.push(65);
    out.push(67);
    out.push(84);
    out.push(COMMA);
    push_decimal(&mut out, action.action_type as u16);
    out.push(COMMA);
    push_decimal(&mut out, action.attachment);
    out.push(COMMA);
    push_bytes(&mut out, action.from_player.as_str().as_bytes());
    out.push(COMMA);
    push_bytes(&mut out, action.to_player.as_str().as_bytes());
    assert(out@ =~= action_bytes(action@));
    out
}

/// The wire form of a join request.
pub fn encode_join(name: &str) -> (r: Vec<u8>)
    ensures
        r@ == join_bytes(name@),
{
    let mut out: Vec<u8> = Vec::new();
    out.push(74);
    out.push(79);
    out.push(73);
    out.push(78);
    out.push(COMMA);
    push_bytes(&mut out, name.as_bytes());
    assert(out@ =~= join_bytes(name@));
    out
}

/// A buffer of zero bytes only never decodes to anything but `Idle`.
pub proof fn lemma_zero_buffer_is_idle(b: Seq<u8>)
    requires
        all_zero(b),
    ensures
        decode_spec(b) == Ok::<MessageView, DecodeError>(MessageView::Idle),
{
    lemma_trim_empty_iff_all_zero(b);
}

/// Field text is sent as comma-free bytes that read back as the same text.
pub proof fn lemma_wire_text_bytes(s: Seq<char>)
    requires
        wire_text(s),
    ensures
        encode_utf8(s).len() == s.len(),
        forall|i: int| 0 <= i < s.len() ==> encode_utf8(s)[i] == s[i] as u8,
        forall|i: int| 0 <= i < encode_utf8(s).len() ==> encode_utf8(s)[i] != COMMA,
        field_text(encode_utf8(s)) == s,
{
    broadcast use vstd::utf8::encode_utf8_valid_utf8, vstd::utf8::encode_utf8_decode_utf8;

    vstd::utf8::is_ascii_chars_encode_utf8(s);
    assert forall|i: int| 0 <= i < encode_utf8(s).len() implies encode_utf8(s)[i] != COMMA by {
        assert(s[i] != ',');
        assert('\0' <= s[i] <= '\u{7f}');
    }
}

pub proof fn lemma_digits_no_comma(n: nat)
    ensures
        forall|i: int| 0 <= i < decimal_digits(n).len() ==> decimal_digits(n)[i] != COMMA,
        number_field(decimal_digits(n), n) == Some(n),
{
    lemma_decimal_digits(n);
    assert forall|i: int| 0 <= i < decimal_digits(n).len() implies decimal_digits(n)[i] != COMMA by {
        assert(is_digit(decimal_digits(n)[i]));
    }
}

/// An encoded action decodes back to the same action, for an action code
/// that names a card or none and player names that can travel as fields.
pub proof fn lemma_action_round_trip(a: ActionView)
    requires
        a.action_type <= LAST_CARD_CODE,
        wire_text(a.from_player),
        last_wire_text(a.to_player),
    ensures
        decode_spec(action_bytes(a)) == Ok::<MessageView, DecodeError>(MessageView::Act(a)),
{
    let v = act_verb();
    let d1 = decimal_digits(a.action_type as nat);
    let d2 = decimal_digits(a.attachment as nat);
    let f = encode_utf8(a.from_player);
    let t = encode_utf8(a.to_player);
    let r3 = f + seq![COMMA] + t;
    let r2 = d2 + seq![COMMA] + r3;
    let r1 = d1 + seq![COMMA] + r2;
    let e = action_bytes(a);
    assert(e == v + seq![COMMA] + r1);
    lemma_wire_text_bytes(a.from_player);
    lemma_wire_text_bytes(a.to_player);
    lemma_digits_no_comma(a.action_type as nat);
    lemma_digits_no_comma(a.attachment as nat);
    lemma_decimal_digits(a.action_type as nat);
    lemma_decimal_digits(a.attachment as nat);
    // the last byte is not padding
    if t.len() > 0 {
        assert(e.last() == t.last());
        assert(t.last() == a.to_player.last() as u8);
    } else {
        assert(e.last() == COMMA);
    }
    assert(trim_zeros(e) == e);
    assert(e.take(5)[0] == 65 && join_prefix()[0] == 74);
    // the fields
    lemma_split_no_comma(v);
    lemma_split_no_comma(d1);
    lemma_split_no_comma(d2);
    lemma_split_no_comma(f);
    lemma_split_no_comma(t);
    lemma_split_concat(f, t);
    lemma_split_concat(d2, r3);
    lemma_split_concat(d1, r2);
    lemma_split_concat(v, r1);
    assert(split_fields(e) =~= seq![v, d1, d2, f, t]);
}

/// An encoded join request decodes back to the same name, for an ASCII name
/// that does not end in a zero byte, which the receiver would take for
/// buffer padding.
pub proof fn lemma_join_round_trip(name: Seq<char>)
    requires
        is_ascii_chars(name),
        name.len() > 0 ==> name.last() != '\0',
    ensures
        decode_spec(join_bytes(name)) == Ok::<MessageView, DecodeError>(MessageView::Join(name)),
{
    broadcast use vstd::utf8::encode_utf8_valid_utf8, vstd::utf8::encode_utf8_decode_utf8;

    let t = encode_utf8(name);
    let e = join_bytes(name);
    vstd::utf8::is_ascii_chars_encode_utf8(name);
    if t.len() > 0 {
        assert(e.last() == t.last());
        assert(t.last() == name.last() as u8);
    } else {
        assert(e.last() == COMMA);
    }
    assert(trim_zeros(e) == e);
    assert(e.take(5) =~= join_prefix());
    assert(e.skip(5) =~= t);
}

/// A received `ACT` message, encoded again, decodes to the same message,
/// where its player names can travel as fields.
pub proof fn lemma_decoded_action_reencodes(b: Seq<u8>, a: ActionView)
    requires
        decode_spec(b) == Ok::<MessageView, DecodeError>(MessageView::Act(a)),
        wire_text(a.from_player),
        last_wire_text(a.to_player),
    ensures
        decode_spec(action_bytes(a)) == decode_spec(b),
{
    let f = split_fields(trim_zeros(b));
    assert(number_field(f[1], LAST_CARD_CODE as nat) is Some);
    lemma_action_round_trip(a);
}

} // verus!
