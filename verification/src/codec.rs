//! The event codec: the canonical JSON documents this system writes and
//! reads back.
//!
//! The broker's record schema requires string-typed values, so an event
//! travels as a JSON document embedded in a string field; this module
//! defines that document format exactly, together with the envelopes
//! around it. Encoding is canonical — fixed field order, no extra
//! whitespace — and decoding accepts exactly what encoding produces: a
//! document with the same members in another order, or with extra
//! members, is not a document of this format and does not decode.
//! Reconstruction therefore reads back this system's own published
//! events; a record whose value came from elsewhere is dropped, the
//! same way any undecodable value is.

use vstd::prelude::*;

use crate::event::{EventKind, EventModel, GameEvent, Position};
use crate::player::Direction;
use crate::str_bytes;
use crate::text::{
    dec_digits, is_digit, matches_at, parse_u64, parse_u64_at, u64_to_dec, BACKSLASH, COLON,
    COMMA, LBRACE, LBRACKET, LOWER_U, QUOTE, RBRACE, RBRACKET, ZERO,
};
use crate::txt;

verus! {

/// Lower-case hex digit of one nibble.
pub open spec fn hex_digit(n: u8) -> u8 {
    if n < 10 {
        (ZERO + n) as u8
    } else {
        (87 + n) as u8
    }
}

/// A lower-case hex digit byte.
pub open spec fn is_lc_hex(b: u8) -> bool {
    is_digit(b) || 97 <= b <= 102
}

/// Value of a lower-case hex digit byte.
pub open spec fn hex_val(b: u8) -> u8 {
    if is_digit(b) {
        (b - ZERO) as u8
    } else {
        (b - 87) as u8
    }
}

/// How one byte travels inside a JSON string: quotes and backslashes
/// get a backslash, ASCII control bytes become `\u00..` escapes, and
/// everything else is written raw.
pub open spec fn esc_byte(b: u8) -> Seq<u8> {
    if b == QUOTE || b == BACKSLASH {
        seq![BACKSLASH, b]
    } else if b < 32 {
        seq![BACKSLASH, LOWER_U, ZERO, ZERO, hex_digit(b / 16), hex_digit(b % 16)]
    } else {
        seq![b]
    }
}

/// JSON string escaping, byte for byte.
pub open spec fn esc(s: Seq<u8>) -> Seq<u8>
    decreases s.len(),
{
    if s.len() == 0 {
        Seq::empty()
    } else {
        esc(s.drop_last()) + esc_byte(s.last())
    }
}

/// A quoted, escaped string value.
pub open spec fn qesc(s: Seq<u8>) -> Seq<u8> {
    seq![QUOTE] + esc(s) + seq![QUOTE]
}

/// A quoted literal that needs no escaping.
pub open spec fn qlit(s: Seq<char>) -> Seq<u8> {
    seq![QUOTE] + txt(s) + seq![QUOTE]
}

/// Wire tag of each event kind.
pub open spec fn kind_text(k: EventKind) -> Seq<char> {
    match k {
        EventKind::Joined => "player_joined"@,
        EventKind::Moved => "player_moved"@,
        EventKind::Left => "player_left"@,
        EventKind::Snapshot => "player_snapshot"@,
        EventKind::ServerSnapshot => "state_snapshot"@,
        EventKind::ConnectivityTest => "connectivity_test"@,
    }
}

/// Wire tag of each direction.
pub open spec fn dir_text(d: Direction) -> Seq<char> {
    match d {
        Direction::Up => "up"@,
        Direction::Down => "down"@,
        Direction::Left => "left"@,
        Direction::Right => "right"@,
    }
}

/// An optional position: a `{x,y}` object or `null`.
pub open spec fn pos_bytes(p: Option<Position>) -> Seq<u8> {
    match p {
        None => txt("null"@),
        Some(q) => txt("{\"x\":"@) + dec_digits(q.x as nat) + txt(",\"y\":"@) + dec_digits(
            q.y as nat,
        ) + seq![RBRACE],
    }
}

/// An optional direction: a quoted tag or `null`.
pub open spec fn dir_bytes(d: Option<Direction>) -> Seq<u8> {
    match d {
        None => txt("null"@),
        Some(x) => qlit(dir_text(x)),
    }
}

/// An optional score: a number or `null`.
pub open spec fn score_bytes(s: Option<u64>) -> Seq<u8> {
    match s {
        None => txt("null"@),
        Some(n) => dec_digits(n as nat),
    }
}

/// The canonical event document.
pub open spec fn encode_event_spec(e: EventModel) -> Seq<u8> {
    txt("{\"type\":"@) + qlit(kind_text(e.kind)) + txt(",\"player_id\":"@) + qesc(e.player_id)
        + txt(",\"game_id\":"@) + qesc(e.game_id) + txt(",\"runtime\":"@) + qesc(e.runtime)
        + txt(",\"castle\":"@) + qesc(e.castle) + txt(",\"timestamp\":"@) + dec_digits(
        e.timestamp as nat,
    ) + txt(",\"position\":"@) + pos_bytes(e.position) + txt(",\"direction\":"@) + dir_bytes(
        e.direction,
    ) + txt(",\"score\":"@) + score_bytes(e.score) + seq![RBRACE]
}

/// Tests for a lower-case hex digit byte.
fn is_lc_hex_byte(b: u8) -> (r: bool)
    ensures
        r == is_lc_hex(b),
{
    (ZERO <= b && b <= 57) || (97 <= b && b <= 102)
}

/// Value of a lower-case hex digit byte.
fn hex_val_byte(b: u8) -> (r: u8)
    requires
        is_lc_hex(b),
    ensures
        r == hex_val(b),
        r <= 15,
{
    if b <= 57 {
        b - ZERO
    } else {
        b - 87
    }
}

/// Appends one byte.
pub fn push_byte(out: &mut Vec<u8>, b: u8)
    ensures
        final(out)@ == old(out)@ + seq![b],
{
    out.push(b);
    proof {
        assert(old(out)@.push(b) =~= old(out)@ + seq![b]);
    }
}

/// Appends the bytes of a literal.
pub fn push_lit(out: &mut Vec<u8>, s: &str)
    ensures
        final(out)@ == old(out)@ + txt(s@),
{
    let mut b = str_bytes(s);
    out.append(&mut b);
}

/// Appends the escaped bytes of `v`.
pub fn push_escaped(out: &mut Vec<u8>, v: &Vec<u8>)
    ensures
        final(out)@ == old(out)@ + esc(v@),
{
    let ghost base = out@;
    let mut i: usize = 0;
    proof {
        assert(v@.take(0) =~= Seq::<u8>::empty());
        assert(base + esc(v@.take(0)) =~= base);
    }
    while i < v.len()
        invariant
            i <= v.len(),
            out@ == base + esc(v@.take(i as int)),
        decreases v.len() - i,
    {
        let b = v[i];
        let ghost out0 = out@;
        if b == QUOTE || b == BACKSLASH {
            out.push(BACKSLASH);
            out.push(b);
        } else if b < 32 {
            out.push(BACKSLASH);
            out.push(LOWER_U);
            out.push(ZERO);
            out.push(ZERO);
            let hi = b / 16;
            let lo = b % 16;
            out.push(
                if hi < 10 {
                    ZERO + hi
                } else {
                    87 + hi
                },
            );
            out.push(
                if lo < 10 {
                    ZERO + lo
                } else {
                    87 + lo
                },
            );
        } else {
            out.push(b);
        }
        i = i + 1;
        proof {
            assert(v@.take(i as int).drop_last() =~= v@.take(i - 1));
            assert(v@.take(i as int).last() == v@[i - 1]);
            assert(out@ =~= out0 + esc_byte(v@[i - 1]));
            assert(out0 + esc_byte(v@[i - 1]) =~= base + esc(v@.take(i as int)));
        }
    }
    proof {
        assert(v@.take(v@.len() as int) =~= v@);
    }
}

/// Appends a quoted escaped string value.
pub fn push_qesc(out: &mut Vec<u8>, v: &Vec<u8>)
    ensures
        final(out)@ == old(out)@ + qesc(v@),
{
    push_byte(out, QUOTE);
    push_escaped(out, v);
    push_byte(out, QUOTE);
    proof {
        assert(final(out)@ =~= old(out)@ + qesc(v@));
    }
}

/// Appends a quoted literal.
pub fn push_qlit(out: &mut Vec<u8>, s: &str)
    ensures
        final(out)@ == old(out)@ + qlit(s@),
{
    push_byte(out, QUOTE);
    push_lit(out, s);
    push_byte(out, QUOTE);
    proof {
        assert(final(out)@ =~= old(out)@ + qlit(s@));
    }
}

/// Appends a decimal number.
pub fn push_u64(out: &mut Vec<u8>, n: u64)
    ensures
        final(out)@ == old(out)@ + dec_digits(n as nat),
{
    let mut d = u64_to_dec(n);
    out.append(&mut d);
}

/// Appends the wire tag of an event kind, quoted.
pub fn push_kind(out: &mut Vec<u8>, k: EventKind)
    ensures
        final(out)@ == old(out)@ + qlit(kind_text(k)),
{
    match k {
        EventKind::Joined => push_qlit(out, "player_joined"),
        EventKind::Moved => push_qlit(out, "player_moved"),
        EventKind::Left => push_qlit(out, "player_left"),
        EventKind::Snapshot => push_qlit(out, "player_snapshot"),
        EventKind::ServerSnapshot => push_qlit(out, "state_snapshot"),
        EventKind::ConnectivityTest => push_qlit(out, "connectivity_test"),
    }
}

/// Appends an optional position.
pub fn push_pos(out: &mut Vec<u8>, p: &Option<Position>)
    ensures
        final(out)@ == old(out)@ + pos_bytes(*p),
{
    match p {
        None => push_lit(out, "null"),
        Some(q) => {
            push_lit(out, "{\"x\":");
            push_u64(out, q.x);
            push_lit(out, ",\"y\":");
            push_u64(out, q.y);
            push_byte(out, RBRACE);
            proof {
                assert(final(out)@ =~= old(out)@ + pos_bytes(Some(*q)));
            }
        },
    }
}

/// Appends an optional direction.
pub fn push_dir(out: &mut Vec<u8>, d: &Option<Direction>)
    ensures
        final(out)@ == old(out)@ + dir_bytes(*d),
{
    match d {
        None => push_lit(out, "null"),
        Some(Direction::Up) => push_qlit(out, "up"),
        Some(Direction::Down) => push_qlit(out, "down"),
        Some(Direction::Left) => push_qlit(out, "left"),
        Some(Direction::Right) => push_qlit(out, "right"),
    }
}

/// Appends an optional score.
pub fn push_score(out: &mut Vec<u8>, s: &Option<u64>)
    ensures
        final(out)@ == old(out)@ + score_bytes(*s),
{
    match s {
        None => push_lit(out, "null"),
        Some(n) => push_u64(out, *n),
    }
}

/// Serializes an event into its canonical document.
pub fn encode_event(e: &GameEvent) -> (r: Vec<u8>)
    ensures
        r@ == encode_event_spec(e@),
{
    let mut out: Vec<u8> = Vec::new();
    push_lit(&mut out, "{\"type\":");
    push_kind(&mut out, e.kind);
    push_lit(&mut out, ",\"player_id\":");
    push_qesc(&mut out, &e.player_id);
    push_lit(&mut out, ",\"game_id\":");
    push_qesc(&mut out, &e.game_id);
    push_lit(&mut out, ",\"runtime\":");
    push_qesc(&mut out, &e.runtime);
    push_lit(&mut out, ",\"castle\":");
    push_qesc(&mut out, &e.castle);
    push_lit(&mut out, ",\"timestamp\":");
    push_u64(&mut out, e.timestamp);
    push_lit(&mut out, ",\"position\":");
    push_pos(&mut out, &e.position);
    push_lit(&mut out, ",\"direction\":");
    push_dir(&mut out, &e.direction);
    push_lit(&mut out, ",\"score\":");
    push_score(&mut out, &e.score);
    push_byte(&mut out, RBRACE);
    proof {
        assert(out@ =~= encode_event_spec(e@));
    }
    out
}

/// The position just after `tok` if it stands at `i`.
pub open spec fn expect_at(s: Seq<u8>, i: int, tok: Seq<u8>) -> Option<int> {
    if matches_at(s, tok, i) {
        Some(i + tok.len())
    } else {
        None
    }
}

/// Matches one literal token at `i`.
pub fn expect_lit(s: &Vec<u8>, i: usize, tok: &str) -> (r: Option<usize>)
    ensures
        match r {
            Some(j) => expect_at(s@, i as int, txt(tok@)) == Some(j as int),
            None => expect_at(s@, i as int, txt(tok@)) is None,
        },
{
    let t = str_bytes(tok);
    if i > s.len() || t.len() > s.len() - i {
        return None;
    }
    if crate::text::match_at(s, &t, i) {
        Some(i + t.len())
    } else {
        None
    }
}

/// Matches one byte at `i`.
pub fn expect_byte(s: &Vec<u8>, i: usize, b: u8) -> (r: Option<usize>)
    ensures
        match r {
            Some(j) => expect_at(s@, i as int, seq![b]) == Some(j as int),
            None => expect_at(s@, i as int, seq![b]) is None,
        },
{
    if i < s.len() && s[i] == b {
        proof {
            assert(s@.subrange(i as int, i + 1) =~= seq![b]);
        }
        Some(i + 1)
    } else {
        proof {
            if 0 <= (i as int) && i + 1 <= s@.len() {
                if matches_at(s@, seq![b], i as int) {
                    assert(s@.subrange(i as int, i + 1)[0] == s@[i as int]);
                }
            }
        }
        None
    }
}

/// The body of a quoted string starting at `i` (the opening quote is
/// already consumed): its unescaped content and the position after the
/// closing quote. The escapes accepted are exactly the ones the
/// encoder writes: `\\"`, `\\\\`, and `\\u00..` for control bytes.
pub open spec fn parse_str_body(s: Seq<u8>, i: int) -> Option<(Seq<u8>, int)>
    decreases s.len() - i,
{
    if i < 0 || i >= s.len() {
        None
    } else if s[i] == QUOTE {
        Some((Seq::empty(), i + 1))
    } else if s[i] == BACKSLASH {
        if i + 1 < s.len() && (s[i + 1] == QUOTE || s[i + 1] == BACKSLASH) {
            match parse_str_body(s, i + 2) {
                Some((t, j)) => Some((seq![s[i + 1]] + t, j)),
                None => None,
            }
        } else if i + 5 < s.len() && s[i + 1] == LOWER_U && s[i + 2] == ZERO && s[i + 3] == ZERO
            && is_lc_hex(s[i + 4]) && is_lc_hex(s[i + 5]) && hex_val(s[i + 4]) * 16 + hex_val(
            s[i + 5],
        ) < 32 {
            match parse_str_body(s, i + 6) {
                Some((t, j)) => Some(
                    (seq![(hex_val(s[i + 4]) * 16 + hex_val(s[i + 5])) as u8] + t, j),
                ),
                None => None,
            }
        } else {
            None
        }
    } else {
        match parse_str_body(s, i + 1) {
            Some((t, j)) => Some((seq![s[i]] + t, j)),
            None => None,
        }
    }
}

/// Reads a string body, handling the two escapes the encoder writes.
pub fn parse_string_body(s: &Vec<u8>, i: usize) -> (r: Option<(Vec<u8>, usize)>)
    ensures
        match r {
            Some((v, j)) => parse_str_body(s@, i as int) == Some((v@, j as int)),
            None => parse_str_body(s@, i as int) is None,
        },
    decreases s@.len() - i,
{
    if i >= s.len() {
        return None;
    }
    let b = s[i];
    if b == QUOTE {
        let v: Vec<u8> = Vec::new();
        proof {
            assert(v@ =~= Seq::<u8>::empty());
        }
        Some((v, i + 1))
    } else if b == BACKSLASH {
        if i + 1 < s.len() && (s[i + 1] == QUOTE || s[i + 1] == BACKSLASH) {
            let c = s[i + 1];
            match parse_string_body(s, i + 2) {
                Some((t, j)) => {
                    let mut v: Vec<u8> = Vec::new();
                    v.push(c);
                    let mut t = t;
                    v.append(&mut t);
                    proof {
                        assert(v@ =~= seq![c] + parse_str_body(s@, i + 2)->Some_0.0);
                    }
                    Some((v, j))
                },
                None => None,
            }
        } else if s.len() > 5 && i < s.len() - 5 && s[i + 1] == LOWER_U && s[i + 2] == ZERO && s[i
            + 3] == ZERO && is_lc_hex_byte(s[i + 4]) && is_lc_hex_byte(s[i + 5]) && hex_val_byte(
            s[i + 4],
        ) * 16 + hex_val_byte(s[i + 5]) < 32 {
            let c = hex_val_byte(s[i + 4]) * 16 + hex_val_byte(s[i + 5]);
            match parse_string_body(s, i + 6) {
                Some((t, j)) => {
                    let mut v: Vec<u8> = Vec::new();
                    v.push(c);
                    let mut t = t;
                    v.append(&mut t);
                    proof {
                        assert(v@ =~= seq![c] + parse_str_body(s@, i + 6)->Some_0.0);
                    }
                    Some((v, j))
                },
                None => None,
            }
        } else {
            None
        }
    } else {
        match parse_string_body(s, i + 1) {
            Some((t, j)) => {
                let mut v: Vec<u8> = Vec::new();
                v.push(b);
                let mut t = t;
                v.append(&mut t);
                proof {
                    assert(v@ =~= seq![b] + parse_str_body(s@, i + 1)->Some_0.0);
                }
                Some((v, j))
            },
            None => None,
        }
    }
}

/// A quoted string at `i`: opening quote, body, closing quote.
pub open spec fn parse_qstr(s: Seq<u8>, i: int) -> Option<(Seq<u8>, int)> {
    if 0 <= i < s.len() && s[i] == QUOTE {
        parse_str_body(s, i + 1)
    } else {
        None
    }
}

/// Reads a quoted string.
pub fn parse_quoted(s: &Vec<u8>, i: usize) -> (r: Option<(Vec<u8>, usize)>)
    ensures
        match r {
            Some((v, j)) => parse_qstr(s@, i as int) == Some((v@, j as int)),
            None => parse_qstr(s@, i as int) is None,
        },
{
    if i < s.len() && s[i] == QUOTE {
        parse_string_body(s, i + 1)
    } else {
        None
    }
}

/// Escaping distributes over concatenation.
pub proof fn lemma_esc_concat(a: Seq<u8>, b: Seq<u8>)
    ensures
        esc(a + b) == esc(a) + esc(b),
    decreases b.len(),
{
    if b.len() == 0 {
        assert(a + b =~= a);
        assert(esc(a) + esc(b) =~= esc(a));
    } else {
        lemma_esc_concat(a, b.drop_last());
        assert((a + b).drop_last() =~= a + b.drop_last());
        assert((a + b).last() == b.last());
        assert(esc(a + b) =~= esc(a) + esc(b));
    }
}

proof fn lemma_parse_esc_at(s: Seq<u8>, i: int, x: Seq<u8>)
    requires
        0 <= i,
        i + esc(x).len() < s.len(),
        s.subrange(i, i + esc(x).len()) == esc(x),
        s[i + esc(x).len()] == QUOTE,
    ensures
        parse_str_body(s, i) == Some((x, i + esc(x).len() + 1)),
    decreases x.len(),
{
    if x.len() == 0 {
        assert(esc(x).len() == 0);
        assert(s[i] == QUOTE);
        assert(Seq::<u8>::empty() =~= x);
    } else {
        let c = x[0];
        let rest = x.drop_first();
        assert(x =~= seq![c] + rest);
        lemma_esc_concat(seq![c], rest);
        assert(seq![c].drop_last() =~= Seq::<u8>::empty());
        assert(esc(Seq::<u8>::empty()) == Seq::<u8>::empty());
        assert(seq![c].last() == c);
        if c == QUOTE || c == BACKSLASH {
            assert(esc(seq![c]) =~= seq![BACKSLASH, c]);
            assert(s[i] == esc(x)[0] && s[i + 1] == esc(x)[1]) by {
                assert(esc(x)[0] == s.subrange(i, i + esc(x).len())[0]);
                assert(esc(x)[1] == s.subrange(i, i + esc(x).len())[1]);
            }
            assert(s[i] == BACKSLASH && s[i + 1] == c);
            assert forall|k: int| 0 <= k < esc(rest).len() implies s.subrange(
                i + 2,
                i + 2 + esc(rest).len(),
            )[k] == esc(rest)[k] by {
                assert(s.subrange(i, i + esc(x).len())[k + 2] == esc(x)[k + 2]);
                assert(esc(x)[k + 2] == esc(rest)[k]);
            }
            assert(s.subrange(i + 2, i + 2 + esc(rest).len()) =~= esc(rest));
            lemma_parse_esc_at(s, i + 2, rest);
            assert(seq![c] + rest =~= x);
        } else if c < 32 {
            assert(esc(seq![c]) =~= seq![
                BACKSLASH,
                LOWER_U,
                ZERO,
                ZERO,
                hex_digit(c / 16),
                hex_digit(c % 16),
            ]);
            assert(s[i] == esc(x)[0] && s[i + 1] == esc(x)[1] && s[i + 2] == esc(x)[2] && s[i + 3]
                == esc(x)[3] && s[i + 4] == esc(x)[4] && s[i + 5] == esc(x)[5]) by {
                assert(esc(x)[0] == s.subrange(i, i + esc(x).len())[0]);
                assert(esc(x)[1] == s.subrange(i, i + esc(x).len())[1]);
                assert(esc(x)[2] == s.subrange(i, i + esc(x).len())[2]);
                assert(esc(x)[3] == s.subrange(i, i + esc(x).len())[3]);
                assert(esc(x)[4] == s.subrange(i, i + esc(x).len())[4]);
                assert(esc(x)[5] == s.subrange(i, i + esc(x).len())[5]);
            }
            assert(s[i] == BACKSLASH && s[i + 1] == LOWER_U && s[i + 2] == ZERO && s[i + 3]
                == ZERO);
            assert(s[i + 4] == hex_digit(c / 16) && s[i + 5] == hex_digit(c % 16));
            assert(is_lc_hex(hex_digit(c / 16)) && hex_val(hex_digit(c / 16)) == c / 16);
            assert(is_lc_hex(hex_digit(c % 16)) && hex_val(hex_digit(c % 16)) == c % 16);
            assert(hex_val(s[i + 4]) * 16 + hex_val(s[i + 5]) == c);
            assert forall|k: int| 0 <= k < esc(rest).len() implies s.subrange(
                i + 6,
                i + 6 + esc(rest).len(),
            )[k] == esc(rest)[k] by {
                assert(s.subrange(i, i + esc(x).len())[k + 6] == esc(x)[k + 6]);
                assert(esc(x)[k + 6] == esc(rest)[k]);
            }
            assert(s.subrange(i + 6, i + 6 + esc(rest).len()) =~= esc(rest));
            lemma_parse_esc_at(s, i + 6, rest);
            assert(seq![c] + rest =~= x);
        } else {
            assert(esc(seq![c]) =~= seq![c]);
            assert(s[i] == esc(x)[0]) by {
                assert(esc(x)[0] == s.subrange(i, i + esc(x).len())[0]);
            }
            assert(s[i] == c);
            assert forall|k: int| 0 <= k < esc(rest).len() implies s.subrange(
                i + 1,
                i + 1 + esc(rest).len(),
            )[k] == esc(rest)[k] by {
                assert(s.subrange(i, i + esc(x).len())[k + 1] == esc(x)[k + 1]);
                assert(esc(x)[k + 1] == esc(rest)[k]);
            }
            assert(s.subrange(i + 1, i + 1 + esc(rest).len()) =~= esc(rest));
            lemma_parse_esc_at(s, i + 1, rest);
            assert(seq![c] + rest =~= x);
        }
    }
}

/// Law: every string value decodes back from its quoted, escaped form —
/// the decoder inverts what the encoder writes for string fields.
pub proof fn lemma_quoted_string_round_trip(x: Seq<u8>)
    ensures
        parse_qstr(qesc(x), 0) == Some((x, qesc(x).len() as int)),
{
    let s = qesc(x);
    assert(s[0] == QUOTE);
    assert(s.subrange(1, 1 + esc(x).len() as int) =~= esc(x));
    assert(s[1 + esc(x).len() as int] == QUOTE);
    lemma_parse_esc_at(s, 1, x);
}

/// The event kind named by its wire tag.
pub open spec fn kind_of_text(t: Seq<u8>) -> Option<EventKind> {
    if t == txt("player_joined"@) {
        Some(EventKind::Joined)
    } else if t == txt("player_moved"@) {
        Some(EventKind::Moved)
    } else if t == txt("player_left"@) {
        Some(EventKind::Left)
    } else if t == txt("player_snapshot"@) {
        Some(EventKind::Snapshot)
    } else if t == txt("state_snapshot"@) {
        Some(EventKind::ServerSnapshot)
    } else if t == txt("connectivity_test"@) {
        Some(EventKind::ConnectivityTest)
    } else {
        None
    }
}

/// Maps a parsed tag to its event kind.
pub fn kind_from_bytes(t: &Vec<u8>) -> (r: Option<EventKind>)
    ensures
        r == kind_of_text(t@),
{
    if crate::text::bytes_eq(t, &str_bytes("player_joined")) {
        Some(EventKind::Joined)
    } else if crate::text::bytes_eq(t, &str_bytes("player_moved")) {
        Some(EventKind::Moved)
    } else if crate::text::bytes_eq(t, &str_bytes("player_left")) {
        Some(EventKind::Left)
    } else if crate::text::bytes_eq(t, &str_bytes("player_snapshot")) {
        Some(EventKind::Snapshot)
    } else if crate::text::bytes_eq(t, &str_bytes("state_snapshot")) {
        Some(EventKind::ServerSnapshot)
    } else if crate::text::bytes_eq(t, &str_bytes("connectivity_test")) {
        Some(EventKind::ConnectivityTest)
    } else {
        None
    }
}

/// The direction named by its wire tag.
pub open spec fn dir_of_text(t: Seq<u8>) -> Option<Direction> {
    if t == txt("up"@) {
        Some(Direction::Up)
    } else if t == txt("down"@) {
        Some(Direction::Down)
    } else if t == txt("left"@) {
        Some(Direction::Left)
    } else if t == txt("right"@) {
        Some(Direction::Right)
    } else {
        None
    }
}

/// Maps a parsed tag to its direction.
pub fn dir_from_bytes(t: &Vec<u8>) -> (r: Option<Direction>)
    ensures
        r == dir_of_text(t@),
{
    if crate::text::bytes_eq(t, &str_bytes("up")) {
        Some(Direction::Up)
    } else if crate::text::bytes_eq(t, &str_bytes("down")) {
        Some(Direction::Down)
    } else if crate::text::bytes_eq(t, &str_bytes("left")) {
        Some(Direction::Left)
    } else if crate::text::bytes_eq(t, &str_bytes("right")) {
        Some(Direction::Right)
    } else {
        None
    }
}

/// An optional position value at `i`.
pub open spec fn parse_pos_at(s: Seq<u8>, i: int) -> Option<(Option<Position>, int)> {
    match expect_at(s, i, txt("null"@)) {
        Some(j) => Some((None, j)),
        None => match expect_at(s, i, txt("{\"x\":"@)) {
            None => None,
            Some(j1) => match parse_u64_at(s, j1) {
                None => None,
                Some((x, j2)) => match expect_at(s, j2, txt(",\"y\":"@)) {
                    None => None,
                    Some(j3) => match parse_u64_at(s, j3) {
                        None => None,
                        Some((y, j4)) => match expect_at(s, j4, seq![RBRACE]) {
                            None => None,
                            Some(j5) => Some((Some(Position { x, y }), j5)),
                        },
                    },
                },
            },
        },
    }
}

/// Reads an optional position value.
pub fn parse_pos(s: &Vec<u8>, i: usize) -> (r: Option<(Option<Position>, usize)>)
    ensures
        match r {
            Some((p, j)) => parse_pos_at(s@, i as int) == Some((p, j as int)),
            None => parse_pos_at(s@, i as int) is None,
        },
{
    if let Some(j) = expect_lit(s, i, "null") {
        return Some((None, j));
    }
    let j1 = match expect_lit(s, i, "{\"x\":") {
        Some(j) => j,
        None => {
            return None;
        },
    };
    let (x, j2) = match parse_u64(s, j1) {
        Some(v) => v,
        None => {
            return None;
        },
    };
    let j3 = match expect_lit(s, j2, ",\"y\":") {
        Some(j) => j,
        None => {
            return None;
        },
    };
    let (y, j4) = match parse_u64(s, j3) {
        Some(v) => v,
        None => {
            return None;
        },
    };
    let j5 = match expect_byte(s, j4, RBRACE) {
        Some(j) => j,
        None => {
            return None;
        },
    };
    Some((Some(Position { x, y }), j5))
}

/// An optional direction value at `i`.
pub open spec fn parse_dir_at(s: Seq<u8>, i: int) -> Option<(Option<Direction>, int)> {
    match expect_at(s, i, txt("null"@)) {
        Some(j) => Some((None, j)),
        None => match parse_qstr(s, i) {
            None => None,
            Some((t, j)) => match dir_of_text(t) {
                None => None,
                Some(d) => Some((Some(d), j)),
            },
        },
    }
}

/// Reads an optional direction value.
pub fn parse_dir(s: &Vec<u8>, i: usize) -> (r: Option<(Option<Direction>, usize)>)
    ensures
        match r {
            Some((d, j)) => parse_dir_at(s@, i as int) == Some((d, j as int)),
            None => parse_dir_at(s@, i as int) is None,
        },
{
    if let Some(j) = expect_lit(s, i, "null") {
        return Some((None, j));
    }
    match parse_quoted(s, i) {
        None => None,
        Some((t, j)) => match dir_from_bytes(&t) {
            None => None,
            Some(d) => Some((Some(d), j)),
        },
    }
}

/// An optional score value at `i`.
pub open spec fn parse_score_at(s: Seq<u8>, i: int) -> Option<(Option<u64>, int)> {
    match expect_at(s, i, txt("null"@)) {
        Some(j) => Some((None, j)),
        None => match parse_u64_at(s, i) {
            None => None,
            Some((n, j)) => Some((Some(n), j)),
        },
    }
}

/// Reads an optional score value.
pub fn parse_score(s: &Vec<u8>, i: usize) -> (r: Option<(Option<u64>, usize)>)
    ensures
        match r {
            Some((n, j)) => parse_score_at(s@, i as int) == Some((n, j as int)),
            None => parse_score_at(s@, i as int) is None,
        },
{
    if let Some(j) = expect_lit(s, i, "null") {
        return Some((None, j));
    }
    match parse_u64(s, i) {
        None => None,
        Some((n, j)) => Some((Some(n), j)),
    }
}

/// The event whose canonical document is exactly `s`.
pub open spec fn decode_event_spec(s: Seq<u8>) -> Option<EventModel> {
    match expect_at(s, 0, txt("{\"type\":"@)) {
        None => None,
        Some(i1) => match parse_qstr(s, i1) {
            None => None,
            Some((ktext, i2)) => match kind_of_text(ktext) {
                None => None,
                Some(kind) => match expect_at(s, i2, txt(",\"player_id\":"@)) {
                    None => None,
                    Some(i3) => match parse_qstr(s, i3) {
                        None => None,
                        Some((player_id, i4)) => match expect_at(s, i4, txt(",\"game_id\":"@)) {
                            None => None,
                            Some(i5) => match parse_qstr(s, i5) {
                                None => None,
                                Some((game_id, i6)) => match expect_at(s, i6, txt(",\"runtime\":"@)) {
                                    None => None,
                                    Some(i7) => match parse_qstr(s, i7) {
                                        None => None,
                                        Some((runtime, i8)) => match expect_at(s, i8, txt(",\"castle\":"@)) {
                                            None => None,
                                            Some(i9) => match parse_qstr(s, i9) {
                                                None => None,
                                                Some((castle, i10)) => decode_event_tail(
                                                    s,
                                                    i10,
                                                    kind,
                                                    player_id,
                                                    game_id,
                                                    runtime,
                                                    castle,
                                                ),
                                            },
                                        },
                                    },
                                },
                            },
                        },
                    },
                },
            },
        },
    }
}

/// The numeric and optional fields that close an event document.
pub open spec fn decode_event_tail(
    s: Seq<u8>,
    i: int,
    kind: EventKind,
    player_id: Seq<u8>,
    game_id: Seq<u8>,
    runtime: Seq<u8>,
    castle: Seq<u8>,
) -> Option<EventModel> {
    match expect_at(s, i, txt(",\"timestamp\":"@)) {
        None => None,
        Some(i1) => match parse_u64_at(s, i1) {
            None => None,
            Some((timestamp, i2)) => match expect_at(s, i2, txt(",\"position\":"@)) {
                None => None,
                Some(i3) => match parse_pos_at(s, i3) {
                    None => None,
                    Some((position, i4)) => match expect_at(s, i4, txt(",\"direction\":"@)) {
                        None => None,
                        Some(i5) => match parse_dir_at(s, i5) {
                            None => None,
                            Some((direction, i6)) => match expect_at(s, i6, txt(",\"score\":"@)) {
                                None => None,
                                Some(i7) => match parse_score_at(s, i7) {
                                    None => None,
                                    Some((score, i8)) => match expect_at(s, i8, seq![RBRACE]) {
                                        None => None,
                                        Some(i9) => if i9 == s.len() {
                                            Some(
                                                EventModel {
                                                    kind,
                                                    player_id,
                                                    game_id,
                                                    runtime,
                                                    castle,
                                                    timestamp,
                                                    position,
                                                    direction,
                                                    score,
                                                },
                                            )
                                        } else {
                                            None
                                        },
                                    },
                                },
                            },
                        },
                    },
                },
            },
        },
    }
}

/// Deserializes a canonical event document; anything else, including
/// a reordered rendering of the same fields, yields `None`.
pub fn decode_event(s: &Vec<u8>) -> (r: Option<GameEvent>)
    ensures
        match r {
            Some(e) => decode_event_spec(s@) == Some(e@),
            None => decode_event_spec(s@) is None,
        },
{
    proof {
        assert(txt("{\"type\":"@) =~= txt("{\"type\":"@));
        assert(txt(",\"player_id\":"@) =~= txt(",\"player_id\":"@));
        assert(txt(",\"game_id\":"@) =~= txt(",\"game_id\":"@));
        assert(txt(",\"runtime\":"@) =~= txt(",\"runtime\":"@));
        assert(txt(",\"castle\":"@) =~= txt(",\"castle\":"@));
        assert(txt(",\"timestamp\":"@) =~= txt(",\"timestamp\":"@));
        assert(txt(",\"position\":"@) =~= txt(",\"position\":"@));
        assert(txt(",\"direction\":"@) =~= txt(",\"direction\":"@));
        assert(txt(",\"score\":"@) =~= txt(",\"score\":"@));
    }
    let i1 = match expect_lit(s, 0, "{\"type\":") {
        Some(j) => j,
        None => {
            return None;
        },
    };
    let (ktext, i2) = match parse_quoted(s, i1) {
        Some(v) => v,
        None => {
            return None;
        },
    };
    let kind = match kind_from_bytes(&ktext) {
        Some(k) => k,
        None => {
            return None;
        },
    };
    let i3 = match expect_lit(s, i2, ",\"player_id\":") {
        Some(j) => j,
        None => {
            return None;
        },
    };
    let (player_id, i4) = match parse_quoted(s, i3) {
        Some(v) => v,
        None => {
            return None;
        },
    };
    let i5 = match expect_lit(s, i4, ",\"game_id\":") {
        Some(j) => j,
        None => {
            return None;
        },
    };
    let (game_id, i6) = match parse_quoted(s, i5) {
        Some(v) => v,
        None => {
            return None;
        },
    };
    let i7 = match expect_lit(s, i6, ",\"runtime\":") {
        Some(j) => j,
        None => {
            return None;
        },
    };
    let (runtime, i8) = match parse_quoted(s, i7) {
        Some(v) => v,
        None => {
            return None;
        },
    };
    let i9 = match expect_lit(s, i8, ",\"castle\":") {
        Some(j) => j,
        None => {
            return None;
        },
    };
    let (castle, i10) = match parse_quoted(s, i9) {
        Some(v) => v,
        None => {
            return None;
        },
    };
    let i11 = match expect_lit(s, i10, ",\"timestamp\":") {
        Some(j) => j,
        None => {
            return None;
        },
    };
    let (timestamp, i12) = match parse_u64(s, i11) {
        Some(v) => v,
        None => {
            return None;
        },
    };
    let i13 = match expect_lit(s, i12, ",\"position\":") {
        Some(j) => j,
        None => {
            return None;
        },
    };
    let (position, i14) = match parse_pos(s, i13) {
        Some(v) => v,
        None => {
            return None;
        },
    };
    let i15 = match expect_lit(s, i14, ",\"direction\":") {
        Some(j) => j,
        None => {
            return None;
        },
    };
    let (direction, i16) = match parse_dir(s, i15) {
        Some(v) => v,
        None => {
            return None;
        },
    };
    let i17 = match expect_lit(s, i16, ",\"score\":") {
        Some(j) => j,
        None => {
            return None;
        },
    };
    let (score, i18) = match parse_score(s, i17) {
        Some(v) => v,
        None => {
            return None;
        },
    };
    let i19 = match expect_byte(s, i18, RBRACE) {
        Some(j) => j,
        None => {
            return None;
        },
    };
    if i19 != s.len() {
        return None;
    }
    Some(
        GameEvent {
            kind,
            player_id,
            game_id,
            runtime,
            castle,
            timestamp,
            position,
            direction,
            score,
        },
    )
}

/// One raw record as the broker returns it: the `value` field is itself
/// a string holding an encoded event document.
pub struct RawRecord {
    pub topic: Vec<u8>,
    pub partition: u64,
    pub offset: u64,
    pub timestamp: u64,
    pub key: Vec<u8>,
    pub value: Vec<u8>,
}

/// Mathematical image of a raw record.
pub struct RecordModel {
    pub topic: Seq<u8>,
    pub partition: u64,
    pub offset: u64,
    pub timestamp: u64,
    pub key: Seq<u8>,
    pub value: Seq<u8>,
}

impl View for RawRecord {
    type V = RecordModel;

    open spec fn view(&self) -> RecordModel {
        RecordModel {
            topic: self.topic@,
            partition: self.partition,
            offset: self.offset,
            timestamp: self.timestamp,
            key: self.key@,
            value: self.value@,
        }
    }
}

/// Models of a record sequence, in order.
pub open spec fn record_models(s: Seq<RawRecord>) -> Seq<RecordModel> {
    s.map_values(|r: RawRecord| r@)
}

/// One record object at `i`.
pub open spec fn parse_record_at(s: Seq<u8>, i: int) -> Option<(RecordModel, int)> {
    match expect_at(s, i, txt("{\"topic\":"@)) {
        None => None,
        Some(i1) => match parse_qstr(s, i1) {
            None => None,
            Some((topic, i2)) => match expect_at(s, i2, txt(",\"partition\":"@)) {
                None => None,
                Some(i3) => match parse_u64_at(s, i3) {
                    None => None,
                    Some((partition, i4)) => match expect_at(s, i4, txt(",\"offset\":"@)) {
                        None => None,
                        Some(i5) => match parse_u64_at(s, i5) {
                            None => None,
                            Some((offset, i6)) => match expect_at(s, i6, txt(",\"timestamp\":"@)) {
                                None => None,
                                Some(i7) => match parse_u64_at(s, i7) {
                                    None => None,
                                    Some((timestamp, i8)) => match expect_at(s, i8, txt(",\"key\":"@)) {
                                        None => None,
                                        Some(i9) => match parse_qstr(s, i9) {
                                            None => None,
                                            Some((key, i10)) => match expect_at(s, i10, txt(",\"value\":"@)) {
                                                None => None,
                                                Some(i11) => match parse_qstr(s, i11) {
                                                    None => None,
                                                    Some((value, i12)) => match expect_at(s, i12, seq![RBRACE]) {
                                                        None => None,
                                                        Some(i13) => Some(
                                                            (
                                                                RecordModel {
                                                                    topic,
                                                                    partition,
                                                                    offset,
                                                                    timestamp,
                                                                    key,
                                                                    value,
                                                                },
                                                                i13,
                                                            ),
                                                        ),
                                                    },
                                                },
                                            },
                                        },
                                    },
                                },
                            },
                        },
                    },
                },
            },
        },
    }
}

/// Reads one record object.
pub fn parse_record(s: &Vec<u8>, i: usize) -> (r: Option<(RawRecord, usize)>)
    ensures
        match r {
            Some((rec, j)) => parse_record_at(s@, i as int) == Some((rec@, j as int)),
            None => parse_record_at(s@, i as int) is None,
        },
{
    let i1 = match expect_lit(s, i, "{\"topic\":") {
        Some(j) => j,
        None => {
            return None;
        },
    };
    let (topic, i2) = match parse_quoted(s, i1) {
        Some(v) => v,
        None => {
            return None;
        },
    };
    let i3 = match expect_lit(s, i2, ",\"partition\":") {
        Some(j) => j,
        None => {
            return None;
        },
    };
    let (partition, i4) = match parse_u64(s, i3) {
        Some(v) => v,
        None => {
            return None;
        },
    };
    let i5 = match expect_lit(s, i4, ",\"offset\":") {
        Some(j) => j,
        None => {
            return None;
        },
    };
    let (offset, i6) = match parse_u64(s, i5) {
        Some(v) => v,
        None => {
            return None;
        },
    };
    let i7 = match expect_lit(s, i6, ",\"timestamp\":") {
        Some(j) => j,
        None => {
            return None;
        },
    };
    let (timestamp, i8) = match parse_u64(s, i7) {
        Some(v) => v,
        None => {
            return None;
        },
    };
    let i9 = match expect_lit(s, i8, ",\"key\":") {
        Some(j) => j,
        None => {
            return None;
        },
    };
    let (key, i10) = match parse_quoted(s, i9) {
        Some(v) => v,
        None => {
            return None;
        },
    };
    let i11 = match expect_lit(s, i10, ",\"value\":") {
        Some(j) => j,
        None => {
            return None;
        },
    };
    let (value, i12) = match parse_quoted(s, i11) {
        Some(v) => v,
        None => {
            return None;
        },
    };
    let i13 = match expect_byte(s, i12, RBRACE) {
        Some(j) => j,
        None => {
            return None;
        },
    };
    Some((RawRecord { topic, partition, offset, timestamp, key, value }, i13))
}

/// The records of an array body starting at `i`, after the opening
/// bracket.
pub open spec fn parse_records_from(s: Seq<u8>, i: int) -> Option<(Seq<RecordModel>, int)>
    decreases s.len() - i,
{
    match parse_record_at(s, i) {
        None => None,
        Some((rec, j)) => if j <= i {
            None
        } else if j < s.len() && s[j] == COMMA {
            match parse_records_from(s, j + 1) {
                Some((rest, k)) => Some((seq![rec] + rest, k)),
                None => None,
            }
        } else if j < s.len() && s[j] == RBRACKET {
            Some((seq![rec], j + 1))
        } else {
            None
        },
    }
}

/// Reads the records of an array body.
pub fn parse_records_rest(s: &Vec<u8>, i: usize) -> (r: Option<(Vec<RawRecord>, usize)>)
    ensures
        match r {
            Some((v, j)) => parse_records_from(s@, i as int) == Some((record_models(v@), j as int)),
            None => parse_records_from(s@, i as int) is None,
        },
    decreases s@.len() - i,
{
    let (rec, j) = match parse_record(s, i) {
        Some(v) => v,
        None => {
            return None;
        },
    };
    if j <= i {
        return None;
    }
    if j < s.len() && s[j] == COMMA {
        match parse_records_rest(s, j + 1) {
            Some((rest, k)) => {
                let ghost rest0 = rest@;
                let mut v: Vec<RawRecord> = Vec::new();
                v.push(rec);
                let mut rest = rest;
                v.append(&mut rest);
                proof {
                    assert(v@ =~= seq![v@[0]] + rest0);
                    assert(record_models(v@) =~= seq![v@[0]@] + record_models(rest0));
                }
                Some((v, k))
            },
            None => None,
        }
    } else if j < s.len() && s[j] == RBRACKET {
        let mut v: Vec<RawRecord> = Vec::new();
        v.push(rec);
        proof {
            assert(record_models(v@) =~= seq![rec@]);
        }
        Some((v, j + 1))
    } else {
        None
    }
}

/// A full records response body: `[]` or a bracketed record list.
pub open spec fn parse_batch_spec(s: Seq<u8>) -> Option<Seq<RecordModel>> {
    if s.len() >= 1 && s[0] == LBRACKET {
        if s =~= txt("[]"@) {
            Some(Seq::empty())
        } else {
            match parse_records_from(s, 1) {
                Some((recs, j)) => if j == s.len() {
                    Some(recs)
                } else {
                    None
                },
                None => None,
            }
        }
    } else {
        None
    }
}

/// Reads a full records response body.
pub fn parse_batch(s: &Vec<u8>) -> (r: Option<Vec<RawRecord>>)
    ensures
        match r {
            Some(v) => parse_batch_spec(s@) == Some(record_models(v@)),
            None => parse_batch_spec(s@) is None,
        },
{
    if s.len() == 0 || s[0] != LBRACKET {
        return None;
    }
    if crate::text::bytes_eq(s, &str_bytes("[]")) {
        let v: Vec<RawRecord> = Vec::new();
        proof {
            assert(record_models(v@) =~= Seq::<RecordModel>::empty());
        }
        return Some(v);
    }
    proof {
        assert(!(s@ =~= txt("[]"@)));
    }
    match parse_records_rest(s, 1) {
        Some((v, j)) => {
            if j == s.len() {
                Some(v)
            } else {
                None
            }
        },
        None => None,
    }
}


/// One serialized player object.
pub open spec fn player_obj_bytes(p: crate::player::PlayerModel) -> Seq<u8> {
    txt("{\"id\":"@) + qesc(p.id) + txt(",\"x\":"@) + dec_digits(p.x as nat) + txt(",\"y\":"@)
        + dec_digits(p.y as nat) + txt(",\"direction\":"@) + qlit(dir_text(p.direction)) + txt(
        ",\"score\":"@,
    ) + dec_digits(p.score as nat) + txt(",\"color\":"@) + qesc(p.color) + txt(",\"alive\":"@) + (
    if p.alive {
        txt("true"@)
    } else {
        txt("false"@)
    }) + seq![RBRACE]
}

/// One state-map entry: the id as key, then the player object.
pub open spec fn state_entry_bytes(p: crate::player::PlayerModel) -> Seq<u8> {
    qesc(p.id) + seq![COLON] + player_obj_bytes(p)
}

/// Comma-separated entries.
pub open spec fn state_entries_bytes(s: Seq<crate::player::PlayerModel>) -> Seq<u8>
    decreases s.len(),
{
    if s.len() == 0 {
        Seq::empty()
    } else if s.len() == 1 {
        state_entry_bytes(s[0])
    } else {
        state_entries_bytes(s.drop_last()) + seq![COMMA] + state_entry_bytes(s.last())
    }
}

/// The serialized state blob: all entries in map order.
pub open spec fn encode_state_spec(s: Seq<crate::player::PlayerModel>) -> Seq<u8> {
    seq![LBRACE] + state_entries_bytes(s) + seq![RBRACE]
}

/// Serializes one player object.
#[verifier::rlimit(60)]
pub fn player_obj_vec(p: &crate::player::Player) -> (r: Vec<u8>)
    ensures
        r@ == player_obj_bytes(p@),
{
    let mut out: Vec<u8> = Vec::new();
    push_lit(&mut out, "{\"id\":");
    push_qesc(&mut out, &p.id);
    push_lit(&mut out, ",\"x\":");
    push_u64(&mut out, p.x);
    push_lit(&mut out, ",\"y\":");
    push_u64(&mut out, p.y);
    push_lit(&mut out, ",\"direction\":");
    match p.direction {
        Direction::Up => push_qlit(&mut out, "up"),
        Direction::Down => push_qlit(&mut out, "down"),
        Direction::Left => push_qlit(&mut out, "left"),
        Direction::Right => push_qlit(&mut out, "right"),
    }
    push_lit(&mut out, ",\"score\":");
    push_u64(&mut out, p.score);
    push_lit(&mut out, ",\"color\":");
    push_qesc(&mut out, &p.color);
    push_lit(&mut out, ",\"alive\":");
    if p.alive {
        push_lit(&mut out, "true");
    } else {
        push_lit(&mut out, "false");
    }
    push_byte(&mut out, RBRACE);
    proof {
        assert(out@ =~= player_obj_bytes(p@));
    }
    out
}

/// Appends one player object.
pub fn push_player_obj(out: &mut Vec<u8>, p: &crate::player::Player)
    ensures
        final(out)@ == old(out)@ + player_obj_bytes(p@),
{
    let mut v = player_obj_vec(p);
    out.append(&mut v);
}

/// Serializes the whole player map in entry order.
#[verifier::rlimit(60)]
pub fn encode_state(m: &crate::player::PlayerMap) -> (r: Vec<u8>)
    ensures
        r@ == encode_state_spec(crate::player::models_of(m.seq_view())),
{
    let ghost models = crate::player::models_of(m.seq_view());
    let mut out: Vec<u8> = Vec::new();
    push_byte(&mut out, LBRACE);
    let n = m.entry_count();
    let mut i: usize = 0;
    proof {
        assert(models.take(0) =~= Seq::<crate::player::PlayerModel>::empty());
        assert(out@ =~= seq![LBRACE] + state_entries_bytes(models.take(0)));
    }
    while i < n
        invariant
            i <= n,
            n == m.seq_view().len(),
            models == crate::player::models_of(m.seq_view()),
            out@ == seq![LBRACE] + state_entries_bytes(models.take(i as int)),
        decreases n - i,
    {
        let ghost out0 = out@;
        if i > 0 {
            push_byte(&mut out, COMMA);
        }
        let p = m.entry_at(i);
        push_qesc(&mut out, &p.id);
        push_byte(&mut out, COLON);
        push_player_obj(&mut out, p);
        i = i + 1;
        proof {
            assert(models[i - 1] == m.seq_view()[i - 1]@);
            assert(models.take(i as int).drop_last() =~= models.take(i - 1));
            assert(models.take(i as int).last() == models[i - 1]);
            if i == 1 {
                assert(state_entries_bytes(models.take(1)) == state_entry_bytes(models[0]));
                assert(out@ =~= seq![LBRACE] + state_entries_bytes(models.take(1)));
            } else {
                assert(state_entries_bytes(models.take(i as int)) == state_entries_bytes(
                    models.take(i - 1),
                ) + seq![COMMA] + state_entry_bytes(models[i - 1]));
                assert(out@ =~= seq![LBRACE] + state_entries_bytes(models.take(i as int)));
            }
        }
    }
    push_byte(&mut out, RBRACE);
    proof {
        assert(models.take(n as int) =~= models);
        assert(out@ =~= encode_state_spec(models));
    }
    out
}

/// `true` or `false` at `i`.
pub open spec fn parse_bool_at(s: Seq<u8>, i: int) -> Option<(bool, int)> {
    match expect_at(s, i, txt("true"@)) {
        Some(j) => Some((true, j)),
        None => match expect_at(s, i, txt("false"@)) {
            Some(j) => Some((false, j)),
            None => None,
        },
    }
}

/// Reads a boolean literal.
pub fn parse_bool(s: &Vec<u8>, i: usize) -> (r: Option<(bool, usize)>)
    ensures
        match r {
            Some((b, j)) => parse_bool_at(s@, i as int) == Some((b, j as int)),
            None => parse_bool_at(s@, i as int) is None,
        },
{
    if let Some(j) = expect_lit(s, i, "true") {
        return Some((true, j));
    }
    match expect_lit(s, i, "false") {
        Some(j) => Some((false, j)),
        None => None,
    }
}

/// One player object at `i`; coordinates beyond the arena extent are
/// not canonical and fail to decode.
pub open spec fn parse_player_at(s: Seq<u8>, i: int) -> Option<(crate::player::PlayerModel, int)> {
    match expect_at(s, i, txt("{\"id\":"@)) {
        None => None,
        Some(i1) => match parse_qstr(s, i1) {
            None => None,
            Some((id, i2)) => match expect_at(s, i2, txt(",\"x\":"@)) {
                None => None,
                Some(i3) => match parse_u64_at(s, i3) {
                    None => None,
                    Some((x, i4)) => if x > crate::player::ARENA_MAX {
                        None
                    } else {
                        match expect_at(s, i4, txt(",\"y\":"@)) {
                            None => None,
                            Some(i5) => match parse_u64_at(s, i5) {
                                None => None,
                                Some((y, i6)) => if y > crate::player::ARENA_MAX {
                                    None
                                } else {
                                    parse_player_tail(s, i6, id, x, y)
                                },
                            },
                        }
                    },
                },
            },
        },
    }
}

/// The direction, score, color and liveness fields that close a player
/// object.
pub open spec fn parse_player_tail(s: Seq<u8>, i: int, id: Seq<u8>, x: u64, y: u64) -> Option<(
    crate::player::PlayerModel,
    int,
)> {
    match expect_at(s, i, txt(",\"direction\":"@)) {
        None => None,
        Some(i7) => match parse_qstr(s, i7) {
            None => None,
            Some((dtext, i8)) => match dir_of_text(dtext) {
                None => None,
                Some(direction) => match expect_at(s, i8, txt(",\"score\":"@)) {
                    None => None,
                    Some(i9) => match parse_u64_at(s, i9) {
                        None => None,
                        Some((score, i10)) => match expect_at(s, i10, txt(",\"color\":"@)) {
                            None => None,
                            Some(i11) => match parse_qstr(s, i11) {
                                None => None,
                                Some((color, i12)) => match expect_at(s, i12, txt(",\"alive\":"@)) {
                                    None => None,
                                    Some(i13) => match parse_bool_at(s, i13) {
                                        None => None,
                                        Some((alive, i14)) => match expect_at(s, i14, seq![RBRACE]) {
                                            None => None,
                                            Some(i15) => Some(
                                                (
                                                    crate::player::PlayerModel {
                                                        id,
                                                        x,
                                                        y,
                                                        direction,
                                                        score,
                                                        color,
                                                        alive,
                                                    },
                                                    i15,
                                                ),
                                            ),
                                        },
                                    },
                                },
                            },
                        },
                    },
                },
            },
        },
    }
}

/// Reads one player object.
pub fn parse_player(s: &Vec<u8>, i: usize) -> (r: Option<(crate::player::Player, usize)>)
    ensures
        match r {
            Some((p, j)) => parse_player_at(s@, i as int) == Some((p@, j as int)),
            None => parse_player_at(s@, i as int) is None,
        },
{
    let i1 = match expect_lit(s, i, "{\"id\":") {
        Some(j) => j,
        None => {
            return None;
        },
    };
    let (id, i2) = match parse_quoted(s, i1) {
        Some(v) => v,
        None => {
            return None;
        },
    };
    let i3 = match expect_lit(s, i2, ",\"x\":") {
        Some(j) => j,
        None => {
            return None;
        },
    };
    let (x, i4) = match parse_u64(s, i3) {
        Some(v) => v,
        None => {
            return None;
        },
    };
    if x > crate::player::ARENA_MAX {
        return None;
    }
    let i5 = match expect_lit(s, i4, ",\"y\":") {
        Some(j) => j,
        None => {
            return None;
        },
    };
    let (y, i6) = match parse_u64(s, i5) {
        Some(v) => v,
        None => {
            return None;
        },
    };
    if y > crate::player::ARENA_MAX {
        return None;
    }
    let i7 = match expect_lit(s, i6, ",\"direction\":") {
        Some(j) => j,
        None => {
            return None;
        },
    };
    let (dtext, i8) = match parse_quoted(s, i7) {
        Some(v) => v,
        None => {
            return None;
        },
    };
    let direction = match dir_from_bytes(&dtext) {
        Some(d) => d,
        None => {
            return None;
        },
    };
    let i9 = match expect_lit(s, i8, ",\"score\":") {
        Some(j) => j,
        None => {
            return None;
        },
    };
    let (score, i10) = match parse_u64(s, i9) {
        Some(v) => v,
        None => {
            return None;
        },
    };
    let i11 = match expect_lit(s, i10, ",\"color\":") {
        Some(j) => j,
        None => {
            return None;
        },
    };
    let (color, i12) = match parse_quoted(s, i11) {
        Some(v) => v,
        None => {
            return None;
        },
    };
    let i13 = match expect_lit(s, i12, ",\"alive\":") {
        Some(j) => j,
        None => {
            return None;
        },
    };
    let (alive, i14) = match parse_bool(s, i13) {
        Some(v) => v,
        None => {
            return None;
        },
    };
    let i15 = match expect_byte(s, i14, RBRACE) {
        Some(j) => j,
        None => {
            return None;
        },
    };
    Some((crate::player::Player { id, x, y, direction, score, color, alive }, i15))
}

/// The entries of a state blob body starting at `i`, after the opening
/// brace; each entry's key string is read and the player object kept.
pub open spec fn parse_entries_from(s: Seq<u8>, i: int) -> Option<(
    Seq<crate::player::PlayerModel>,
    int,
)>
    decreases s.len() - i,
{
    match parse_qstr(s, i) {
        None => None,
        Some((key, j0)) => match expect_at(s, j0, seq![COLON]) {
            None => None,
            Some(j1) => match parse_player_at(s, j1) {
                None => None,
                Some((p, j)) => if j <= i {
                    None
                } else if j < s.len() && s[j] == COMMA {
                    match parse_entries_from(s, j + 1) {
                        Some((rest, k)) => Some((seq![p] + rest, k)),
                        None => None,
                    }
                } else if j < s.len() && s[j] == RBRACE {
                    Some((seq![p], j + 1))
                } else {
                    None
                },
            },
        },
    }
}

/// Reads the entries of a state blob body.
pub fn parse_entries_rest(s: &Vec<u8>, i: usize) -> (r: Option<(Vec<crate::player::Player>, usize)>)
    ensures
        match r {
            Some((v, j)) => parse_entries_from(s@, i as int) == Some(
                (crate::player::models_of(v@), j as int),
            ),
            None => parse_entries_from(s@, i as int) is None,
        },
    decreases s@.len() - i,
{
    let (_key, j0) = match parse_quoted(s, i) {
        Some(v) => v,
        None => {
            return None;
        },
    };
    let j1 = match expect_byte(s, j0, COLON) {
        Some(j) => j,
        None => {
            return None;
        },
    };
    let (p, j) = match parse_player(s, j1) {
        Some(v) => v,
        None => {
            return None;
        },
    };
    if j <= i {
        return None;
    }
    if j < s.len() && s[j] == COMMA {
        match parse_entries_rest(s, j + 1) {
            Some((rest, k)) => {
                let ghost rest0 = rest@;
                let mut v: Vec<crate::player::Player> = Vec::new();
                v.push(p);
                let mut rest = rest;
                v.append(&mut rest);
                proof {
                    assert(v@ =~= seq![v@[0]] + rest0);
                    assert(crate::player::models_of(v@) =~= seq![v@[0]@]
                        + crate::player::models_of(rest0));
                }
                Some((v, k))
            },
            None => None,
        }
    } else if j < s.len() && s[j] == RBRACE {
        let mut v: Vec<crate::player::Player> = Vec::new();
        v.push(p);
        proof {
            assert(crate::player::models_of(v@) =~= seq![v@[0]@]);
        }
        Some((v, j + 1))
    } else {
        None
    }
}

/// A full state blob: `{}` or a braced entry list.
pub open spec fn parse_state_spec(s: Seq<u8>) -> Option<Seq<crate::player::PlayerModel>> {
    if s.len() >= 1 && s[0] == LBRACE {
        if s =~= txt("{}"@) {
            Some(Seq::empty())
        } else {
            match parse_entries_from(s, 1) {
                Some((entries, j)) => if j == s.len() {
                    Some(entries)
                } else {
                    None
                },
                None => None,
            }
        }
    } else {
        None
    }
}

/// The map a sequence of decoded players denotes: later entries win.
pub open spec fn map_of_models(s: Seq<crate::player::PlayerModel>) -> Map<
    Seq<u8>,
    crate::player::PlayerModel,
>
    decreases s.len(),
{
    if s.len() == 0 {
        Map::empty()
    } else {
        map_of_models(s.drop_last()).insert(s.last().id, s.last())
    }
}

/// Deserializes a state blob into a player map.
pub fn decode_state(s: &Vec<u8>) -> (r: Option<crate::player::PlayerMap>)
    ensures
        match r {
            Some(m) => parse_state_spec(s@) is Some && m@ == map_of_models(
                parse_state_spec(s@)->Some_0,
            ),
            None => parse_state_spec(s@) is None,
        },
{
    if s.len() == 0 || s[0] != LBRACE {
        return None;
    }
    if crate::text::bytes_eq(s, &str_bytes("{}")) {
        let m = crate::player::PlayerMap::new();
        proof {
            assert(map_of_models(Seq::<crate::player::PlayerModel>::empty())
                =~= Map::<Seq<u8>, crate::player::PlayerModel>::empty());
        }
        return Some(m);
    }
    proof {
        assert(!(s@ =~= txt("{}"@)));
    }
    let players = match parse_entries_rest(s, 1) {
        Some((v, j)) => {
            if j == s.len() {
                v
            } else {
                return None;
            }
        },
        None => {
            return None;
        },
    };
    let ghost models = crate::player::models_of(players@);
    let mut m = crate::player::PlayerMap::new();
    let mut i: usize = 0;
    proof {
        assert(m@ =~= map_of_models(models.take(0)));
    }
    while i < players.len()
        invariant
            i <= players@.len(),
            models == crate::player::models_of(players@),
            m@ == map_of_models(models.take(i as int)),
        decreases players.len() - i,
    {
        let p = players[i].duplicate();
        m.insert(p);
        i = i + 1;
        proof {
            assert(models.take(i as int).drop_last() =~= models.take(i - 1));
            assert(models.take(i as int).last() == models[i - 1]);
            assert(models[i - 1] == players@[i - 1]@);
        }
    }
    proof {
        assert(models.take(players@.len() as int) =~= models);
    }
    Some(m)
}

/// The publish envelope: one record whose value is the encoded event.
pub open spec fn publish_payload_spec(key: Seq<u8>, value: Seq<u8>) -> Seq<u8> {
    txt("{\"records\":[{\"key\":"@) + qesc(key) + txt(",\"value\":"@) + qesc(value) + txt("}]}"@)
}

/// Builds the publish envelope around a record key and value.
pub fn build_publish_payload(key: &Vec<u8>, value: &Vec<u8>) -> (r: Vec<u8>)
    ensures
        r@ == publish_payload_spec(key@, value@),
{
    let mut out: Vec<u8> = Vec::new();
    push_lit(&mut out, "{\"records\":[{\"key\":");
    push_qesc(&mut out, key);
    push_lit(&mut out, ",\"value\":");
    push_qesc(&mut out, value);
    push_lit(&mut out, "}]}");
    proof {
        assert(out@ =~= publish_payload_spec(key@, value@));
    }
    out
}

/// The backup-store save envelope around a serialized state blob.
pub open spec fn backup_payload_spec(
    state_key: Seq<u8>,
    blob: Seq<u8>,
    runtime: Seq<u8>,
    ts: u64,
) -> Seq<u8> {
    txt("{\"state_key\":"@) + qesc(state_key) + txt(",\"state_data\":"@) + qesc(blob) + txt(
        ",\"runtime\":"@,
    ) + qesc(runtime) + txt(",\"timestamp\":"@) + dec_digits(ts as nat) + seq![RBRACE]
}

/// Builds the backup-store save envelope.
pub fn build_backup_payload(state_key: &Vec<u8>, blob: &Vec<u8>, runtime: &Vec<u8>, ts: u64) -> (
    r: Vec<u8>)
    ensures
        r@ == backup_payload_spec(state_key@, blob@, runtime@, ts),
{
    let mut out: Vec<u8> = Vec::new();
    push_lit(&mut out, "{\"state_key\":");
    push_qesc(&mut out, state_key);
    push_lit(&mut out, ",\"state_data\":");
    push_qesc(&mut out, blob);
    push_lit(&mut out, ",\"runtime\":");
    push_qesc(&mut out, runtime);
    push_lit(&mut out, ",\"timestamp\":");
    push_u64(&mut out, ts);
    push_byte(&mut out, RBRACE);
    proof {
        assert(out@ =~= backup_payload_spec(state_key@, blob@, runtime@, ts));
    }
    out
}

/// The topic-creation request body.
pub open spec fn topic_payload_spec(topic: Seq<u8>) -> Seq<u8> {
    txt("{\"topic_name\":"@) + qesc(topic) + txt(",\"partitions_count\":\"1\"}"@)
}

/// Builds the topic-creation request body.
pub fn build_topic_payload(topic: &Vec<u8>) -> (r: Vec<u8>)
    ensures
        r@ == topic_payload_spec(topic@),
{
    let mut out: Vec<u8> = Vec::new();
    push_lit(&mut out, "{\"topic_name\":");
    push_qesc(&mut out, topic);
    push_lit(&mut out, ",\"partitions_count\":\"1\"}");
    proof {
        assert(out@ =~= topic_payload_spec(topic@));
    }
    out
}

/// The consumer-group creation request body.
pub open spec fn group_payload_spec(topic: Seq<u8>) -> Seq<u8> {
    txt("{\"topic_name\":"@) + qesc(topic) + seq![RBRACE]
}

/// Builds the consumer-group creation request body.
pub fn build_group_payload(topic: &Vec<u8>) -> (r: Vec<u8>)
    ensures
        r@ == group_payload_spec(topic@),
{
    let mut out: Vec<u8> = Vec::new();
    push_lit(&mut out, "{\"topic_name\":");
    push_qesc(&mut out, topic);
    push_byte(&mut out, RBRACE);
    proof {
        assert(out@ =~= group_payload_spec(topic@));
    }
    out
}

/// The first string value stored under `"name":` in `s`, with escapes
/// resolved; the structured parsers above are preferred, this is for
/// envelopes whose other fields do not matter.
pub open spec fn string_field_spec(s: Seq<u8>, name: Seq<char>) -> Option<Seq<u8>> {
    let pat = seq![QUOTE] + txt(name) + seq![QUOTE, COLON, QUOTE];
    match crate::text::find_from(s, pat, 0) {
        None => None,
        Some(p) => match parse_str_body(s, p + pat.len()) {
            Some((t, j)) => Some(t),
            None => None,
        },
    }
}

/// Extracts the string value stored under `"name":` in `s`.
pub fn extract_string_field(json: &Vec<u8>, name: &str) -> (r: Option<Vec<u8>>)
    ensures
        match r {
            Some(v) => string_field_spec(json@, name@) == Some(v@),
            None => string_field_spec(json@, name@) is None,
        },
{
    let mut pat: Vec<u8> = Vec::new();
    push_byte(&mut pat, QUOTE);
    push_lit(&mut pat, name);
    push_byte(&mut pat, QUOTE);
    push_byte(&mut pat, COLON);
    push_byte(&mut pat, QUOTE);
    proof {
        assert(pat@ =~= seq![QUOTE] + txt(name@) + seq![QUOTE, COLON, QUOTE]);
    }
    let p = match crate::text::find_sub(json, &pat) {
        Some(p) => p,
        None => {
            return None;
        },
    };
    proof {
        crate::text::lemma_find_from_found(json@, pat@, 0);
        assert(json@.len() == json.len());
    }
    match parse_string_body(json, p + pat.len()) {
        Some((v, _j)) => Some(v),
        None => None,
    }
}


} // verus!
