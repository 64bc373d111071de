//! Byte-string utilities shared by the codec, the broker gateway and the
//! configuration builders.
//!
//! All text in this crate is carried as UTF-8 bytes in `Vec<u8>`; the
//! specifications below are stated over `Seq<u8>`.

use vstd::prelude::*;

verus! {

/// ASCII code points the scanners care about.
pub const QUOTE: u8 = 34;
pub const COMMA: u8 = 44;
pub const COLON: u8 = 58;
pub const LBRACE: u8 = 123;
pub const RBRACE: u8 = 125;
pub const LBRACKET: u8 = 91;
pub const RBRACKET: u8 = 93;
pub const BACKSLASH: u8 = 92;
pub const SPACE: u8 = 32;
pub const TAB: u8 = 9;
pub const NEWLINE: u8 = 10;
pub const CARRIAGE: u8 = 13;
pub const UNDERSCORE: u8 = 95;
pub const EQUALS: u8 = 61;
pub const HYPHEN: u8 = 45;
pub const LOWER_U: u8 = 117;
pub const ZERO: u8 = 48;
pub const NINE: u8 = 57;

pub open spec fn is_digit(b: u8) -> bool {
    ZERO <= b <= NINE
}

pub open spec fn digit_val(b: u8) -> nat {
    (b - ZERO) as nat
}

pub open spec fn is_ws(b: u8) -> bool {
    b == SPACE || b == TAB || b == NEWLINE || b == CARRIAGE
}

/// ASCII lower-casing of one byte.
pub open spec fn lower_byte(b: u8) -> u8 {
    if 65 <= b <= 90 {
        (b + 32) as u8
    } else {
        b
    }
}

pub open spec fn lower_bytes(s: Seq<u8>) -> Seq<u8> {
    s.map_values(|b: u8| lower_byte(b))
}

/// ASCII lower-casing of a byte string.
pub fn to_lower(s: &Vec<u8>) -> (r: Vec<u8>)
    ensures
        r@ == lower_bytes(s@),
{
    let mut out: Vec<u8> = Vec::new();
    let mut i: usize = 0;
    while i < s.len()
        invariant
            i <= s.len(),
            out@ == lower_bytes(s@.take(i as int)),
        decreases s.len() - i,
    {
        let b = s[i];
        if 65 <= b && b <= 90 {
            out.push(b + 32);
        } else {
            out.push(b);
        }
        i = i + 1;
        proof {
            assert(s@.take(i as int).drop_last() =~= s@.take(i - 1));
            assert(lower_bytes(s@.take(i as int)) =~= lower_bytes(s@.take(i - 1)).push(
                lower_byte(s@[i - 1]),
            ));
        }
    }
    proof {
        assert(s@.take(s@.len() as int) =~= s@);
    }
    out
}

/// `pat` occurs in `s` starting at index `i`.
pub open spec fn matches_at(s: Seq<u8>, pat: Seq<u8>, i: int) -> bool {
    0 <= i && i + pat.len() <= s.len() && s.subrange(i, i + pat.len()) == pat
}

/// Index of the first occurrence of `pat` at or after `i`, if any.
pub open spec fn find_from(s: Seq<u8>, pat: Seq<u8>, i: int) -> Option<int>
    decreases s.len() - i,
{
    if i < 0 || i + pat.len() > s.len() {
        None
    } else if pat.len() == 0 {
        Some(i)
    } else if matches_at(s, pat, i) {
        Some(i)
    } else {
        find_from(s, pat, i + 1)
    }
}

pub open spec fn contains_sub(s: Seq<u8>, pat: Seq<u8>) -> bool {
    find_from(s, pat, 0) is Some
}

pub proof fn lemma_find_from_found(s: Seq<u8>, pat: Seq<u8>, i: int)
    ensures
        find_from(s, pat, i) matches Some(j) ==> matches_at(s, pat, j),
    decreases s.len() - i,
{
    if i < 0 || i + pat.len() > s.len() {
    } else if pat.len() == 0 {
        assert(s.subrange(i, i) =~= pat);
    } else if !matches_at(s, pat, i) {
        lemma_find_from_found(s, pat, i + 1);
    }
}

/// `pat` occurs at `i` exactly when the byte-for-byte comparison succeeds.
pub fn match_at(s: &Vec<u8>, pat: &Vec<u8>, i: usize) -> (r: bool)
    requires
        i + pat@.len() <= s@.len(),
    ensures
        r == matches_at(s@, pat@, i as int),
{
    let mut j: usize = 0;
    while j < pat.len()
        invariant
            j <= pat@.len(),
            i + pat@.len() <= s@.len(),
            s@.len() == s.len(),
            forall|k: int| 0 <= k < j ==> s@[i + k] == pat@[k],
        decreases pat.len() - j,
    {
        if s[i + j] != pat[j] {
            proof {
                assert(s@.subrange(i as int, i + pat@.len())[j as int] != pat@[j as int]);
            }
            return false;
        }
        j = j + 1;
    }
    proof {
        assert(s@.subrange(i as int, i + pat@.len()) =~= pat@);
    }
    true
}

/// First occurrence of `pat` in `s`, scanning left to right.
pub fn find_sub(s: &Vec<u8>, pat: &Vec<u8>) -> (r: Option<usize>)
    ensures
        match r {
            Some(i) => find_from(s@, pat@, 0) == Some(i as int),
            None => find_from(s@, pat@, 0) is None,
        },
{
    if pat.len() > s.len() {
        return None;
    }
    if pat.len() == 0 {
        return Some(0);
    }
    let mut i: usize = 0;
    while i <= s.len() - pat.len()
        invariant
            0 < pat@.len() <= s@.len(),
            s@.len() == s.len(),
            i <= s@.len(),
            find_from(s@, pat@, 0) == find_from(s@, pat@, i as int),
        decreases s.len() - i,
    {
        if match_at(s, pat, i) {
            return Some(i);
        }
        i = i + 1;
    }
    None
}

/// `s` holds `pat` somewhere.
pub fn contains_bytes(s: &Vec<u8>, pat: &Vec<u8>) -> (r: bool)
    ensures
        r == contains_sub(s@, pat@),
{
    match find_sub(s, pat) {
        Some(_) => true,
        None => false,
    }
}

/// Decimal digits of `n`, most significant first.
pub open spec fn dec_digits(n: nat) -> Seq<u8>
    decreases n,
{
    if n < 10 {
        seq![(ZERO + n) as u8]
    } else {
        dec_digits(n / 10).push((ZERO + n % 10) as u8)
    }
}

/// Renders `n` in decimal.
pub fn u64_to_dec(n: u64) -> (r: Vec<u8>)
    ensures
        r@ == dec_digits(n as nat),
    decreases n,
{
    if n < 10 {
        let mut v: Vec<u8> = Vec::new();
        v.push(ZERO + (n as u8));
        v
    } else {
        let mut v = u64_to_dec(n / 10);
        v.push(ZERO + ((n % 10) as u8));
        v
    }
}

/// Consumer-group names take the topic lower-cased with underscores removed.
pub open spec fn sanitize_topic(s: Seq<u8>) -> Seq<u8>
    decreases s.len(),
{
    if s.len() == 0 {
        Seq::empty()
    } else {
        let rest = sanitize_topic(s.drop_last());
        let b = lower_byte(s.last());
        if b == UNDERSCORE {
            rest
        } else {
            rest.push(b)
        }
    }
}

/// Lower-cases a topic name and drops underscores.
pub fn topic_safe_name(s: &Vec<u8>) -> (r: Vec<u8>)
    ensures
        r@ == sanitize_topic(s@),
{
    let mut out: Vec<u8> = Vec::new();
    let mut i: usize = 0;
    while i < s.len()
        invariant
            i <= s.len(),
            out@ == sanitize_topic(s@.take(i as int)),
        decreases s.len() - i,
    {
        let b = s[i];
        let low = if 65 <= b && b <= 90 {
            b + 32
        } else {
            b
        };
        if low != UNDERSCORE {
            out.push(low);
        }
        i = i + 1;
        proof {
            assert(s@.take(i as int).drop_last() =~= s@.take(i - 1));
            assert(s@.take(i as int).last() == s@[i - 1]);
        }
    }
    proof {
        assert(s@.take(s@.len() as int) =~= s@);
    }
    out
}

/// Copy of `v[a..b]`.
pub fn sub_vec(v: &Vec<u8>, a: usize, b: usize) -> (r: Vec<u8>)
    requires
        a <= b <= v@.len(),
    ensures
        r@ == v@.subrange(a as int, b as int),
{
    let mut out: Vec<u8> = Vec::new();
    let mut i: usize = a;
    while i < b
        invariant
            a <= i <= b <= v@.len(),
            out@ == v@.subrange(a as int, i as int),
        decreases b - i,
    {
        out.push(v[i]);
        i = i + 1;
        proof {
            assert(v@.subrange(a as int, i as int) =~= v@.subrange(a as int, i - 1).push(
                v@[i - 1],
            ));
        }
    }
    out
}

/// Two byte strings hold the same bytes.
pub fn bytes_eq(a: &Vec<u8>, b: &Vec<u8>) -> (r: bool)
    ensures
        r == (a@ == b@),
{
    if a.len() != b.len() {
        return false;
    }
    let mut i: usize = 0;
    while i < a.len()
        invariant
            i <= a@.len(),
            a@.len() == b@.len(),
            forall|k: int| 0 <= k < i ==> a@[k] == b@[k],
        decreases a.len() - i,
    {
        if a[i] != b[i] {
            return false;
        }
        i = i + 1;
    }
    proof {
        assert(a@ =~= b@);
    }
    true
}

/// First index at or after `i` whose byte is not ASCII whitespace.
pub open spec fn skip_ws(s: Seq<u8>, i: int) -> int
    decreases s.len() - i,
{
    if 0 <= i < s.len() && is_ws(s[i]) {
        skip_ws(s, i + 1)
    } else {
        i
    }
}

/// First index at or after `i` that ends a bare scalar token: a comma, a
/// closing brace or bracket, or whitespace.
pub open spec fn scalar_end(s: Seq<u8>, i: int) -> int
    decreases s.len() - i,
{
    if 0 <= i < s.len() && !(s[i] == COMMA || s[i] == RBRACE || s[i] == RBRACKET || is_ws(s[i])) {
        scalar_end(s, i + 1)
    } else {
        i
    }
}

/// What the fall-back field scanner yields: the raw bytes after
/// `"name":`, read as a quoted string without escape handling, or as a
/// bare scalar token.
pub open spec fn extract_field_spec(json: Seq<u8>, name: Seq<u8>) -> Option<Seq<u8>> {
    let pat = seq![QUOTE] + name + seq![QUOTE, COLON];
    match find_from(json, pat, 0) {
        None => None,
        Some(p) => {
            let j = skip_ws(json, p + pat.len());
            if j < json.len() && json[j] == QUOTE {
                match find_from(json, seq![QUOTE], j + 1) {
                    Some(k) => Some(json.subrange(j + 1, k)),
                    None => None,
                }
            } else {
                let k = scalar_end(json, j);
                if k > j {
                    Some(json.subrange(j, k))
                } else {
                    None
                }
            }
        },
    }
}

/// Fall-back extraction of one field's raw text from a JSON document by
/// string scanning, with no escape handling; the structured codec is the
/// primary decode path.
pub fn extract_json_field(json: &Vec<u8>, name: &Vec<u8>) -> (r: Option<Vec<u8>>)
    ensures
        match r {
            Some(v) => extract_field_spec(json@, name@) == Some(v@),
            None => extract_field_spec(json@, name@) is None,
        },
{
    let mut pat: Vec<u8> = Vec::new();
    pat.push(QUOTE);
    let mut i: usize = 0;
    while i < name.len()
        invariant
            i <= name@.len(),
            pat@ == seq![QUOTE] + name@.take(i as int),
        decreases name.len() - i,
    {
        pat.push(name[i]);
        i = i + 1;
        proof {
            assert(seq![QUOTE] + name@.take(i as int) =~= (seq![QUOTE] + name@.take(i - 1)).push(
                name@[i - 1],
            ));
        }
    }
    proof {
        assert(name@.take(name@.len() as int) =~= name@);
    }
    pat.push(QUOTE);
    pat.push(COLON);
    proof {
        assert(pat@ =~= seq![QUOTE] + name@ + seq![QUOTE, COLON]);
    }
    let p = match find_sub(json, &pat) {
        None => {
            return None;
        },
        Some(p) => p,
    };
    proof {
        lemma_find_from_found(json@, pat@, 0);
        assert(json@.len() == json.len());
        assert(p + pat@.len() <= json@.len());
    }
    let mut j: usize = p + pat.len();
    while j < json.len() && (json[j] == SPACE || json[j] == TAB || json[j] == NEWLINE || json[j]
        == CARRIAGE)
        invariant
            p + pat@.len() <= j <= json@.len(),
            json@.len() == json.len(),
            skip_ws(json@, (p + pat@.len()) as int) == skip_ws(json@, j as int),
        decreases json.len() - j,
    {
        j = j + 1;
    }
    if j < json.len() && json[j] == QUOTE {
        let mut quote_pat: Vec<u8> = Vec::new();
        quote_pat.push(QUOTE);
        proof {
            assert(quote_pat@ =~= seq![QUOTE]);
        }
        let tail_start = j + 1;
        let mut k: usize = tail_start;
        while k < json.len() && json[k] != QUOTE
            invariant
                tail_start <= k <= json@.len(),
                find_from(json@, seq![QUOTE], tail_start as int) == find_from(
                    json@,
                    seq![QUOTE],
                    k as int,
                ),
            decreases json.len() - k,
        {
            proof {
                assert(!matches_at(json@, seq![QUOTE], k as int)) by {
                    if matches_at(json@, seq![QUOTE], k as int) {
                        assert(json@.subrange(k as int, k + 1)[0] == json@[k as int]);
                    }
                }
            }
            k = k + 1;
        }
        if k < json.len() {
            proof {
                assert(matches_at(json@, seq![QUOTE], k as int)) by {
                    assert(json@.subrange(k as int, k + 1) =~= seq![QUOTE]);
                }
            }
            Some(sub_vec(json, tail_start, k))
        } else {
            proof {
                if k + 1 <= json@.len() {
                    assert(!matches_at(json@, seq![QUOTE], k as int)) by {
                        if matches_at(json@, seq![QUOTE], k as int) {
                            assert(json@.subrange(k as int, k + 1)[0] == json@[k as int]);
                        }
                    }
                }
            }
            None
        }
    } else {
        let mut k: usize = j;
        while k < json.len() && !(json[k] == COMMA || json[k] == RBRACE || json[k] == RBRACKET
            || json[k] == SPACE || json[k] == TAB || json[k] == NEWLINE || json[k] == CARRIAGE)
            invariant
                j <= k <= json@.len(),
                scalar_end(json@, j as int) == scalar_end(json@, k as int),
            decreases json.len() - k,
        {
            k = k + 1;
        }
        if k > j {
            Some(sub_vec(json, j, k))
        } else {
            None
        }
    }
}

/// One 6-bit value rendered in the standard base64 alphabet.
pub open spec fn b64_byte(v: u8) -> u8 {
    if v < 26 {
        (65 + v) as u8
    } else if v < 52 {
        (97 + (v - 26)) as u8
    } else if v < 62 {
        (48 + (v - 52)) as u8
    } else if v == 62 {
        43
    } else {
        47
    }
}

/// Four output bytes for one full group of three input bytes.
pub open spec fn b64_group(a: u8, b: u8, c: u8) -> Seq<u8> {
    seq![
        b64_byte(a >> 2),
        b64_byte((((a & 3) << 4) | (b >> 4)) as u8),
        b64_byte((((b & 15) << 2) | (c >> 6)) as u8),
        b64_byte((c & 63) as u8),
    ]
}

/// Standard base64 with `=` padding.
pub open spec fn b64_encode_spec(s: Seq<u8>) -> Seq<u8>
    decreases s.len(),
{
    if s.len() == 0 {
        Seq::empty()
    } else if s.len() == 1 {
        seq![b64_byte(s[0] >> 2), b64_byte(((s[0] & 3) << 4) as u8), EQUALS, EQUALS]
    } else if s.len() == 2 {
        seq![
            b64_byte(s[0] >> 2),
            b64_byte((((s[0] & 3) << 4) | (s[1] >> 4)) as u8),
            b64_byte(((s[1] & 15) << 2) as u8),
            EQUALS,
        ]
    } else {
        b64_group(s[0], s[1], s[2]) + b64_encode_spec(s.skip(3))
    }
}

/// Base64 alphabet lookup, computed arithmetically.
fn b64_char(v: u8) -> (r: u8)
    ensures
        r == b64_byte(v),
{
    if v < 26 {
        65 + v
    } else if v < 52 {
        97 + (v - 26)
    } else if v < 62 {
        48 + (v - 52)
    } else if v == 62 {
        43
    } else {
        47
    }
}

/// Base64-encodes a byte string, as the broker's Basic-Auth header needs.
pub fn base64_encode(input: &Vec<u8>) -> (r: Vec<u8>)
    ensures
        r@ == b64_encode_spec(input@),
{
    let mut out: Vec<u8> = Vec::new();
    let mut i: usize = 0;
    proof {
        assert(input@.skip(0) =~= input@);
        assert(out@ + b64_encode_spec(input@) =~= b64_encode_spec(input@));
    }
    while input.len() - i >= 3 && i < input.len()
        invariant
            i <= input@.len(),
            input@.len() == input.len(),
            b64_encode_spec(input@) == out@ + b64_encode_spec(input@.skip(i as int)),
        decreases input.len() - i,
    {
        let ghost i0 = i as int;
        let ghost out0 = out@;
        let a = input[i];
        let b = input[i + 1];
        let c = input[i + 2];
        out.push(b64_char(a >> 2));
        out.push(b64_char(((a & 3) << 4) | (b >> 4)));
        out.push(b64_char(((b & 15) << 2) | (c >> 6)));
        out.push(b64_char(c & 63));
        i = i + 3;
        proof {
            let prev = input@.skip(i0);
            assert(prev.len() >= 3);
            assert(prev[0] == a && prev[1] == b && prev[2] == c);
            assert(prev.skip(3) =~= input@.skip(i as int));
            assert(b64_encode_spec(prev) == b64_group(a, b, c) + b64_encode_spec(prev.skip(3)));
            assert(out@ =~= out0 + b64_group(a, b, c));
            assert(out0 + (b64_group(a, b, c) + b64_encode_spec(input@.skip(i as int))) =~= (out0
                + b64_group(a, b, c)) + b64_encode_spec(input@.skip(i as int)));
        }
    }
    let rem = input.len() - i;
    let ghost out0 = out@;
    let ghost tail = input@.skip(i as int);
    if rem == 1 {
        let a = input[i];
        out.push(b64_char(a >> 2));
        out.push(b64_char((a & 3) << 4));
        out.push(EQUALS);
        out.push(EQUALS);
        proof {
            assert(tail.len() == 1 && tail[0] == a);
            assert(out@ =~= out0 + b64_encode_spec(tail));
        }
    } else if rem == 2 {
        let a = input[i];
        let b = input[i + 1];
        out.push(b64_char(a >> 2));
        out.push(b64_char(((a & 3) << 4) | (b >> 4)));
        out.push(b64_char((b & 15) << 2));
        out.push(EQUALS);
        proof {
            assert(tail.len() == 2 && tail[0] == a && tail[1] == b);
            assert(out@ =~= out0 + b64_encode_spec(tail));
        }
    } else {
        proof {
            assert(tail.len() == 0);
            assert(out@ + b64_encode_spec(tail) =~= out@);
        }
    }
    out
}

/// End of the run of decimal digits that starts at `i`.
pub open spec fn digits_end(s: Seq<u8>, i: int) -> int
    decreases s.len() - i,
{
    if 0 <= i < s.len() && is_digit(s[i]) {
        digits_end(s, i + 1)
    } else {
        i
    }
}

/// Value of the digits `s[i..j]`, most significant first.
pub open spec fn digits_val(s: Seq<u8>, i: int, j: int) -> nat
    decreases j - i,
{
    if i < j {
        digits_val(s, i, j - 1) * 10 + digit_val(s[j - 1])
    } else {
        0
    }
}

proof fn lemma_digits_val_mono(s: Seq<u8>, i: int, j1: int, j2: int)
    requires
        i <= j1 <= j2,
    ensures
        digits_val(s, i, j1) <= digits_val(s, i, j2),
    decreases j2 - j1,
{
    if j1 < j2 {
        lemma_digits_val_mono(s, i, j1, j2 - 1);
        assert(digits_val(s, i, j2 - 1) * 10 >= digits_val(s, i, j2 - 1) * 1);
    }
}

/// Canonical decimal number starting at `i`: a lone `0`, or a maximal
/// digit run with no leading zero whose value fits in a `u64`.
pub open spec fn parse_u64_at(s: Seq<u8>, i: int) -> Option<(u64, int)> {
    if !(0 <= i < s.len() && is_digit(s[i])) {
        None
    } else if s[i] == ZERO {
        Some((0u64, i + 1))
    } else {
        let j = digits_end(s, i);
        let v = digits_val(s, i, j);
        if v <= u64::MAX {
            Some(((v as u64), j))
        } else {
            None
        }
    }
}

/// Reads the canonical decimal number starting at `i`.
pub fn parse_u64(s: &Vec<u8>, i: usize) -> (r: Option<(u64, usize)>)
    ensures
        match r {
            Some((v, j)) => parse_u64_at(s@, i as int) == Some((v, j as int)),
            None => parse_u64_at(s@, i as int) is None,
        },
{
    if i >= s.len() {
        return None;
    }
    let b0 = s[i];
    if !(ZERO <= b0 && b0 <= NINE) {
        return None;
    }
    if b0 == ZERO {
        return Some((0, i + 1));
    }
    let mut j: usize = i;
    let mut acc: u64 = 0;
    let mut overflow: bool = false;
    while j < s.len() && s[j] >= ZERO && s[j] <= NINE
        invariant
            i <= j <= s@.len(),
            s@.len() == s.len(),
            digits_end(s@, i as int) == digits_end(s@, j as int),
            !overflow ==> acc == digits_val(s@, i as int, j as int),
            overflow ==> digits_val(s@, i as int, j as int) > u64::MAX,
        decreases s.len() - j,
    {
        let d = s[j] - ZERO;
        proof {
            lemma_digits_val_mono(s@, i as int, j as int, j + 1);
        }
        if !overflow {
            if acc > (u64::MAX - (d as u64)) / 10 {
                proof {
                    assert(digits_val(s@, i as int, j + 1) == digits_val(s@, i as int, j as int)
                        * 10 + digit_val(s@[j as int]));
                }
                overflow = true;
            } else {
                acc = acc * 10 + (d as u64);
            }
        }
        j = j + 1;
    }
    proof {
        assert(digits_end(s@, i as int) == j as int);
        lemma_digits_val_mono(s@, i as int, i as int, j as int);
    }
    if overflow {
        None
    } else {
        Some((acc, j))
    }
}


} // verus!
