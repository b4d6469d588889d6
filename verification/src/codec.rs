//! The text form of an identifier: its eight big-endian bytes in unpadded
//! URL-safe base64, eleven characters.

use vstd::prelude::*;
use crate::SmallUid;
use crate::error::SmallUidError;

verus! {

/// Number of symbols in the text of an identifier.
pub const TOKEN_LEN: usize = 11;

/// Whether `c` belongs to the URL-safe alphabet `A-Z a-z 0-9 - _`.
pub open spec fn is_url_safe(c: char) -> bool {
    ('A' <= c && c <= 'Z') || ('a' <= c && c <= 'z') || ('0' <= c && c <= '9') || c == '-'
        || c == '_'
}

/// The character that stands for the six-bit value `v` in the URL-safe
/// alphabet: `A` to `Z` for 0 to 25, `a` to `z` for 26 to 51, `0` to `9` for
/// 52 to 61, then `-` and `_`.
pub open spec fn symbol(v: int) -> char {
    if v < 26 {
        ('A' as int + v) as char
    } else if v < 52 {
        ('a' as int + (v - 26)) as char
    } else if v < 62 {
        ('0' as int + (v - 52)) as char
    } else if v == 62 {
        '-'
    } else {
        '_'
    }
}

/// The byte at `i`, or zero where `bytes` has ended.
pub open spec fn byte_or_zero(bytes: Seq<u8>, i: int) -> int {
    if 0 <= i < bytes.len() {
        bytes[i] as int
    } else {
        0
    }
}

/// The number that the three bytes from `at` hold, first byte highest, with
/// zero for a byte past the end.
pub open spec fn triple(bytes: Seq<u8>, at: int) -> int {
    byte_or_zero(bytes, at) * 0x1_0000 + byte_or_zero(bytes, at + 1) * 0x100 + byte_or_zero(
        bytes,
        at + 2,
    )
}

/// The `i`-th group of six bits of `bytes`, read as one string of bits from
/// the highest bit of the first byte, with zero bits after the last byte:
/// three bytes make four groups.
pub open spec fn sextet(bytes: Seq<u8>, i: int) -> int {
    let triple: int = triple(bytes, (i / 4) * 3);
    if i % 4 == 0 {
        triple / 0x4_0000
    } else if i % 4 == 1 {
        (triple / 0x1000) % 64
    } else if i % 4 == 2 {
        (triple / 0x40) % 64
    } else {
        triple % 64
    }
}

/// Number of symbols in the text of `n` bytes: one for each started group
/// of six bits.
pub open spec fn text_len(n: nat) -> nat {
    ((4 * n + 2) / 3) as nat
}

/// Unpadded URL-safe base64 of `bytes`: the symbols of its groups of six
/// bits.
pub open spec fn base64url(bytes: Seq<u8>) -> Seq<char> {
    Seq::new(text_len(bytes.len()), |i: int| symbol(sextet(bytes, i)))
}

/// The bytes whose base64 text is `text`, where there are any.
pub open spec fn base64url_bytes(text: Seq<char>) -> Option<Seq<u8>> {
    if exists|bytes: Seq<u8>| base64url(bytes) == text {
        Some(choose|bytes: Seq<u8>| base64url(bytes) == text)
    } else {
        None
    }
}

/// The eight bytes of `value`, most significant first.
pub open spec fn be_bytes(value: u64) -> Seq<u8> {
    seq![
        (value / 0x100_0000_0000_0000) as u8,
        (value / 0x1_0000_0000_0000 % 256) as u8,
        (value / 0x100_0000_0000 % 256) as u8,
        (value / 0x1_0000_0000 % 256) as u8,
        (value / 0x100_0000 % 256) as u8,
        (value / 0x1_0000 % 256) as u8,
        (value / 0x100 % 256) as u8,
        (value % 256) as u8,
    ]
}

/// The number that the first eight of `bytes` hold, most significant first.
pub open spec fn be_value(bytes: Seq<u8>) -> nat {
    (bytes[0] * 0x100_0000_0000_0000 + bytes[1] * 0x1_0000_0000_0000 + bytes[2] * 0x100_0000_0000
        + bytes[3] * 0x1_0000_0000 + bytes[4] * 0x100_0000 + bytes[5] * 0x1_0000 + bytes[6] * 0x100
        + bytes[7]) as nat
}

/// The text of the identifier `value`: the base64 text of its eight bytes.
pub open spec fn token(value: u64) -> Seq<char> {
    base64url(be_bytes(value))
}

/// What a character of the input leaves in the text that is decoded:
/// nothing for padding, the URL-safe synonym for `+` and `/`, else itself.
pub open spec fn cleaned(c: char) -> Option<char> {
    if c == '=' {
        None
    } else if c == '+' {
        Some('-')
    } else if c == '/' {
        Some('_')
    } else {
        Some(c)
    }
}

/// `cleaned` as a value, for `filter_map`.
pub open spec fn cleaner() -> spec_fn(char) -> Option<char> {
    |c: char| cleaned(c)
}

/// `text` without its padding characters and with `+` and `/` as their
/// URL-safe synonyms.
pub open spec fn normalized(text: Seq<char>) -> Seq<char> {
    text.filter_map(cleaner())
}

/// The identifier that eight big-endian bytes hold; other than eight bytes
/// hold none.
pub open spec fn uid_of_bytes(bytes: Seq<u8>) -> Result<SmallUid, SmallUidError> {
    if bytes.len() != 8 {
        Err(SmallUidError::VecToArray)
    } else {
        Ok(SmallUid(be_value(bytes) as u64))
    }
}

/// What reading `text` as an identifier gives. A character outside the
/// alphabet anywhere in the normalized text fails first, then a text of
/// less than eleven symbols; the first eleven symbols are then decoded.
pub open spec fn parsed(text: Seq<char>) -> Result<SmallUid, SmallUidError> {
    let clean = normalized(text);
    if exists|i: int| 0 <= i < clean.len() && !is_url_safe(#[trigger] clean[i]) {
        Err(SmallUidError::InvalidChar)
    } else if clean.len() < TOKEN_LEN {
        Err(SmallUidError::NotABase64Url)
    } else {
        match base64url_bytes(clean.take(TOKEN_LEN as int)) {
            None => Err(SmallUidError::NotABase64Url),
            Some(bytes) => uid_of_bytes(bytes),
        }
    }
}

/// The error of the base64 decoder. Only its presence is read.
#[verifier::external_type_specification]
#[verifier::external_body]
pub struct ExDecodeSliceError(base64_url::base64::DecodeSliceError);

/// `String::push`: the character is appended.
pub assume_specification[ String::push ](text: &mut String, c: char)
    ensures
        final(text)@ == old(text)@.push(c),
;

/// `base64_url::encode`: the unpadded URL-safe base64 text of `bytes`. The
/// bound on the length keeps the text within what a `String` can hold.
#[verifier::external_body]
fn base64url_encode(bytes: &[u8]) -> (text: String)
    requires
        bytes@.len() <= usize::MAX / 4,
    ensures
        text@ == base64url(bytes@),
{
    base64_url::encode(bytes)
}

/// `base64_url::decode_to_vec` into a fresh vector. The decoder takes the
/// URL-safe alphabet alone, no padding, and refuses a last symbol with bits
/// that no byte uses: it succeeds on the texts that encoding produces and on
/// no others, and gives the bytes that were encoded.
#[verifier::external_body]
fn base64url_decode(text: &str) -> (r: Result<Vec<u8>, base64_url::base64::DecodeSliceError>)
    ensures
        r matches Ok(bytes) ==> base64url(bytes@) == text@,
        r is Err ==> forall|bytes: Seq<u8>| base64url(bytes) != text@,
{
    let mut bytes = Vec::new();
    base64_url::decode_to_vec(text, &mut bytes)?;
    Ok(bytes)
}

/// The eight bytes of `value`, most significant first.
pub fn to_be_bytes(value: u64) -> (bytes: [u8; 8])
    ensures
        bytes@ == be_bytes(value),
{
    let bytes: [u8; 8] = [
        (value >> 56) as u8,
        (value >> 48) as u8,
        (value >> 40) as u8,
        (value >> 32) as u8,
        (value >> 24) as u8,
        (value >> 16) as u8,
        (value >> 8) as u8,
        value as u8,
    ];
    assert(bytes@ =~= be_bytes(value)) by {
        assert({
            &&& (value >> 56u64) as u8 == (value / 0x100_0000_0000_0000) as u8
            &&& (value >> 48u64) as u8 == (value / 0x1_0000_0000_0000 % 256) as u8
            &&& (value >> 40u64) as u8 == (value / 0x100_0000_0000 % 256) as u8
            &&& (value >> 32u64) as u8 == (value / 0x1_0000_0000 % 256) as u8
            &&& (value >> 24u64) as u8 == (value / 0x100_0000 % 256) as u8
            &&& (value >> 16u64) as u8 == (value / 0x1_0000 % 256) as u8
            &&& (value >> 8u64) as u8 == (value / 0x100 % 256) as u8
            &&& value as u8 == (value % 256) as u8
        }) by (bit_vector);
    }
    bytes
}

/// The identifier that `bytes` hold, most significant byte first, or
/// `VecToArray` where they are not eight.
pub fn from_be_bytes(bytes: &[u8]) -> (r: Result<SmallUid, SmallUidError>)
    ensures
        r == uid_of_bytes(bytes@),
{
    if bytes.len() != 8 {
        return Err(SmallUidError::VecToArray);
    }
    let value: u64 = ((bytes[0] as u64) << 56) | ((bytes[1] as u64) << 48) | ((bytes[2] as u64)
        << 40) | ((bytes[3] as u64) << 32) | ((bytes[4] as u64) << 24) | ((bytes[5] as u64) << 16)
        | ((bytes[6] as u64) << 8) | (bytes[7] as u64);
    proof {
        let (b0, b1, b2, b3) = (bytes[0], bytes[1], bytes[2], bytes[3]);
        let (b4, b5, b6, b7) = (bytes[4], bytes[5], bytes[6], bytes[7]);
        assert(((b0 as u64) << 56) | ((b1 as u64) << 48) | ((b2 as u64) << 40) | ((b3 as u64) << 32)
            | ((b4 as u64) << 24) | ((b5 as u64) << 16) | ((b6 as u64) << 8) | (b7 as u64) == b0
            * 0x100_0000_0000_0000 + b1 * 0x1_0000_0000_0000 + b2 * 0x100_0000_0000 + b3
            * 0x1_0000_0000 + b4 * 0x100_0000 + b5 * 0x1_0000 + b6 * 0x100 + b7) by (bit_vector);
    }
    Ok(SmallUid(value))
}

/// The identifier as text: the eleven symbols of its token.
pub fn encode(id: SmallUid) -> (text: String)
    ensures
        text@ == token(id.0),
{
    let bytes: [u8; 8] = to_be_bytes(id.0);
    base64url_encode(bytes.as_slice())
}

/// Whether `c` belongs to the URL-safe alphabet.
fn url_safe(c: char) -> (safe: bool)
    ensures
        safe == is_url_safe(c),
{
    ('A' <= c && c <= 'Z') || ('a' <= c && c <= 'z') || ('0' <= c && c <= '9') || c == '-' || c
        == '_'
}

/// The identifier that `text` holds. Padding is dropped and `+` and `/`
/// count as `-` and `_`; what follows the eleventh symbol is checked for the
/// alphabet but not decoded.
pub fn decode(text: &str) -> (r: Result<SmallUid, SmallUidError>)
    ensures
        r == parsed(text@),
{
    let mut token: String = String::new();
    let mut count: usize = 0;
    for c in it: text.chars()
        invariant
            it.seq() == text@,
            count == token@.len(),
            count <= TOKEN_LEN,
            count <= normalized(text@.take(it.index())).len(),
            count < TOKEN_LEN ==> count == normalized(text@.take(it.index())).len(),
            token@ == normalized(text@.take(it.index())).take(count as int),
            forall|k: int|
                0 <= k < normalized(text@.take(it.index())).len() ==> is_url_safe(
                    #[trigger] normalized(text@.take(it.index()))[k],
                ),
    {
        let ghost before = normalized(text@.take(it.index()));
        proof {
            text@.lemma_filter_map_take_succ(cleaner(), it.index());
        }
        if c != '=' {
            let symbol: char = if c == '+' {
                '-'
            } else if c == '/' {
                '_'
            } else {
                c
            };
            if !url_safe(symbol) {
                proof {
                    lemma_normalized_prefix(text@, it.index() + 1, text@.len() as int);
                    assert(text@.take(text@.len() as int) == text@);
                    let at: int = before.len() as int;
                    assert(normalized(text@).take(at + 1)[at] == symbol);
                }
                return Err(SmallUidError::InvalidChar);
            }
            if count < TOKEN_LEN {
                token.push(symbol);
                count = count + 1;
            }
        }
    }
    proof {
        assert(text@.take(text@.len() as int) == text@);
    }
    if count < TOKEN_LEN {
        return Err(SmallUidError::NotABase64Url);
    }
    match base64url_decode(token.as_str()) {
        Err(_) => Err(SmallUidError::NotABase64Url),
        Ok(bytes) => {
            proof {
                lemma_token_bytes(bytes@, token@);
            }
            from_be_bytes(bytes.as_slice())
        },
    }
}

/// A longer prefix of the input leaves a text that starts with what a
/// shorter prefix leaves.
proof fn lemma_normalized_prefix(text: Seq<char>, i: int, j: int)
    requires
        0 <= i <= j <= text.len(),
    ensures
        normalized(text.take(i)).len() <= normalized(text.take(j)).len(),
        normalized(text.take(j)).take(normalized(text.take(i)).len() as int) == normalized(
            text.take(i),
        ),
    decreases j - i,
{
    if i < j {
        lemma_normalized_prefix(text, i, j - 1);
        text.lemma_filter_map_take_succ(cleaner(), j - 1);
    }
    assert(normalized(text.take(j)).take(normalized(text.take(i)).len() as int) =~= normalized(
        text.take(i),
    ));
}

/// A text of URL-safe symbols is left as it is.
proof fn lemma_normalized_url_safe(text: Seq<char>)
    requires
        forall|i: int| 0 <= i < text.len() ==> is_url_safe(#[trigger] text[i]),
    ensures
        normalized(text) == text,
    decreases text.len(),
{
    if text.len() > 0 {
        lemma_normalized_url_safe(text.drop_last());
    }
}

/// A text of eleven symbols is the text of eight bytes, and of no other
/// bytes than those.
proof fn lemma_token_bytes(bytes: Seq<u8>, text: Seq<char>)
    requires
        base64url(bytes) == text,
        text.len() == TOKEN_LEN,
    ensures
        bytes.len() == 8,
        base64url_bytes(text) == Some(bytes),
{
    let other = choose|other: Seq<u8>| base64url(other) == text;
    law_base64url_injective(bytes, other);
}

/// A group of six bits is a number below 64.
pub proof fn lemma_sextet_range(bytes: Seq<u8>, i: int)
    requires
        0 <= i,
    ensures
        0 <= sextet(bytes, i) < 64,
{
}

/// The symbols of the 64 six-bit values are URL-safe and differ from one
/// another.
pub proof fn lemma_symbol_injective(u: int, v: int)
    requires
        0 <= u < 64,
        0 <= v < 64,
    ensures
        is_url_safe(symbol(u)),
        symbol(u) == symbol(v) ==> u == v,
{
}

/// The four groups of six bits that the bytes from `3 * group` make.
proof fn lemma_sextets_of_group(bytes: Seq<u8>, group: int)
    requires
        0 <= group,
    ensures
        sextet(bytes, 4 * group) == triple(bytes, 3 * group) / 0x4_0000,
        sextet(bytes, 4 * group + 1) == (triple(bytes, 3 * group) / 0x1000) % 64,
        sextet(bytes, 4 * group + 2) == (triple(bytes, 3 * group) / 0x40) % 64,
        sextet(bytes, 4 * group + 3) == triple(bytes, 3 * group) % 64,
{
}

/// Three bytes are known from their four groups of six bits; from three
/// groups, where the third byte is zero; from two, where the second is zero
/// too.
proof fn lemma_bytes_from_sextets(x0: u8, x1: u8, x2: u8, y0: u8, y1: u8, y2: u8)
    by (bit_vector)
    requires
        (x0 * 0x1_0000 + x1 * 0x100 + x2) / 0x4_0000 == (y0 * 0x1_0000 + y1 * 0x100 + y2) / 0x4_0000,
        (x0 * 0x1_0000 + x1 * 0x100 + x2) / 0x1000 % 64 == (y0 * 0x1_0000 + y1 * 0x100 + y2) / 0x1000
            % 64,
        (x0 * 0x1_0000 + x1 * 0x100 + x2) / 0x40 % 64 == (y0 * 0x1_0000 + y1 * 0x100 + y2) / 0x40
            % 64 || (x1 == 0 && x2 == 0 && y1 == 0 && y2 == 0),
        (x0 * 0x1_0000 + x1 * 0x100 + x2) % 64 == (y0 * 0x1_0000 + y1 * 0x100 + y2) % 64 || (x2 == 0
            && y2 == 0),
    ensures
        x0 == y0,
        x1 == y1,
        x2 == y2,
{
}

/// Bytes of one length whose texts agree agree in the three bytes from
/// `3 * group`.
proof fn lemma_group_injective(a: Seq<u8>, b: Seq<u8>, group: int)
    requires
        a.len() == b.len(),
        0 <= group,
        3 * group < a.len(),
        forall|i: int| 0 <= i < text_len(a.len()) ==> sextet(a, i) == sextet(b, i),
    ensures
        byte_or_zero(a, 3 * group) == byte_or_zero(b, 3 * group),
        byte_or_zero(a, 3 * group + 1) == byte_or_zero(b, 3 * group + 1),
        byte_or_zero(a, 3 * group + 2) == byte_or_zero(b, 3 * group + 2),
{
    lemma_sextets_of_group(a, group);
    lemma_sextets_of_group(b, group);
    let (x0, x1, x2) = (
        byte_or_zero(a, 3 * group) as u8,
        byte_or_zero(a, 3 * group + 1) as u8,
        byte_or_zero(a, 3 * group + 2) as u8,
    );
    let (y0, y1, y2) = (
        byte_or_zero(b, 3 * group) as u8,
        byte_or_zero(b, 3 * group + 1) as u8,
        byte_or_zero(b, 3 * group + 2) as u8,
    );
    lemma_bytes_from_sextets(x0, x1, x2, y0, y1, y2);
}

/// Different bytes have different texts.
pub proof fn law_base64url_injective(a: Seq<u8>, b: Seq<u8>)
    requires
        base64url(a) == base64url(b),
    ensures
        a == b,
{
    assert(a.len() == b.len()) by {
        assert(base64url(a).len() == text_len(a.len()));
        assert(base64url(b).len() == text_len(b.len()));
    }
    assert forall|i: int| 0 <= i < text_len(a.len()) implies sextet(a, i) == sextet(b, i) by {
        assert(base64url(b)[i] == symbol(sextet(b, i)));
        lemma_sextet_range(a, i);
        lemma_sextet_range(b, i);
        lemma_symbol_injective(sextet(a, i), sextet(b, i));
    }
    assert forall|k: int| 0 <= k < a.len() implies a[k] == b[k] by {
        let group: int = k / 3;
        lemma_group_injective(a, b, group);
    }
}

/// Eight bytes are the big-endian bytes of the number they hold, and a
/// number is held by its big-endian bytes.
pub proof fn lemma_be_round_trip(value: u64, bytes: Seq<u8>)
    requires
        bytes.len() == 8,
    ensures
        be_value(be_bytes(value)) == value,
        be_value(bytes) <= u64::MAX,
        be_bytes(be_value(bytes) as u64) == bytes,
{
    assert({
        &&& (value / 0x100_0000_0000_0000) < 256
        &&& ((value / 0x100_0000_0000_0000) as u8) * 0x100_0000_0000_0000 + ((value
            / 0x1_0000_0000_0000 % 256) as u8) * 0x1_0000_0000_0000 + ((value / 0x100_0000_0000
            % 256) as u8) * 0x100_0000_0000 + ((value / 0x1_0000_0000 % 256) as u8) * 0x1_0000_0000
            + ((value / 0x100_0000 % 256) as u8) * 0x100_0000 + ((value / 0x1_0000 % 256) as u8)
            * 0x1_0000 + ((value / 0x100 % 256) as u8) * 0x100 + ((value % 256) as u8) == value
    }) by (bit_vector);
    let (b0, b1, b2, b3) = (bytes[0], bytes[1], bytes[2], bytes[3]);
    let (b4, b5, b6, b7) = (bytes[4], bytes[5], bytes[6], bytes[7]);
    let held: u64 = be_value(bytes) as u64;
    assert(held == b0 * 0x100_0000_0000_0000 + b1 * 0x1_0000_0000_0000 + b2 * 0x100_0000_0000 + b3
        * 0x1_0000_0000 + b4 * 0x100_0000 + b5 * 0x1_0000 + b6 * 0x100 + b7);
    assert({
        &&& (held / 0x100_0000_0000_0000) as u8 == b0
        &&& (held / 0x1_0000_0000_0000 % 256) as u8 == b1
        &&& (held / 0x100_0000_0000 % 256) as u8 == b2
        &&& (held / 0x1_0000_0000 % 256) as u8 == b3
        &&& (held / 0x100_0000 % 256) as u8 == b4
        &&& (held / 0x1_0000 % 256) as u8 == b5
        &&& (held / 0x100 % 256) as u8 == b6
        &&& (held % 256) as u8 == b7
    }) by (bit_vector)
        requires
            held == b0 * 0x100_0000_0000_0000 + b1 * 0x1_0000_0000_0000 + b2 * 0x100_0000_0000 + b3
                * 0x1_0000_0000 + b4 * 0x100_0000 + b5 * 0x1_0000 + b6 * 0x100 + b7,
    ;
    assert(be_bytes(held) =~= bytes);
}

/// The text of an identifier has eleven symbols of the URL-safe alphabet,
/// and reading it gives the identifier back.
pub proof fn law_text_round_trip(id: SmallUid)
    ensures
        token(id.0).len() == TOKEN_LEN,
        forall|i: int| 0 <= i < TOKEN_LEN ==> is_url_safe(#[trigger] token(id.0)[i]),
        parsed(token(id.0)) == Ok::<SmallUid, SmallUidError>(id),
{
    let text = token(id.0);
    let bytes = be_bytes(id.0);
    assert forall|i: int| 0 <= i < text.len() implies is_url_safe(#[trigger] text[i]) by {
        lemma_sextet_range(bytes, i);
        lemma_symbol_injective(sextet(bytes, i), 0);
    }
    lemma_normalized_url_safe(text);
    assert(text.take(TOKEN_LEN as int) == text);
    lemma_token_bytes(bytes, text);
    lemma_be_round_trip(id.0, bytes);
}

/// Different identifiers have different texts.
pub proof fn law_token_injective(a: SmallUid, b: SmallUid)
    requires
        token(a.0) == token(b.0),
    ensures
        a == b,
{
    law_text_round_trip(a);
    law_text_round_trip(b);
}

/// What reads as an identifier starts, once padding is dropped and the older
/// symbols are replaced, with that identifier's text: text and identifier
/// stand for each other, one to one.
pub proof fn law_parsed_text(text: Seq<char>, id: SmallUid)
    requires
        parsed(text) == Ok::<SmallUid, SmallUidError>(id),
    ensures
        normalized(text).len() >= TOKEN_LEN,
        normalized(text).take(TOKEN_LEN as int) == token(id.0),
{
    let start = normalized(text).take(TOKEN_LEN as int);
    let bytes = base64url_bytes(start)->0;
    lemma_token_bytes(bytes, start);
    lemma_be_round_trip(id.0, bytes);
}

/// Reading a text never fails for the number of bytes: eleven symbols hold
/// eight bytes.
pub proof fn law_parsed_length(text: Seq<char>)
    ensures
        parsed(text) != Err::<SmallUid, SmallUidError>(SmallUidError::VecToArray),
{
    let clean = normalized(text);
    if clean.len() >= TOKEN_LEN && base64url_bytes(clean.take(TOKEN_LEN as int)) is Some {
        let bytes = base64url_bytes(clean.take(TOKEN_LEN as int))->0;
        lemma_token_bytes(bytes, clean.take(TOKEN_LEN as int));
    }
}

} // verus!
