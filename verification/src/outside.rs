//! Calls into other crates, each with the contract that the rest of the library
//! relies on.

use crate::text::hex_digit;
use base64::Engine;
use sha2::Digest;
use vstd::prelude::*;
use vstd::string::*;
use vstd::utf8::*;

verus! {

/// The SHA-256 digest of a byte string.
pub uninterp spec fn sha256(data: Seq<u8>) -> Seq<u8>;

/// `sha2::Sha256::digest`: the SHA-256 digest of `data`, thirty-two bytes long.
#[verifier::external_body]
pub(crate) fn sha256_digest(data: &[u8]) -> (digest: Vec<u8>)
    ensures
        digest@ == sha256(data@),
        digest@.len() == 32,
{
    sha2::Sha256::digest(data).to_vec()
}

/// A text with every character in its Unicode lower-case form.
pub uninterp spec fn lowercased(s: Seq<char>) -> Seq<char>;

/// The lower-case form of an ASCII letter; every other character unchanged.
pub open spec fn ascii_lower(c: char) -> char {
    if 'A' <= c <= 'Z' {
        (c as int + 32) as char
    } else {
        c
    }
}

/// `str::to_lowercase`: the Unicode lower-case form of the text. On ASCII text
/// it maps `A` to `Z` onto `a` to `z` and leaves everything else alone.
pub assume_specification[ str::to_lowercase ](s: &str) -> (lower: String)
    ensures
        lower@ == lowercased(s@),
        is_ascii_chars(s@) ==> lower@ == s@.map_values(|c: char| ascii_lower(c)),
;

/// The URL-safe base64 digit of a six-bit value.
pub open spec fn base64_digit(d: int) -> char {
    if d < 26 {
        (65 + d) as char
    } else if d < 52 {
        (71 + d) as char
    } else if d < 62 {
        (d - 4) as char
    } else if d == 62 {
        '-'
    } else {
        '_'
    }
}

/// The URL-safe base64 text of a byte string, without padding: four digits for
/// three bytes, and two or three digits for one or two bytes left at the end.
pub open spec fn base64_url(data: Seq<u8>) -> Seq<char>
    decreases data.len(),
{
    let a = data[0] as int;
    let b = data[1] as int;
    let c = data[2] as int;
    if data.len() == 0 {
        seq![]
    } else if data.len() == 1 {
        seq![base64_digit(a / 4), base64_digit(a % 4 * 16)]
    } else if data.len() == 2 {
        seq![base64_digit(a / 4), base64_digit(a % 4 * 16 + b / 16), base64_digit(b % 16 * 4)]
    } else {
        seq![
            base64_digit(a / 4),
            base64_digit(a % 4 * 16 + b / 16),
            base64_digit(b % 16 * 4 + c / 64),
            base64_digit(c % 64),
        ] + base64_url(data.skip(3))
    }
}

/// `base64::Engine::encode` of the engine `URL_SAFE_NO_PAD`: the URL-safe
/// base64 text of `data` without padding. A slice is never so long that the
/// length of its text overflows.
#[verifier::external_body]
pub(crate) fn base64_url_encode(data: &[u8]) -> (text: String)
    ensures
        text@ == base64_url(data@),
{
    base64::engine::general_purpose::URL_SAFE_NO_PAD.encode(data)
}

/// A byte that stands for itself in a URL component.
pub open spec fn is_unreserved(b: u8) -> bool {
    ||| 48 <= b <= 57
    ||| 65 <= b <= 90
    ||| 97 <= b <= 122
    ||| b == 45 || b == 46 || b == 95 || b == 126
}

/// The upper-case hexadecimal digit of a value below sixteen.
pub open spec fn upper_hex_digit(d: int) -> char {
    if d < 10 {
        (48 + d) as char
    } else {
        (55 + d) as char
    }
}

/// The percent-encoded form of one byte.
pub open spec fn percent_encoded_byte(b: u8) -> Seq<char> {
    if is_unreserved(b) {
        seq![b as char]
    } else {
        seq!['%', upper_hex_digit(b as int / 16), upper_hex_digit(b as int % 16)]
    }
}

/// The percent-encoded form of a byte string.
pub open spec fn percent_encoded(data: Seq<u8>) -> Seq<char>
    decreases data.len(),
{
    if data.len() == 0 {
        seq![]
    } else {
        percent_encoded_byte(data[0]) + percent_encoded(data.skip(1))
    }
}

/// `urlencoding::encode`: percent-encodes every byte of the UTF-8 form of `text`
/// but ASCII letters and digits, `-`, `.`, `_` and `~`.
#[verifier::external_body]
pub(crate) fn url_encode(text: &str) -> (encoded: String)
    ensures
        encoded@ == percent_encoded(encode_utf8(text@)),
{
    urlencoding::encode(text).into_owned()
}

/// A Unix time that the clock can show: from the epoch to the last second of
/// the last year that `chrono` represents.
pub open spec fn is_clock_time(t: i64) -> bool {
    0 <= t <= 8_210_266_876_799
}

/// `chrono::Utc::now` and `DateTime::timestamp`: the seconds since the Unix
/// epoch, within the range of dates that `chrono` represents. Which second it
/// is depends on the machine, and nothing more is known of it here.
#[verifier::external_body]
pub(crate) fn unix_now() -> (t: i64)
    ensures
        is_clock_time(t),
{
    chrono::Utc::now().timestamp()
}

/// What a call of `source` gave.
pub(crate) fn drawn<T, F: Fn() -> T>(source: F) -> (value: T)
    requires
        call_requires(source, ()),
    ensures
        call_ensures(source, (), value),
{
    source()
}

/// A time that a call of `unix_now` gave: one that was read from the clock, and
/// not one that was made up or reckoned from another.
pub closed spec fn is_clock_reading(t: i64) -> bool {
    call_ensures(unix_now, (), t)
}

/// A clock reading is what the clock itself gave, and nothing else.
proof fn clock_readings_come_from_the_clock(t: i64)
    ensures
        is_clock_reading(t) <==> call_ensures(unix_now, (), t),
        is_clock_reading(t) ==> is_clock_time(t),
{
}

/// The present time, read from the clock.
pub(crate) fn clock_reading() -> (t: i64)
    ensures
        is_clock_reading(t),
        is_clock_time(t),
{
    drawn(unix_now)
}

/// The simple form of a random (version 4) UUID: thirty-two lower-case
/// hexadecimal digits, of which one tells the version and one the variant.
pub open spec fn is_simple_uuid_v4(s: Seq<char>) -> bool {
    &&& s.len() == 32
    &&& forall|i: int|
        0 <= i < 32 ==> (exists|d: int| 0 <= d < 16 && #[trigger] s[i] == #[trigger] hex_digit(d))
    &&& s[12] == '4'
    &&& s[16] == '8' || s[16] == '9' || s[16] == 'a' || s[16] == 'b'
}

/// `uuid::Uuid::new_v4` and its simple form as text. Which identifier comes out
/// is left to chance, and nothing more than its form is known of it here.
#[verifier::external_body]
pub(crate) fn random_identifier() -> (id: String)
    ensures
        is_simple_uuid_v4(id@),
{
    uuid::Uuid::new_v4().simple().to_string()
}

/// A text that a call of `random_identifier` gave: one that was drawn at random,
/// and not one that was made up.
pub closed spec fn is_fresh_identifier(s: Seq<char>) -> bool {
    exists|id: String| #[trigger] call_ensures(random_identifier, (), id) && id@ == s
}

/// A fresh identifier is what the random source itself gave, and nothing else.
proof fn fresh_identifiers_are_drawn(s: Seq<char>)
    ensures
        is_fresh_identifier(s) <==> exists|id: String|
            #[trigger] call_ensures(random_identifier, (), id) && id@ == s,
        is_fresh_identifier(s) ==> is_simple_uuid_v4(s),
{
}

/// A new identifier, drawn at random.
pub(crate) fn fresh_identifier() -> (id: String)
    ensures
        is_fresh_identifier(id@),
        is_simple_uuid_v4(id@),
{
    drawn(random_identifier)
}

/// The value of a URL-safe base64 digit.
pub open spec fn base64_value(c: char) -> int {
    if 'A' <= c <= 'Z' {
        c as int - 'A' as int
    } else if 'a' <= c <= 'z' {
        c as int - 'a' as int + 26
    } else if '0' <= c <= '9' {
        c as int - '0' as int + 52
    } else if c == '-' {
        62
    } else {
        63
    }
}

/// The bytes that URL-safe base64 text without padding denotes: three for each
/// four digits, and one or two for two or three digits left at the end.
pub open spec fn base64_url_decoded(s: Seq<char>) -> Seq<u8>
    decreases s.len(),
{
    let p = base64_value(s[0]);
    let q = base64_value(s[1]);
    let r = base64_value(s[2]);
    let t = base64_value(s[3]);
    if s.len() < 2 {
        seq![]
    } else if s.len() == 2 {
        seq![(p * 4 + q / 16) as u8]
    } else if s.len() == 3 {
        seq![(p * 4 + q / 16) as u8, (q % 16 * 16 + r / 4) as u8]
    } else {
        seq![(p * 4 + q / 16) as u8, (q % 16 * 16 + r / 4) as u8, (r % 4 * 64 + t) as u8]
            + base64_url_decoded(s.skip(4))
    }
}

proof fn lemma_base64_digit_reads_back(d: int)
    requires
        0 <= d < 64,
    ensures
        base64_value(base64_digit(d)) == d,
{
}

/// Decoding URL-safe base64 text gives back the bytes that were encoded.
pub proof fn base64_url_reads_back(data: Seq<u8>)
    ensures
        base64_url_decoded(base64_url(data)) == data,
    decreases data.len(),
{
    let s = base64_url(data);
    let (a, b, c) = (data[0] as int, data[1] as int, data[2] as int);
    if data.len() == 0 {
        assert(data =~= Seq::<u8>::empty());
    } else if data.len() == 1 {
        lemma_base64_digit_reads_back(a / 4);
        lemma_base64_digit_reads_back(a % 4 * 16);
        assert(base64_url_decoded(s) =~= data);
    } else if data.len() == 2 {
        lemma_base64_digit_reads_back(a / 4);
        lemma_base64_digit_reads_back(a % 4 * 16 + b / 16);
        lemma_base64_digit_reads_back(b % 16 * 4);
        assert(base64_url_decoded(s) =~= data);
    } else {
        lemma_base64_digit_reads_back(a / 4);
        lemma_base64_digit_reads_back(a % 4 * 16 + b / 16);
        lemma_base64_digit_reads_back(b % 16 * 4 + c / 64);
        lemma_base64_digit_reads_back(c % 64);
        assert(s.skip(4) =~= base64_url(data.skip(3)));
        base64_url_reads_back(data.skip(3));
        assert(data =~= data.take(3) + data.skip(3));
        assert(base64_url_decoded(s) =~= data);
    }
}

/// The characters of URL-safe base64 text.
pub open spec fn is_base64_url_char(c: char) -> bool {
    'A' <= c <= 'Z' || 'a' <= c <= 'z' || '0' <= c <= '9' || c == '-' || c == '_'
}

/// URL-safe base64 text holds letters, digits, `-` and `_` only, and its length
/// follows from the length of the data.
pub proof fn base64_url_is_url_safe(data: Seq<u8>)
    ensures
        base64_url(data).len() == (4 * data.len() + 2) / 3,
        forall|i: int|
            0 <= i < base64_url(data).len() ==> is_base64_url_char(#[trigger] base64_url(data)[i]),
    decreases data.len(),
{
    if data.len() >= 3 {
        base64_url_is_url_safe(data.skip(3));
    }
}

proof fn lemma_base64_digit_is_injective(d: int, e: int)
    requires
        0 <= d < 64,
        0 <= e < 64,
        base64_digit(d) == base64_digit(e),
    ensures
        d == e,
{
}

/// Distinct byte strings have distinct URL-safe base64 texts.
pub proof fn base64_url_is_injective(one: Seq<u8>, other: Seq<u8>)
    requires
        base64_url(one) == base64_url(other),
    ensures
        one == other,
    decreases one.len(),
{
    base64_url_is_url_safe(one);
    base64_url_is_url_safe(other);
    assert(one.len() == other.len());
    let x = base64_url(one);
    let y = base64_url(other);
    let (a, b, c) = (one[0] as int, one[1] as int, one[2] as int);
    let (d, e, f) = (other[0] as int, other[1] as int, other[2] as int);
    if one.len() == 0 {
        assert(one =~= other);
    } else {
        assert(x[0] == y[0] && x[1] == y[1]);
        lemma_base64_digit_is_injective(a / 4, d / 4);
        if one.len() == 1 {
            lemma_base64_digit_is_injective(a % 4 * 16, d % 4 * 16);
            assert(one =~= other);
        } else {
            lemma_base64_digit_is_injective(a % 4 * 16 + b / 16, d % 4 * 16 + e / 16);
            assert(x[2] == y[2]);
            if one.len() == 2 {
                lemma_base64_digit_is_injective(b % 16 * 4, e % 16 * 4);
                assert(one =~= other);
            } else {
                assert(x[3] == y[3]);
                lemma_base64_digit_is_injective(b % 16 * 4 + c / 64, e % 16 * 4 + f / 64);
                lemma_base64_digit_is_injective(c % 64, f % 64);
                assert(x.skip(4) =~= base64_url(one.skip(3)));
                assert(y.skip(4) =~= base64_url(other.skip(3)));
                base64_url_is_injective(one.skip(3), other.skip(3));
                assert(one =~= one.take(3) + one.skip(3));
                assert(other =~= other.take(3) + other.skip(3));
                assert(one.take(3) =~= other.take(3));
            }
        }
    }
}

/// A character of percent-encoded text: one that stands for itself, or `%`.
pub open spec fn is_url_component_char(c: char) -> bool {
    c == '%' || ((c as int) < 128 && is_unreserved(c as u8))
}

/// Percent-encoded text holds nothing that has a meaning of its own in a URL
/// but the percent sign.
pub proof fn percent_encoded_is_url_safe(data: Seq<u8>)
    ensures
        forall|i: int|
            0 <= i < percent_encoded(data).len() ==> is_url_component_char(
                #[trigger] percent_encoded(data)[i],
            ),
    decreases data.len(),
{
    if data.len() > 0 {
        percent_encoded_is_url_safe(data.skip(1));
        let b = data[0];
        let first = percent_encoded_byte(b);
        let rest = percent_encoded(data.skip(1));
        let whole = percent_encoded(data);
        assert forall|i: int| 0 <= i < whole.len() implies is_url_component_char(
            #[trigger] whole[i],
        ) by {
            if i < first.len() {
                assert(whole[i] == first[i]);
                if is_unreserved(b) {
                    assert(first[i] as u8 == b);
                }
            } else {
                assert(whole[i] == rest[i - first.len()]);
            }
        }
    }
}

/// The value of an upper-case hexadecimal digit.
pub open spec fn upper_hex_value(c: char) -> int {
    if c <= '9' {
        c as int - 48
    } else {
        c as int - 55
    }
}

/// The bytes that percent-encoded text denotes.
pub open spec fn percent_decoded(s: Seq<char>) -> Seq<u8>
    decreases s.len(),
{
    if s.len() == 0 {
        seq![]
    } else if s[0] == '%' && s.len() >= 3 {
        seq![(upper_hex_value(s[1]) * 16 + upper_hex_value(s[2])) as u8] + percent_decoded(s.skip(3))
    } else {
        seq![s[0] as u8] + percent_decoded(s.skip(1))
    }
}

/// Decoding percent-encoded text gives back the bytes that were encoded.
pub proof fn percent_encoding_reads_back(data: Seq<u8>)
    ensures
        percent_decoded(percent_encoded(data)) == data,
    decreases data.len(),
{
    if data.len() > 0 {
        let b = data[0];
        let first = percent_encoded_byte(b);
        let rest = percent_encoded(data.skip(1));
        let whole = percent_encoded(data);
        percent_encoding_reads_back(data.skip(1));
        assert(whole.skip(first.len() as int) =~= rest);
        assert(data =~= seq![b] + data.skip(1));
        if is_unreserved(b) {
            assert(whole[0] == b as char);
            assert(whole[0] as u8 == b);
        } else {
            let (high, low) = (b as int / 16, b as int % 16);
            assert(whole[1] == upper_hex_digit(high) && whole[2] == upper_hex_digit(low));
            assert(upper_hex_value(whole[1]) == high && upper_hex_value(whole[2]) == low);
            assert(high * 16 + low == b);
        }
    } else {
        assert(percent_encoded(data) =~= Seq::<char>::empty());
        assert(data =~= Seq::<u8>::empty());
    }
}

} // verus!
