//! Text building blocks: decimal and hexadecimal numerals, and character-wise
//! escaping.

use vstd::prelude::*;
use vstd::string::*;

verus! {

/// `String::push` appends the character to the end of the string.
pub assume_specification[ String::push ](s: &mut String, c: char)
    ensures
        final(s)@ == old(s)@.push(c),
;

/// The lower-case hexadecimal digit of a value below sixteen.
pub open spec fn hex_digit(d: int) -> char {
    if d < 10 {
        (48 + d) as char
    } else {
        (87 + d) as char
    }
}

/// The decimal numeral of a natural number, without leading zeros.
pub open spec fn decimal_nat(n: nat) -> Seq<char>
    decreases n,
{
    if n < 10 {
        seq![hex_digit(n as int)]
    } else {
        decimal_nat(n / 10).push(hex_digit((n % 10) as int))
    }
}

/// The decimal numeral of an integer: a minus sign in front of a negative one.
pub open spec fn decimal(n: int) -> Seq<char> {
    if n < 0 {
        seq!['-'] + decimal_nat((-n) as nat)
    } else {
        decimal_nat(n as nat)
    }
}

/// Two hexadecimal digits for each byte, the high half first.
pub open spec fn hex(bytes: Seq<u8>) -> Seq<char>
    decreases bytes.len(),
{
    if bytes.len() == 0 {
        seq![]
    } else {
        hex(bytes.drop_last()) + seq![
            hex_digit(bytes.last() as int / 16),
            hex_digit(bytes.last() as int % 16),
        ]
    }
}

/// Every character replaced by the text that `f` gives for it, in order.
pub open spec fn flat_map(s: Seq<char>, f: spec_fn(char) -> Seq<char>) -> Seq<char>
    decreases s.len(),
{
    if s.len() == 0 {
        seq![]
    } else {
        flat_map(s.drop_last(), f) + f(s.last())
    }
}

/// The hexadecimal digit of a value below sixteen.
pub fn to_hex_digit(d: u8) -> (c: char)
    requires
        d < 16,
    ensures
        c == hex_digit(d as int),
{
    if d < 10 {
        (48 + d) as char
    } else {
        (87 + d) as char
    }
}

fn push_decimal(out: &mut String, n: u64)
    ensures
        final(out)@ == old(out)@ + decimal_nat(n as nat),
    decreases n,
{
    if n >= 10 {
        push_decimal(out, n / 10);
    }
    out.push(to_hex_digit((n % 10) as u8));
}

/// The decimal numeral of an unsigned number.
pub fn u64_to_text(n: u64) -> (out: String)
    ensures
        out@ == decimal(n as int),
{
    let mut out = String::new();
    push_decimal(&mut out, n);
    out
}

/// The decimal numeral of a signed number.
pub fn i64_to_text(n: i64) -> (out: String)
    ensures
        out@ == decimal(n as int),
{
    let mut out = String::new();
    if n < 0 {
        let magnitude: u64 = (-(n + 1)) as u64 + 1;
        out.push('-');
        push_decimal(&mut out, magnitude);
    } else {
        push_decimal(&mut out, n as u64);
    }
    out
}

/// The hexadecimal text of a byte string.
pub fn bytes_to_hex(bytes: &[u8]) -> (out: String)
    ensures
        out@ == hex(bytes@),
{
    let mut out = String::new();
    let mut i: usize = 0;
    assert(bytes@.take(0) =~= Seq::<u8>::empty());
    while i < bytes.len()
        invariant
            i <= bytes.len(),
            out@ == hex(bytes@.take(i as int)),
        decreases bytes.len() - i,
    {
        let b: u8 = bytes[i];
        out.push(to_hex_digit(b / 16));
        out.push(to_hex_digit(b % 16));
        proof {
            let next = bytes@.take(i + 1);
            assert(next.drop_last() =~= bytes@.take(i as int));
            assert(next.last() == b);
            assert(out@ =~= hex(next));
        }
        i = i + 1;
    }
    assert(bytes@.take(bytes@.len() as int) =~= bytes@);
    out
}

/// An ASCII decimal digit.
pub open spec fn is_digit(c: char) -> bool {
    '0' <= c <= '9'
}

/// Text that holds decimal digits only.
pub open spec fn all_digits(s: Seq<char>) -> bool {
    forall|i: int| 0 <= i < s.len() ==> is_digit(#[trigger] s[i])
}

/// The number that a run of decimal digits denotes.
pub open spec fn digits_value(s: Seq<char>) -> int
    decreases s.len(),
{
    if s.len() == 0 {
        0
    } else {
        digits_value(s.drop_last()) * 10 + (s.last() as int - 48)
    }
}

/// The text behind an optional leading sign.
pub open spec fn unsigned_part(s: Seq<char>) -> Seq<char> {
    if s.len() > 0 && (s[0] == '-' || s[0] == '+') {
        s.skip(1)
    } else {
        s
    }
}

/// The number that a text denotes: an optional sign and at least one digit,
/// nothing else, and a value that fits in 64 bits.
pub open spec fn parsed_i64(s: Seq<char>) -> Option<int> {
    let digits = unsigned_part(s);
    let magnitude = digits_value(digits);
    let value = if s.len() > 0 && s[0] == '-' {
        -magnitude
    } else {
        magnitude
    };
    if digits.len() > 0 && all_digits(digits) && i64::MIN <= value <= i64::MAX {
        Some(value)
    } else {
        None
    }
}

proof fn lemma_digits_value_grows(s: Seq<char>, k: int)
    requires
        all_digits(s),
        0 <= k <= s.len(),
    ensures
        0 <= digits_value(s.take(k)) <= digits_value(s),
    decreases s.len(),
{
    if k == s.len() {
        assert(s.take(k) =~= s);
        if s.len() > 0 {
            lemma_digits_value_grows(s.drop_last(), s.len() - 1);
            assert(s.drop_last().take(s.len() - 1) =~= s.drop_last());
            assert(is_digit(s[s.len() - 1]));
        }
    } else {
        lemma_digits_value_grows(s.drop_last(), k);
        assert(s.drop_last().take(k) =~= s.take(k));
        assert(is_digit(s[s.len() - 1]));
    }
}

/// Reads a signed 64-bit number: an optional sign followed by digits only.
pub fn text_to_i64(text: &str) -> (value: Option<i64>)
    ensures
        value is Some <==> parsed_i64(text@) is Some,
        value is Some ==> value->0 == parsed_i64(text@)->0,
{
    let length: usize = text.unicode_len();
    if length == 0 {
        return None;
    }
    let first = text.get_char(0);
    let negative = first == '-';
    let start: usize = if negative || first == '+' {
        1
    } else {
        0
    };
    let ghost digits = unsigned_part(text@);
    assert(digits =~= text@.skip(start as int));
    if start == length {
        return None;
    }
    let mut magnitude: u128 = 0;
    let mut i: usize = start;
    assert(digits.take(0) =~= Seq::<char>::empty());
    while i < length
        invariant
            length == text@.len(),
            start <= i <= length,
            start < length,
            digits == text@.skip(start as int),
            digits == unsigned_part(text@),
            all_digits(digits.take(i - start)),
            magnitude == digits_value(digits.take(i - start)),
            magnitude <= 0x8000_0000_0000_0000,
        decreases length - i,
    {
        let c = text.get_char(i);
        let ghost k = i - start;
        assert(digits[k] == c);
        if !('0' <= c && c <= '9') {
            return None;
        }
        magnitude = magnitude * 10 + (c as u128 - 48);
        proof {
            let next = digits.take(k + 1);
            assert(next.drop_last() =~= digits.take(k));
            assert forall|j: int| 0 <= j < next.len() implies is_digit(#[trigger] next[j]) by {
                if j < k {
                    assert(next[j] == digits.take(k)[j]);
                }
            }
            assert(magnitude == digits_value(next));
        }
        if magnitude > 0x8000_0000_0000_0000 {
            proof {
                if all_digits(digits) {
                    lemma_digits_value_grows(digits, k + 1);
                }
            }
            return None;
        }
        i = i + 1;
    }
    assert(digits.take(length - start) =~= digits);
    if negative {
        if magnitude == 0x8000_0000_0000_0000 {
            Some(i64::MIN)
        } else {
            Some(-(magnitude as i64))
        }
    } else if magnitude == 0x8000_0000_0000_0000 {
        None
    } else {
        Some(magnitude as i64)
    }
}

proof fn lemma_decimal_nat_reads_back(n: nat)
    ensures
        decimal_nat(n).len() > 0,
        all_digits(decimal_nat(n)),
        digits_value(decimal_nat(n)) == n,
    decreases n,
{
    let s = decimal_nat(n);
    let last = hex_digit((n % 10) as int);
    assert(is_digit(last) && last as int - 48 == n % 10);
    if n < 10 {
        assert(s.drop_last() =~= Seq::<char>::empty());
        assert(digits_value(s.drop_last()) == 0);
    } else {
        lemma_decimal_nat_reads_back(n / 10);
        let front = decimal_nat(n / 10);
        assert(s.drop_last() =~= front);
        assert forall|i: int| 0 <= i < s.len() implies is_digit(#[trigger] s[i]) by {
            if i < front.len() {
                assert(s[i] == front[i]);
            }
        }
    }
}

/// Reading a decimal numeral gives back the number that was written.
pub proof fn decimal_reads_back(n: i64)
    ensures
        parsed_i64(decimal(n as int)) == Some(n as int),
{
    let s = decimal(n as int);
    if n < 0 {
        lemma_decimal_nat_reads_back((-n) as nat);
        assert(s.skip(1) =~= decimal_nat((-n) as nat));
    } else {
        lemma_decimal_nat_reads_back(n as nat);
        assert(is_digit(s[0]));
    }
}

/// Distinct numbers have distinct numerals, and no numeral holds an underscore.
pub proof fn decimal_is_injective(a: i64, b: i64)
    ensures
        decimal(a as int) == decimal(b as int) ==> a == b,
        forall|i: int| 0 <= i < decimal(a as int).len() ==> #[trigger] decimal(a as int)[i] != '_',
{
    decimal_reads_back(a);
    decimal_reads_back(b);
    let s = decimal(a as int);
    if a < 0 {
        let digits = decimal_nat((-a) as nat);
        lemma_decimal_nat_reads_back((-a) as nat);
        assert forall|i: int| 0 <= i < s.len() implies #[trigger] s[i] != '_' by {
            if i > 0 {
                assert(s[i] == digits[i - 1]);
            }
        }
    } else {
        lemma_decimal_nat_reads_back(a as nat);
        assert forall|i: int| 0 <= i < s.len() implies #[trigger] s[i] != '_' by {
            assert(is_digit(s[i]));
        }
    }
}

/// The numeral of a number below ten is its digit, and that of any other number
/// is the numeral of its tens followed by the digit of its ones.
pub proof fn numeral_grows_by_its_last_digit(n: u64, text: String, tens: String)
    requires
        call_ensures(u64_to_text, (n,), text),
        call_ensures(u64_to_text, ((n / 10) as u64,), tens),
    ensures
        n < 10 ==> text@ == seq![(n + '0' as int) as char],
        n >= 10 ==> text@ == tens@.push((n % 10 + '0' as int) as char),
{
}

/// The numeral of a signed number is that of its magnitude, behind a minus sign
/// where the number is negative.
pub proof fn signed_numeral_is_sign_and_magnitude(
    n: i64,
    magnitude: u64,
    text: String,
    digits: String,
)
    requires
        magnitude == if n < 0 {
            -n
        } else {
            n as int
        },
        call_ensures(i64_to_text, (n,), text),
        call_ensures(u64_to_text, (magnitude,), digits),
    ensures
        n < 0 ==> text@ == seq!['-'] + digits@,
        n >= 0 ==> text@ == digits@,
{
}

/// Reading a written number gives the number back.
pub proof fn written_number_reads_back(n: i64, written: String, text: &str, read: Option<i64>)
    requires
        call_ensures(i64_to_text, (n,), written),
        text@ == written@,
        call_ensures(text_to_i64, (text,), read),
    ensures
        read == Some(n),
{
    decimal_reads_back(n);
}

/// A single digit reads as its value, and without a digit there is no number.
pub proof fn shortest_numbers_are_digits(text: &str, read: Option<i64>)
    requires
        call_ensures(text_to_i64, (text,), read),
    ensures
        text@.len() == 0 ==> read is None,
        text@.len() == 1 ==> read == if '0' <= text@[0] <= '9' {
            Some((text@[0] as int - '0' as int) as i64)
        } else {
            None
        },
{
    if text@.len() == 1 {
        let digits = unsigned_part(text@);
        if '0' <= text@[0] <= '9' {
            assert(digits == text@);
            assert(digits.drop_last() =~= Seq::<char>::empty());
            assert(digits_value(digits.drop_last()) == 0);
        } else if text@[0] == '-' || text@[0] == '+' {
            assert(digits.len() == 0);
        } else {
            assert(!is_digit(digits[0]));
        }
    }
}

/// A digit at the end of an unsigned number makes it ten times as large and adds
/// the digit, as long as the result fits in 64 bits; anything else at the end,
/// or a number that does not fit, makes it no number at all.
pub proof fn number_grows_by_its_last_character(
    front: &str,
    whole: &str,
    last: char,
    front_read: Option<i64>,
    whole_read: Option<i64>,
)
    requires
        front@.len() > 0,
        front@[0] != '-',
        front@[0] != '+',
        whole@ == front@.push(last),
        call_ensures(text_to_i64, (front,), front_read),
        call_ensures(text_to_i64, (whole,), whole_read),
    ensures
        front_read is None ==> whole_read is None,
        front_read matches Some(v) ==> whole_read == if '0' <= last <= '9' && v * 10 + (last as int
            - '0' as int) <= i64::MAX {
            Some((v * 10 + (last as int - '0' as int)) as i64)
        } else {
            None
        },
{
    let (s, t) = (front@, whole@);
    assert(unsigned_part(s) == s && unsigned_part(t) == t);
    assert(t.drop_last() =~= s);
    assert(t.last() == last);
    if all_digits(t) {
        assert forall|i: int| 0 <= i < s.len() implies is_digit(#[trigger] s[i]) by {
            assert(t[i] == s[i]);
        }
        assert(is_digit(t[t.len() - 1]));
        lemma_digits_value_grows(s, s.len() as int);
    }
    if all_digits(s) {
        lemma_digits_value_grows(s, s.len() as int);
        if is_digit(last) {
            assert forall|i: int| 0 <= i < t.len() implies is_digit(#[trigger] t[i]) by {
                if i < s.len() {
                    assert(t[i] == s[i]);
                }
            }
        }
    }
}

/// A plus sign in front of an unsigned number changes nothing, and a minus sign
/// negates it. A number with a sign takes no second one.
pub proof fn leading_sign_gives_the_sign(
    bare: &str,
    signed: &str,
    sign: char,
    bare_read: Option<i64>,
    signed_read: Option<i64>,
)
    requires
        sign == '-' || sign == '+',
        signed@ == seq![sign] + bare@,
        call_ensures(text_to_i64, (bare,), bare_read),
        call_ensures(text_to_i64, (signed,), signed_read),
    ensures
        bare@.len() > 0 && (bare@[0] == '-' || bare@[0] == '+') ==> signed_read is None,
        sign == '+' && !(bare@.len() > 0 && (bare@[0] == '-' || bare@[0] == '+')) ==> signed_read
            == bare_read,
        sign == '-' && bare_read is Some && !(bare@[0] == '-' || bare@[0] == '+') ==> signed_read
            == Some((-bare_read->0) as i64),
        sign == '-' && bare_read is None && signed_read is Some ==> signed_read == Some(i64::MIN),
{
    let digits = unsigned_part(signed@);
    assert(digits =~= bare@);
    if bare@.len() > 0 && (bare@[0] == '-' || bare@[0] == '+') {
        assert(!is_digit(digits[0]));
    } else if all_digits(bare@) {
        lemma_digits_value_grows(bare@, bare@.len() as int);
    }
}

/// Each byte is written as two lower-case hexadecimal digits, the high half
/// first.
pub proof fn hexadecimal_text_has_the_digits_of_each_byte(bytes: &[u8], text: String, i: int)
    requires
        call_ensures(bytes_to_hex, (bytes,), text),
        0 <= i < bytes@.len(),
    ensures
        text@.len() == 2 * bytes@.len(),
        text@[2 * i] == "0123456789abcdef"@[bytes@[i] as int / 16],
        text@[2 * i + 1] == "0123456789abcdef"@[bytes@[i] as int % 16],
{
    lemma_hex_digits(bytes@, i);
}

/// Each byte is written as two lower-case hexadecimal digits, the high half
/// first.
pub proof fn lemma_hex_digits(bytes: Seq<u8>, i: int)
    requires
        0 <= i < bytes.len(),
    ensures
        hex(bytes).len() == 2 * bytes.len(),
        hex(bytes)[2 * i] == "0123456789abcdef"@[bytes[i] as int / 16],
        hex(bytes)[2 * i + 1] == "0123456789abcdef"@[bytes[i] as int % 16],
    decreases bytes.len(),
{
    lemma_hex_length(bytes);
    let front = bytes.drop_last();
    lemma_hex_length(front);
    if i == front.len() {
        lemma_hex_digit_in_table(bytes[i] as int / 16);
        lemma_hex_digit_in_table(bytes[i] as int % 16);
    } else {
        lemma_hex_digits(front, i);
    }
}

proof fn lemma_hex_digit_in_table(d: int)
    requires
        0 <= d < 16,
    ensures
        hex_digit(d) == "0123456789abcdef"@[d],
{
    reveal_strlit("0123456789abcdef");
}

/// Distinct byte strings have distinct hexadecimal texts.
pub proof fn hex_is_injective(a: Seq<u8>, b: Seq<u8>)
    requires
        hex(a) == hex(b),
    ensures
        a == b,
    decreases a.len(),
{
    lemma_hex_length(a);
    lemma_hex_length(b);
    if a.len() > 0 {
        let n = hex(a).len();
        assert(hex(a)[n - 2] == hex_digit(a.last() as int / 16));
        assert(hex(b)[n - 2] == hex_digit(b.last() as int / 16));
        assert(hex(a)[n - 1] == hex_digit(a.last() as int % 16));
        assert(hex(b)[n - 1] == hex_digit(b.last() as int % 16));
        assert(a.last() == b.last());
        assert(hex(a).take(n - 2) =~= hex(a.drop_last()));
        assert(hex(b).take(n - 2) =~= hex(b.drop_last()));
        hex_is_injective(a.drop_last(), b.drop_last());
        assert(a =~= a.drop_last().push(a.last()));
        assert(b =~= b.drop_last().push(b.last()));
    } else {
        assert(a =~= b);
    }
}

/// A byte string of `n` bytes has `2 * n` hexadecimal digits.
pub proof fn lemma_hex_length(bytes: Seq<u8>)
    ensures
        hex(bytes).len() == 2 * bytes.len(),
    decreases bytes.len(),
{
    if bytes.len() > 0 {
        lemma_hex_length(bytes.drop_last());
    }
}

/// The character does not occur in the text.
pub open spec fn avoids(s: Seq<char>, c: char) -> bool {
    forall|i: int| 0 <= i < s.len() ==> #[trigger] s[i] != c
}

/// Replacing the characters of two texts one after the other replaces those of
/// the whole.
pub proof fn lemma_flat_map_concat(a: Seq<char>, b: Seq<char>, f: spec_fn(char) -> Seq<char>)
    ensures
        flat_map(a + b, f) == flat_map(a, f) + flat_map(b, f),
    decreases b.len(),
{
    if b.len() == 0 {
        assert(a + b =~= a);
        assert(flat_map(a, f) + flat_map(b, f) =~= flat_map(a, f));
    } else {
        assert((a + b).drop_last() =~= a + b.drop_last());
        lemma_flat_map_concat(a, b.drop_last(), f);
        assert(flat_map(a + b, f) =~= flat_map(a, f) + flat_map(b, f));
    }
}

/// A replacement that keeps every character of the text keeps the text.
pub proof fn lemma_flat_map_keeps(s: Seq<char>, f: spec_fn(char) -> Seq<char>)
    requires
        forall|i: int| 0 <= i < s.len() ==> f(#[trigger] s[i]) == seq![s[i]],
    ensures
        flat_map(s, f) == s,
    decreases s.len(),
{
    if s.len() > 0 {
        let front = s.drop_last();
        assert forall|i: int| 0 <= i < front.len() implies f(#[trigger] front[i]) == seq![
            front[i],
        ] by {
            assert(front[i] == s[i]);
        }
        lemma_flat_map_keeps(front, f);
        assert(f(s[s.len() - 1]) == seq![s[s.len() - 1]]);
    }
    assert(flat_map(s, f) =~= s);
}

/// Two replacements in a row are one.
pub proof fn lemma_flat_map_twice(
    s: Seq<char>,
    f: spec_fn(char) -> Seq<char>,
    g: spec_fn(char) -> Seq<char>,
    h: spec_fn(char) -> Seq<char>,
)
    requires
        forall|c: char| flat_map(#[trigger] f(c), g) == h(c),
    ensures
        flat_map(flat_map(s, f), g) == flat_map(s, h),
    decreases s.len(),
{
    if s.len() > 0 {
        lemma_flat_map_twice(s.drop_last(), f, g, h);
        lemma_flat_map_concat(flat_map(s.drop_last(), f), f(s.last()), g);
    }
}

/// A character that no replacement brings in does not occur in the result.
pub proof fn lemma_flat_map_avoids(s: Seq<char>, f: spec_fn(char) -> Seq<char>, bad: char)
    requires
        forall|c: char| avoids(#[trigger] f(c), bad),
    ensures
        avoids(flat_map(s, f), bad),
    decreases s.len(),
{
    if s.len() > 0 {
        lemma_flat_map_avoids(s.drop_last(), f, bad);
        assert(avoids(f(s.last()), bad));
    }
}

/// Replacing the characters of a text starts with the first of them.
pub proof fn lemma_flat_map_first(s: Seq<char>, f: spec_fn(char) -> Seq<char>)
    requires
        s.len() > 0,
    ensures
        flat_map(s, f) == f(s[0]) + flat_map(s.skip(1), f),
{
    let one = s.take(1);
    assert(s =~= one + s.skip(1));
    lemma_flat_map_concat(one, s.skip(1), f);
    assert(one.drop_last() =~= Seq::<char>::empty());
    assert(flat_map(one.drop_last(), f) == Seq::<char>::empty());
    assert(flat_map(one, f) =~= f(s[0]));
}

} // verus!
