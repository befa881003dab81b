use debrid_gateway::text::{bytes_to_hex, i64_to_text, text_to_i64, u64_to_text};

#[test]
fn numerals_are_those_of_the_standard_library() {
    for n in [
        0,
        9,
        10,
        -1,
        -10,
        1_700_604_800,
        i64::MAX,
        i64::MIN,
        i64::MIN + 1,
    ] {
        assert_eq!(i64_to_text(n), n.to_string());
        assert_eq!(text_to_i64(&n.to_string()), Some(n));
    }
    for n in [0, 42, u64::MAX] {
        assert_eq!(u64_to_text(n), n.to_string());
    }
}

#[test]
fn reading_agrees_with_the_standard_library() {
    for text in [
        "",
        "+",
        "-",
        "+7",
        "-7",
        "--7",
        "+-7",
        "007",
        "-0",
        " 7",
        "7 ",
        "1_000",
        "7a",
        "9223372036854775807",
        "9223372036854775808",
        "-9223372036854775808",
        "-9223372036854775809",
        "00000000000000000000000000000000000000000000000000007",
        "99999999999999999999999999999999999999999999999999999",
        "99999999999999999999999999999999999999999999999999x",
        "\u{664}",
    ] {
        assert_eq!(text_to_i64(text), text.parse::<i64>().ok(), "{text}");
    }
}

#[test]
fn hexadecimal_text_has_two_digits_for_each_byte() {
    assert_eq!(bytes_to_hex(&[0, 1, 171, 205, 255]), "0001abcdff");
}
