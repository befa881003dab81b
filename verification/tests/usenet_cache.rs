use debrid_gateway::usenet_cache::{cache_key, digest_key, get, raw_key, TTL};

#[test]
fn cache_key_varies_by_provider() {
    let easynews = cache_key("secret", "easynews", "guid", 0, 0);
    let torbox = cache_key("secret", "torbox", "guid", 0, 0);
    assert_ne!(easynews, torbox);
}

#[test]
fn cache_key_is_case_insensitive_on_provider() {
    let lower = cache_key("secret", "easynews", "guid", 0, 0);
    let upper = cache_key("secret", "EasyNews", "guid", 0, 0);
    assert_eq!(lower, upper);
}

#[test]
fn cache_key_is_the_prefixed_hex_digest() {
    assert_eq!(
        cache_key("secret", "EASYNEWS", "guid", 0, 0),
        "usenet_provider_25fe097ec041af1d7d09d7d359ab0395b330046d54dedcc0599750c45426d846"
    );
    assert_eq!(
        cache_key("k", "TorBox", "abc-1", -2, 2147483647),
        "usenet_provider_fde1655ffda9e0a7e6795b79b45c529daa5a9322049bbb1552921829f89c2cbf"
    );
}

#[test]
fn cache_key_lowers_letters_outside_ascii() {
    assert_eq!(
        cache_key("s", "ÉTÉ", "g", 1, 1),
        cache_key("s", "été", "g", 1, 1)
    );
}

#[test]
fn cache_key_varies_by_season_and_episode() {
    let one = cache_key("s", "p", "g", 1, 12);
    assert_ne!(one, cache_key("s", "p", "g", 11, 2));
    assert_ne!(one, cache_key("s", "p", "g_1", 1, 2));
}

#[test]
fn cache_key_varies_by_provider_across_episodes() {
    let one = cache_key("s", "p", "g", 1, 2);
    assert_ne!(one, cache_key("s", "q", "g", 2, 1));
    assert_ne!(one, cache_key("s", "p_g", "g", 1, 2));
}

#[test]
fn cache_key_varies_by_secret() {
    let one = cache_key("s", "p", "g", 1, 2);
    assert_ne!(one, cache_key("t", "p", "g", 1, 2));
    assert_ne!(one, cache_key("", "p", "g", 1, 2));
    assert_ne!(one, cache_key("s_p", "p", "g", 1, 2));
}

#[test]
fn final_sigma_is_lowered_by_its_place() {
    assert_eq!(
        cache_key("s", "ΑΣ", "g", 1, 1),
        cache_key("s", "ας", "g", 1, 1)
    );
    assert_ne!(
        cache_key("s", "ΑΣ", "g", 1, 1),
        cache_key("s", "ασ", "g", 1, 1)
    );
}

#[test]
fn raw_key_joins_its_parts() {
    assert_eq!(raw_key("a", "b", "c", -7, i32::MIN), "a_b_c_-7_-2147483648");
    assert_eq!(raw_key("", "", "", 0, 10), "___0_10");
}

#[test]
fn digest_key_writes_two_digits_for_each_byte() {
    assert_eq!(digest_key(&[0, 15, 16, 255]), "usenet_provider_000f10ff");
    assert_eq!(digest_key(&[]), "usenet_provider_");
}

#[test]
fn keys_have_eighty_characters() {
    assert_eq!(cache_key("", "", "", 0, 0).chars().count(), 80);
    assert_eq!(cache_key("é", "TorBox", "guid", -1, 99).chars().count(), 80);
}

#[test]
fn failed_lookup_is_a_miss() {
    assert_eq!(get(Ok(Some("u".to_string()))), Some("u".to_string()));
    assert_eq!(get(Ok(None)), None);
    assert_eq!(get(Err("down".to_string())), None);
}

#[test]
fn entries_live_for_an_hour() {
    let entry = debrid_gateway::usenet_cache::set("k", "https://example.org/x");
    assert_eq!(entry.key, "k");
    assert_eq!(entry.value, "https://example.org/x");
    assert_eq!(entry.seconds, 3600);
    assert_eq!(TTL, 3600);
}
