//! Caching of resolved usenet playback URLs.
//!
//! The key is `usenet_provider_` followed by the hexadecimal SHA-256 digest of
//! `{secret}_{provider}_{nzb_guid}_{season}_{episode}`, the provider in lower
//! case. An entry lives for an hour: long enough to survive a client's retry
//! loop, short enough to pick up renewed links.
//!
//! The provider is part of the key because one `nzb_guid` can be resolved
//! through several providers, and each resolved URL is cached on its own.

use crate::outside::{ascii_lower, lowercased, sha256, sha256_digest};
use crate::text::{avoids, bytes_to_hex, decimal, decimal_is_injective, hex, hex_is_injective, i64_to_text, lemma_hex_digits, lemma_hex_length};
use vstd::prelude::*;
use vstd::string::*;
use vstd::utf8::*;

verus! {

/// What every key starts with.
pub const KEY_PREFIX: &'static str = "usenet_provider_";

/// The life of an entry, in seconds.
pub const TTL: i64 = 3600;

/// The text that is hashed into a key. `provider` is in lower case.
pub open spec fn raw_key_text(
    secret: Seq<char>,
    provider: Seq<char>,
    nzb_guid: Seq<char>,
    season: int,
    episode: int,
) -> Seq<char> {
    secret + seq!['_'] + provider + seq!['_'] + nzb_guid + seq!['_'] + decimal(season) + seq!['_']
        + decimal(episode)
}

/// The key for a digest.
pub open spec fn digest_key_text(digest: Seq<u8>) -> Seq<char> {
    KEY_PREFIX@ + hex(digest)
}

/// The key of an entry. `provider` is in lower case.
pub open spec fn cache_key_text(
    secret: Seq<char>,
    provider: Seq<char>,
    nzb_guid: Seq<char>,
    season: int,
    episode: int,
) -> Seq<char> {
    digest_key_text(
        sha256(encode_utf8(raw_key_text(secret, provider, nzb_guid, season, episode))),
    )
}

/// An ASCII text in lower case.
pub open spec fn ascii_lowercased(s: Seq<char>) -> Seq<char> {
    s.map_values(|c: char| ascii_lower(c))
}

/// The text that is hashed into a key, for a provider name in lower case.
pub fn raw_key(secret: &str, provider: &str, nzb_guid: &str, season: i32, episode: i32) -> (raw:
    String)
    ensures
        raw@ == raw_key_text(secret@, provider@, nzb_guid@, season as int, episode as int),
{
    let mut raw = String::new();
    raw.append(secret);
    raw.push('_');
    raw.append(provider);
    raw.push('_');
    raw.append(nzb_guid);
    raw.push('_');
    raw.append(i64_to_text(season as i64).as_str());
    raw.push('_');
    raw.append(i64_to_text(episode as i64).as_str());
    assert(raw@ =~= raw_key_text(secret@, provider@, nzb_guid@, season as int, episode as int));
    raw
}

/// The key for a digest.
pub fn digest_key(digest: &[u8]) -> (key: String)
    ensures
        key@ == digest_key_text(digest@),
        key@.len() == 16 + 2 * digest@.len(),
{
    proof {
        reveal_strlit("usenet_provider_");
        lemma_hex_length(digest@);
    }
    let mut key = KEY_PREFIX.to_owned();
    key.append(bytes_to_hex(digest).as_str());
    key
}

/// The key under which the URL that `provider_name` resolved for one episode of
/// a release is cached: the prefix and the sixty-four hexadecimal digits of a
/// digest. The provider name counts in its Unicode lower-case form: in a name of
/// ASCII characters case does not matter, and in any other name that form
/// decides.
pub fn cache_key(
    secret: &str,
    provider_name: &str,
    nzb_guid: &str,
    season: i32,
    episode: i32,
) -> (key: String)
    ensures
        key@ == cache_key_text(
            secret@,
            lowercased(provider_name@),
            nzb_guid@,
            season as int,
            episode as int,
        ),
        is_ascii_chars(provider_name@) ==> key@ == cache_key_text(
            secret@,
            ascii_lowercased(provider_name@),
            nzb_guid@,
            season as int,
            episode as int,
        ),
        sha256(
            encode_utf8(
                raw_key_text(
                    secret@,
                    lowercased(provider_name@),
                    nzb_guid@,
                    season as int,
                    episode as int,
                ),
            ),
        ).len() == 32,
        key@.len() == 80,
{
    let provider = provider_name.to_lowercase();
    let raw = raw_key(secret, provider.as_str(), nzb_guid, season, episode);
    let digest = sha256_digest(raw.as_str().as_bytes());
    digest_key(digest.as_slice())
}

/// A write of one entry that expires by itself.
pub struct CacheEntry {
    pub key: String,
    pub value: String,
    pub seconds: i64,
}

/// The URL that a lookup found: a lookup that failed counts as one that found
/// nothing.
pub open spec fn found_url(reply: Result<Option<String>, String>) -> Option<Seq<char>> {
    match reply {
        Ok(Some(url)) => Some(url@),
        _ => None,
    }
}

/// The entry that caches a URL under a key.
pub open spec fn is_entry(entry: CacheEntry, key: Seq<char>, url: Seq<char>) -> bool {
    &&& entry.key@ == key
    &&& entry.value@ == url
    &&& entry.seconds == TTL
}

/// What a lookup of a key came to.
pub fn get(reply: Result<Option<String>, String>) -> (url: Option<String>)
    ensures
        url is Some <==> found_url(reply) is Some,
        url is Some ==> url->0@ == found_url(reply)->0,
{
    match reply {
        Ok(found) => found,
        Err(_) => None,
    }
}

/// The write that caches a resolved URL under a key.
pub fn set(key: &str, url: &str) -> (entry: CacheEntry)
    ensures
        is_entry(entry, key@, url@),
{
    CacheEntry { key: key.to_owned(), value: url.to_owned(), seconds: TTL }
}

/// A lookup that finds the value of an entry gives back the URL that was cached.
pub proof fn cached_url_is_found_again(entry: CacheEntry, key: Seq<char>, url: Seq<char>)
    requires
        is_entry(entry, key, url),
    ensures
        found_url(Ok(Some(entry.value))) == Some(url),
{
}

/// Provider names of ASCII characters that differ in case only share a key.
pub proof fn cache_key_ignores_provider_case(
    secret: Seq<char>,
    one: Seq<char>,
    other: Seq<char>,
    nzb_guid: Seq<char>,
    season: i32,
    episode: i32,
)
    requires
        one.len() == other.len(),
        forall|i: int| 0 <= i < one.len() ==> ascii_lower(#[trigger] one[i]) == ascii_lower(other[i]),
    ensures
        cache_key_text(secret, ascii_lowercased(one), nzb_guid, season as int, episode as int)
            == cache_key_text(
            secret,
            ascii_lowercased(other),
            nzb_guid,
            season as int,
            episode as int,
        ),
{
    assert(ascii_lowercased(one) =~= ascii_lowercased(other));
}

/// Two keys are the same exactly where the digests are.
pub proof fn cache_key_follows_the_digest(one: Seq<u8>, other: Seq<u8>)
    ensures
        digest_key_text(one) == digest_key_text(other) <==> one == other,
{
    if digest_key_text(one) == digest_key_text(other) {
        let n = KEY_PREFIX@.len() as int;
        assert(digest_key_text(one).skip(n) =~= hex(one));
        assert(digest_key_text(other).skip(n) =~= hex(other));
        hex_is_injective(one, other);
    }
}

proof fn lemma_utf8_is_injective(one: Seq<char>, other: Seq<char>)
    requires
        encode_utf8(one) == encode_utf8(other),
    ensures
        one == other,
{
    encode_utf8_decode_utf8(one);
    encode_utf8_decode_utf8(other);
}

proof fn lemma_concat_is_injective(front: Seq<char>, one: Seq<char>, other: Seq<char>, back: Seq<char>)
    requires
        front + one + back == front + other + back,
    ensures
        one == other,
{
    let whole = front + one + back;
    assert((front + other + back).len() == whole.len());
    let n = front.len() as int;
    assert(whole.subrange(n, n + one.len()) =~= one);
    assert((front + other + back).subrange(n, n + other.len()) =~= other);
}

proof fn lemma_last_underscore(front_a: Seq<char>, a: Seq<char>, front_b: Seq<char>, b: Seq<char>)
    requires
        front_a + seq!['_'] + a == front_b + seq!['_'] + b,
        avoids(a, '_'),
        avoids(b, '_'),
    ensures
        front_a == front_b,
        a == b,
{
    let x = front_a + seq!['_'] + a;
    let y = front_b + seq!['_'] + b;
    assert(x.len() == front_a.len() + 1 + a.len());
    assert(y.len() == front_b.len() + 1 + b.len());
    if a.len() < b.len() {
        let k = front_a.len() as int;
        assert(x[k] == '_');
        assert(y[k] == b[k - front_b.len() - 1]);
    } else if a.len() > b.len() {
        let k = front_b.len() as int;
        assert(y[k] == '_');
        assert(x[k] == a[k - front_a.len() - 1]);
    }
    assert(x.take(front_a.len() as int) =~= front_a);
    assert(y.take(front_b.len() as int) =~= front_b);
    assert(x.skip(front_a.len() as int + 1) =~= a);
    assert(y.skip(front_b.len() as int + 1) =~= b);
}

/// The bytes that are hashed into a key. `provider` is in lower case.
pub open spec fn hashed_bytes(
    secret: Seq<char>,
    provider: Seq<char>,
    nzb_guid: Seq<char>,
    season: i32,
    episode: i32,
) -> Seq<u8> {
    encode_utf8(raw_key_text(secret, provider, nzb_guid, season as int, episode as int))
}

/// Two keys are the same exactly where SHA-256 maps the hashed bytes to one
/// digest.
pub open spec fn keys_meet_in_the_digest_only(
    one: Seq<char>,
    one_bytes: Seq<u8>,
    other: Seq<char>,
    other_bytes: Seq<u8>,
) -> bool {
    one == other <==> sha256(one_bytes) == sha256(other_bytes)
}

proof fn lemma_hashed_bytes_split(
    release_a: Seq<char>,
    season_a: i32,
    episode_a: i32,
    release_b: Seq<char>,
    season_b: i32,
    episode_b: i32,
)
    requires
        release_a + seq!['_'] + decimal(season_a as int) + seq!['_'] + decimal(episode_a as int)
            == release_b + seq!['_'] + decimal(season_b as int) + seq!['_'] + decimal(
            episode_b as int,
        ),
    ensures
        release_a == release_b,
        season_a == season_b,
        episode_a == episode_b,
{
    let front_a = release_a + seq!['_'] + decimal(season_a as int);
    let front_b = release_b + seq!['_'] + decimal(season_b as int);
    decimal_is_injective(season_a as i64, season_b as i64);
    decimal_is_injective(season_b as i64, season_a as i64);
    decimal_is_injective(episode_a as i64, episode_b as i64);
    decimal_is_injective(episode_b as i64, episode_a as i64);
    lemma_last_underscore(front_a, decimal(episode_a as int), front_b, decimal(episode_b as int));
    lemma_last_underscore(release_a, decimal(season_a as int), release_b, decimal(season_b as int));
}

/// Each provider has keys of its own: for one secret and one release, the hashed
/// bytes are the same only for the same provider, season and episode, so two
/// keys can otherwise only meet where SHA-256 maps two inputs to one digest.
pub proof fn cache_key_varies_by_provider(
    secret: Seq<char>,
    nzb_guid: Seq<char>,
    one: Seq<char>,
    season_one: i32,
    episode_one: i32,
    other: Seq<char>,
    season_other: i32,
    episode_other: i32,
)
    ensures
        ({
            let a = hashed_bytes(secret, one, nzb_guid, season_one, episode_one);
            let b = hashed_bytes(secret, other, nzb_guid, season_other, episode_other);
            &&& a == b <==> one == other && season_one == season_other && episode_one
                == episode_other
            &&& keys_meet_in_the_digest_only(
                cache_key_text(secret, one, nzb_guid, season_one as int, episode_one as int),
                a,
                cache_key_text(secret, other, nzb_guid, season_other as int, episode_other as int),
                b,
            )
        }),
{
    let a = hashed_bytes(secret, one, nzb_guid, season_one, episode_one);
    let b = hashed_bytes(secret, other, nzb_guid, season_other, episode_other);
    if a == b {
        let x = raw_key_text(secret, one, nzb_guid, season_one as int, episode_one as int);
        let y = raw_key_text(secret, other, nzb_guid, season_other as int, episode_other as int);
        lemma_utf8_is_injective(x, y);
        let front = secret + seq!['_'];
        let back = seq!['_'] + nzb_guid;
        let release_one = secret + seq!['_'] + one + seq!['_'] + nzb_guid;
        let release_other = secret + seq!['_'] + other + seq!['_'] + nzb_guid;
        lemma_hashed_bytes_split(
            release_one,
            season_one,
            episode_one,
            release_other,
            season_other,
            episode_other,
        );
        assert(release_one =~= front + one + back);
        assert(release_other =~= front + other + back);
        lemma_concat_is_injective(front, one, other, back);
    }
    cache_key_follows_the_digest(sha256(a), sha256(b));
}

/// Of the provider name exactly its Unicode lower-case form enters the hashed
/// bytes: two names give the same bytes where, and only where, they share that
/// form.
pub proof fn cache_key_sees_the_lowercased_provider(
    secret: Seq<char>,
    one: Seq<char>,
    other: Seq<char>,
    nzb_guid: Seq<char>,
    season: i32,
    episode: i32,
)
    ensures
        hashed_bytes(secret, lowercased(one), nzb_guid, season, episode) == hashed_bytes(
            secret,
            lowercased(other),
            nzb_guid,
            season,
            episode,
        ) <==> lowercased(one) == lowercased(other),
{
    cache_key_varies_by_provider(
        secret,
        nzb_guid,
        lowercased(one),
        season,
        episode,
        lowercased(other),
        season,
        episode,
    );
}

/// Each episode of each release has keys of its own: for one secret and one
/// provider, the hashed bytes are the same only for the same release, season
/// and episode.
pub proof fn cache_key_varies_by_episode(
    secret: Seq<char>,
    provider: Seq<char>,
    guid_one: Seq<char>,
    season_one: i32,
    episode_one: i32,
    guid_other: Seq<char>,
    season_other: i32,
    episode_other: i32,
)
    ensures
        ({
            let a = hashed_bytes(secret, provider, guid_one, season_one, episode_one);
            let b = hashed_bytes(secret, provider, guid_other, season_other, episode_other);
            &&& a == b <==> guid_one == guid_other && season_one == season_other && episode_one
                == episode_other
            &&& keys_meet_in_the_digest_only(
                cache_key_text(secret, provider, guid_one, season_one as int, episode_one as int),
                a,
                cache_key_text(
                    secret,
                    provider,
                    guid_other,
                    season_other as int,
                    episode_other as int,
                ),
                b,
            )
        }),
{
    let a = hashed_bytes(secret, provider, guid_one, season_one, episode_one);
    let b = hashed_bytes(secret, provider, guid_other, season_other, episode_other);
    if a == b {
        let x = raw_key_text(secret, provider, guid_one, season_one as int, episode_one as int);
        let y = raw_key_text(
            secret,
            provider,
            guid_other,
            season_other as int,
            episode_other as int,
        );
        lemma_utf8_is_injective(x, y);
        let start = secret + seq!['_'] + provider + seq!['_'];
        lemma_hashed_bytes_split(
            start + guid_one,
            season_one,
            episode_one,
            start + guid_other,
            season_other,
            episode_other,
        );
        let none = Seq::<char>::empty();
        assert(start + guid_one + none =~= start + guid_one);
        assert(start + guid_other + none =~= start + guid_other);
        lemma_concat_is_injective(start, guid_one, guid_other, none);
    }
    cache_key_follows_the_digest(sha256(a), sha256(b));
}

/// Each secret has keys of its own: for one provider and one release, the hashed
/// bytes are the same only for the same secret, season and episode.
pub proof fn cache_key_varies_by_secret(
    provider: Seq<char>,
    nzb_guid: Seq<char>,
    secret_one: Seq<char>,
    season_one: i32,
    episode_one: i32,
    secret_other: Seq<char>,
    season_other: i32,
    episode_other: i32,
)
    ensures
        ({
            let a = hashed_bytes(secret_one, provider, nzb_guid, season_one, episode_one);
            let b = hashed_bytes(secret_other, provider, nzb_guid, season_other, episode_other);
            &&& a == b <==> secret_one == secret_other && season_one == season_other && episode_one
                == episode_other
            &&& keys_meet_in_the_digest_only(
                cache_key_text(secret_one, provider, nzb_guid, season_one as int, episode_one as int),
                a,
                cache_key_text(
                    secret_other,
                    provider,
                    nzb_guid,
                    season_other as int,
                    episode_other as int,
                ),
                b,
            )
        }),
{
    let a = hashed_bytes(secret_one, provider, nzb_guid, season_one, episode_one);
    let b = hashed_bytes(secret_other, provider, nzb_guid, season_other, episode_other);
    if a == b {
        let x = raw_key_text(secret_one, provider, nzb_guid, season_one as int, episode_one as int);
        let y = raw_key_text(
            secret_other,
            provider,
            nzb_guid,
            season_other as int,
            episode_other as int,
        );
        lemma_utf8_is_injective(x, y);
        let none = Seq::<char>::empty();
        let back = seq!['_'] + provider + seq!['_'] + nzb_guid;
        let release_one = secret_one + seq!['_'] + provider + seq!['_'] + nzb_guid;
        let release_other = secret_other + seq!['_'] + provider + seq!['_'] + nzb_guid;
        lemma_hashed_bytes_split(
            release_one,
            season_one,
            episode_one,
            release_other,
            season_other,
            episode_other,
        );
        assert(release_one =~= none + secret_one + back);
        assert(release_other =~= none + secret_other + back);
        lemma_concat_is_injective(none, secret_one, secret_other, back);
    }
    cache_key_follows_the_digest(sha256(a), sha256(b));
}

/// The text that is hashed is made of its five parts in order, with underscores
/// between them and the numbers as numerals.
pub proof fn raw_key_is_its_parts_in_order(
    secret: &str,
    provider: &str,
    nzb_guid: &str,
    season: i32,
    episode: i32,
    raw: String,
    season_text: String,
    episode_text: String,
)
    requires
        call_ensures(raw_key, (secret, provider, nzb_guid, season, episode), raw),
        call_ensures(i64_to_text, (season as i64,), season_text),
        call_ensures(i64_to_text, (episode as i64,), episode_text),
    ensures
        raw@ == secret@ + "_"@ + provider@ + "_"@ + nzb_guid@ + "_"@ + season_text@ + "_"@
            + episode_text@,
{
    reveal_strlit("_");
    assert("_"@ =~= seq!['_']);
}

/// The key for a digest is the prefix followed by two lower-case hexadecimal
/// digits for each byte.
pub proof fn digest_key_spells_the_digest(digest: &[u8], key: String, i: int)
    requires
        call_ensures(digest_key, (digest,), key),
        0 <= i < digest@.len(),
    ensures
        key@.len() == 16 + 2 * digest@.len(),
        key@.take(16) == "usenet_provider_"@,
        key@[16 + 2 * i] == "0123456789abcdef"@[digest@[i] as int / 16],
        key@[16 + 2 * i + 1] == "0123456789abcdef"@[digest@[i] as int % 16],
{
    reveal_strlit("usenet_provider_");
    lemma_hex_digits(digest@, i);
    assert(key@.take(16) =~= "usenet_provider_"@);
}

/// The key of an entry spells the SHA-256 digest of the UTF-8 form of the text
/// that joins secret, provider in lower case, release, season and episode.
pub proof fn cache_key_spells_the_digest_of_its_parts(
    secret: &str,
    provider_name: &str,
    nzb_guid: &str,
    season: i32,
    episode: i32,
    key: String,
    season_text: String,
    episode_text: String,
    i: int,
)
    requires
        call_ensures(cache_key, (secret, provider_name, nzb_guid, season, episode), key),
        call_ensures(i64_to_text, (season as i64,), season_text),
        call_ensures(i64_to_text, (episode as i64,), episode_text),
        0 <= i < 32,
    ensures
        ({
            let joined = secret@ + "_"@ + lowercased(provider_name@) + "_"@ + nzb_guid@ + "_"@
                + season_text@ + "_"@ + episode_text@;
            let digest = sha256(encode_utf8(joined));
            &&& digest.len() == 32
            &&& key@.len() == 80
            &&& key@.take(16) == "usenet_provider_"@
            &&& key@[16 + 2 * i] == "0123456789abcdef"@[digest[i] as int / 16]
            &&& key@[16 + 2 * i + 1] == "0123456789abcdef"@[digest[i] as int % 16]
        }),
{
    reveal_strlit("_");
    reveal_strlit("usenet_provider_");
    assert("_"@ =~= seq!['_']);
    let joined = secret@ + "_"@ + lowercased(provider_name@) + "_"@ + nzb_guid@ + "_"@
        + season_text@ + "_"@ + episode_text@;
    assert(joined == raw_key_text(
        secret@,
        lowercased(provider_name@),
        nzb_guid@,
        season as int,
        episode as int,
    ));
    lemma_hex_digits(sha256(encode_utf8(joined)), i);
    assert(key@.take(16) =~= "usenet_provider_"@);
}

/// Two calls for one secret, release, season and episode give the same key where
/// the provider names, of ASCII characters, differ in case only.
pub proof fn provider_case_does_not_change_the_key(
    secret: &str,
    one: &str,
    other: &str,
    nzb_guid: &str,
    season: i32,
    episode: i32,
    one_key: String,
    other_key: String,
)
    requires
        is_ascii_chars(one@),
        is_ascii_chars(other@),
        one@.len() == other@.len(),
        forall|i: int|
            0 <= i < one@.len() ==> {
                ||| #[trigger] one@[i] == other@[i]
                ||| 'A' <= one@[i] <= 'Z' && other@[i] as int == one@[i] as int + 32
                ||| 'A' <= other@[i] <= 'Z' && one@[i] as int == other@[i] as int + 32
            },
        call_ensures(cache_key, (secret, one, nzb_guid, season, episode), one_key),
        call_ensures(cache_key, (secret, other, nzb_guid, season, episode), other_key),
    ensures
        one_key@ == other_key@,
{
    assert forall|i: int| 0 <= i < one@.len() implies ascii_lower(#[trigger] one@[i]) == ascii_lower(
        other@[i],
    ) by {
        lemma_ascii_lower(one@[i], other@[i]);
    }
    cache_key_ignores_provider_case(secret@, one@, other@, nzb_guid@, season, episode);
}

proof fn lemma_ascii_lower(c: char, d: char)
    requires
        c == d || ('A' <= c <= 'Z' && d as int == c as int + 32) || ('A' <= d <= 'Z' && c as int == d
            as int + 32),
    ensures
        ascii_lower(c) == ascii_lower(d),
{
}

/// What is cached is found again: the entry of a URL is kept under the given key
/// for an hour, and a lookup that finds its value gives the URL back. A lookup
/// that finds nothing, or fails, gives none.
pub proof fn cached_url_is_found_for_an_hour(
    key: &str,
    url: &str,
    entry: CacheEntry,
    reply: Result<Option<String>, String>,
    found: Option<String>,
)
    requires
        call_ensures(set, (key, url), entry),
        call_ensures(get, (reply,), found),
    ensures
        entry.key@ == key@,
        entry.value@ == url@,
        entry.seconds == 3600,
        reply == Ok::<Option<String>, String>(Some(entry.value)) ==> found is Some && found->0@
            == url@,
        reply matches Ok(Some(value)) ==> found is Some && found->0@ == value@,
        reply matches Ok(None) ==> found is None,
        reply is Err ==> found is None,
{
}

} // verus!
