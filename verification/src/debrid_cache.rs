//! Debrid cache status and submission.
//!
//! For every service, one stored hash under `debrid_cache:{service}` maps an
//! info hash to the Unix time at which its entry expires. A route comes in two
//! halves: the first takes the request and says what to ask of the store, the
//! second takes the store's reply and gives the answer.

use crate::outside::{clock_reading, is_clock_reading, is_clock_time};
use crate::text::{decimal, decimal_reads_back, i64_to_text, parsed_i64, text_to_i64, u64_to_text};
use vstd::hash_map::StringHashMap;
use vstd::prelude::*;
use vstd::string::*;

verus! {

/// What the key of every service starts with.
pub const CACHE_KEY_PREFIX: &'static str = "debrid_cache:";

/// The life of an entry, in seconds: seven days.
pub const EXPIRY_DAYS_SECS: i64 = 7 * 86_400;

pub struct CacheStatusRequest {
    pub service: String,
    pub info_hashes: Vec<String>,
}

pub struct CacheStatusResponse {
    pub cached_status: StringHashMap<bool>,
}

pub struct CacheSubmitRequest {
    pub service: String,
    pub info_hashes: Vec<String>,
}

pub struct CacheSubmitResponse {
    pub success: bool,
    pub message: String,
}

/// A lookup of several fields of one stored hash, made at time `now`.
pub struct CacheLookup {
    pub key: String,
    pub fields: Vec<String>,
    pub now: i64,
}

/// How a status request goes on.
pub enum CacheStatusStep {
    /// There is nothing to look up.
    Done(CacheStatusResponse),
    /// The store is to be asked.
    Lookup(CacheLookup),
}

/// A removal of fields from one stored hash.
pub struct CacheCleanup {
    pub key: String,
    pub fields: Vec<String>,
}

/// The answer to a status request, and the expired entries to remove, if any.
pub struct CacheStatusOutcome {
    pub response: CacheStatusResponse,
    pub cleanup: Option<CacheCleanup>,
}

/// A write of fields and values into one stored hash, for a service.
pub struct CacheWrite {
    pub key: String,
    pub mapping: Vec<(String, String)>,
    pub service: String,
}

/// The answer to a submission, with its HTTP status.
pub struct CacheSubmitReply {
    pub status: u16,
    pub response: CacheSubmitResponse,
}

/// How a submission goes on.
pub enum CacheSubmitStep {
    /// There is nothing to store.
    Done(CacheSubmitReply),
    /// The store is to be written.
    Store(CacheWrite),
}

/// The texts of a list of strings.
pub open spec fn texts(strings: Seq<String>) -> Seq<Seq<char>> {
    strings.map_values(|s: String| s@)
}

/// The values that a lookup found, as texts.
pub open spec fn stamp_texts(stamps: Seq<Option<String>>) -> Seq<Option<Seq<char>>> {
    stamps.map_values(
        |stamp: Option<String>|
            match stamp {
                Some(text) => Some(text@),
                None => None,
            },
    )
}

/// What a lookup of `n` fields found. A lookup that failed found nothing.
pub open spec fn found_stamps(reply: Result<Vec<Option<String>>, String>, n: nat) -> Seq<
    Option<Seq<char>>,
> {
    match reply {
        Ok(stamps) => stamp_texts(stamps@),
        Err(_) => Seq::new(n, |i: int| None),
    }
}

/// The key of the stored hash of a service.
pub open spec fn service_key(service: Seq<char>) -> Seq<char> {
    CACHE_KEY_PREFIX@ + service
}

/// The expiry time that a stored value denotes: zero where it is no number.
pub open spec fn expiry_of(stamp: Seq<char>) -> int {
    match parsed_i64(stamp) {
        Some(t) => t,
        None => 0,
    }
}

/// An entry is there and expires after `now`.
pub open spec fn is_live(stamp: Option<Seq<char>>, now: int) -> bool {
    stamp is Some && expiry_of(stamp->0) > now
}

/// An entry is there and has expired at `now`.
pub open spec fn is_expired(stamp: Option<Seq<char>>, now: int) -> bool {
    stamp is Some && expiry_of(stamp->0) <= now
}

/// The number of hashes for which the store gave a value or its absence.
pub open spec fn answered(hashes: Seq<Seq<char>>, stamps: Seq<Option<Seq<char>>>) -> nat {
    if hashes.len() <= stamps.len() {
        hashes.len()
    } else {
        stamps.len()
    }
}

/// Each of the first `n` hashes with whether its entry is live; where a hash
/// occurs twice, the later occurrence counts.
pub open spec fn status_map(
    hashes: Seq<Seq<char>>,
    stamps: Seq<Option<Seq<char>>>,
    n: nat,
    now: int,
) -> Map<Seq<char>, bool>
    decreases n,
{
    if n == 0 {
        Map::empty()
    } else {
        status_map(hashes, stamps, (n - 1) as nat, now).insert(
            hashes[n - 1],
            is_live(stamps[n - 1], now),
        )
    }
}

/// Those of the first `n` hashes whose entries have expired, in order.
pub open spec fn expired_hashes(
    hashes: Seq<Seq<char>>,
    stamps: Seq<Option<Seq<char>>>,
    n: nat,
    now: int,
) -> Seq<Seq<char>>
    decreases n,
{
    if n == 0 {
        seq![]
    } else {
        let front = expired_hashes(hashes, stamps, (n - 1) as nat, now);
        if is_expired(stamps[n - 1], now) {
            front.push(hashes[n - 1])
        } else {
            front
        }
    }
}

/// The value stored for an entry that is submitted at time `now`.
pub open spec fn expiry_stamp(now: int) -> Seq<char> {
    decimal(now + EXPIRY_DAYS_SECS)
}

/// What the first half of a status request asks of the store at time `now`.
pub open spec fn status_step_at(req: CacheStatusRequest, now: i64, step: CacheStatusStep) -> bool {
    match step {
        CacheStatusStep::Done(response) => {
            &&& req.info_hashes@.len() == 0
            &&& response.cached_status@ == Map::<Seq<char>, bool>::empty()
        },
        CacheStatusStep::Lookup(lookup) => {
            &&& req.info_hashes@.len() > 0
            &&& lookup.key@ == service_key(req.service@)
            &&& texts(lookup.fields@) == texts(req.info_hashes@)
            &&& lookup.now == now
        },
    }
}

/// What the first half of a submission asks of the store at time `now`.
pub open spec fn submit_step_at(req: CacheSubmitRequest, now: i64, step: CacheSubmitStep) -> bool {
    match step {
        CacheSubmitStep::Done(reply) => {
            &&& req.info_hashes@.len() == 0
            &&& reply.status == 200
            &&& reply.response.success
            &&& reply.response.message@ == "No info hashes provided"@
        },
        CacheSubmitStep::Store(write) => {
            &&& req.info_hashes@.len() > 0
            &&& write.key@ == service_key(req.service@)
            &&& write.service@ == req.service@
            &&& write.mapping@.len() == req.info_hashes@.len()
            &&& forall|i: int|
                0 <= i < write.mapping@.len() ==> {
                    &&& (#[trigger] write.mapping@[i]).0@ == req.info_hashes@[i]@
                    &&& write.mapping@[i].1@ == expiry_stamp(now as int)
                }
        },
    }
}

/// The name under which the entries of a service are kept: its own. StremThru
/// gives the name of its store as the service.
pub fn normalize_service(service: &str) -> (name: &str)
    ensures
        name@ == service@,
{
    service
}

fn service_key_of(service: &str) -> (key: String)
    ensures
        key@ == service_key(service@),
{
    let mut key = CACHE_KEY_PREFIX.to_owned();
    key.append(service);
    key
}

/// The first half of a status request, at a given time.
pub fn check_cache_status_at(req: &CacheStatusRequest, now: i64) -> (step: CacheStatusStep)
    ensures
        status_step_at(*req, now, step),
{
    if req.info_hashes.len() == 0 {
        return CacheStatusStep::Done(CacheStatusResponse { cached_status: StringHashMap::new() });
    }
    let service = normalize_service(req.service.as_str());
    let key = service_key_of(service);
    let fields = req.info_hashes.clone();
    assert(texts(fields@) =~= texts(req.info_hashes@));
    CacheStatusStep::Lookup(CacheLookup { key, fields, now })
}

/// The first half of a status request: which entries to look up, and the time
/// at which their expiry is judged.
pub fn check_cache_status(req: &CacheStatusRequest) -> (step: CacheStatusStep)
    ensures
        exists|now: i64| is_clock_time(now) && #[trigger] status_step_at(*req, now, step),
        req.info_hashes@.len() > 0 ==> {
            &&& step matches CacheStatusStep::Lookup(lookup)
            &&& is_clock_reading(lookup.now)
            &&& is_clock_time(lookup.now)
        },
{
    if req.info_hashes.len() == 0 {
        // Nothing is judged by the time: the clock is left alone.
        return check_cache_status_at(req, 0);
    }
    let now: i64 = clock_reading();
    check_cache_status_at(req, now)
}

/// The expiry time that a stored value denotes.
pub fn stored_expiry(stamp: &str) -> (expiry: i64)
    ensures
        expiry == expiry_of(stamp@),
{
    match text_to_i64(stamp) {
        Some(t) => t,
        None => 0,
    }
}

/// The second half of a status request: the answer for every hash that the
/// store replied to, and the removal of the entries that have expired.
pub fn check_cache_status_reply(
    lookup: CacheLookup,
    reply: Result<Vec<Option<String>>, String>,
) -> (outcome: CacheStatusOutcome)
    ensures
        ({
            let hashes = texts(lookup.fields@);
            let stamps = found_stamps(reply, hashes.len());
            let n = answered(hashes, stamps);
            let now = lookup.now as int;
            let expired = expired_hashes(hashes, stamps, n, now);
            &&& outcome.response.cached_status@ == status_map(hashes, stamps, n, now)
            &&& outcome.cleanup is Some <==> expired.len() > 0
            &&& outcome.cleanup matches Some(cleanup) ==> {
                &&& cleanup.key@ == lookup.key@
                &&& texts(cleanup.fields@) == expired
            }
        }),
{
    let ghost hashes = texts(lookup.fields@);
    let ghost stamps = found_stamps(reply, hashes.len());
    let values: Vec<Option<String>> = match reply {
        Ok(values) => values,
        Err(_) => absent(lookup.fields.len()),
    };
    assert(stamp_texts(values@) =~= stamps);
    let mut cached_status: StringHashMap<bool> = StringHashMap::new();
    let mut expired: Vec<String> = Vec::new();
    let now: i64 = lookup.now;
    let mut i: usize = 0;
    assert(texts(expired@) =~= Seq::<Seq<char>>::empty());
    while i < lookup.fields.len() && i < values.len()
        invariant
            hashes == texts(lookup.fields@),
            stamps == stamp_texts(values@),
            now == lookup.now,
            i <= answered(hashes, stamps),
            cached_status@ == status_map(hashes, stamps, i as nat, now as int),
            texts(expired@) == expired_hashes(hashes, stamps, i as nat, now as int),
        decreases lookup.fields.len() - i,
    {
        let ghost before = expired@;
        assert(hashes[i as int] == lookup.fields@[i as int]@);
        match &values[i] {
            Some(stamp) => {
                let expiry: i64 = stored_expiry(stamp.as_str());
                if expiry > now {
                    cached_status.insert(lookup.fields[i].clone(), true);
                } else {
                    expired.push(lookup.fields[i].clone());
                    cached_status.insert(lookup.fields[i].clone(), false);
                    assert(texts(expired@) =~= texts(before).push(hashes[i as int]));
                }
            },
            None => {
                cached_status.insert(lookup.fields[i].clone(), false);
            },
        }
        i = i + 1;
    }
    let cleanup = if expired.len() > 0 {
        Some(CacheCleanup { key: lookup.key, fields: expired })
    } else {
        None
    };
    CacheStatusOutcome { response: CacheStatusResponse { cached_status }, cleanup }
}

/// A list of absent values.
fn absent(n: usize) -> (values: Vec<Option<String>>)
    ensures
        stamp_texts(values@) == Seq::new(n as nat, |i: int| None::<Seq<char>>),
{
    let mut values: Vec<Option<String>> = Vec::new();
    while values.len() < n
        invariant
            values@.len() <= n,
            forall|i: int| 0 <= i < values@.len() ==> #[trigger] values@[i] is None,
        decreases n - values.len(),
    {
        values.push(None);
    }
    assert(stamp_texts(values@) =~= Seq::new(n as nat, |i: int| None::<Seq<char>>));
    values
}

/// The first half of a submission, at a given time.
pub fn submit_cached_hashes_at(req: &CacheSubmitRequest, now: i64) -> (step: CacheSubmitStep)
    requires
        now + EXPIRY_DAYS_SECS <= i64::MAX,
    ensures
        submit_step_at(*req, now, step),
{
    if req.info_hashes.len() == 0 {
        return CacheSubmitStep::Done(
            CacheSubmitReply {
                status: 200,
                response: CacheSubmitResponse {
                    success: true,
                    message: "No info hashes provided".to_owned(),
                },
            },
        );
    }
    let service = normalize_service(req.service.as_str());
    let key = service_key_of(service);
    let stamp = i64_to_text(now + EXPIRY_DAYS_SECS);
    let mut mapping: Vec<(String, String)> = Vec::new();
    let mut i: usize = 0;
    while i < req.info_hashes.len()
        invariant
            i <= req.info_hashes@.len(),
            mapping@.len() == i,
            stamp@ == expiry_stamp(now as int),
            forall|j: int|
                0 <= j < mapping@.len() ==> {
                    &&& (#[trigger] mapping@[j]).0@ == req.info_hashes@[j]@
                    &&& mapping@[j].1@ == expiry_stamp(now as int)
                },
        decreases req.info_hashes.len() - i,
    {
        mapping.push((req.info_hashes[i].clone(), stamp.clone()));
        i = i + 1;
    }
    CacheSubmitStep::Store(CacheWrite { key, mapping, service: service.to_owned() })
}

/// The first half of a submission: which entries to store, and until when they
/// are to live.
pub fn submit_cached_hashes(req: &CacheSubmitRequest) -> (step: CacheSubmitStep)
    ensures
        exists|now: i64| is_clock_time(now) && #[trigger] submit_step_at(*req, now, step),
        req.info_hashes@.len() > 0 ==> exists|now: i64|
            is_clock_reading(now) && is_clock_time(now) && #[trigger] submit_step_at(*req, now, step),
{
    if req.info_hashes.len() == 0 {
        // Nothing is stored that expires: the clock is left alone.
        return submit_cached_hashes_at(req, 0);
    }
    let now: i64 = clock_reading();
    submit_cached_hashes_at(req, now)
}

/// The second half of a submission: the answer once the store has been written,
/// or has failed to be.
pub fn submit_cached_hashes_reply(write: &CacheWrite, result: Result<(), String>) -> (reply:
    CacheSubmitReply)
    ensures
        result is Ok ==> {
            &&& reply.status == 200
            &&& reply.response.success
            &&& reply.response.message@ == "Stored "@ + decimal(write.mapping@.len() as int)
                + " cached info hashes for "@ + write.service@
        },
        result is Err ==> {
            &&& reply.status == 500
            &&& !reply.response.success
            &&& reply.response.message@ == "Error storing cached info hashes"@
        },
{
    match result {
        Ok(_) => {
            let mut message = "Stored ".to_owned();
            message.append(u64_to_text(write.mapping.len() as u64).as_str());
            message.append(" cached info hashes for ");
            message.append(write.service.as_str());
            CacheSubmitReply { status: 200, response: CacheSubmitResponse { success: true, message } }
        },
        Err(_) => CacheSubmitReply {
            status: 500,
            response: CacheSubmitResponse {
                success: false,
                message: "Error storing cached info hashes".to_owned(),
            },
        },
    }
}

/// Services have stored hashes of their own: two keys are the same exactly where
/// the services are.
pub proof fn services_have_their_own_keys(one: Seq<char>, other: Seq<char>)
    ensures
        service_key(one) == service_key(other) <==> one == other,
{
    let n = CACHE_KEY_PREFIX@.len() as int;
    assert(service_key(one).skip(n) =~= one);
    assert(service_key(other).skip(n) =~= other);
}

/// A status answer speaks of exactly the hashes that the store replied to.
pub proof fn status_answers_the_hashes_asked_for(
    hashes: Seq<Seq<char>>,
    stamps: Seq<Option<Seq<char>>>,
    n: nat,
    now: int,
    h: Seq<char>,
)
    requires
        n <= answered(hashes, stamps),
    ensures
        status_map(hashes, stamps, n, now).contains_key(h) <==> exists|i: int|
            0 <= i < n && #[trigger] hashes[i] == h,
    decreases n,
{
    if n > 0 {
        let m = (n - 1) as nat;
        status_answers_the_hashes_asked_for(hashes, stamps, m, now, h);
        if hashes[m as int] != h && (exists|i: int| 0 <= i < n && #[trigger] hashes[i] == h) {
            let i = choose|i: int| 0 <= i < n && #[trigger] hashes[i] == h;
            assert(0 <= i < m);
        }
    }
}

/// A status answer says of each hash whether its entry is live, by the last
/// occurrence of the hash in the request.
pub proof fn status_tells_live_entries(
    hashes: Seq<Seq<char>>,
    stamps: Seq<Option<Seq<char>>>,
    n: nat,
    now: int,
    i: int,
)
    requires
        n <= answered(hashes, stamps),
        0 <= i < n,
        forall|j: int| i < j < n ==> #[trigger] hashes[j] != hashes[i],
    ensures
        status_map(hashes, stamps, n, now)[hashes[i]] == is_live(stamps[i], now),
    decreases n,
{
    let m = (n - 1) as nat;
    if i < m {
        status_tells_live_entries(hashes, stamps, m, now, i);
        assert(hashes[m as int] != hashes[i]);
        status_answers_the_hashes_asked_for(hashes, stamps, m, now, hashes[i]);
    }
}

/// The store has one value for each hash: equal hashes have equal stamps.
pub open spec fn one_stamp_per_hash(
    hashes: Seq<Seq<char>>,
    stamps: Seq<Option<Seq<char>>>,
) -> bool {
    forall|i: int, j: int|
        0 <= i < answered(hashes, stamps) && 0 <= j < answered(hashes, stamps)
            && #[trigger] hashes[i] == #[trigger] hashes[j] ==> stamps[i] == stamps[j]
}

proof fn lemma_status_by_stamp(
    hashes: Seq<Seq<char>>,
    stamps: Seq<Option<Seq<char>>>,
    n: nat,
    now: int,
    i: int,
)
    requires
        one_stamp_per_hash(hashes, stamps),
        n <= answered(hashes, stamps),
        0 <= i < n,
    ensures
        status_map(hashes, stamps, n, now).contains_key(hashes[i]),
        status_map(hashes, stamps, n, now)[hashes[i]] == is_live(stamps[i], now),
    decreases n,
{
    let m = (n - 1) as nat;
    if hashes[m as int] != hashes[i] {
        lemma_status_by_stamp(hashes, stamps, m, now, i);
    }
}

/// Each hash is judged alone: where the store has one value for each hash, every
/// occurrence of a hash is answered by its own stamp, and the hash is removed
/// exactly where that stamp has expired.
pub proof fn each_hash_is_judged_by_its_stamp(
    hashes: Seq<Seq<char>>,
    stamps: Seq<Option<Seq<char>>>,
    now: int,
    i: int,
)
    requires
        one_stamp_per_hash(hashes, stamps),
        0 <= i < answered(hashes, stamps),
    ensures
        ({
            let n = answered(hashes, stamps);
            let status = status_map(hashes, stamps, n, now);
            &&& status.contains_key(hashes[i])
            &&& status[hashes[i]] == is_live(stamps[i], now)
            &&& expired_hashes(hashes, stamps, n, now).contains(hashes[i]) <==> is_expired(
                stamps[i],
                now,
            )
        }),
{
    let n = answered(hashes, stamps);
    let expired = expired_hashes(hashes, stamps, n, now);
    lemma_status_by_stamp(hashes, stamps, n, now, i);
    if is_expired(stamps[i], now) {
        every_expired_hash_is_removed(hashes, stamps, n, now, i);
    }
    if expired.contains(hashes[i]) {
        let k = expired.index_of(hashes[i]);
        only_expired_hashes_are_removed(hashes, stamps, n, now, k);
        let j = choose|j: int|
            0 <= j < n && #[trigger] hashes[j] == expired[k] && is_expired(stamps[j], now);
        assert(hashes[j] == hashes[i]);
    }
}

/// The stamp that a submission stores denotes the time of submission plus seven
/// days.
pub proof fn submitted_stamp_reads_back(submitted: i64)
    requires
        submitted + EXPIRY_DAYS_SECS <= i64::MAX,
    ensures
        expiry_of(expiry_stamp(submitted as int)) == submitted + EXPIRY_DAYS_SECS,
{
    decimal_reads_back((submitted + EXPIRY_DAYS_SECS) as i64);
}

/// Submitted hashes are reported as cached for seven days and no longer: while
/// the store holds what the submission wrote, a status request reports every
/// one of them as cached before the seven days are over, and afterwards reports
/// none and has all of them removed.
pub proof fn submitted_hashes_stay_cached_for_seven_days(
    hashes: Seq<Seq<char>>,
    stamps: Seq<Option<Seq<char>>>,
    submitted: i64,
    now: i64,
)
    requires
        submitted + EXPIRY_DAYS_SECS <= i64::MAX,
        stamps.len() == hashes.len(),
        forall|i: int|
            0 <= i < stamps.len() ==> #[trigger] stamps[i] == Some(expiry_stamp(submitted as int)),
    ensures
        forall|i: int|
            0 <= i < hashes.len() ==> {
                let status = status_map(hashes, stamps, answered(hashes, stamps), now as int);
                &&& status.contains_key(#[trigger] hashes[i])
                &&& status[hashes[i]] == (now < submitted + EXPIRY_DAYS_SECS)
            },
        expired_hashes(hashes, stamps, answered(hashes, stamps), now as int) == if now < submitted
            + EXPIRY_DAYS_SECS {
            Seq::<Seq<char>>::empty()
        } else {
            hashes
        },
{
    submitted_stamp_reads_back(submitted);
    lemma_uniform_status(hashes, stamps, hashes.len(), submitted, now);
    assert(hashes.take(hashes.len() as int) =~= hashes);
}

/// A submission wrote this stamp for this hash.
pub open spec fn wrote(write: CacheWrite, hash: Seq<char>, stamp: Option<Seq<char>>) -> bool {
    exists|j: int|
        0 <= j < write.mapping@.len() && (#[trigger] write.mapping@[j]).0@ == hash && stamp == Some(
            write.mapping@[j].1@,
        )
}

/// A status request reads what a submission for the same service wrote: it asks
/// under the same key, and every hash for which the store replies with the
/// submitted value is reported as cached until seven days after the submission,
/// and afterwards is reported as not cached and removed. What the store replies
/// for other hashes makes no difference.
pub proof fn status_reads_what_was_submitted(
    submission: CacheSubmitRequest,
    submitted: i64,
    write: CacheWrite,
    request: CacheStatusRequest,
    now: i64,
    lookup: CacheLookup,
    stamps: Seq<Option<Seq<char>>>,
)
    requires
        submitted + EXPIRY_DAYS_SECS <= i64::MAX,
        submit_step_at(submission, submitted, CacheSubmitStep::Store(write)),
        status_step_at(request, now, CacheStatusStep::Lookup(lookup)),
        submission.service@ == request.service@,
        one_stamp_per_hash(texts(lookup.fields@), stamps),
    ensures
        lookup.key@ == write.key@,
        texts(lookup.fields@) == texts(request.info_hashes@),
        forall|i: int|
            0 <= i < answered(texts(lookup.fields@), stamps) && wrote(
                write,
                texts(lookup.fields@)[i],
                stamps[i],
            ) ==> {
                let hashes = texts(lookup.fields@);
                let n = answered(hashes, stamps);
                let status = status_map(hashes, stamps, n, now as int);
                &&& status.contains_key(#[trigger] texts(lookup.fields@)[i])
                &&& status[hashes[i]] == (now < submitted + EXPIRY_DAYS_SECS)
                &&& expired_hashes(hashes, stamps, n, now as int).contains(hashes[i]) <==> now
                    >= submitted + EXPIRY_DAYS_SECS
            },
{
    let hashes = texts(lookup.fields@);
    let n = answered(hashes, stamps);
    submitted_stamp_reads_back(submitted);
    assert forall|i: int| 0 <= i < n && wrote(write, hashes[i], stamps[i]) implies ({
        let status = status_map(hashes, stamps, n, now as int);
        &&& status.contains_key(#[trigger] hashes[i])
        &&& status[hashes[i]] == (now < submitted + EXPIRY_DAYS_SECS)
        &&& expired_hashes(hashes, stamps, n, now as int).contains(hashes[i]) <==> now >= submitted
            + EXPIRY_DAYS_SECS
    }) by {
        let j = choose|j: int|
            0 <= j < write.mapping@.len() && (#[trigger] write.mapping@[j]).0@ == hashes[i]
                && stamps[i] == Some(write.mapping@[j].1@);
        assert(write.mapping@[j].1@ == expiry_stamp(submitted as int));
        each_hash_is_judged_by_its_stamp(hashes, stamps, now as int, i);
    }
}

proof fn lemma_uniform_status(
    hashes: Seq<Seq<char>>,
    stamps: Seq<Option<Seq<char>>>,
    n: nat,
    submitted: i64,
    now: i64,
)
    requires
        n <= hashes.len(),
        stamps.len() == hashes.len(),
        expiry_of(expiry_stamp(submitted as int)) == submitted + EXPIRY_DAYS_SECS,
        forall|i: int|
            0 <= i < stamps.len() ==> #[trigger] stamps[i] == Some(expiry_stamp(submitted as int)),
    ensures
        forall|i: int|
            0 <= i < n ==> {
                let status = status_map(hashes, stamps, n, now as int);
                &&& status.contains_key(#[trigger] hashes[i])
                &&& status[hashes[i]] == (now < submitted + EXPIRY_DAYS_SECS)
            },
        expired_hashes(hashes, stamps, n, now as int) == if now < submitted + EXPIRY_DAYS_SECS {
            Seq::<Seq<char>>::empty()
        } else {
            hashes.take(n as int)
        },
    decreases n,
{
    if n > 0 {
        let m = (n - 1) as nat;
        lemma_uniform_status(hashes, stamps, m, submitted, now);
        assert(stamps[m as int] == Some(expiry_stamp(submitted as int)));
        assert(hashes.take(n as int) =~= hashes.take(m as int).push(hashes[m as int]));
    } else {
        assert(hashes.take(0) =~= Seq::<Seq<char>>::empty());
    }
}

/// A lookup that failed reports every hash as not cached and removes nothing.
pub proof fn failed_lookup_reports_nothing_cached(hashes: Seq<Seq<char>>, error: String, now: int)
    ensures
        ({
            let stamps = found_stamps(Err(error), hashes.len());
            let n = answered(hashes, stamps);
            &&& forall|i: int|
                0 <= i < hashes.len() ==> {
                    &&& status_map(hashes, stamps, n, now).contains_key(#[trigger] hashes[i])
                    &&& !status_map(hashes, stamps, n, now)[hashes[i]]
                }
            &&& expired_hashes(hashes, stamps, n, now).len() == 0
        }),
{
    let stamps = found_stamps(Err(error), hashes.len());
    lemma_absent_status(hashes, stamps, hashes.len(), now);
}

proof fn lemma_absent_status(
    hashes: Seq<Seq<char>>,
    stamps: Seq<Option<Seq<char>>>,
    n: nat,
    now: int,
)
    requires
        n <= hashes.len(),
        stamps.len() == hashes.len(),
        forall|i: int| 0 <= i < stamps.len() ==> #[trigger] stamps[i] is None,
    ensures
        forall|i: int|
            0 <= i < n ==> {
                &&& status_map(hashes, stamps, n, now).contains_key(#[trigger] hashes[i])
                &&& !status_map(hashes, stamps, n, now)[hashes[i]]
            },
        expired_hashes(hashes, stamps, n, now).len() == 0,
    decreases n,
{
    if n > 0 {
        lemma_absent_status(hashes, stamps, (n - 1) as nat, now);
        assert(stamps[n - 1] is None);
    }
}

/// Only entries that have expired are removed: every removed hash was asked
/// for, and the store's value for it had expired.
pub proof fn only_expired_hashes_are_removed(
    hashes: Seq<Seq<char>>,
    stamps: Seq<Option<Seq<char>>>,
    n: nat,
    now: int,
    k: int,
)
    requires
        n <= answered(hashes, stamps),
        0 <= k < expired_hashes(hashes, stamps, n, now).len(),
    ensures
        exists|i: int|
            0 <= i < n && #[trigger] hashes[i] == expired_hashes(hashes, stamps, n, now)[k]
                && is_expired(stamps[i], now),
    decreases n,
{
    if n > 0 {
        let m = (n - 1) as nat;
        let front = expired_hashes(hashes, stamps, m, now);
        if k < front.len() {
            only_expired_hashes_are_removed(hashes, stamps, m, now, k);
        } else {
            assert(hashes[m as int] == expired_hashes(hashes, stamps, n, now)[k]);
        }
    }
}

/// Every entry that has expired is removed.
pub proof fn every_expired_hash_is_removed(
    hashes: Seq<Seq<char>>,
    stamps: Seq<Option<Seq<char>>>,
    n: nat,
    now: int,
    i: int,
)
    requires
        n <= answered(hashes, stamps),
        0 <= i < n,
        is_expired(stamps[i], now),
    ensures
        expired_hashes(hashes, stamps, n, now).contains(hashes[i]),
    decreases n,
{
    let m = (n - 1) as nat;
    let all = expired_hashes(hashes, stamps, n, now);
    let front = expired_hashes(hashes, stamps, m, now);
    if i == m {
        assert(all[front.len() as int] == hashes[i]);
    } else {
        every_expired_hash_is_removed(hashes, stamps, m, now, i);
        let k = front.index_of(hashes[i]);
        assert(all[k] == hashes[i]);
    }
}

/// A status request without hashes is answered at once. Any other asks the
/// service's own stored hash for every hash of the request, in order, and is
/// judged by a time that was read from the clock.
pub proof fn status_request_is_judged_by_the_clock(req: CacheStatusRequest, step: CacheStatusStep)
    requires
        call_ensures(check_cache_status, (&req,), step),
    ensures
        req.info_hashes@.len() == 0 ==> {
            &&& step matches CacheStatusStep::Done(response)
            &&& response.cached_status@.dom() =~= Set::<Seq<char>>::empty()
        },
        req.info_hashes@.len() > 0 ==> {
            &&& step matches CacheStatusStep::Lookup(lookup)
            &&& is_clock_reading(lookup.now)
            &&& lookup.key@ == "debrid_cache:"@ + req.service@
            &&& lookup.fields@.len() == req.info_hashes@.len()
            &&& forall|i: int|
                0 <= i < lookup.fields@.len() ==> (#[trigger] lookup.fields@[i])@
                    == req.info_hashes@[i]@
        },
{
    match step {
        CacheStatusStep::Lookup(lookup) => {
            lemma_same_texts(lookup.fields@, req.info_hashes@);
        },
        CacheStatusStep::Done(_) => {},
    }
}

proof fn lemma_same_texts(one: Seq<String>, other: Seq<String>)
    requires
        texts(one) == texts(other),
    ensures
        one.len() == other.len(),
        forall|i: int| 0 <= i < one.len() ==> (#[trigger] one[i])@ == other[i]@,
{
    assert(texts(one).len() == one.len() && texts(other).len() == other.len());
    assert forall|i: int| 0 <= i < one.len() implies (#[trigger] one[i])@ == other[i]@ by {
        assert(texts(one)[i] == one[i]@);
        assert(texts(other)[i] == other[i]@);
    }
}

/// A status request at a given time is judged by that time.
pub proof fn status_request_keeps_the_given_time(
    req: CacheStatusRequest,
    now: i64,
    step: CacheStatusStep,
)
    requires
        call_ensures(check_cache_status_at, (&req, now), step),
        req.info_hashes@.len() > 0,
    ensures
        step matches CacheStatusStep::Lookup(lookup) && lookup.now == now && lookup.key@
            == "debrid_cache:"@ + req.service@,
{
}

/// A stored value denotes the number that it reads as, and zero where it reads as
/// none.
pub proof fn stored_value_is_read_as_a_number(stamp: &str, read: Option<i64>, expiry: i64)
    requires
        call_ensures(text_to_i64, (stamp,), read),
        call_ensures(stored_expiry, (stamp,), expiry),
    ensures
        expiry == match read {
            Some(t) => t,
            None => 0,
        },
{
}

/// The number that a stored value reads as comes after `now`; a value that reads
/// as no number counts as zero.
pub open spec fn expires_after(stamp: String, now: i64) -> bool {
    match parsed_i64(stamp@) {
        Some(t) => t > now,
        None => 0 > now,
    }
}

/// The answer to a status request reports a hash as cached exactly where the
/// store has a value for it that expires after the time of the request. Where a
/// hash was asked for more than once, its last occurrence counts.
pub proof fn status_answer_reports_what_the_store_holds(
    lookup: CacheLookup,
    values: Vec<Option<String>>,
    outcome: CacheStatusOutcome,
    i: int,
)
    requires
        call_ensures(check_cache_status_reply, (lookup, Ok(values)), outcome),
        0 <= i < lookup.fields@.len(),
        i < values@.len(),
        forall|j: int|
            i < j < lookup.fields@.len() && j < values@.len() ==> (#[trigger] lookup.fields@[j])@
                != lookup.fields@[i]@,
    ensures
        outcome.response.cached_status@.contains_key(lookup.fields@[i]@),
        outcome.response.cached_status@[lookup.fields@[i]@] <==> values@[i] is Some
            && expires_after(values@[i]->0, lookup.now),
{
    let hashes = texts(lookup.fields@);
    let stamps = stamp_texts(values@);
    let n = answered(hashes, stamps);
    assert forall|j: int| i < j < n implies #[trigger] hashes[j] != hashes[i] by {
        assert(hashes[j] == lookup.fields@[j]@);
    }
    status_tells_live_entries(hashes, stamps, n, lookup.now as int, i);
    status_answers_the_hashes_asked_for(hashes, stamps, n, lookup.now as int, hashes[i]);
    assert(hashes[i] == lookup.fields@[i]@);
}

/// The answer to a status request speaks of no hash that was not asked for, and
/// of none for which the store gave no reply.
pub proof fn status_answer_adds_no_hash(
    lookup: CacheLookup,
    reply: Result<Vec<Option<String>>, String>,
    outcome: CacheStatusOutcome,
    hash: Seq<char>,
)
    requires
        call_ensures(check_cache_status_reply, (lookup, reply), outcome),
        outcome.response.cached_status@.contains_key(hash),
    ensures
        exists|i: int|
            0 <= i < lookup.fields@.len() && (reply matches Ok(values) ==> i < values@.len()) && (
            #[trigger] lookup.fields@[i])@ == hash,
{
    let hashes = texts(lookup.fields@);
    let stamps = found_stamps(reply, hashes.len());
    let n = answered(hashes, stamps);
    status_answers_the_hashes_asked_for(hashes, stamps, n, lookup.now as int, hash);
    let i = choose|i: int| 0 <= i < n && #[trigger] hashes[i] == hash;
    assert(lookup.fields@[i]@ == hash);
}

/// The positions below `n` whose stored values have expired at `now`, in order.
pub open spec fn expired_positions(values: Seq<Option<String>>, n: nat, now: i64) -> Seq<int> {
    Seq::new(n, |i: int| i).filter(|i: int| values[i] is Some && !expires_after(values[i]->0, now))
}

/// What a status request removes is, in order, every hash whose stored value has
/// expired, under the key of the lookup. Where none has, nothing is removed.
pub proof fn status_request_removes_what_has_expired(
    lookup: CacheLookup,
    values: Vec<Option<String>>,
    outcome: CacheStatusOutcome,
)
    requires
        call_ensures(check_cache_status_reply, (lookup, Ok(values)), outcome),
    ensures
        ({
            let n = if lookup.fields@.len() <= values@.len() {
                lookup.fields@.len()
            } else {
                values@.len()
            };
            let positions = expired_positions(values@, n, lookup.now);
            &&& outcome.cleanup is None <==> positions.len() == 0
            &&& outcome.cleanup matches Some(cleanup) ==> {
                &&& cleanup.key@ == lookup.key@
                &&& cleanup.fields@.len() == positions.len()
                &&& forall|k: int|
                    0 <= k < positions.len() ==> (#[trigger] cleanup.fields@[k])@
                        == lookup.fields@[positions[k]]@
            }
        }),
{
    let hashes = texts(lookup.fields@);
    let stamps = stamp_texts(values@);
    let n = answered(hashes, stamps);
    let positions = expired_positions(values@, n, lookup.now);
    lemma_expired_positions(lookup.fields@, values@, n, lookup.now, 0);
    match outcome.cleanup {
        Some(cleanup) => {
            assert(texts(cleanup.fields@).len() == cleanup.fields@.len());
            assert forall|k: int| 0 <= k < positions.len() implies (
            #[trigger] cleanup.fields@[k])@ == lookup.fields@[positions[k]]@ by {
                lemma_expired_positions(lookup.fields@, values@, n, lookup.now, k);
                assert(texts(cleanup.fields@)[k] == cleanup.fields@[k]@);
            }
        },
        None => {},
    }
}

proof fn lemma_expired_positions(
    fields: Seq<String>,
    values: Seq<Option<String>>,
    n: nat,
    now: i64,
    k: int,
)
    requires
        n <= fields.len(),
        n <= values.len(),
    ensures
        ({
            let positions = expired_positions(values, n, now);
            let expired = expired_hashes(texts(fields), stamp_texts(values), n, now as int);
            &&& positions.len() == expired.len()
            &&& 0 <= k < positions.len() ==> 0 <= positions[k] < n && expired[k]
                == fields[positions[k]]@
        }),
    decreases n,
{
    reveal(Seq::filter);
    let all = Seq::new(n, |i: int| i);
    if n > 0 {
        let m = (n - 1) as nat;
        lemma_expired_positions(fields, values, m, now, k);
        assert(all.drop_last() =~= Seq::new(m, |i: int| i));
        assert(all.last() == m);
        let positions = expired_positions(values, n, now);
        let front = expired_positions(values, m, now);
        assert(texts(fields)[m as int] == fields[m as int]@);
        if values[m as int] is Some && !expires_after(values[m as int]->0, now) {
            assert(positions == front.push(m as int));
        } else {
            assert(positions == front);
        }
    } else {
        assert(expired_positions(values, n, now).len() == 0);
    }
}

/// A lookup that failed reports every hash as not cached, and nothing is removed.
pub proof fn failed_lookup_is_answered_with_no(
    lookup: CacheLookup,
    error: String,
    outcome: CacheStatusOutcome,
    i: int,
)
    requires
        call_ensures(check_cache_status_reply, (lookup, Err(error)), outcome),
        0 <= i < lookup.fields@.len(),
    ensures
        outcome.response.cached_status@.contains_key(lookup.fields@[i]@),
        !outcome.response.cached_status@[lookup.fields@[i]@],
        outcome.cleanup is None,
{
    let hashes = texts(lookup.fields@);
    failed_lookup_reports_nothing_cached(hashes, error, lookup.now as int);
    assert(hashes[i] == lookup.fields@[i]@);
}

/// A submission without hashes is answered at once. Any other stores, under the
/// service's own key, every hash of the request in order, each with a value that
/// reads as the time that was read from the clock plus seven days.
pub proof fn submission_expires_seven_days_after_the_clock(
    req: CacheSubmitRequest,
    step: CacheSubmitStep,
)
    requires
        call_ensures(submit_cached_hashes, (&req,), step),
    ensures
        req.info_hashes@.len() == 0 ==> {
            &&& step matches CacheSubmitStep::Done(reply)
            &&& reply.status == 200
            &&& reply.response.success
            &&& reply.response.message@ == "No info hashes provided"@
        },
        req.info_hashes@.len() > 0 ==> {
            &&& step matches CacheSubmitStep::Store(write)
            &&& write.key@ == "debrid_cache:"@ + req.service@
            &&& write.service@ == req.service@
            &&& write.mapping@.len() == req.info_hashes@.len()
            &&& exists|now: i64|
                #[trigger] is_clock_reading(now) && forall|i: int|
                    0 <= i < write.mapping@.len() ==> {
                        &&& (#[trigger] write.mapping@[i]).0@ == req.info_hashes@[i]@
                        &&& parsed_i64(write.mapping@[i].1@) == Some(now + 604_800)
                    }
        },
{
    if req.info_hashes@.len() > 0 {
        let now = choose|now: i64|
            is_clock_reading(now) && is_clock_time(now) && #[trigger] submit_step_at(req, now, step);
        decimal_reads_back((now + EXPIRY_DAYS_SECS) as i64);
        assert(is_clock_reading(now));
    }
}

/// A submission at a given time stores what expires seven days after that time,
/// written as the number is written.
pub proof fn submission_expires_seven_days_after_the_given_time(
    req: CacheSubmitRequest,
    now: i64,
    step: CacheSubmitStep,
    expiry: i64,
    stamp: String,
    i: int,
)
    requires
        call_ensures(submit_cached_hashes_at, (&req, now), step),
        0 <= i < req.info_hashes@.len(),
        expiry == now + 604_800,
        call_ensures(i64_to_text, (expiry,), stamp),
    ensures
        step matches CacheSubmitStep::Store(write) && write.mapping@.len() == req.info_hashes@.len()
            && write.mapping@[i].0@ == req.info_hashes@[i]@ && write.mapping@[i].1@ == stamp@,
{
}

/// What is submitted is found again: a status request for the same service asks
/// under the key that the submission wrote to, and while the store holds the
/// submitted value for a hash, the hash is reported as cached until seven days
/// have passed on the clock since the submission, and no longer.
pub proof fn submitted_hash_is_found_for_seven_days(
    submission: CacheSubmitRequest,
    write: CacheWrite,
    request: CacheStatusRequest,
    lookup: CacheLookup,
    values: Vec<Option<String>>,
    outcome: CacheStatusOutcome,
    i: int,
)
    requires
        call_ensures(submit_cached_hashes, (&submission,), CacheSubmitStep::Store(write)),
        call_ensures(check_cache_status, (&request,), CacheStatusStep::Lookup(lookup)),
        submission.service@ == request.service@,
        call_ensures(check_cache_status_reply, (lookup, Ok(values)), outcome),
        0 <= i < lookup.fields@.len(),
        i < values@.len(),
        forall|j: int|
            i < j < lookup.fields@.len() && j < values@.len() ==> (#[trigger] lookup.fields@[j])@
                != lookup.fields@[i]@,
        exists|k: int|
            0 <= k < write.mapping@.len() && (#[trigger] write.mapping@[k]).0@
                == lookup.fields@[i]@ && values@[i] is Some && values@[i]->0@
                == write.mapping@[k].1@,
    ensures
        lookup.key@ == write.key@,
        is_clock_reading(lookup.now),
        exists|submitted: i64|
            #[trigger] is_clock_reading(submitted) && (
            outcome.response.cached_status@[lookup.fields@[i]@] <==> lookup.now < submitted
                + 604_800),
{
    submission_expires_seven_days_after_the_clock(submission, CacheSubmitStep::Store(write));
    status_request_is_judged_by_the_clock(request, CacheStatusStep::Lookup(lookup));
    status_answer_reports_what_the_store_holds(lookup, values, outcome, i);
    let k = choose|k: int|
        0 <= k < write.mapping@.len() && (#[trigger] write.mapping@[k]).0@ == lookup.fields@[i]@
            && values@[i] is Some && values@[i]->0@ == write.mapping@[k].1@;
    let submitted = choose|now: i64|
        #[trigger] is_clock_reading(now) && forall|i: int|
            0 <= i < write.mapping@.len() ==> {
                &&& (#[trigger] write.mapping@[i]).0@ == submission.info_hashes@[i]@
                &&& parsed_i64(write.mapping@[i].1@) == Some(now + 604_800)
            };
    assert(parsed_i64(write.mapping@[k].1@) == Some(submitted + 604_800));
}

/// Once written, a submission is answered with the number of hashes it stored
/// and its service; where the write failed, with a server error.
pub proof fn submission_is_answered_with_its_size(
    write: CacheWrite,
    result: Result<(), String>,
    reply: CacheSubmitReply,
    size: String,
)
    requires
        call_ensures(submit_cached_hashes_reply, (&write, result), reply),
        write.mapping@.len() <= u64::MAX,
        call_ensures(u64_to_text, (write.mapping@.len() as u64,), size),
    ensures
        reply.response.success == (result is Ok),
        reply.status == if result is Ok {
            200u16
        } else {
            500u16
        },
        result is Ok ==> reply.response.message@ == "Stored "@ + size@
            + " cached info hashes for "@ + write.service@,
        result is Err ==> reply.response.message@ == "Error storing cached info hashes"@,
{
}

} // verus!
