//! Watches registered web pages for content changes and prepares encrypted
//! push notifications for their subscribers.
//!
//! The crate holds the verified core of the pipeline: the key-value registry
//! schema and its in-memory model, the HTML text normalizer used as the
//! change-detection fingerprint, the registration and scan/fanout decisions,
//! the aes128gcm payload encryption record, and the VAPID authorization
//! token. The surrounding host performs the actual store access, page
//! fetches and push POSTs, handing this crate plain values: a page fetch
//! enters as the fetched text (or nothing, where the fetch failed), and a
//! push leaves as a fully built request.

use vstd::prelude::*;
use vstd::map::*;

pub mod crypto;
pub mod encode;
pub mod html;
pub mod json;
pub mod kv;
pub mod push;

use crate::json::spec_parse_sub;
use crate::json::spec_sub_json;
use crate::json::parse_sub_json;
use crate::json::write_sub_json;
use crate::kv::Registry;
use crate::kv::site_key;
use crate::kv::spec_has_prefix;
use crate::kv::spec_site_key;
use crate::kv::spec_sub_key;
use crate::kv::spec_sub_prefix;
use crate::kv::sub_key;
use crate::kv::sub_prefix;
use crate::kv::url_of_site_key;
use crate::push::PushRequest;
use crate::push::VapidConfig;
use crate::push::build_push_request;
use crate::push::spec_request_for;

verus! {

/// One push subscription: the watched page, the push service endpoint, the
/// shared auth secret and the subscriber's public key (both base64url without
/// padding, the key an uncompressed point).
pub struct Subscription {
    pub diff: String,
    pub endpoint: String,
    pub auth: String,
    pub p256dh: String,
}

/// The failure kinds that the pipeline surfaces. No operation is retried:
/// every failure ends its invocation.
#[derive(Debug)]
pub enum PushError {
    /// A page fetch failed where its content was required.
    Fetch,
    /// URL or stored-record parsing failed.
    Parse,
    /// A base64url input was malformed.
    Decode,
    /// Key import, key agreement, key derivation or encryption failed.
    Crypto,
    /// The authorization token could not be signed.
    Sign,
    /// The push endpoint answered with a non-2xx status; the body text is
    /// kept as the diagnostic detail.
    Delivery(String),
}

/// Whether a page must be fetched to seed its snapshot before registering:
/// exactly when no site record exists yet.
pub fn needs_seed(reg: &Registry, url: &String) -> (r: bool)
    requires
        reg.wf(),
    ensures
        r <==> !reg@.contains_key(spec_site_key(url@)),
{
    let key = site_key(url);
    reg.get(&key).is_none()
}

/// Seeds the site record where none exists. A page already tracked is left
/// exactly as it is — the fetched text is not consulted, so no fetch was
/// needed. An untracked page whose fetch failed is a fetch error.
pub fn create_site_if_not_exists(
    reg: &mut Registry,
    url: &String,
    fetched_norm: &Option<String>,
) -> (r: Result<(), PushError>)
    requires
        old(reg).wf(),
    ensures
        final(reg).wf(),
        old(reg)@.contains_key(spec_site_key(url@)) ==> r is Ok && final(reg)@ == old(reg)@,
        !old(reg)@.contains_key(spec_site_key(url@)) ==> match fetched_norm {
            Option::Some(n) => r is Ok && final(reg)@ == old(reg)@.insert(
                spec_site_key(url@),
                n@,
            ),
            Option::None => r matches Err(PushError::Fetch) && final(reg)@ == old(reg)@,
        },
{
    let key = site_key(url);
    match reg.get(&key) {
        Some(_) => Ok(()),
        None => match fetched_norm {
            Some(n) => {
                reg.put(key, n.clone());
                Ok(())
            },
            None => Err(PushError::Fetch),
        },
    }
}

/// Writes the subscription record, overwriting any earlier record of the
/// same subscriber for the same page.
pub fn create_sub(reg: &mut Registry, sub: &Subscription)
    requires
        old(reg).wf(),
    ensures
        final(reg).wf(),
        final(reg)@ == old(reg)@.insert(
            spec_sub_key(sub.diff@, sub.p256dh@),
            spec_sub_json(sub.diff@, sub.endpoint@, sub.auth@, sub.p256dh@),
        ),
{
    let key = sub_key(&sub.diff, &sub.p256dh);
    let value = write_sub_json(sub);
    reg.put(key, value);
}

/// What one registration leaves in the registry: the subscription record,
/// and the seeded snapshot where the page was not yet tracked (the seed text
/// is ignored where it was).
pub open spec fn spec_registered(
    m: Map<Seq<char>, Seq<char>>,
    diff: Seq<char>,
    endpoint: Seq<char>,
    auth: Seq<char>,
    p256dh: Seq<char>,
    seed: Seq<char>,
) -> Map<Seq<char>, Seq<char>> {
    let with_site = if m.contains_key(spec_site_key(diff)) {
        m
    } else {
        m.insert(spec_site_key(diff), seed)
    };
    with_site.insert(spec_sub_key(diff, p256dh), spec_sub_json(diff, endpoint, auth, p256dh))
}

/// Registers a subscription: seeds the site record where none exists, then
/// writes the subscription record. A tracked page is not re-fetched; an
/// untracked page whose fetch failed fails the registration with nothing
/// written.
pub fn register_subscription(
    reg: &mut Registry,
    sub: &Subscription,
    fetched_norm: &Option<String>,
) -> (r: Result<(), PushError>)
    requires
        old(reg).wf(),
    ensures
        final(reg).wf(),
        (old(reg)@.contains_key(spec_site_key(sub.diff@)) || fetched_norm is Some) ==> (r is Ok
            && final(reg)@ == spec_registered(
            old(reg)@,
            sub.diff@,
            sub.endpoint@,
            sub.auth@,
            sub.p256dh@,
            match fetched_norm {
                Option::Some(n) => n@,
                Option::None => Seq::empty(),
            },
        )),
        (!old(reg)@.contains_key(spec_site_key(sub.diff@)) && fetched_norm is None) ==> (r matches
            Err(PushError::Fetch) && final(reg)@ == old(reg)@),
{
    match create_site_if_not_exists(reg, &sub.diff, fetched_norm) {
        Ok(_) => {
            create_sub(reg, sub);
            Ok(())
        },
        Err(e) => Err(e),
    }
}

/// `site:` and `sub:` keys never collide.
proof fn lemma_key_kinds_distinct(u1: Seq<char>, u2: Seq<char>, p: Seq<char>)
    ensures
        spec_site_key(u1) != spec_sub_key(u2, p),
{
    reveal_strlit("site:");
    reveal_strlit("sub:");
    assert(spec_site_key(u1)[2] == 't');
    assert(spec_sub_key(u2, p)[2] == 'b');
}

/// Registering the same subscription twice with no intervening change
/// performs exactly one seed: after the first registration the site record
/// exists, so the second consults no fetched text, and it overwrites the
/// subscription record in place — the registry does not change at all.
pub proof fn lemma_register_idempotent(
    m: Map<Seq<char>, Seq<char>>,
    diff: Seq<char>,
    endpoint: Seq<char>,
    auth: Seq<char>,
    p256dh: Seq<char>,
    seed1: Seq<char>,
    seed2: Seq<char>,
)
    ensures
        ({
            let m1 = spec_registered(m, diff, endpoint, auth, p256dh, seed1);
            m1.contains_key(spec_site_key(diff)) && spec_registered(
                m1,
                diff,
                endpoint,
                auth,
                p256dh,
                seed2,
            ) == m1
        }),
{
    let m1 = spec_registered(m, diff, endpoint, auth, p256dh, seed1);
    lemma_key_kinds_distinct(diff, diff, p256dh);
    assert(m1.contains_key(spec_site_key(diff)));
    assert(spec_registered(m1, diff, endpoint, auth, p256dh, seed2) =~= m1);
}

/// Distinct subscriber keys give distinct subscription records: one record
/// per subscriber, however often each re-registers.
pub proof fn lemma_sub_key_injective(url: Seq<char>, p1: Seq<char>, p2: Seq<char>)
    requires
        p1 != p2,
    ensures
        spec_sub_key(url, p1) != spec_sub_key(url, p2),
{
    if spec_sub_key(url, p1) == spec_sub_key(url, p2) {
        let pre = spec_sub_prefix(url);
        assert(spec_sub_key(url, p1) =~= pre + p1);
        assert(spec_sub_key(url, p2) =~= pre + p2);
        assert((pre + p1).skip(pre.len() as int) =~= p1);
        assert((pre + p2).skip(pre.len() as int) =~= p2);
    }
}

/// Whether the page changed against its stored snapshot: a failed fetch or
/// normalization counts as changed (the scanner is conservative), an equal
/// fresh text does not.
pub fn has_url_changed(content: &String, fetched_norm: &Option<String>) -> (r: bool)
    ensures
        r <==> !(fetched_norm matches Some(n) && n@ == content@),
{
    match fetched_norm {
        Some(n) => !n.eq(content),
        None => true,
    }
}

/// A stored record that can be turned into a push request: it parses, and
/// its fields admit encryption and signing.
pub open spec fn spec_sub_ok(
    m: Map<Seq<char>, Seq<char>>,
    k: Seq<char>,
    cfg: VapidConfig,
    now: int,
) -> bool {
    m.contains_key(k) && match spec_parse_sub(m[k]) {
        Option::Some(f) => push::spec_can_build(f.0, f.1, f.2, f.3, cfg, now),
        Option::None => false,
    }
}

/// Reads one subscription record and builds its push request. A missing or
/// unparsable record is a parse error; a record whose fields admit
/// encryption and signing always yields its request. The record itself is
/// retired separately, once the request was delivered.
pub fn handle_sub_change(reg: &Registry, key: &String, cfg: &VapidConfig, now: u64) -> (r: Result<
    PushRequest,
    PushError,
>)
    requires
        reg.wf(),
        now + 7200 <= u64::MAX,
    ensures
        r matches Ok(q) ==> reg@.contains_key(key@) && (spec_parse_sub(reg@[key@]) matches Some(f)
            && spec_request_for(q, f.0, f.1, f.2, f.3)),
        spec_sub_ok(reg@, key@, *cfg, now as int) ==> r is Ok,
        !reg@.contains_key(key@) ==> r matches Err(PushError::Parse),
        (reg@.contains_key(key@) && spec_parse_sub(reg@[key@]) is None) ==> r matches Err(
            PushError::Parse,
        ),
{
    let val = match reg.get(key) {
        Some(v) => v,
        None => {
            return Err(PushError::Parse);
        },
    };
    let sub = match parse_sub_json(val.as_str()) {
        Some(s) => s,
        None => {
            return Err(PushError::Parse);
        },
    };
    match build_push_request(&sub, cfg, now) {
        Ok(q) => Ok(q),
        Err(e) => Err(e),
    }
}

/// The keys one detected change retires: the page's site record and every
/// subscription record under its prefix.
pub open spec fn spec_retired(url: Seq<char>) -> Set<Seq<char>> {
    Set::new(
        |k: Seq<char>| k == spec_site_key(url) || spec_has_prefix(k, spec_sub_prefix(url)),
    )
}

/// Prepares the fanout for a detected change: one push request for every
/// subscription record of the page, each exactly once. Nothing is retired
/// here: each record is retired once its request was delivered, and the
/// site record after all of them (see `retire_subscription`, `retire_site`
/// and `lemma_retirement_completes`). Succeeds whenever every record under
/// the prefix parses and admits building — in particular on a page without
/// subscribers.
pub fn handle_site_change(reg: &Registry, url: &String, cfg: &VapidConfig, now: u64) -> (r: Result<
    Vec<(String, PushRequest)>,
    PushError,
>)
    requires
        reg.wf(),
        now + 7200 <= u64::MAX,
    ensures
        r matches Ok(v) ==> {
            &&& forall|j: int|
                0 <= j < v@.len() ==> spec_has_prefix(#[trigger] v@[j].0@, spec_sub_prefix(url@))
                    && reg@.contains_key(v@[j].0@)
            &&& forall|j1: int, j2: int| 0 <= j1 < j2 < v@.len() ==> v@[j1].0@ != v@[j2].0@
            &&& forall|k: Seq<char>|
                reg@.contains_key(k) && spec_has_prefix(k, spec_sub_prefix(url@)) ==> exists|
                    j: int,
                | 0 <= j < v@.len() && v@[j].0@ == k
            &&& forall|j: int|
                0 <= j < v@.len() ==> (spec_parse_sub(reg@[#[trigger] v@[j].0@]) matches Some(f)
                    && spec_request_for(v@[j].1, f.0, f.1, f.2, f.3))
        },
        (forall|k: Seq<char>|
            reg@.contains_key(k) && spec_has_prefix(k, spec_sub_prefix(url@)) ==> spec_sub_ok(
                reg@,
                k,
                *cfg,
                now as int,
            )) ==> r is Ok,
{
    let prefix = sub_prefix(url);
    let keys = reg.keys_for_prefix(&prefix);
    let mut out: Vec<(String, PushRequest)> = Vec::new();
    let n = keys.len();
    let mut i: usize = 0;
    while i < n
        invariant
            i <= n == keys@.len(),
            reg.wf(),
            now + 7200 <= u64::MAX,
            forall|j: int|
                0 <= j < n ==> spec_has_prefix(#[trigger] keys@[j]@, spec_sub_prefix(url@))
                    && reg@.contains_key(keys@[j]@),
            forall|j1: int, j2: int| 0 <= j1 < j2 < n ==> keys@[j1]@ != keys@[j2]@,
            forall|k: Seq<char>|
                reg@.contains_key(k) && spec_has_prefix(k, spec_sub_prefix(url@)) ==> exists|
                    j: int,
                | 0 <= j < n && keys@[j]@ == k,
            out@.len() == i,
            forall|j: int| 0 <= j < i ==> #[trigger] out@[j].0@ == keys@[j]@,
            forall|j: int|
                0 <= j < i ==> (spec_parse_sub(reg@[#[trigger] out@[j].0@]) matches Some(f)
                    && spec_request_for(out@[j].1, f.0, f.1, f.2, f.3)),
        decreases n - i,
    {
        let key = keys[i].clone();
        let q = match handle_sub_change(reg, &key, cfg, now) {
            Ok(q) => q,
            Err(e) => {
                proof {
                    assert(reg@.contains_key(keys@[i as int]@) && spec_has_prefix(
                        keys@[i as int]@,
                        spec_sub_prefix(url@),
                    ));
                    assert(!spec_sub_ok(reg@, keys@[i as int]@, *cfg, now as int));
                }
                return Err(e);
            },
        };
        out.push((key, q));
        i += 1;
    }
    proof {
        assert forall|k: Seq<char>|
            reg@.contains_key(k) && spec_has_prefix(k, spec_sub_prefix(url@)) implies exists|
            j: int,
        | 0 <= j < out@.len() && out@[j].0@ == k by {
            let j = choose|j: int| 0 <= j < n && keys@[j]@ == k;
            assert(out@[j].0@ == k);
        }
        assert forall|j1: int, j2: int| 0 <= j1 < j2 < out@.len() implies out@[j1].0@
            != out@[j2].0@ by {
            assert(out@[j1].0@ == keys@[j1]@ && out@[j2].0@ == keys@[j2]@);
        }
    }
    Ok(out)
}

/// Retires one subscription record, once its push request was delivered.
pub fn retire_subscription(reg: &mut Registry, key: &String)
    requires
        old(reg).wf(),
    ensures
        final(reg).wf(),
        final(reg)@ == old(reg)@.remove(key@),
{
    reg.delete(key);
}

/// Retires a page's tracking, once every subscriber was notified. The page
/// must be registered again before any further change is reported.
pub fn retire_site(reg: &mut Registry, url: &String)
    requires
        old(reg).wf(),
    ensures
        final(reg).wf(),
        final(reg)@ == old(reg)@.remove(spec_site_key(url@)),
{
    let key = site_key(url);
    reg.delete(&key);
}

/// The registry after a batch of single-key retirements, first to last.
pub open spec fn spec_remove_all(
    m: Map<Seq<char>, Seq<char>>,
    ks: Seq<Seq<char>>,
) -> Map<Seq<char>, Seq<char>>
    decreases ks.len(),
{
    if ks.len() == 0 {
        m
    } else {
        spec_remove_all(m.remove(ks[0]), ks.skip(1))
    }
}

proof fn lemma_remove_all_membership(m: Map<Seq<char>, Seq<char>>, ks: Seq<Seq<char>>, k: Seq<char>)
    ensures
        spec_remove_all(m, ks).contains_key(k) <==> (m.contains_key(k) && !ks.contains(k)),
        spec_remove_all(m, ks).contains_key(k) ==> spec_remove_all(m, ks)[k] == m[k],
    decreases ks.len(),
{
    if ks.len() > 0 {
        lemma_remove_all_membership(m.remove(ks[0]), ks.skip(1), k);
        if ks.contains(k) {
            let i = choose|i: int| 0 <= i < ks.len() && ks[i] == k;
            if i == 0 {
            } else {
                assert(ks.skip(1)[i - 1] == k);
                assert(ks.skip(1).contains(k));
            }
        }
        if ks.skip(1).contains(k) {
            let i = choose|i: int| 0 <= i < ks.skip(1).len() && ks.skip(1)[i] == k;
            assert(ks[i + 1] == k);
        }
        if ks[0] == k {
            assert(ks.contains(k));
        }
    }
}

/// Retiring every listed subscription key of a page and then its site
/// record removes exactly the change's key set — whatever order the pushes
/// were delivered in — so a completed fanout always leaves the registry
/// without the page's tracking or subscriptions, and with everything else
/// untouched.
pub proof fn lemma_retirement_completes(
    m: Map<Seq<char>, Seq<char>>,
    url: Seq<char>,
    ks: Seq<Seq<char>>,
)
    requires
        forall|j: int| 0 <= j < ks.len() ==> spec_has_prefix(#[trigger] ks[j], spec_sub_prefix(url)),
        forall|k: Seq<char>|
            m.contains_key(k) && spec_has_prefix(k, spec_sub_prefix(url)) ==> ks.contains(k),
    ensures
        spec_remove_all(m, ks).remove(spec_site_key(url)) == m.remove_keys(spec_retired(url)),
{
    let lhs = spec_remove_all(m, ks).remove(spec_site_key(url));
    let rhs = m.remove_keys(spec_retired(url));
    assert_maps_equal!(lhs, rhs, k => {
            lemma_remove_all_membership(m, ks, k);
            if ks.contains(k) {
                let j = choose|j: int| 0 <= j < ks.len() && ks[j] == k;
                assert(spec_has_prefix(ks[j], spec_sub_prefix(url)));
            }
            if m.contains_key(k) && spec_has_prefix(k, spec_sub_prefix(url)) {
                assert(ks.contains(k));
            }
        });
}

/// Whether the stored snapshot under `key` equals the freshly fetched
/// normalized text: the no-change condition.
pub open spec fn spec_snapshot_matches(
    m: Map<Seq<char>, Seq<char>>,
    key: Seq<char>,
    fetched: Option<String>,
) -> bool {
    m.contains_key(key) && match fetched {
        Option::Some(n) => n@ == m[key],
        Option::None => false,
    }
}

/// The URL a site key names.
pub open spec fn spec_site_url(key: Seq<char>) -> Seq<char> {
    key.skip("site:"@.len() as int)
}

/// Checks one tracked page: decides whether it changed and, on a change,
/// prepares the fanout.
///
/// A page whose stored snapshot equals the freshly normalized text needs
/// nothing: the answer is empty. A differing text, a failed fetch, or a
/// vanished stored value counts as a change and yields the fanout batch of
/// `handle_site_change`; the caller delivers each request and then retires
/// the page's keys. A key without the `site:` prefix names no page and is
/// ignored.
pub fn check_update_site(
    reg: &Registry,
    key: &String,
    fetched_norm: &Option<String>,
    cfg: &VapidConfig,
    now: u64,
) -> (r: Result<Option<Vec<(String, PushRequest)>>, PushError>)
    requires
        reg.wf(),
        now + 7200 <= u64::MAX,
    ensures
        spec_snapshot_matches(reg@, key@, *fetched_norm) ==> (r matches Ok(a) && a is None),
        !spec_has_prefix(key@, "site:"@) ==> (r matches Ok(a) && a is None),
        (spec_has_prefix(key@, "site:"@) && !spec_snapshot_matches(reg@, key@, *fetched_norm))
            ==> (r matches Ok(a) ==> a matches Some(v) && {
            &&& forall|j: int|
                0 <= j < v@.len() ==> spec_has_prefix(
                    #[trigger] v@[j].0@,
                    spec_sub_prefix(spec_site_url(key@)),
                ) && reg@.contains_key(v@[j].0@)
            &&& forall|j1: int, j2: int| 0 <= j1 < j2 < v@.len() ==> v@[j1].0@ != v@[j2].0@
            &&& forall|k: Seq<char>|
                reg@.contains_key(k) && spec_has_prefix(
                    k,
                    spec_sub_prefix(spec_site_url(key@)),
                ) ==> exists|j: int| 0 <= j < v@.len() && v@[j].0@ == k
            &&& forall|j: int|
                0 <= j < v@.len() ==> (spec_parse_sub(reg@[#[trigger] v@[j].0@]) matches Some(f)
                    && spec_request_for(v@[j].1, f.0, f.1, f.2, f.3))
        }),
        (spec_has_prefix(key@, "site:"@) && !spec_snapshot_matches(reg@, key@, *fetched_norm)
            && (forall|k: Seq<char>|
            reg@.contains_key(k) && spec_has_prefix(k, spec_sub_prefix(spec_site_url(key@)))
                ==> spec_sub_ok(reg@, k, *cfg, now as int))) ==> r is Ok,
{
    let url = match url_of_site_key(key) {
        Some(u) => u,
        None => {
            return Ok(None);
        },
    };
    proof {
        reveal_strlit("site:");
        assert(url@ =~= spec_site_url(key@));
    }
    let changed: bool;
    match reg.get(key) {
        Some(content) => {
            changed = has_url_changed(&content, fetched_norm);
        },
        None => {
            changed = true;
        },
    }
    if changed {
        match handle_site_change(reg, &url, cfg, now) {
            Ok(v) => Ok(Some(v)),
            Err(e) => Err(e),
        }
    } else {
        Ok(None)
    }
}

} // verus!
