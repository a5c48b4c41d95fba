//! Laws of the model catalog: which list is shown, and where it came from.
use vstd::prelude::*;
use vstd::utf8::encode_utf8;

use crate::clock::{is_reading, seconds_of, Elapsed};
use crate::model_catalog::{
    cache_entries, cache_from_entries, cache_or_empty, contents, curated, excluding, fetched_models, fingerprint,
    fingerprint_of, hex, hex_digit, hex_prefix, is_fresh, key_fingerprint, listed, merge, merged, now_secs, plan,
    plan_catalog, settle, settle_catalog, sha256, without, written_entries_are_read_back,
    CacheEntry, CacheFile, CacheView, Catalog, CatalogPlan, CatalogSource, PlanView, ProviderCache, DEFAULT_TTL_SECS,
};
use crate::order::precedes_is_total;
use crate::order_laws::{order_is_by_the_first_difference, smaller_at_first_difference};
use crate::text::{is_space, opt_view, trim, views};
use crate::text_laws::trimming_takes_space_from_the_ends_only;

verus! {

proof fn excluding_members(all: Seq<Seq<char>>, exclude: Seq<Seq<char>>, model: Seq<char>)
    ensures
        excluding(all, exclude).contains(model) <==> all.contains(model) && !exclude.contains(
            model,
        ),
{
    broadcast use vstd::seq_lib::group_filter_ensures;

    let keep = |m: Seq<char>| !exclude.contains(m);
    if excluding(all, exclude).contains(model) {
        all.lemma_filter_contains_rev(keep, model);
        let i = choose|i: int|
            0 <= i < excluding(all, exclude).len() && excluding(all, exclude)[i] == model;
        assert(keep(all.filter(keep)[i]));
    }
    if all.contains(model) && !exclude.contains(model) {
        let i = choose|i: int| 0 <= i < all.len() && all[i] == model;
        assert(keep(all[i]));
        assert(all.filter(keep).contains(all[i]));
    }
}

/// When a fetch fails, a list that was fetched with the same key is shown
/// however old it is: all of it that is not recommended, in its order, dated
/// as it is, together with the failure.
pub proof fn stale_lists_are_shown_whatever_their_age(
    entry: CacheView,
    recommended: Seq<Seq<char>>,
    now: u64,
    error: Seq<char>,
    model: Seq<char>,
)
    ensures
        ({
            let c = settle(
                Some(entry),
                entry.key_fingerprint,
                recommended,
                now,
                Err(error),
            );
            &&& c.source == CatalogSource::StaleCache
            &&& c.fetched_at == Some(entry.fetched_at)
            &&& c.error == Some(error)
            &&& c.recommended == recommended
            &&& c.fetched == entry.models.filter(|m: Seq<char>| !recommended.contains(m))
            &&& c.fetched.contains(model) <==> entry.models.contains(model)
                && !recommended.contains(model)
        }),
{
    excluding_members(entry.models, recommended, model);
}

/// What is shown after a failed fetch depends on no time: neither on when the
/// fetch was tried nor on when the list was fetched.
pub proof fn failures_know_no_age(
    entry: CacheView,
    fetched_at: u64,
    key_fp: Seq<char>,
    recommended: Seq<Seq<char>>,
    now: u64,
    later: u64,
    error: Seq<char>,
)
    ensures
        ({
            let c = settle(Some(entry), key_fp, recommended, now, Err(error));
            let d = settle(
                Some(CacheView { fetched_at, ..entry }),
                key_fp,
                recommended,
                later,
                Err(error),
            );
            &&& c.source == d.source
            &&& c.fetched == d.fetched
            &&& c.recommended == d.recommended
            &&& c.error == d.error
            &&& c.fetched_at is Some <==> d.fetched_at is Some
            &&& d.fetched_at is Some ==> d.fetched_at == Some(fetched_at)
        }),
{
}

/// The recommended list stands alone after a request to the provider only when
/// that failed and no list of the provider was fetched with the same key.
pub proof fn recommended_alone_means_nothing_to_show(
    entry: Option<CacheView>,
    key_fp: Seq<char>,
    recommended: Seq<Seq<char>>,
    now: u64,
    reply: Result<Seq<Seq<char>>, Seq<char>>,
)
    ensures
        ({
            let c = settle(entry, key_fp, recommended, now, reply);
            &&& c.source == CatalogSource::RecommendedOnly <==> reply is Err && (match entry {
                Some(e) => e.key_fingerprint != key_fp,
                None => true,
            })
            &&& c.source == CatalogSource::RecommendedOnly ==> {
                &&& c.fetched.len() == 0
                &&& c.fetched_at is None
                &&& c.error == Some(reply->Err_0)
                &&& c.recommended == recommended
            }
            &&& c.source == CatalogSource::StaleCache ==> reply is Err && entry is Some
                && entry->0.key_fingerprint == key_fp
            &&& c.source != CatalogSource::Cache
        }),
{
}

/// A list that came is shown, whatever the cache holds: all of it that is not
/// recommended, in its order, dated now and without a failure.
pub proof fn lists_that_came_are_shown(
    entry: Option<CacheView>,
    key_fp: Seq<char>,
    recommended: Seq<Seq<char>>,
    now: u64,
    models: Seq<Seq<char>>,
    model: Seq<char>,
)
    ensures
        ({
            let c = settle(entry, key_fp, recommended, now, Ok(models));
            &&& c.source == CatalogSource::Fetched
            &&& c.fetched_at == Some(now)
            &&& c.error is None
            &&& c.recommended == recommended
            &&& c.fetched == models.filter(|m: Seq<char>| !recommended.contains(m))
            &&& c.fetched.contains(model) <==> models.contains(model) && !recommended.contains(
                model,
            )
        }),
{
    excluding_members(models, recommended, model);
}

/// A key is used without the white space around it. With one, the provider is
/// asked unless its entry was fetched with the same key, lies not in the
/// future, is younger than the time to live, and no refresh is wanted; then
/// that entry answers, with its own date and without a failure.
pub proof fn current_lists_answer(
    entry: Option<CacheView>,
    key: Seq<char>,
    from: int,
    to: int,
    recommended: Seq<Seq<char>>,
    refresh: bool,
    now: u64,
    ttl: u64,
)
    requires
        0 <= from < to <= key.len(),
        forall|i: int| 0 <= i < from ==> is_space(key[i]),
        forall|i: int| to <= i < key.len() ==> is_space(key[i]),
        !is_space(key[from]),
        !is_space(key[to - 1]),
    ensures
        ({
            let used = key.subrange(from, to);
            let current = !refresh && (match entry {
                Some(e) => e.key_fingerprint == fingerprint(used) && e.fetched_at <= now && now
                    - e.fetched_at < ttl,
                None => false,
            });
            match plan(entry, Some(key), recommended, refresh, now, ttl) {
                PlanView::Answer(c) => {
                    &&& current
                    &&& c.source == CatalogSource::Cache
                    &&& c.fetched_at == Some(entry->0.fetched_at)
                    &&& c.error is None
                    &&& c.recommended == recommended
                    &&& c.fetched == entry->0.models.filter(
                        |m: Seq<char>| !recommended.contains(m),
                    )
                },
                PlanView::Fetch { api_key, key_fingerprint } => {
                    &&& !current
                    &&& api_key == used
                    &&& key_fingerprint == fingerprint(used)
                },
            }
        }),
{
    trimming_takes_space_from_the_ends_only(key, from, to);
}

/// Without a key, or with one of white space alone, the recommended list
/// answers, whatever the cache holds, and that is no failure.
pub proof fn recommended_list_answers_without_a_key(
    entry: Option<CacheView>,
    api_key: Option<Seq<char>>,
    recommended: Seq<Seq<char>>,
    refresh: bool,
    now: u64,
    ttl: u64,
)
    requires
        api_key matches Some(k) ==> forall|i: int| 0 <= i < k.len() ==> is_space(k[i]),
    ensures
        plan(entry, api_key, recommended, refresh, now, ttl) matches PlanView::Answer(c)
            && c.source == CatalogSource::RecommendedOnly && c.recommended == recommended
            && c.fetched.len() == 0 && c.fetched_at is None && c.error is None,
{
    if let Some(k) = api_key {
        trimming_takes_space_from_the_ends_only(k, 0, 0);
    }
}

/// A catalog is planned by the entry of its own provider alone.
pub proof fn plans_go_by_the_providers_own_entry(
    provider: &str,
    api_key: &str,
    recommended: Vec<String>,
    cache: CacheFile,
    refresh: bool,
    now: u64,
    ttl: u64,
    r: CatalogPlan,
)
    requires
        cache.wf(),
        call_ensures(
            plan_catalog,
            (provider, Some(api_key), &recommended, &cache, refresh, now, ttl),
            r,
        ),
        trim(api_key@).len() > 0,
    ensures
        match r {
            CatalogPlan::Answer(c) => {
                &&& cache@.contains_key(provider@)
                &&& !refresh
                &&& cache@[provider@].key_fingerprint@ == fingerprint(trim(api_key@))
                &&& cache@[provider@].fetched_at <= now < cache@[provider@].fetched_at + ttl
                &&& c.source == CatalogSource::Cache
                &&& c.fetched_at == Some(cache@[provider@].fetched_at)
                &&& c.error is None
                &&& views(c.recommended@) == views(recommended@)
                &&& views(c.fetched@) == views(cache@[provider@].models@).filter(
                    |m: Seq<char>| !views(recommended@).contains(m),
                )
            },
            CatalogPlan::Fetch { api_key: used, key_fingerprint } => {
                &&& used@ == trim(api_key@)
                &&& key_fingerprint@ == fingerprint(trim(api_key@))
                &&& refresh || !cache@.contains_key(provider@)
                    || cache@[provider@].key_fingerprint@ != key_fingerprint@
                    || cache@[provider@].fetched_at > now || now - cache@[provider@].fetched_at
                    >= ttl
            },
        },
{
}

/// An entry is current from the second of its fetch until its time to live has
/// passed, and only for the key that it was fetched with.
pub proof fn entries_are_current_for_their_time(
    entry: ProviderCache,
    key_fp: &str,
    now: u64,
    ttl: u64,
    r: bool,
)
    requires
        call_ensures(is_fresh, (&entry, key_fp, now, ttl), r),
    ensures
        r <==> entry.key_fingerprint@ == key_fp@ && entry.fetched_at <= now && now
            - entry.fetched_at < ttl,
        DEFAULT_TTL_SECS == 86_400,
{
}

proof fn merged_is_layered(recommended: Seq<Seq<char>>, fetched: Seq<Seq<char>>)
    requires
        fetched.no_duplicates(),
    ensures
        merged(recommended, fetched) == recommended + fetched.filter(
            |m: Seq<char>| !recommended.contains(m),
        ),
    decreases fetched.len(),
{
    reveal(Seq::filter);
    let keep = |m: Seq<char>| !recommended.contains(m);
    if fetched.len() == 0 {
        assert(recommended + fetched.filter(keep) =~= recommended);
    } else {
        let front = fetched.drop_last();
        let last = fetched.last();
        merged_is_layered(recommended, front);
        crate::model_catalog::merge_loses_nothing(recommended, front, last);
        assert(!front.contains(last)) by {
            if front.contains(last) {
                let i = choose|i: int| 0 <= i < front.len() && front[i] == last;
                assert(fetched[i] == fetched[fetched.len() - 1]);
            }
        }
        assert(merged(recommended, fetched) =~= recommended + fetched.filter(keep));
    }
}

/// A merged list is the recommended one, followed by what was fetched and is
/// not recommended, in its order.
pub proof fn merged_lists_are_layered(recommended: Vec<String>, fetched: Vec<String>, r: Vec<String>)
    requires
        call_ensures(merge, (&recommended, &fetched), r),
        views(fetched@).no_duplicates(),
    ensures
        views(r@) == views(recommended@) + views(fetched@).filter(
            |m: Seq<char>| !views(recommended@).contains(m),
        ),
{
    merged_is_layered(views(recommended@), views(fetched@));
}

/// Leaving a list out of another keeps the order of the rest and all of it.
pub proof fn leaving_out_keeps_the_rest(
    all: Vec<String>,
    exclude: Vec<String>,
    r: Vec<String>,
    model: Seq<char>,
)
    requires
        call_ensures(without, (&all, &exclude), r),
    ensures
        views(r@) == views(all@).filter(|m: Seq<char>| !views(exclude@).contains(m)),
        views(r@).contains(model) <==> views(all@).contains(model) && !views(exclude@).contains(
            model,
        ),
{
    excluding_members(views(all@), views(exclude@), model);
}

/// A fetched list holds each identifier that came, once, each before those
/// that are greater at the first difference; a failure is told with its text.
pub proof fn fetched_lists_are_sorted(
    reply: Result<Vec<String>, String>,
    r: Result<Vec<String>, String>,
    model: Seq<char>,
)
    requires
        call_ensures(fetched_models, (reply,), r),
    ensures
        match reply {
            Ok(ids) => {
                &&& r matches Ok(models)
                &&& views(models@).contains(model) <==> views(ids@).contains(model)
                &&& views(models@).no_duplicates()
                &&& forall|i: int, j: int|
                    0 <= i < j < models@.len() ==> smaller_at_first_difference((#[trigger] models@[i])@, (#[trigger] models@[j])@)
            },
            Err(e) => r matches Err(text) && text@ == "list models: "@ + e@,
        },
{
    if let (Ok(ids), Ok(models)) = (reply, r) {
        let s = views(models@);
        assert(s.to_set().contains(model) == views(ids@).to_set().contains(model));
        assert forall|i: int, j: int| 0 <= i < s.len() && 0 <= j < s.len() && i != j implies s[i]
            != s[j] by {
            precedes_is_total(s[i], s[j]);
        }
        assert forall|i: int, j: int| 0 <= i < j < models@.len() implies smaller_at_first_difference((#[trigger] models@[i])@, (#[trigger] models@[j])@) by {
            assert(s[i] == models@[i]@ && s[j] == models@[j]@);
            order_is_by_the_first_difference(s[i], s[j]);
        }
    }
}

/// The value of a lower-case hexadecimal digit.
pub open spec fn hex_value(c: char) -> int {
    if '0' <= c <= '9' {
        c as int - '0' as int
    } else if 'a' <= c <= 'f' {
        c as int - 'a' as int + 10
    } else {
        -1
    }
}

/// Each byte is written as two digits, the greater first.
pub proof fn bytes_are_written_as_two_digits(bytes: Seq<u8>, i: int)
    requires
        0 <= i < bytes.len(),
    ensures
        hex(bytes).len() == 2 * bytes.len(),
        hex_value(hex(bytes)[2 * i]) == bytes[i] / 16,
        hex_value(hex(bytes)[2 * i + 1]) == bytes[i] % 16,
    decreases bytes.len(),
{
    hex_prefix(bytes, 0);
    let front = bytes.drop_last();
    hex_prefix(front, 0);
    let hi = (bytes.last() / 16) as nat;
    let lo = (bytes.last() % 16) as nat;
    assert(hi < 16 && lo < 16);
    if i == bytes.len() - 1 {
        assert(hex(bytes)[2 * i] == hex_digit(hi));
        assert(hex(bytes)[2 * i + 1] == hex_digit(lo));
    } else {
        bytes_are_written_as_two_digits(front, i);
        assert(hex(bytes)[2 * i] == hex(front)[2 * i]);
        assert(hex(bytes)[2 * i + 1] == hex(front)[2 * i + 1]);
    }
}

/// A fingerprint spells the first eight bytes of the key's digest.
pub proof fn fingerprints_spell_the_digest(api_key: &str, r: String, i: int)
    requires
        call_ensures(key_fingerprint, (api_key,), r),
        sha256(encode_utf8(api_key@)).len() == 32,
        0 <= i < 8,
    ensures
        r@.len() == 16,
        hex_value(r@[2 * i]) == sha256(encode_utf8(api_key@))[i] / 16,
        hex_value(r@[2 * i + 1]) == sha256(encode_utf8(api_key@))[i] % 16,
{
    let digest = sha256(encode_utf8(api_key@));
    bytes_are_written_as_two_digits(digest.take(8), i);
}

/// Two digests have the same fingerprint exactly when they begin with the same
/// eight bytes.
pub proof fn fingerprints_tell_digests_apart(a: Vec<u8>, b: Vec<u8>, x: String, y: String)
    requires
        a@.len() == 32,
        b@.len() == 32,
        call_ensures(fingerprint_of, (&a,), x),
        call_ensures(fingerprint_of, (&b,), y),
    ensures
        x@ == y@ <==> a@.take(8) == b@.take(8),
{
    if x@ == y@ {
        assert forall|i: int| 0 <= i < 8 implies a@.take(8)[i] == b@.take(8)[i] by {
            bytes_are_written_as_two_digits(a@.take(8), i);
            bytes_are_written_as_two_digits(b@.take(8), i);
        }
        assert(a@.take(8) =~= b@.take(8));
    }
}

/// A cache that is written down and read again holds the same list for every
/// provider; the entries are written by provider, in ascending order.
pub proof fn caches_are_read_back(
    cache: CacheFile,
    entries: Vec<CacheEntry>,
    back: CacheFile,
    provider: Seq<char>,
)
    requires
        cache.wf(),
        call_ensures(cache_entries, (&cache,), entries),
        call_ensures(cache_from_entries, (entries,), back),
    ensures
        back@.contains_key(provider) <==> cache@.contains_key(provider),
        cache@.contains_key(provider) ==> {
            &&& back@[provider].fetched_at == cache@[provider].fetched_at
            &&& back@[provider].key_fingerprint@ == cache@[provider].key_fingerprint@
            &&& views(back@[provider].models@) == views(cache@[provider].models@)
        },
        forall|i: int, j: int|
            0 <= i < j < entries@.len() ==> smaller_at_first_difference((#[trigger] entries@[i]).provider@, (#[trigger] entries@[j]).provider@),
{
    written_entries_are_read_back(cache@, views(entries@), back@, provider);
    let names = views(entries@).map_values(|e: (Seq<char>, CacheView)| e.0);
    assert forall|i: int, j: int| 0 <= i < j < entries@.len() implies smaller_at_first_difference((#[trigger] entries@[i]).provider@, (#[trigger] entries@[j]).provider@) by {
        assert(names[i] == entries@[i].provider@ && names[j] == entries@[j].provider@);
        order_is_by_the_first_difference(names[i], names[j]);
    }
}

/// A cache that could not be read is empty; one that could is taken as it is.
pub proof fn unreadable_caches_are_empty(parsed: Option<CacheFile>, r: CacheFile, p: Seq<char>)
    requires
        parsed matches Some(c) ==> c.wf(),
        call_ensures(cache_or_empty, (parsed,), r),
    ensures
        match parsed {
            Some(c) => r == c,
            None => !r@.contains_key(p),
        },
{
}

/// After a failed fetch the cache is as it was, and a list of the provider
/// that was fetched with the same key is shown, whatever its age; only without
/// one does the recommended list stand alone.
pub proof fn failed_fetches_fall_back_to_the_cache(
    provider: &str,
    key_fp: String,
    recommended: Vec<String>,
    cache: &mut CacheFile,
    now: u64,
    error: String,
    r: Catalog,
)
    requires
        old(cache).wf(),
        call_ensures(
            settle_catalog,
            (provider, key_fp, &recommended, cache, now, Err::<Vec<String>, String>(error)),
            r,
        ),
    ensures
        final(cache)@ == old(cache)@,
        views(r.recommended@) == views(recommended@),
        r.error is Some && r.error->0@ == error@,
        ({
            let kept = old(cache)@[provider@];
            if old(cache)@.contains_key(provider@) && kept.key_fingerprint@ == key_fp@ {
                &&& r.source == CatalogSource::StaleCache
                &&& r.fetched_at == Some(kept.fetched_at)
                &&& views(r.fetched@) == views(kept.models@).filter(
                    |m: Seq<char>| !views(recommended@).contains(m),
                )
            } else {
                &&& r.source == CatalogSource::RecommendedOnly
                &&& r.fetched_at is None
                &&& r.fetched@.len() == 0
            }
        }),
{
    assert(r@.fetched.len() == r.fetched@.len());
    assert(r@.source == r.source && r@.fetched_at == r.fetched_at);
}

/// After a fetch that succeeded the list that came is shown, dated now, and
/// stands in the cache under its provider and key; the lists of the other
/// providers stay.
pub proof fn fetched_lists_enter_the_cache(
    provider: &str,
    key_fp: String,
    recommended: Vec<String>,
    cache: &mut CacheFile,
    now: u64,
    models: Vec<String>,
    r: Catalog,
    other: Seq<char>,
)
    requires
        old(cache).wf(),
        call_ensures(
            settle_catalog,
            (provider, key_fp, &recommended, cache, now, Ok::<Vec<String>, String>(models)),
            r,
        ),
        other != provider@,
    ensures
        final(cache).wf(),
        r.source == CatalogSource::Fetched,
        r.fetched_at == Some(now),
        r.error is None,
        views(r.recommended@) == views(recommended@),
        views(r.fetched@) == views(models@).filter(
            |m: Seq<char>| !views(recommended@).contains(m),
        ),
        final(cache)@.contains_key(provider@),
        final(cache)@[provider@].fetched_at == now,
        final(cache)@[provider@].key_fingerprint@ == key_fp@,
        views(final(cache)@[provider@].models@) == views(models@),
        final(cache)@.contains_key(other) <==> old(cache)@.contains_key(other),
        old(cache)@.contains_key(other) ==> final(cache)@[other] == old(cache)@[other],
{
    assert(r@.source == r.source && r@.fetched_at == r.fetched_at);
    let a = final(cache)@.remove(provider@);
    let b = old(cache)@.remove(provider@);
    assert(a == b);
    assert(a.contains_key(other) == final(cache)@.contains_key(other));
    assert(b.contains_key(other) == old(cache)@.contains_key(other));
    if old(cache)@.contains_key(other) {
        assert(a[other] == final(cache)@[other]);
        assert(b[other] == old(cache)@[other]);
    }
}

/// One more fetched entry is added behind all others, unless it is recommended
/// or came before.
pub proof fn merging_adds_at_the_end(
    recommended: Seq<Seq<char>>,
    fetched: Seq<Seq<char>>,
    model: Seq<char>,
)
    ensures
        merged(recommended, Seq::empty()) == recommended,
        merged(recommended, fetched.push(model)) == (if recommended.contains(model)
            || fetched.contains(model) {
            merged(recommended, fetched)
        } else {
            merged(recommended, fetched).push(model)
        }),
{
    assert(fetched.push(model).drop_last() =~= fetched);
    crate::model_catalog::merge_loses_nothing(recommended, fetched, model);
}

/// A curated catalog is the recommended list alone, with the failure that it
/// is given.
pub proof fn curated_lists_stand_alone(
    recommended: Vec<String>,
    error: Option<String>,
    r: Catalog,
)
    requires
        call_ensures(curated, (recommended, error), r),
    ensures
        views(r.recommended@) == views(recommended@),
        r.fetched@.len() == 0,
        r.source == CatalogSource::RecommendedOnly,
        r.fetched_at is None,
        opt_view(r.error) == opt_view(error),
{
    assert(r@.fetched.len() == r.fetched@.len());
    assert(r@.source == r.source && r@.fetched_at == r.fetched_at);
}

/// The time of a fetch is counted in whole seconds of what the clock was read
/// as.
pub proof fn fetches_are_dated_by_the_clock(r: u64)
    requires
        call_ensures(now_secs, (), r),
    ensures
        exists|e: Option<Elapsed>| #[trigger]
            is_reading(e) && (e is Some ==> r == e->0.secs) && (e is None ==> r == 0),
{
    let e = choose|e: Option<Elapsed>| #[trigger] is_reading(e) && r == seconds_of(e);
    assert(is_reading(e));
}

proof fn listed_entries_are_kept(entries: Seq<(Seq<char>, CacheView)>, i: int, provider: Seq<char>)
    ensures
        0 <= i < entries.len() && (forall|j: int|
            i < j < entries.len() ==> (#[trigger] entries[j]).0 != entries[i].0) ==> listed(
            entries,
        ).contains_key(entries[i].0) && listed(entries)[entries[i].0] == entries[i].1,
        (forall|j: int| 0 <= j < entries.len() ==> (#[trigger] entries[j]).0 != provider)
            ==> !listed(entries).contains_key(provider),
    decreases entries.len(),
{
    if entries.len() > 0 {
        let front = entries.drop_last();
        let last = entries.len() - 1;
        listed_entries_are_kept(front, i, provider);
        if 0 <= i < last && (forall|j: int|
            i < j < entries.len() ==> (#[trigger] entries[j]).0 != entries[i].0) {
            assert(entries[last].0 != entries[i].0);
            assert forall|j: int| i < j < front.len() implies (#[trigger] front[j]).0
                != front[i].0 by {
                assert(front[j] == entries[j]);
            }
        }
        if forall|j: int| 0 <= j < entries.len() ==> (#[trigger] entries[j]).0 != provider {
            assert(entries[last].0 != provider);
            assert forall|j: int| 0 <= j < front.len() implies (#[trigger] front[j]).0
                != provider by {
                assert(front[j] == entries[j]);
            }
        }
    }
}

/// A cache is read from its entries: each list stands under its own provider,
/// the last of several for one provider counts, and there is nothing else.
pub proof fn caches_are_read_from_their_entries(
    entries: Vec<CacheEntry>,
    r: CacheFile,
    i: int,
    provider: Seq<char>,
)
    requires
        call_ensures(cache_from_entries, (entries,), r),
        0 <= i < entries@.len(),
        forall|j: int|
            i < j < entries@.len() ==> (#[trigger] entries@[j]).provider@ != entries@[i].provider@,
    ensures
        r.wf(),
        r@.contains_key(entries@[i].provider@),
        r@[entries@[i].provider@]@ == entries@[i].cache@,
        (forall|j: int|
            0 <= j < entries@.len() ==> (#[trigger] entries@[j]).provider@ != provider)
            ==> !r@.contains_key(provider),
{
    let all = views(entries@);
    assert forall|j: int| 0 <= j < all.len() implies (#[trigger] all[j]).0
        == entries@[j].provider@ by {}
    assert forall|j: int| i < j < all.len() implies (#[trigger] all[j]).0 != all[i].0 by {
        assert(entries@[j].provider@ != entries@[i].provider@);
    }
    listed_entries_are_kept(all, i, provider);
    let held = contents(r@);
    let name = all[i].0;
    assert(held.contains_key(name) == r@.contains_key(name));
    assert(held[name] == r@[name]@);
    if forall|j: int| 0 <= j < entries@.len() ==> (#[trigger] entries@[j]).provider@ != provider {
        assert forall|j: int| 0 <= j < all.len() implies (#[trigger] all[j]).0 != provider by {
            assert(entries@[j].provider@ != provider);
        }
        assert(held.contains_key(provider) == r@.contains_key(provider));
    }
}

} // verus!
