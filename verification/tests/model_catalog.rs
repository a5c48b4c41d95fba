use rezon::model_catalog::{
    cache_entries, cache_from_entries, cache_or_empty, cache_path, fetched_models, fingerprint_of,
    is_fresh, key_fingerprint, merge, now_secs, plan_catalog, settle_catalog, without, CacheEntry,
    CacheFile, Catalog, CatalogPlan, CatalogSource, ProviderCache, CACHE_FILE, DEFAULT_TTL_SECS,
};
use rezon::order::TextMap;
use rezon::paths::{DirectoryEnv, Platform};

fn strings(list: &[&str]) -> Vec<String> {
    list.iter().map(|s| s.to_string()).collect()
}

fn entry(fetched_at: u64, fp: &str, models: &[&str]) -> ProviderCache {
    ProviderCache {
        fetched_at,
        key_fingerprint: fp.to_string(),
        models: strings(models),
    }
}

fn cache(provider: &str, e: ProviderCache) -> CacheFile {
    let mut c: CacheFile = TextMap::new();
    c.insert(provider, e);
    c
}

/// Resolves a catalog as a caller would, with a prepared reply of the provider.
fn resolve(
    provider: &str,
    key: Option<&str>,
    cache: &mut CacheFile,
    refresh: bool,
    now: u64,
    reply: Option<Result<Vec<String>, String>>,
) -> Catalog {
    match plan_catalog(provider, key, &rec(), cache, refresh, now, DEFAULT_TTL_SECS) {
        CatalogPlan::Answer(c) => {
            assert!(reply.is_none(), "a fetch was expected");
            c
        }
        CatalogPlan::Fetch { api_key, key_fingerprint: fp } => {
            assert_eq!(api_key, key.unwrap().trim());
            let reply = reply.expect("no fetch was expected");
            settle_catalog(provider, fp, &rec(), cache, now, fetched_models(reply))
        }
    }
}

fn rec() -> Vec<String> {
    strings(&["cheap-model", "big-model"])
}

fn offline() -> Option<Result<Vec<String>, String>> {
    Some(Err("connection refused".to_string()))
}

// ---- Fingerprinting ---------------------------------------------

#[test]
fn fingerprint_is_stable_and_distinguishes_keys() {
    assert_eq!(key_fingerprint("sk-a"), key_fingerprint("sk-a"));
    assert_ne!(key_fingerprint("sk-a"), key_fingerprint("sk-b"));
}

#[test]
fn fingerprint_does_not_contain_the_key() {
    let fp = key_fingerprint("sk-supersecret-value");
    assert!(!fp.contains("supersecret"));
    assert_eq!(fp.len(), 16);
    assert!(fp.chars().all(|c| c.is_ascii_hexdigit()));
}

#[test]
fn fingerprint_is_the_start_of_the_digest() {
    // SHA-256 of "abc".
    assert_eq!(key_fingerprint("abc"), "ba7816bf8f01cfea");
    // SHA-256 of nothing.
    assert_eq!(key_fingerprint(""), "e3b0c44298fc1c14");
}

// ---- Freshness --------------------------------------------------

#[test]
fn a_recent_entry_for_the_same_key_is_fresh() {
    let e = entry(1_000, "fp1", &["a"]);
    assert!(is_fresh(&e, "fp1", 1_500, DEFAULT_TTL_SECS));
}

#[test]
fn an_entry_past_its_ttl_is_stale() {
    let e = entry(1_000, "fp1", &["a"]);
    assert!(!is_fresh(&e, "fp1", 1_000 + DEFAULT_TTL_SECS, DEFAULT_TTL_SECS));
}

#[test]
fn a_different_key_invalidates_regardless_of_age() {
    let e = entry(1_000, "fp1", &["a"]);
    assert!(!is_fresh(&e, "fp2", 1_001, DEFAULT_TTL_SECS));
}

#[test]
fn a_future_timestamp_counts_as_stale() {
    let e = entry(9_999, "fp1", &["a"]);
    assert!(!is_fresh(&e, "fp1", 1_000, DEFAULT_TTL_SECS));
}

#[test]
fn freshness_ends_exactly_at_the_ttl() {
    let e = entry(1_000, "fp1", &["a"]);
    assert!(is_fresh(&e, "fp1", 1_000, 1));
    assert!(!is_fresh(&e, "fp1", 1_000, 0));
    assert!(is_fresh(&e, "fp1", 1_000 + DEFAULT_TTL_SECS - 1, DEFAULT_TTL_SECS));
    assert_eq!(DEFAULT_TTL_SECS, 86_400);
}

// ---- Merge ------------------------------------------------------

#[test]
fn merge_keeps_recommended_order_first() {
    let rec = vec!["cheap".to_string(), "mid".to_string()];
    let fetched = vec!["aaa".to_string(), "zzz".to_string()];
    assert_eq!(merge(&rec, &fetched), vec!["cheap", "mid", "aaa", "zzz"]);
}

#[test]
fn merge_drops_fetched_duplicates() {
    let rec = vec!["gpt-x".to_string()];
    let fetched = vec!["gpt-x".to_string(), "gpt-y".to_string()];
    assert_eq!(merge(&rec, &fetched), vec!["gpt-x", "gpt-y"]);
}

#[test]
fn merge_with_nothing_fetched_is_just_the_recommended_list() {
    let rec = vec!["a".to_string(), "b".to_string()];
    assert_eq!(merge(&rec, &vec![]), rec);
}

#[test]
fn merge_adds_a_repeated_model_once() {
    assert_eq!(
        merge(&strings(&["a"]), &strings(&["b", "b", "a", "c", "b"])),
        vec!["a", "b", "c"]
    );
    assert_eq!(
        without(&strings(&["b", "a", "b", "c"]), &strings(&["a"])),
        vec!["b", "b", "c"]
    );
}

// ---- Fetch ------------------------------------------------------

#[test]
fn fetch_returns_sorted_deduplicated_ids() {
    let got = fetched_models(Ok(strings(&["zeta", "alpha", "alpha"]))).unwrap();
    assert_eq!(got, vec!["alpha", "zeta"]);
}

#[test]
fn fetch_handles_an_empty_catalog() {
    assert!(fetched_models(Ok(Vec::new())).unwrap().is_empty());
}

#[test]
fn fetch_reports_an_unreachable_endpoint_as_an_error() {
    let err = fetched_models(Err("connection refused".to_string())).unwrap_err();
    assert!(err.contains("list models"), "got: {err}");
    assert_eq!(err, "list models: connection refused");
}

#[test]
fn ids_are_sorted_as_strings_are() {
    let mut want = strings(&["b", "a", "", "B", "ab", "é", "zz", "a\u{10000}", "a\u{ffff}", "aé"]);
    let got = fetched_models(Ok(want.clone())).unwrap();
    want.sort();
    assert_eq!(got, want);
}

// ---- The ladder -------------------------------------------------

#[test]
fn no_key_yields_recommended_only_without_touching_the_network() {
    let c = resolve("openai", None, &mut TextMap::new(), false, 5, None);
    assert_eq!(c.source, CatalogSource::RecommendedOnly);
    assert_eq!(c.recommended, rec());
    assert!(c.fetched.is_empty());
    assert!(c.error.is_none(), "absence of a key is not an error");
}

#[test]
fn a_blank_key_is_treated_as_no_key() {
    let c = resolve("openai", Some("   "), &mut TextMap::new(), false, 5, None);
    assert_eq!(c.source, CatalogSource::RecommendedOnly);
    assert!(c.error.is_none());
}

#[test]
fn a_successful_fetch_is_merged_and_written_to_cache() {
    let mut cached: CacheFile = TextMap::new();
    let reply = Some(Ok(strings(&["cheap-model", "exotic"])));
    let c = resolve("openai", Some("sk-1"), &mut cached, false, 77, reply);
    assert_eq!(c.source, CatalogSource::Fetched);
    assert_eq!(c.fetched, vec!["exotic"]);
    assert_eq!(
        merge(&c.recommended, &c.fetched),
        vec!["cheap-model", "big-model", "exotic"]
    );
    assert_eq!(c.fetched_at, Some(77));

    let entry = cached.get("openai").unwrap();
    assert_eq!(entry.models, vec!["cheap-model", "exotic"]);
    assert_eq!(entry.key_fingerprint, key_fingerprint("sk-1"));
    assert_eq!(entry.fetched_at, 77);

    // The next request is answered from the cache, also with white space
    // around the key.
    let again = resolve("openai", Some(" sk-1\n"), &mut cached, false, 78, None);
    assert_eq!(again.source, CatalogSource::Cache);
    assert_eq!(again.fetched, vec!["exotic"]);
}

#[test]
fn a_cache_is_rebuilt_from_its_entries() {
    let mut c = cache("openai", entry(42, "fp1", &["a", "b"]));
    c.insert("anthropic", entry(7, "fp2", &[]));
    let entries = cache_entries(&c);
    let providers: Vec<&str> = entries.iter().map(|e| e.provider.as_str()).collect();
    assert_eq!(providers, vec!["anthropic", "openai"]);
    let back = cache_from_entries(entries);
    assert_eq!(back.len(), 2);
    let e = back.get("openai").unwrap();
    assert_eq!((e.fetched_at, e.key_fingerprint.as_str()), (42, "fp1"));
    assert_eq!(e.models, strings(&["a", "b"]));
    assert_eq!(back.get("anthropic").unwrap().fetched_at, 7);

    // The last of several entries for one provider counts.
    let twice = vec![
        CacheEntry { provider: "p".to_string(), cache: entry(1, "x", &[]) },
        CacheEntry { provider: "p".to_string(), cache: entry(2, "y", &[]) },
    ];
    let one = cache_from_entries(twice);
    assert_eq!(one.len(), 1);
    assert_eq!(one.get("p").unwrap().fetched_at, 2);
    assert_eq!(cache_from_entries(Vec::new()).len(), 0);
}

#[test]
fn fingerprints_are_the_first_digits_of_the_digest() {
    let digest: Vec<u8> = (0..32u8).map(|i| i.wrapping_mul(17)).collect();
    assert_eq!(fingerprint_of(&digest), "0011223344556677");
    assert_eq!(fingerprint_of(&vec![0xa9; 32]), "a9a9a9a9a9a9a9a9");
    // The digest of "abc" begins with ba7816bf 8f01cfea.
    assert_eq!(key_fingerprint("abc"), "ba7816bf8f01cfea");
}

#[test]
fn a_fresh_cache_entry_is_served_without_a_fetch() {
    let now = now_secs();
    assert!(now > 1_600_000_000, "the clock is not set");
    let mut c = cache("openai", entry(now, &key_fingerprint("sk-1"), &["cached-only"]));
    let got = resolve("openai", Some("sk-1"), &mut c, false, now, None);
    assert_eq!(got.source, CatalogSource::Cache);
    assert_eq!(got.fetched, vec!["cached-only"]);
    assert!(got.error.is_none());
}

#[test]
fn refresh_bypasses_a_fresh_cache() {
    let mut c = cache("openai", entry(10, &key_fingerprint("sk-1"), &["stale-entry"]));
    let reply = Some(Ok(strings(&["brand-new"])));
    let got = resolve("openai", Some("sk-1"), &mut c, true, 10, reply);
    assert_eq!(got.source, CatalogSource::Fetched);
    assert_eq!(got.fetched, vec!["brand-new"]);
}

#[test]
fn a_failed_fetch_falls_back_to_a_stale_entry() {
    let mut c = cache("openai", entry(1_000, &key_fingerprint("sk-1"), &["old-model"]));
    let got = resolve("openai", Some("sk-1"), &mut c, false, 9_000_000, offline());
    assert_eq!(got.source, CatalogSource::StaleCache);
    assert_eq!(got.fetched, vec!["old-model"]);
    assert!(got.error.is_some(), "the failure should still be reported");
    assert_eq!(got.error.unwrap(), "list models: connection refused");
    assert_eq!(got.fetched_at, Some(1_000));
    assert_eq!(c.get("openai").unwrap().fetched_at, 1_000);
}

#[test]
fn a_failed_fetch_with_no_cache_still_returns_the_recommended_list() {
    let got = resolve("openai", Some("sk-1"), &mut TextMap::new(), false, 5, offline());
    assert_eq!(got.source, CatalogSource::RecommendedOnly);
    assert_eq!(got.recommended, rec());
    assert!(got.error.is_some());
}

#[test]
fn a_stale_entry_from_a_different_key_is_not_used() {
    let mut c = cache("openai", entry(1_000, &key_fingerprint("sk-OTHER"), &["other-key-model"]));
    let got = resolve("openai", Some("sk-1"), &mut c, false, 9_000_000, offline());
    assert_eq!(got.source, CatalogSource::RecommendedOnly);
    assert!(got.fetched.is_empty());
}

#[test]
fn one_provider_s_cache_does_not_answer_for_another() {
    let mut c = cache("openai", entry(5, &key_fingerprint("sk-1"), &["openai-model"]));
    let got = resolve("anthropic", Some("sk-1"), &mut c, false, 5, offline());
    assert_eq!(got.source, CatalogSource::RecommendedOnly);
}

#[test]
fn entries_of_other_providers_stay() {
    let mut c = cache("openai", entry(5, "fp", &["m"]));
    resolve("anthropic", Some("k"), &mut c, false, 6, Some(Ok(strings(&["x"]))));
    assert_eq!(c.get("openai").unwrap().models, vec!["m"]);
    assert_eq!(c.keys(), &strings(&["anthropic", "openai"]));
    assert_eq!(c.len(), 2);
}

#[test]
fn an_unreadable_cache_is_an_empty_one() {
    assert_eq!(cache_or_empty(None).len(), 0);
    assert_eq!(cache_or_empty(Some(cache("p", entry(1, "f", &[])))).len(), 1);
}

#[test]
fn the_cache_lies_in_the_config_directory() {
    let env = DirectoryEnv {
        home: Some("/home/me".to_string()),
        appdata: None,
        xdg_config_home: None,
    };
    let p = cache_path(Platform::Other, env).unwrap();
    assert_eq!(p.file_name().unwrap(), CACHE_FILE);
    assert_eq!(p.segments, strings(&[".config", "rezon-tui", "model-cache.json"]));
}

#[test]
fn text_maps_keep_their_keys_in_order() {
    let mut m: TextMap<u32> = TextMap::new();
    for (i, k) in ["b", "a", "c", "a"].iter().enumerate() {
        m.insert(k, i as u32);
    }
    assert_eq!(m.keys(), &strings(&["a", "b", "c"]));
    assert_eq!(m.get("a"), Some(&3));
    assert!(m.contains("b") && !m.contains("d"));
    assert_eq!(m.remove("b"), Some(0));
    assert_eq!(m.remove("b"), None);
    assert_eq!(m.len(), 2);
}
