//! Model lists fetched from a provider, cached, and layered over a curated
//! list.
//!
//! The curated list comes first: its order is the judgment it encodes. What
//! was fetched follows, without what is already recommended.
//!
//! A catalog is found down a ladder: fresh cache, live fetch, stale cache,
//! recommended list alone. Every rung is usable, so finding one never fails.
//! An entry of the cache belongs to a provider and to a fingerprint of the API
//! key that it was fetched with: two keys may see different lists. The key
//! itself is never kept.
use sha2::Digest;
use vstd::prelude::*;
use vstd::utf8::encode_utf8;

use crate::clock::{is_reading, read_clock, seconds_of, seconds_or_zero, Elapsed};
use crate::order::{ascending, sorted_distinct, TextMap};
use crate::paths::{config_file, file_location, AppPath, DirectoryEnv, Platform};
use crate::text::{
    copy_strings, holds, opt_view, push_contains, text_eq, trim, trimmed, views, views_push,
};

verus! {

/// How long a fetched list is considered current: a day.
pub const DEFAULT_TTL_SECS: u64 = 24 * 60 * 60;

/// Name of the cache file in the configuration directory.
pub const CACHE_FILE: &'static str = "model-cache.json";

/// One provider's cached list.
#[derive(Debug)]
pub struct ProviderCache {
    /// Unix seconds at fetch time.
    pub fetched_at: u64,
    /// Fingerprint of the key that the list was fetched with.
    pub key_fingerprint: String,
    pub models: Vec<String>,
}

/// Mathematical form of a [`ProviderCache`].
pub struct CacheView {
    pub fetched_at: u64,
    pub key_fingerprint: Seq<char>,
    pub models: Seq<Seq<char>>,
}

impl View for ProviderCache {
    type V = CacheView;

    open spec fn view(&self) -> CacheView {
        CacheView {
            fetched_at: self.fetched_at,
            key_fingerprint: self.key_fingerprint@,
            models: views(self.models@),
        }
    }
}

/// The whole cache: an entry per provider, in a stable order.
pub type CacheFile = TextMap<ProviderCache>;

/// The cached list of a provider.
pub open spec fn entry_of(cache: Map<Seq<char>, ProviderCache>, provider: Seq<char>) -> Option<
    CacheView,
> {
    if cache.contains_key(provider) {
        Some(cache[provider]@)
    } else {
        None
    }
}

/// The cache that a file's content stands for. A file that is missing or
/// cannot be read as a cache is an empty cache.
pub fn cache_or_empty(parsed: Option<CacheFile>) -> (r: CacheFile)
    requires
        parsed matches Some(c) ==> c.wf(),
    ensures
        r.wf(),
        match parsed {
            Some(c) => r == c,
            None => r@ == Map::<Seq<char>, ProviderCache>::empty(),
        },
{
    match parsed {
        Some(c) => c,
        None => TextMap::new(),
    }
}

/// One provider's list as it is written down.
#[derive(Debug)]
pub struct CacheEntry {
    pub provider: String,
    pub cache: ProviderCache,
}

impl View for CacheEntry {
    type V = (Seq<char>, CacheView);

    open spec fn view(&self) -> (Seq<char>, CacheView) {
        (self.provider@, self.cache@)
    }
}

/// What a cache holds.
pub open spec fn contents(cache: Map<Seq<char>, ProviderCache>) -> Map<Seq<char>, CacheView> {
    cache.map_values(|c: ProviderCache| c@)
}

/// What a list of entries stands for; the last of several entries for one
/// provider counts.
pub open spec fn listed(entries: Seq<(Seq<char>, CacheView)>) -> Map<Seq<char>, CacheView>
    decreases entries.len(),
{
    if entries.len() == 0 {
        Map::empty()
    } else {
        listed(entries.drop_last()).insert(entries.last().0, entries.last().1)
    }
}

/// The entries of a cache, to be written down: the providers in ascending
/// order, each with its list. [`cache_from_entries`] makes the same cache of
/// them again.
pub fn cache_entries(cache: &CacheFile) -> (r: Vec<CacheEntry>)
    requires
        cache.wf(),
    ensures
        listed(views(r@)) == contents(cache@),
        ascending(views(r@).map_values(|e: (Seq<char>, CacheView)| e.0)),
{
    let keys = cache.keys();
    let ghost all = views(keys@);
    let mut out: Vec<CacheEntry> = Vec::new();
    let mut i: usize = 0;
    assert(listed(views(out@)) =~= contents(cache@).restrict(all.take(0).to_set()));
    while i < keys.len()
        invariant
            i <= keys.len(),
            cache.wf(),
            all == views(keys@),
            forall|k: Seq<char>| #[trigger] all.contains(k) <==> cache@.contains_key(k),
            out@.len() == i,
            forall|j: int| 0 <= j < i ==> (#[trigger] out@[j]).provider@ == all[j],
            listed(views(out@)) == contents(cache@).restrict(all.take(i as int).to_set()),
        decreases keys.len() - i,
    {
        let ghost before = views(out@);
        let ghost key = all[i as int];
        assert(all.contains(key));
        if let Some(c) = cache.get(keys[i].as_str()) {
            let entry = CacheEntry {
                provider: keys[i].clone(),
                cache: ProviderCache {
                    fetched_at: c.fetched_at,
                    key_fingerprint: c.key_fingerprint.clone(),
                    models: copy_strings(&c.models),
                },
            };
            proof {
                views_push(out@, entry);
                assert(before.push(entry@).drop_last() =~= before);
                let old_keys = all.take(i as int).to_set();
                let new_keys = all.take(i + 1).to_set();
                assert forall|k: Seq<char>| #[trigger]
                    new_keys.contains(k) <==> old_keys.contains(k) || k == key by {
                    assert(all.take(i + 1) =~= all.take(i as int).push(key));
                    push_contains(all.take(i as int), key, k);
                }
                assert(contents(cache@)[key] == entry@.1);
                assert(listed(before.push(entry@)) == listed(before).insert(key, entry@.1));
                assert(listed(before.push(entry@)) =~= contents(cache@).restrict(new_keys));
            }
            out.push(entry);
        }
        i = i + 1;
    }
    proof {
        assert(all.take(all.len() as int) =~= all);
        assert forall|k: Seq<char>| #[trigger] contents(cache@).contains_key(k) implies all.to_set().contains(
            k,
        ) by {
            assert(all.contains(k));
        }
        assert(contents(cache@).restrict(all.to_set()) =~= contents(cache@));
        assert(views(out@).map_values(|e: (Seq<char>, CacheView)| e.0) =~= all);
    }
    out
}

/// The cache that a list of entries stands for.
pub fn cache_from_entries(entries: Vec<CacheEntry>) -> (r: CacheFile)
    ensures
        r.wf(),
        contents(r@) == listed(views(entries@)),
{
    let ghost all = views(entries@);
    let mut out: CacheFile = TextMap::new();
    let mut i: usize = 0;
    assert(contents(out@) =~= listed(all.take(0)));
    while i < entries.len()
        invariant
            i <= entries.len(),
            all == views(entries@),
            out.wf(),
            contents(out@) == listed(all.take(i as int)),
        decreases entries.len() - i,
    {
        let c = &entries[i].cache;
        let copy = ProviderCache {
            fetched_at: c.fetched_at,
            key_fingerprint: c.key_fingerprint.clone(),
            models: copy_strings(&c.models),
        };
        let ghost before = out@;
        out.insert(entries[i].provider.as_str(), copy);
        proof {
            assert(all.take(i + 1).drop_last() =~= all.take(i as int));
            assert(all.take(i + 1).last() == entries@[i as int]@);
            assert(contents(out@) =~= listed(all.take(i + 1)));
        }
        i = i + 1;
    }
    assert(all.take(all.len() as int) =~= all);
    out
}

/// What is written down of a cache is that cache again when it is read back:
/// a cache made of the entries of another holds what the other holds.
pub proof fn written_entries_are_read_back(
    written: Map<Seq<char>, ProviderCache>,
    entries: Seq<(Seq<char>, CacheView)>,
    read: Map<Seq<char>, ProviderCache>,
    provider: Seq<char>,
)
    requires
        listed(entries) == contents(written),
        contents(read) == listed(entries),
    ensures
        entry_of(read, provider) == entry_of(written, provider),
{
    assert(contents(read).contains_key(provider) == read.contains_key(provider));
    assert(contents(written).contains_key(provider) == written.contains_key(provider));
    if read.contains_key(provider) {
        assert(contents(read)[provider] == read[provider]@);
        assert(contents(written)[provider] == written[provider]@);
    }
}

/// The SHA-256 digest of a sequence of bytes.
pub uninterp spec fn sha256(bytes: Seq<u8>) -> Seq<u8>;

/// Calls `sha2::Sha256`: `new`, `update` on the bytes, `finalize`. Claims that
/// the digest is a function of the bytes and is 32 bytes long.
#[verifier::external_body]
fn sha256_digest(bytes: &[u8]) -> (r: Vec<u8>)
    ensures
        r@ == sha256(bytes@),
        r@.len() == 32,
{
    let mut h = sha2::Sha256::new();
    h.update(bytes);
    h.finalize().to_vec()
}

/// The lower-case hexadecimal digit of a number below sixteen.
pub open spec fn hex_digit(n: nat) -> char {
    if n < 10 {
        (48 + n) as char
    } else {
        (87 + n) as char
    }
}

/// The lower-case hexadecimal notation of a sequence of bytes.
pub open spec fn hex(bytes: Seq<u8>) -> Seq<char>
    decreases bytes.len(),
{
    if bytes.len() == 0 {
        Seq::empty()
    } else {
        hex(bytes.drop_last()).push(hex_digit((bytes.last() / 16) as nat)).push(
            hex_digit((bytes.last() % 16) as nat),
        )
    }
}

fn hex_digit_text(n: u8) -> (r: &'static str)
    requires
        n < 16,
    ensures
        r@ == seq![hex_digit(n as nat)],
{
    proof {
        reveal_strlit("0");
        reveal_strlit("1");
        reveal_strlit("2");
        reveal_strlit("3");
        reveal_strlit("4");
        reveal_strlit("5");
        reveal_strlit("6");
        reveal_strlit("7");
        reveal_strlit("8");
        reveal_strlit("9");
        reveal_strlit("a");
        reveal_strlit("b");
        reveal_strlit("c");
        reveal_strlit("d");
        reveal_strlit("e");
        reveal_strlit("f");
    }
    match n {
        0 => "0",
        1 => "1",
        2 => "2",
        3 => "3",
        4 => "4",
        5 => "5",
        6 => "6",
        7 => "7",
        8 => "8",
        9 => "9",
        10 => "a",
        11 => "b",
        12 => "c",
        13 => "d",
        14 => "e",
        _ => "f",
    }
}

/// The fingerprint of a key: the first 16 hexadecimal digits of its SHA-256.
pub open spec fn fingerprint(api_key: Seq<char>) -> Seq<char> {
    hex(sha256(encode_utf8(api_key)).take(8))
}

/// The first 16 hexadecimal digits of a SHA-256 digest.
pub fn fingerprint_of(digest: &Vec<u8>) -> (r: String)
    requires
        digest@.len() == 32,
    ensures
        r@ == hex(digest@.take(8)),
        r@ == hex(digest@).take(16),
        r@.len() == 16,
{
    let mut out = String::new();
    let mut i: usize = 0;
    while i < 8
        invariant
            i <= 8,
            digest@.len() == 32,
            out@ == hex(digest@.take(i as int)),
        decreases 8 - i,
    {
        let b: u8 = digest[i];
        out.append(hex_digit_text(b / 16));
        out.append(hex_digit_text(b % 16));
        assert(digest@.take(i + 1).drop_last() =~= digest@.take(i as int));
        assert(out@ =~= hex(digest@.take(i + 1)));
        i = i + 1;
    }
    proof {
        hex_prefix(digest@, 8);
    }
    out
}

/// Non-reversible fingerprint of an API key, enough to notice that the key
/// changed.
pub fn key_fingerprint(api_key: &str) -> (r: String)
    ensures
        r@ == fingerprint(api_key@),
        r@ == hex(sha256(encode_utf8(api_key@))).take(16),
        r@.len() == 16,
{
    fingerprint_of(&sha256_digest(api_key.as_bytes()))
}

/// The notation of the first `n` bytes is the first part of the notation.
pub proof fn hex_prefix(bytes: Seq<u8>, n: int)
    requires
        0 <= n <= bytes.len(),
    ensures
        hex(bytes).len() == 2 * bytes.len(),
        hex(bytes).take(2 * n) == hex(bytes.take(n)),
        hex(bytes.take(n)).len() == 2 * n,
    decreases bytes.len(),
{
    if bytes.len() == 0 {
        assert(bytes.take(n) =~= bytes);
        assert(hex(bytes).take(0) =~= hex(bytes));
    } else if n == bytes.len() {
        hex_prefix(bytes.drop_last(), n - 1);
        assert(bytes.take(n) =~= bytes);
        assert(hex(bytes).take(2 * n) =~= hex(bytes));
    } else {
        hex_prefix(bytes.drop_last(), n);
        assert(bytes.take(n) =~= bytes.drop_last().take(n));
        assert(hex(bytes).take(2 * n) =~= hex(bytes.drop_last()).take(2 * n));
    }
}

/// A fingerprint is made of hexadecimal digits, whatever the key holds.
pub proof fn fingerprints_are_hexadecimal(bytes: Seq<u8>)
    ensures
        forall|i: int|
            0 <= i < hex(bytes).len() ==> {
                ||| '0' <= #[trigger] hex(bytes)[i] <= '9'
                ||| 'a' <= hex(bytes)[i] <= 'f'
            },
    decreases bytes.len(),
{
    if bytes.len() > 0 {
        fingerprints_are_hexadecimal(bytes.drop_last());
        let front = hex(bytes.drop_last());
        let hi = (bytes.last() / 16) as nat;
        let lo = (bytes.last() % 16) as nat;
        assert(hi < 16 && lo < 16);
        assert forall|i: int| 0 <= i < hex(bytes).len() implies {
            ||| '0' <= #[trigger] hex(bytes)[i] <= '9'
            ||| 'a' <= hex(bytes)[i] <= 'f'
        } by {
            if i < front.len() {
                assert(hex(bytes)[i] == front[i]);
            } else if i == front.len() {
                assert(hex(bytes)[i] == hex_digit(hi));
            } else {
                assert(hex(bytes)[i] == hex_digit(lo));
            }
        }
    }
}

/// Unix seconds now, or zero when the clock stands before the epoch: that is
/// older than anything, and simply forces a fetch. The time itself is not
/// known here, only that it is what the clock was read as.
pub fn now_secs() -> (r: u64)
    ensures
        exists|e: Option<Elapsed>| #[trigger] is_reading(e) && r == seconds_of(e),
{
    seconds_or_zero(read_clock())
}

/// Whether a list fetched at `fetched_at` is current.
pub open spec fn fresh(entry: CacheView, key_fp: Seq<char>, now: u64, ttl: u64) -> bool {
    &&& entry.key_fingerprint == key_fp
    &&& entry.fetched_at <= now < entry.fetched_at + ttl
}

/// Whether a cache entry is current for this key. An entry from the future
/// counts as stale.
pub fn is_fresh(entry: &ProviderCache, key_fp: &str, now: u64, ttl: u64) -> (r: bool)
    ensures
        r == fresh(entry@, key_fp@, now, ttl),
{
    if !text_eq(entry.key_fingerprint.as_str(), key_fp) {
        return false;
    }
    if entry.fetched_at > now {
        return false;
    }
    now - entry.fetched_at < ttl
}

/// Where the cache lives, or `None` when there is no configuration directory.
pub fn cache_path<B>(platform: Platform, env: DirectoryEnv<B>) -> (r: Option<AppPath<B>>)
    ensures
        match r {
            Some(p) => file_location(CACHE_FILE@, platform, env) == Some((p.base, p.parts())),
            None => file_location(CACHE_FILE@, platform, env) is None,
        },
{
    config_file(CACHE_FILE, platform, env)
}

/// The curated list followed by each fetched entry that has not occurred yet.
pub open spec fn merged(recommended: Seq<Seq<char>>, fetched: Seq<Seq<char>>) -> Seq<Seq<char>>
    decreases fetched.len(),
{
    if fetched.len() == 0 {
        recommended
    } else {
        let before = merged(recommended, fetched.drop_last());
        if before.contains(fetched.last()) {
            before
        } else {
            before.push(fetched.last())
        }
    }
}

/// Merges the curated list with a fetched one. Recommended entries keep their
/// order and come first; nothing that occurred is added again.
pub fn merge(recommended: &Vec<String>, fetched: &Vec<String>) -> (r: Vec<String>)
    ensures
        views(r@) == merged(views(recommended@), views(fetched@)),
{
    let ghost all = views(fetched@);
    let mut out = copy_strings(recommended);
    let mut i: usize = 0;
    while i < fetched.len()
        invariant
            i <= fetched.len(),
            all == views(fetched@),
            views(out@) == merged(views(recommended@), all.take(i as int)),
        decreases fetched.len() - i,
    {
        assert(all.take(i + 1).drop_last() =~= all.take(i as int));
        if !holds(&out, fetched[i].as_str()) {
            proof {
                views_push(out@, fetched@[i as int]);
            }
            out.push(fetched[i].clone());
        }
        i = i + 1;
    }
    assert(all.take(all.len() as int) =~= all);
    out
}

/// A merged list begins with the whole curated list, in its order.
pub proof fn recommended_comes_first(recommended: Seq<Seq<char>>, fetched: Seq<Seq<char>>)
    ensures
        merged(recommended, fetched).len() >= recommended.len(),
        merged(recommended, fetched).take(recommended.len() as int) == recommended,
    decreases fetched.len(),
{
    if fetched.len() > 0 {
        recommended_comes_first(recommended, fetched.drop_last());
        let before = merged(recommended, fetched.drop_last());
        let n = recommended.len() as int;
        assert(merged(recommended, fetched).take(n) =~= before.take(n));
    } else {
        assert(recommended.take(recommended.len() as int) =~= recommended);
    }
}

/// A merged list holds what is recommended and what was fetched, and nothing
/// else.
pub proof fn merge_loses_nothing(
    recommended: Seq<Seq<char>>,
    fetched: Seq<Seq<char>>,
    model: Seq<char>,
)
    ensures
        merged(recommended, fetched).contains(model) <==> recommended.contains(model)
            || fetched.contains(model),
    decreases fetched.len(),
{
    if fetched.len() > 0 {
        let front = fetched.drop_last();
        merge_loses_nothing(recommended, front, model);
        let before = merged(recommended, front);
        assert(fetched =~= front.push(fetched.last()));
        push_contains(front, fetched.last(), model);
        push_contains(before, fetched.last(), model);
    }
}

/// When nothing is recommended twice, nothing is listed twice.
pub proof fn merge_lists_nothing_twice(recommended: Seq<Seq<char>>, fetched: Seq<Seq<char>>)
    requires
        recommended.no_duplicates(),
    ensures
        merged(recommended, fetched).no_duplicates(),
    decreases fetched.len(),
{
    if fetched.len() > 0 {
        merge_lists_nothing_twice(recommended, fetched.drop_last());
    }
}

/// `all` without what is in `exclude`, in its order.
pub open spec fn excluding(all: Seq<Seq<char>>, exclude: Seq<Seq<char>>) -> Seq<Seq<char>> {
    all.filter(|m: Seq<char>| !exclude.contains(m))
}

/// `all` without anything already in `exclude`, order preserved.
pub fn without(all: &Vec<String>, exclude: &Vec<String>) -> (r: Vec<String>)
    ensures
        views(r@) == excluding(views(all@), views(exclude@)),
{
    let ghost list = views(all@);
    let ghost keep = |m: Seq<char>| !views(exclude@).contains(m);
    let mut out: Vec<String> = Vec::new();
    let mut i: usize = 0;
    assert(views(out@) =~= list.take(0).filter(keep)) by {
        reveal(Seq::filter);
    }
    while i < all.len()
        invariant
            i <= all.len(),
            list == views(all@),
            keep == (|m: Seq<char>| !views(exclude@).contains(m)),
            views(out@) == list.take(i as int).filter(keep),
        decreases all.len() - i,
    {
        proof {
            reveal(Seq::filter);
            assert(list.take(i + 1).drop_last() =~= list.take(i as int));
            assert(list.take(i + 1).last() == list[i as int]);
        }
        if !holds(exclude, all[i].as_str()) {
            proof {
                views_push(out@, all@[i as int]);
            }
            out.push(all[i].clone());
        }
        i = i + 1;
    }
    assert(list.take(list.len() as int) =~= list);
    out
}

/// Where a returned list came from.
#[derive(Debug, Clone, Copy, PartialEq, Eq, Structural)]
pub enum CatalogSource {
    /// A cache entry that is still current.
    Cache,
    /// Fetched from the provider just now.
    Fetched,
    /// The fetch failed; a cache entry past its time was used.
    StaleCache,
    /// No fetched list is available at all.
    RecommendedOnly,
}

/// A provider's model list, and how it was obtained.
#[derive(Debug)]
pub struct Catalog {
    /// Curated entries, in their order.
    pub recommended: Vec<String>,
    /// What the provider reported and is not recommended already.
    pub fetched: Vec<String>,
    pub source: CatalogSource,
    /// Unix seconds of the fetch behind `fetched`, when there is one.
    pub fetched_at: Option<u64>,
    /// Why a fetch failed. The catalog is usable all the same.
    pub error: Option<String>,
}

/// Mathematical form of a [`Catalog`].
pub struct CatalogView {
    pub recommended: Seq<Seq<char>>,
    pub fetched: Seq<Seq<char>>,
    pub source: CatalogSource,
    pub fetched_at: Option<u64>,
    pub error: Option<Seq<char>>,
}

impl View for Catalog {
    type V = CatalogView;

    open spec fn view(&self) -> CatalogView {
        CatalogView {
            recommended: views(self.recommended@),
            fetched: views(self.fetched@),
            source: self.source,
            fetched_at: self.fetched_at,
            error: opt_view(self.error),
        }
    }
}

/// What `fetch_models` makes of the provider's reply: the identifiers in
/// ascending order, each once, or the message of the failure.
pub fn fetched_models(reply: Result<Vec<String>, String>) -> (r: Result<Vec<String>, String>)
    ensures
        match reply {
            Ok(ids) => r matches Ok(models) && ascending(views(models@)) && views(
                models@,
            ).to_set() == views(ids@).to_set(),
            Err(e) => r matches Err(text) && text@ == "list models: "@ + e@,
        },
{
    match reply {
        Ok(ids) => Ok(sorted_distinct(&ids)),
        Err(e) => {
            let mut text = "list models: ".to_owned();
            text.append(e.as_str());
            Err(text)
        },
    }
}

/// The key that can be used: without the white space around it, and only when
/// something is left.
pub open spec fn usable_key(api_key: Option<Seq<char>>) -> Option<Seq<char>> {
    match api_key {
        Some(k) => if trim(k).len() > 0 {
            Some(trim(k))
        } else {
            None
        },
        None => None,
    }
}

/// A catalog of the recommended list alone.
pub open spec fn recommended_only(
    recommended: Seq<Seq<char>>,
    error: Option<Seq<char>>,
) -> CatalogView {
    CatalogView {
        recommended,
        fetched: Seq::empty(),
        source: CatalogSource::RecommendedOnly,
        fetched_at: None,
        error,
    }
}

/// Makes a catalog of the recommended list alone.
pub fn curated(recommended: Vec<String>, error: Option<String>) -> (r: Catalog)
    ensures
        r@ == recommended_only(views(recommended@), opt_view(error)),
{
    let none: Vec<String> = Vec::new();
    assert(views(none@) =~= Seq::empty());
    Catalog {
        recommended,
        fetched: none,
        source: CatalogSource::RecommendedOnly,
        fetched_at: None,
        error,
    }
}

/// A catalog from a list fetched at `fetched_at`.
pub open spec fn layered(
    recommended: Seq<Seq<char>>,
    models: Seq<Seq<char>>,
    source: CatalogSource,
    fetched_at: u64,
    error: Option<Seq<char>>,
) -> CatalogView {
    CatalogView {
        recommended,
        fetched: excluding(models, recommended),
        source,
        fetched_at: Some(fetched_at),
        error,
    }
}

/// How a catalog is to be found.
#[derive(Debug)]
pub enum CatalogPlan {
    /// It is here already.
    Answer(Catalog),
    /// The provider must be asked, with this key.
    Fetch { api_key: String, key_fingerprint: String },
}

/// Mathematical form of a [`CatalogPlan`].
pub enum PlanView {
    Answer(CatalogView),
    Fetch { api_key: Seq<char>, key_fingerprint: Seq<char> },
}

impl View for CatalogPlan {
    type V = PlanView;

    open spec fn view(&self) -> PlanView {
        match self {
            CatalogPlan::Answer(c) => PlanView::Answer(c@),
            CatalogPlan::Fetch { api_key, key_fingerprint } => PlanView::Fetch {
                api_key: api_key@,
                key_fingerprint: key_fingerprint@,
            },
        }
    }
}

/// The first half of the ladder. Without a key there is nothing to fetch with.
/// A fresh entry answers unless a refresh is asked for.
pub open spec fn plan(
    entry: Option<CacheView>,
    api_key: Option<Seq<char>>,
    recommended: Seq<Seq<char>>,
    refresh: bool,
    now: u64,
    ttl: u64,
) -> PlanView {
    match usable_key(api_key) {
        None => PlanView::Answer(recommended_only(recommended, None)),
        Some(key) => match entry {
            Some(e) if !refresh && fresh(e, fingerprint(key), now, ttl) => PlanView::Answer(
                layered(recommended, e.models, CatalogSource::Cache, e.fetched_at, None),
            ),
            _ => PlanView::Fetch { api_key: key, key_fingerprint: fingerprint(key) },
        },
    }
}

/// The second half of the ladder: what the fetch came to, or else a stale
/// entry of the same key, or else the recommended list.
pub open spec fn settle(
    entry: Option<CacheView>,
    key_fp: Seq<char>,
    recommended: Seq<Seq<char>>,
    now: u64,
    reply: Result<Seq<Seq<char>>, Seq<char>>,
) -> CatalogView {
    match reply {
        Ok(models) => layered(recommended, models, CatalogSource::Fetched, now, None),
        Err(e) => match entry {
            Some(stale) if stale.key_fingerprint == key_fp => layered(
                recommended,
                stale.models,
                CatalogSource::StaleCache,
                stale.fetched_at,
                Some(e),
            ),
            _ => recommended_only(recommended, Some(e)),
        },
    }
}

/// The view of a provider's reply.
pub open spec fn reply_view(r: Result<Vec<String>, String>) -> Result<Seq<Seq<char>>, Seq<char>> {
    match r {
        Ok(m) => Ok(views(m@)),
        Err(e) => Err(e@),
    }
}

/// Finds a provider's catalog without asking the provider, or says which key
/// to ask it with. `refresh` asks even when the cache is current.
pub fn plan_catalog(
    provider_key: &str,
    api_key: Option<&str>,
    recommended: &Vec<String>,
    cache: &CacheFile,
    refresh: bool,
    now: u64,
    ttl: u64,
) -> (r: CatalogPlan)
    requires
        cache.wf(),
    ensures
        r@ == plan(
            entry_of(cache@, provider_key@),
            opt_view(api_key),
            views(recommended@),
            refresh,
            now,
            ttl,
        ),
{
    let key = match api_key {
        Some(k) => trimmed(k),
        None => "",
    };
    if api_key.is_none() || key.is_empty() {
        return CatalogPlan::Answer(curated(copy_strings(recommended), None));
    }
    let fp = key_fingerprint(key);
    if !refresh {
        if let Some(hit) = cache.get(provider_key) {
            if is_fresh(hit, fp.as_str(), now, ttl) {
                return CatalogPlan::Answer(
                    Catalog {
                        recommended: copy_strings(recommended),
                        fetched: without(&hit.models, recommended),
                        source: CatalogSource::Cache,
                        fetched_at: Some(hit.fetched_at),
                        error: None,
                    },
                );
            }
        }
    }
    CatalogPlan::Fetch { api_key: key.to_owned(), key_fingerprint: fp }
}

/// Finds a provider's catalog once the provider was asked. A list that came is
/// entered into the cache; a failure leaves the cache as it is.
pub fn settle_catalog(
    provider_key: &str,
    key_fp: String,
    recommended: &Vec<String>,
    cache: &mut CacheFile,
    now: u64,
    reply: Result<Vec<String>, String>,
) -> (r: Catalog)
    requires
        old(cache).wf(),
    ensures
        final(cache).wf(),
        r@ == settle(
            entry_of(old(cache)@, provider_key@),
            key_fp@,
            views(recommended@),
            now,
            reply_view(reply),
        ),
        match reply_view(reply) {
            Ok(models) => {
                &&& entry_of(final(cache)@, provider_key@) == Some(
                    CacheView { fetched_at: now, key_fingerprint: key_fp@, models },
                )
                &&& final(cache)@.remove(provider_key@) == old(cache)@.remove(provider_key@)
            },
            Err(_) => final(cache)@ == old(cache)@,
        },
{
    match reply {
        Ok(models) => {
            let entry = ProviderCache {
                fetched_at: now,
                key_fingerprint: key_fp,
                models: copy_strings(&models),
            };
            cache.insert(provider_key, entry);
            assert(cache@.remove(provider_key@) =~= old(cache)@.remove(provider_key@));
            Catalog {
                recommended: copy_strings(recommended),
                fetched: without(&models, recommended),
                source: CatalogSource::Fetched,
                fetched_at: Some(now),
                error: None,
            }
        },
        Err(e) => {
            if let Some(stale) = cache.get(provider_key) {
                if text_eq(stale.key_fingerprint.as_str(), key_fp.as_str()) {
                    return Catalog {
                        recommended: copy_strings(recommended),
                        fetched: without(&stale.models, recommended),
                        source: CatalogSource::StaleCache,
                        fetched_at: Some(stale.fetched_at),
                        error: Some(e),
                    };
                }
            }
            curated(copy_strings(recommended), Some(e))
        },
    }
}

/// Every catalog carries the recommended list as it is and repeats none of it
/// among the fetched entries.
pub proof fn recommended_is_never_repeated(
    entry: Option<CacheView>,
    api_key: Option<Seq<char>>,
    key_fp: Seq<char>,
    recommended: Seq<Seq<char>>,
    refresh: bool,
    now: u64,
    ttl: u64,
    reply: Result<Seq<Seq<char>>, Seq<char>>,
    model: Seq<char>,
)
    ensures
        plan(entry, api_key, recommended, refresh, now, ttl) matches PlanView::Answer(c)
            ==> c.recommended == recommended && !(recommended.contains(model)
            && c.fetched.contains(model)),
        ({
            let c = settle(entry, key_fp, recommended, now, reply);
            c.recommended == recommended && !(recommended.contains(model) && c.fetched.contains(
                model,
            ))
        }),
{
    assert forall|models: Seq<Seq<char>>| #[trigger]
        excluding(models, recommended).contains(model) implies !recommended.contains(model) by {
        broadcast use vstd::seq_lib::group_filter_ensures;

        let keep = |m: Seq<char>| !recommended.contains(m);
        let i = choose|i: int|
            0 <= i < excluding(models, recommended).len() && excluding(models, recommended)[i]
                == model;
        assert(keep(models.filter(keep)[i]));
    }
}

/// A list fetched with another key is never shown: neither while it is current
/// nor when the fetch fails.
pub proof fn other_keys_list_is_never_used(
    entry: CacheView,
    key: Seq<char>,
    recommended: Seq<Seq<char>>,
    refresh: bool,
    now: u64,
    ttl: u64,
    error: Seq<char>,
)
    requires
        trim(key).len() > 0,
        entry.key_fingerprint != fingerprint(trim(key)),
    ensures
        plan(Some(entry), Some(key), recommended, refresh, now, ttl) is Fetch,
        settle(Some(entry), fingerprint(trim(key)), recommended, now, Err(error))
            == recommended_only(recommended, Some(error)),
{
}

/// A list that was just fetched answers the next request with the same key and
/// for the same provider, until its time has passed.
pub proof fn fetched_list_is_served_again(
    key: Seq<char>,
    recommended: Seq<Seq<char>>,
    models: Seq<Seq<char>>,
    fetched_at: u64,
    now: u64,
    ttl: u64,
)
    requires
        trim(key).len() > 0,
        fetched_at <= now < fetched_at + ttl,
    ensures
        ({
            let entry = CacheView {
                fetched_at,
                key_fingerprint: fingerprint(trim(key)),
                models,
            };
            let first = settle(
                None,
                fingerprint(trim(key)),
                recommended,
                fetched_at,
                Ok(models),
            );
            plan(Some(entry), Some(key), recommended, false, now, ttl) == PlanView::Answer(
                CatalogView { source: CatalogSource::Cache, ..first },
            )
        }),
{
}

/// A missing or blank key is never an error and never leads to a fetch.
pub proof fn no_key_means_no_fetch(
    entry: Option<CacheView>,
    api_key: Option<Seq<char>>,
    recommended: Seq<Seq<char>>,
    refresh: bool,
    now: u64,
    ttl: u64,
)
    requires
        api_key matches Some(k) ==> trim(k).len() == 0,
    ensures
        plan(entry, api_key, recommended, refresh, now, ttl) == PlanView::Answer(
            recommended_only(recommended, None),
        ),
{
}

/// A refresh with a key always asks the provider.
pub proof fn refresh_always_fetches(
    entry: Option<CacheView>,
    key: Seq<char>,
    recommended: Seq<Seq<char>>,
    now: u64,
    ttl: u64,
)
    requires
        trim(key).len() > 0,
    ensures
        plan(entry, Some(key), recommended, true, now, ttl) == (PlanView::Fetch {
            api_key: trim(key),
            key_fingerprint: fingerprint(trim(key)),
        }),
{
}

} // verus!
