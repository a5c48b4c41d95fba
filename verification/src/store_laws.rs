//! Laws of the places where configuration and secrets lie.
use vstd::prelude::*;

use crate::dotenv::{config_env_path, load_error, report, ConfigLoad, Loaded};
use crate::model_catalog::{cache_path, Catalog, CatalogSource};
use crate::paths::{config_dir, config_file, AppPath, DirectoryEnv, Platform};
use crate::secrets::{
    cloud_api_key_account, read_outcome, stored, write_outcome, write_verb, KeyringFault,
    KeyringVerb, NullStore, SecretStore,
};
use crate::text::views;
use crate::web::llm::{
    cloud_provider_def, has_key, has_secret, is_first_with_key, plan_models, CloudProviderDef,
    CloudProviderInfo, ModelsPlan,
};

verus! {

/// The configuration directory lies in the user's library on macOS, below the
/// application data on Windows, and elsewhere below the configuration home or,
/// without one, in the user's home. Where none is known, there is none.
pub proof fn config_directories<B>(platform: Platform, env: DirectoryEnv<B>, r: Option<AppPath<B>>)
    requires
        call_ensures(config_dir::<B>, (platform, env), r),
    ensures
        ({
            let mac = platform == Platform::MacOs;
            let windows = platform == Platform::Windows;
            let other = platform == Platform::Other;
            let xdg = env.xdg_config_home is Some;
            let at = |base: B, parts: Seq<Seq<char>>|
                r is Some && r->0.base == base && views(r->0.segments@) == parts;
            &&& mac && env.home is Some ==> at(
                env.home->0,
                seq!["Library"@, "Application Support"@, "rezon-tui"@],
            )
            &&& windows && env.appdata is Some ==> at(env.appdata->0, seq!["rezon-tui"@])
            &&& other && xdg ==> at(env.xdg_config_home->0, seq!["rezon-tui"@])
            &&& other && !xdg && env.home is Some ==> at(
                env.home->0,
                seq![".config"@, "rezon-tui"@],
            )
            &&& r is None <==> (mac && env.home is None || windows && env.appdata is None || other
                && !xdg && env.home is None)
        }),
{
}

/// A configuration file lies directly in the configuration directory, and
/// there is none exactly when there is no such directory.
pub proof fn config_files_lie_in_the_directory<B>(
    name: &str,
    platform: Platform,
    env: DirectoryEnv<B>,
    dir: Option<AppPath<B>>,
    r: Option<AppPath<B>>,
    dotenv: Option<AppPath<B>>,
    cache: Option<AppPath<B>>,
)
    requires
        call_ensures(config_dir::<B>, (platform, env), dir),
        call_ensures(config_file::<B>, (name, platform, env), r),
        call_ensures(config_env_path::<B>, (platform, env), dotenv),
        call_ensures(cache_path::<B>, (platform, env), cache),
    ensures
        match dir {
            Some(d) => {
                &&& r is Some && r->0.base == d.base && views(r->0.segments@) == views(
                    d.segments@,
                ).push(name@)
                &&& dotenv is Some && dotenv->0.base == d.base && views(dotenv->0.segments@)
                    == views(d.segments@).push(".env"@)
                &&& cache is Some && cache->0.base == d.base && views(cache->0.segments@)
                    == views(d.segments@).push("model-cache.json"@)
            },
            None => r is None && dotenv is None && cache is None,
        },
{
}

/// What was loaded is reported: the nearest file first, then the configured
/// one, when it is a file and could be loaded.
pub proof fn loads_are_reported_in_order<P>(
    nearest: Option<P>,
    config: Option<ConfigLoad<P>>,
    r: Loaded<P>,
)
    requires
        call_ensures(report::<P>, (nearest, config), r),
    ensures
        ({
            let second = config is Some && config->0.is_file && config->0.loaded;
            &&& r.paths@.len() == (if nearest is Some {
                1int
            } else {
                0
            }) + (if second {
                1int
            } else {
                0
            })
            &&& nearest is Some ==> r.paths@[0] == nearest->0
            &&& second ==> r.paths@.last() == config->0.path
        }),
{
}

/// A file that could not be loaded is named, with the reason.
pub proof fn failed_loads_are_named(path: &str, error: &str, r: String)
    requires
        call_ensures(load_error, (path, error), r),
    ensures
        r@ == "load "@ + path@ + ": "@ + error@,
{
}

/// A provider's key lies under the provider's own account.
pub proof fn accounts_name_the_provider(provider: &str, r: String)
    requires
        call_ensures(cloud_api_key_account, (provider,), r),
    ensures
        r@ == "api_key:"@ + provider@,
{
}

/// A secret that was read is given out as it is; one that is not there is no
/// failure; any other refusal is told with the account and the reason.
pub proof fn reads_come_to_this(
    account: &str,
    reply: Result<String, KeyringFault>,
    r: Result<Option<String>, String>,
)
    requires
        call_ensures(read_outcome, (account, reply), r),
    ensures
        match reply {
            Ok(s) => r == Ok::<Option<String>, String>(Some(s)),
            Err(KeyringFault::NoEntry(_)) => r == Ok::<Option<String>, String>(None),
            Err(KeyringFault::Open(e)) => r is Err && r->Err_0@ == "keyring: "@ + e@,
            Err(KeyringFault::Other(e)) => r is Err && r->Err_0@ == "keyring "@ + "get"@ + " "@
                + account@ + ": "@ + e@,
        },
{
}

/// Writing nothing deletes. What was written or deleted is no failure, nor is
/// deleting what is not there; any other refusal is told with what was tried,
/// the account and the reason.
pub proof fn writes_come_to_this(
    value: &str,
    verb: KeyringVerb,
    account: &str,
    reply: Result<(), KeyringFault>,
    r: Result<(), String>,
)
    requires
        call_ensures(write_verb, (value,), verb),
        call_ensures(write_outcome, (verb, account, reply), r),
    ensures
        ({
            let word = if value@.len() == 0 {
                "delete"@
            } else {
                "set"@
            };
            match reply {
                Ok(_) => r is Ok,
                Err(KeyringFault::Open(e)) => r is Err && r->Err_0@ == "keyring: "@ + e@,
                Err(KeyringFault::NoEntry(e)) => if value@.len() == 0 {
                    r is Ok
                } else {
                    r is Err && r->Err_0@ == "keyring "@ + "set"@ + " "@ + account@ + ": "@ + e@
                },
                Err(KeyringFault::Other(e)) => r is Err && r->Err_0@ == "keyring "@ + word + " "@
                    + account@ + ": "@ + e@,
            }
        }),
{
}

/// A store that failed has no secret; one that answered has what it said, and
/// whether there is a secret is told without it.
pub proof fn failed_stores_have_no_secret(
    outcome: Result<Option<String>, String>,
    r: Option<String>,
    has: Result<bool, String>,
)
    requires
        call_ensures(stored, (outcome,), r),
        call_ensures(has_secret, (outcome,), has),
    ensures
        outcome matches Ok(s) ==> r == s && has == Ok::<bool, String>(s is Some),
        outcome matches Err(e) ==> r is None && has == Err::<bool, String>(e),
{
}

/// A provider is found by its key whenever there is one, and the first of
/// several is.
pub proof fn providers_are_found_by_their_keys(
    defs: Vec<CloudProviderDef>,
    key: &str,
    r: Option<&CloudProviderDef>,
    i: int,
)
    requires
        call_ensures(cloud_provider_def, (&defs, key), r),
        0 <= i < defs@.len(),
        defs@[i].key@ == key@,
    ensures
        r is Some,
        r->0.key@ == key@,
        (forall|j: int| 0 <= j < i ==> (#[trigger] defs@[j]).key@ != key@) ==> *r->0 == defs@[i],
{
    assert(has_key(defs@, key@));
    if let Some(d) = r {
        let k = choose|k: int| #[trigger] is_first_with_key(defs@, key@, k) && defs@[k] == *d;
        if k < i {
            assert(defs@[k].key@ == key@);
        } else if i < k {
            assert(defs@[i].key@ != key@);
        }
    }
}

/// The settings page is told what is known of a provider, but for its address;
/// one that the user configures counts as having a key.
pub proof fn settings_show_the_provider(p: CloudProviderDef, key_found: bool, r: CloudProviderInfo)
    requires
        call_ensures(CloudProviderInfo::from_def, (&p, key_found), r),
    ensures
        r.key@ == p.key@,
        r.label@ == p.label@,
        r.env_var@ == p.env_var@,
        r.default_model@ == p.default_model@,
        views(r.recommended_models@) == views(p.recommended_models@),
        r.user_configurable == p.user_configurable,
        p.user_configurable ==> r.api_key_set,
        !p.user_configurable ==> r.api_key_set == key_found,
{
}

/// Whether a catalog is this curated list alone.
pub open spec fn is_curated(c: Catalog, recommended: Seq<Seq<char>>) -> bool {
    &&& views(c.recommended@) == recommended
    &&& c.fetched@.len() == 0
    &&& c.source == CatalogSource::RecommendedOnly
    &&& c.fetched_at is None
}

/// Planning a model list never fails. An unknown provider has an empty list
/// and is named; one without an address of its own has its curated list; any
/// other is asked at its address, with its own key.
pub proof fn model_lists_are_planned(
    provider: &str,
    def: Option<&CloudProviderDef>,
    r: Result<ModelsPlan, String>,
)
    requires
        call_ensures(plan_models, (provider, def), r),
    ensures
        r is Ok,
        def is None ==> (r->Ok_0 matches ModelsPlan::Answer(c) && is_curated(c, Seq::empty())
            && c.error is Some && c.error->0@ == "unknown provider: "@ + provider@),
        def matches Some(d) ==> {
            if d.user_configurable || d.base_url@.len() == 0 {
                r->Ok_0 matches ModelsPlan::Answer(c) && is_curated(
                    c,
                    views(d.recommended_models@),
                ) && c.error is None
            } else {
                r->Ok_0 matches ModelsPlan::Resolve { key, base_url, recommended } && key@
                    == d.key@ && base_url@ == d.base_url@ && views(recommended@) == views(
                    d.recommended_models@,
                )
            }
        },
{
    if let Ok(ModelsPlan::Answer(c)) = r {
        assert(c@.fetched.len() == c.fetched@.len());
        assert(c@.recommended == views(c.recommended@));
        assert(c@.source == c.source && c@.fetched_at == c.fetched_at);
    }
}

/// The name of a file is the last segment of its path.
pub proof fn file_names_come_last<B>(p: AppPath<B>, r: Option<&String>)
    requires
        call_ensures(AppPath::<B>::file_name, (&p,), r),
    ensures
        r is Some <==> p.segments@.len() > 0,
        r is Some ==> r->0@ == p.segments@.last()@,
{
    assert(p.parts().len() == p.segments@.len());
    if p.segments@.len() > 0 {
        assert(p.parts().last() == p.segments@.last()@);
    }
}

/// The empty store has nothing under any account.
pub proof fn empty_stores_have_nothing(account: &str, r: Option<String>)
    requires
        call_ensures(NullStore::get, (&NullStore, account), r),
    ensures
        r is None,
{
}

} // verus!
