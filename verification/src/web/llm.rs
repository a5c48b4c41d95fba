//! The cloud providers as the settings page sees them, and where their model
//! lists come from.
use vstd::prelude::*;

use crate::model_catalog::{curated, recommended_only, Catalog};
use crate::text::{copy_strings, prefixed, text_eq, views};

verus! {

/// What is known about a cloud provider.
#[derive(Debug)]
pub struct CloudProviderDef {
    pub key: String,
    pub label: String,
    pub env_var: String,
    pub base_url: String,
    pub default_model: String,
    pub recommended_models: Vec<String>,
    pub user_configurable: bool,
}

/// What the settings page is told about a cloud provider.
#[derive(Debug)]
pub struct CloudProviderInfo {
    pub key: String,
    pub label: String,
    pub env_var: String,
    pub default_model: String,
    pub recommended_models: Vec<String>,
    pub api_key_set: bool,
    pub user_configurable: bool,
}

impl CloudProviderInfo {
    /// `key_found` says whether a key was found where keys are looked for. A
    /// provider that the user configures counts as having one.
    pub fn from_def(p: &CloudProviderDef, key_found: bool) -> (r: CloudProviderInfo)
        ensures
            r.key == p.key,
            r.label == p.label,
            r.env_var == p.env_var,
            r.default_model == p.default_model,
            r.recommended_models@ == p.recommended_models@,
            r.api_key_set == (p.user_configurable || key_found),
            r.user_configurable == p.user_configurable,
    {
        CloudProviderInfo {
            key: p.key.clone(),
            label: p.label.clone(),
            env_var: p.env_var.clone(),
            default_model: p.default_model.clone(),
            recommended_models: copy_strings(&p.recommended_models),
            api_key_set: p.user_configurable || key_found,
            user_configurable: p.user_configurable,
        }
    }
}

/// Whether `i` is the first provider with this key.
pub open spec fn is_first_with_key(defs: Seq<CloudProviderDef>, key: Seq<char>, i: int) -> bool {
    &&& 0 <= i < defs.len()
    &&& defs[i].key@ == key
    &&& forall|j: int| 0 <= j < i ==> (#[trigger] defs[j]).key@ != key
}

/// Whether there is a provider with this key.
pub open spec fn has_key(defs: Seq<CloudProviderDef>, key: Seq<char>) -> bool {
    exists|i: int| 0 <= i < defs.len() && (#[trigger] defs[i]).key@ == key
}

/// Finds a provider by its key.
pub fn cloud_provider_def<'a>(defs: &'a Vec<CloudProviderDef>, key: &str) -> (r: Option<
    &'a CloudProviderDef,
>)
    ensures
        match r {
            Some(d) => exists|i: int| #[trigger] is_first_with_key(defs@, key@, i) && defs@[i] == *d,
            None => forall|i: int| 0 <= i < defs@.len() ==> (#[trigger] defs@[i]).key@ != key@,
        },
        r is Some <==> has_key(defs@, key@),
{
    let mut i: usize = 0;
    while i < defs.len()
        invariant
            i <= defs.len(),
            forall|j: int| 0 <= j < i ==> (#[trigger] defs@[j]).key@ != key@,
        decreases defs.len() - i,
    {
        if text_eq(defs[i].key.as_str(), key) {
            assert(is_first_with_key(defs@, key@, i as int));
            return Some(&defs[i]);
        }
        i = i + 1;
    }
    None
}

/// How the model list of a provider is found.
#[derive(Debug)]
pub enum ModelsPlan {
    /// It is here already.
    Answer(Catalog),
    /// It is to be resolved with the provider's key, at its base URL.
    Resolve { key: String, base_url: String, recommended: Vec<String> },
}

/// Plans where a provider's model list comes from. It never fails: of an
/// unknown provider there is an empty list, with the reason as its error. One
/// that the user configures has no base URL of its own, so its curated list is
/// all there is.
pub fn plan_models(provider: &str, def: Option<&CloudProviderDef>) -> (r: Result<
    ModelsPlan,
    String,
>)
    ensures
        match def {
            None => r matches Ok(ModelsPlan::Answer(c)) && c@ == recommended_only(
                Seq::empty(),
                Some("unknown provider: "@ + provider@),
            ),
            Some(d) => if d.user_configurable || d.base_url@.len() == 0 {
                r matches Ok(ModelsPlan::Answer(c)) && c@ == recommended_only(
                    views(d.recommended_models@),
                    None,
                )
            } else {
                r matches Ok(ModelsPlan::Resolve { key, base_url, recommended }) && key == d.key
                    && base_url == d.base_url && recommended@ == d.recommended_models@
            },
        },
{
    let d = match def {
        Some(d) => d,
        None => {
            let text = prefixed("unknown provider: ", provider);
            let none: Vec<String> = Vec::new();
            assert(views(none@) =~= Seq::empty());
            return Ok(ModelsPlan::Answer(curated(none, Some(text))));
        },
    };
    if d.user_configurable || d.base_url.as_str().is_empty() {
        return Ok(ModelsPlan::Answer(curated(copy_strings(&d.recommended_models), None)));
    }
    Ok(
        ModelsPlan::Resolve {
            key: d.key.clone(),
            base_url: d.base_url.clone(),
            recommended: copy_strings(&d.recommended_models),
        },
    )
}

/// Whether a secret exists, without revealing it.
pub fn has_secret(outcome: Result<Option<String>, String>) -> (r: Result<bool, String>)
    ensures
        match outcome {
            Ok(s) => r == Ok::<bool, String>(s is Some),
            Err(e) => r == Err::<bool, String>(e),
        },
{
    match outcome {
        Ok(s) => Ok(s.is_some()),
        Err(e) => Err(e),
    }
}

} // verus!
