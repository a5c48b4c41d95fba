//! Stored credentials: how accounts are named, and what the answers of the
//! credential store mean.
//!
//! Accounts are named `<purpose>:<scope>`; a cloud provider's API key lies
//! under `api_key:<provider>`. Renaming an account orphans what was saved
//! under the old name.
use vstd::prelude::*;


verus! {

/// Service identifier given to the credential store. Stable across versions.
pub const SERVICE: &'static str = "rezon-tui";

/// The account of a cloud provider's API key.
pub open spec fn api_key_account(provider_key: Seq<char>) -> Seq<char> {
    "api_key:"@ + provider_key
}

/// Account name for a cloud provider's API key.
pub fn cloud_api_key_account(provider_key: &str) -> (r: String)
    ensures
        r@ == api_key_account(provider_key@),
{
    let mut s = "api_key:".to_owned();
    s.append(provider_key);
    s
}

/// Different providers have different accounts.
pub proof fn accounts_are_distinct(a: Seq<char>, b: Seq<char>)
    requires
        api_key_account(a) == api_key_account(b),
    ensures
        a == b,
{
    let n = "api_key:"@.len() as int;
    assert(a =~= api_key_account(a).skip(n));
    assert(b =~= api_key_account(b).skip(n));
}

/// Read-only view of stored secrets.
pub trait SecretStore {
    /// A secret, or `None` when there is none. A store that cannot answer says
    /// `None` as well: the next source is asked then.
    fn get(&self, account: &str) -> Option<String>;
}

/// A store that never has anything.
pub struct NullStore;

impl SecretStore for NullStore {
    fn get(&self, account: &str) -> (r: Option<String>)
        ensures
            r is None,
    {
        None
    }
}

/// How a credential store can refuse. Each variant carries the store's own
/// message.
#[derive(Debug)]
pub enum KeyringFault {
    /// The store could not be reached.
    Open(String),
    /// There is no such entry.
    NoEntry(String),
    /// Anything else: a corrupt store, denied access.
    Other(String),
}

/// Mathematical form of a [`KeyringFault`].
pub enum FaultView {
    Open(Seq<char>),
    NoEntry(Seq<char>),
    Other(Seq<char>),
}

impl View for KeyringFault {
    type V = FaultView;

    open spec fn view(&self) -> FaultView {
        match self {
            KeyringFault::Open(e) => FaultView::Open(e@),
            KeyringFault::NoEntry(e) => FaultView::NoEntry(e@),
            KeyringFault::Other(e) => FaultView::Other(e@),
        }
    }
}

/// What the store was asked to do.
#[derive(Debug, Clone, Copy, PartialEq, Eq, Structural)]
pub enum KeyringVerb {
    Read,
    Write,
    Delete,
}

/// The word for it in messages.
pub open spec fn verb_word(verb: KeyringVerb) -> Seq<char> {
    match verb {
        KeyringVerb::Read => "get"@,
        KeyringVerb::Write => "set"@,
        KeyringVerb::Delete => "delete"@,
    }
}

/// The message of a refusal.
pub open spec fn fault_message(verb: KeyringVerb, account: Seq<char>, fault: FaultView) -> Seq<
    char,
> {
    match fault {
        FaultView::Open(e) => "keyring: "@ + e,
        FaultView::NoEntry(e) => "keyring "@ + verb_word(verb) + " "@ + account + ": "@ + e,
        FaultView::Other(e) => "keyring "@ + verb_word(verb) + " "@ + account + ": "@ + e,
    }
}

fn describe(verb: KeyringVerb, account: &str, fault: KeyringFault) -> (r: String)
    ensures
        r@ == fault_message(verb, account@, fault@),
{
    match fault {
        KeyringFault::Open(e) => {
            let mut s = "keyring: ".to_owned();
            s.append(e.as_str());
            s
        },
        KeyringFault::NoEntry(e) | KeyringFault::Other(e) => {
            let mut s = "keyring ".to_owned();
            s.append(
                match verb {
                    KeyringVerb::Read => "get",
                    KeyringVerb::Write => "set",
                    KeyringVerb::Delete => "delete",
                },
            );
            s.append(" ");
            s.append(account);
            s.append(": ");
            s.append(e.as_str());
            s
        },
    }
}

/// What a read came to: the secret, nothing when there is no entry, or the
/// message of a store that failed.
pub fn read_outcome(account: &str, reply: Result<String, KeyringFault>) -> (r: Result<
    Option<String>,
    String,
>)
    ensures
        match reply {
            Ok(s) => r == Ok::<Option<String>, String>(Some(s)),
            Err(KeyringFault::NoEntry(_)) => r == Ok::<Option<String>, String>(None),
            Err(f) => r matches Err(e) && e@ == fault_message(KeyringVerb::Read, account@, f@),
        },
{
    match reply {
        Ok(s) => Ok(Some(s)),
        Err(KeyringFault::NoEntry(_)) => Ok(None),
        Err(f) => Err(describe(KeyringVerb::Read, account, f)),
    }
}

/// What writing `value` asks of the store: an empty value deletes.
pub fn write_verb(value: &str) -> (r: KeyringVerb)
    ensures
        r == (if value@.len() == 0 {
            KeyringVerb::Delete
        } else {
            KeyringVerb::Write
        }),
{
    if value.is_empty() {
        KeyringVerb::Delete
    } else {
        KeyringVerb::Write
    }
}

/// What a write or a delete came to. Deleting what is not there succeeds.
pub fn write_outcome(verb: KeyringVerb, account: &str, reply: Result<(), KeyringFault>) -> (r:
    Result<(), String>)
    ensures
        match reply {
            Ok(_) => r is Ok,
            Err(f) => if verb == KeyringVerb::Delete && f is NoEntry {
                r is Ok
            } else {
                r matches Err(e) && e@ == fault_message(verb, account@, f@)
            },
        },
{
    match reply {
        Ok(_) => Ok(()),
        Err(f) => {
            if verb == KeyringVerb::Delete && matches!(f, KeyringFault::NoEntry(_)) {
                Ok(())
            } else {
                Err(describe(verb, account, f))
            }
        },
    }
}

/// What key resolution sees of a read: a failed store has no secret.
pub fn stored(outcome: Result<Option<String>, String>) -> (r: Option<String>)
    ensures
        r == (match outcome {
            Ok(s) => s,
            Err(_) => None,
        }),
{
    match outcome {
        Ok(s) => s,
        Err(_) => None,
    }
}

} // verus!
