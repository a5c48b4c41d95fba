//! Which `.env` files are loaded, and in which order.
//!
//! Two locations are consulted, both optional: the nearest `.env` walking up
//! from the current directory, and the one in the configuration directory.
//! The first is loaded first, so that it takes precedence.
use vstd::prelude::*;

use crate::paths::{config_file, file_location, AppPath, DirectoryEnv, Platform};

verus! {

/// Where a packaged build looks for its `.env`; `None` when there is no
/// configuration directory.
pub fn config_env_path<B>(platform: Platform, env: DirectoryEnv<B>) -> (r: Option<AppPath<B>>)
    ensures
        match r {
            Some(p) => file_location(".env"@, platform, env) == Some((p.base, p.parts())),
            None => file_location(".env"@, platform, env) is None,
        },
{
    config_file(".env", platform, env)
}

/// The `.env` files that were loaded. None at all means that the environment
/// is whatever the launcher provided.
#[derive(Debug)]
pub struct Loaded<P> {
    pub paths: Vec<P>,
}

/// The answer of a load from the configuration directory.
#[derive(Debug)]
pub struct ConfigLoad<P> {
    pub path: P,
    /// Whether a regular file lies there.
    pub is_file: bool,
    /// Whether loading it succeeded.
    pub loaded: bool,
}

/// Reports what was loaded: the file found from the current directory, when
/// that succeeded, then the one of the configuration directory, when it is a
/// file that could be loaded.
pub fn report<P>(nearest: Option<P>, config: Option<ConfigLoad<P>>) -> (r: Loaded<P>)
    ensures
        r.paths@ == (match nearest {
            Some(p) => seq![p],
            None => Seq::empty(),
        }) + (match config {
            Some(c) => if c.is_file && c.loaded {
                seq![c.path]
            } else {
                Seq::empty()
            },
            None => Seq::empty(),
        }),
{
    let mut paths: Vec<P> = Vec::new();
    if let Some(p) = nearest {
        paths.push(p);
    }
    if let Some(c) = config {
        if c.is_file && c.loaded {
            paths.push(c.path);
        }
    }
    Loaded { paths }
}

/// The message of a file that could not be loaded.
pub fn load_error(path: &str, error: &str) -> (r: String)
    ensures
        r@ == "load "@ + path@ + ": "@ + error@,
{
    let mut s = "load ".to_owned();
    s.append(path);
    s.append(": ");
    s.append(error);
    s
}

} // verus!
