//! Per-platform application directories.
//!
//! The application id is `rezon-tui` for historical reasons; it is also the
//! keyring service name. Changing it would orphan existing configuration and
//! secrets.
use vstd::prelude::*;

use crate::text::{views, views_push};

verus! {

/// Application identifier, used as the directory name and as the keyring
/// service name. Stable across versions.
pub const APP_ID: &'static str = "rezon-tui";

/// The platforms that lay out their directories differently.
#[derive(Debug, Clone, Copy, PartialEq, Eq, Structural)]
pub enum Platform {
    MacOs,
    Windows,
    Other,
}

/// A path made of a base, taken from the environment as it is, and of the
/// segments that are joined to it one after the other.
#[derive(Debug)]
pub struct AppPath<B> {
    pub base: B,
    pub segments: Vec<String>,
}

impl<B> AppPath<B> {
    /// The segments as text.
    pub open spec fn parts(&self) -> Seq<Seq<char>> {
        views(self.segments@)
    }

    /// The last segment.
    pub fn file_name(&self) -> (r: Option<&String>)
        ensures
            match r {
                Some(s) => self.parts().len() > 0 && s@ == self.parts().last(),
                None => self.parts().len() == 0,
            },
    {
        if self.segments.len() == 0 {
            None
        } else {
            Some(&self.segments[self.segments.len() - 1])
        }
    }
}

/// What the environment says about the user's directories.
#[derive(Debug)]
pub struct DirectoryEnv<B> {
    /// `HOME`.
    pub home: Option<B>,
    /// `APPDATA`.
    pub appdata: Option<B>,
    /// `XDG_CONFIG_HOME`.
    pub xdg_config_home: Option<B>,
}

/// The base of the configuration directory and the segments below it.
pub open spec fn config_location<B>(platform: Platform, env: DirectoryEnv<B>) -> Option<
    (B, Seq<Seq<char>>),
> {
    match platform {
        Platform::MacOs => match env.home {
            Some(h) => Some((h, seq!["Library"@, "Application Support"@, APP_ID@])),
            None => None,
        },
        Platform::Windows => match env.appdata {
            Some(a) => Some((a, seq![APP_ID@])),
            None => None,
        },
        Platform::Other => match env.xdg_config_home {
            Some(x) => Some((x, seq![APP_ID@])),
            None => match env.home {
                Some(h) => Some((h, seq![".config"@, APP_ID@])),
                None => None,
            },
        },
    }
}

fn one(a: &str) -> (r: Vec<String>)
    ensures
        views(r@) == seq![a@],
{
    let mut v: Vec<String> = Vec::new();
    v.push(a.to_owned());
    assert(views(v@) =~= seq![a@]);
    v
}

/// Configuration directory for the current user, or `None` when no home or
/// configuration location is known. It is not created.
pub fn config_dir<B>(platform: Platform, env: DirectoryEnv<B>) -> (r: Option<AppPath<B>>)
    ensures
        match r {
            Some(p) => config_location(platform, env) == Some((p.base, p.parts())),
            None => config_location(platform, env) is None,
        },
{
    broadcast use views_push;

    match platform {
        Platform::MacOs => match env.home {
            Some(h) => {
                let mut segments = one("Library");
                segments.push("Application Support".to_owned());
                segments.push(APP_ID.to_owned());
                assert(views(segments@) =~= seq!["Library"@, "Application Support"@, APP_ID@]);
                Some(AppPath { base: h, segments })
            },
            None => None,
        },
        Platform::Windows => match env.appdata {
            Some(a) => Some(AppPath { base: a, segments: one(APP_ID) }),
            None => None,
        },
        Platform::Other => match env.xdg_config_home {
            Some(x) => Some(AppPath { base: x, segments: one(APP_ID) }),
            None => match env.home {
                Some(h) => {
                    let mut segments = one(".config");
                    segments.push(APP_ID.to_owned());
                    assert(views(segments@) =~= seq![".config"@, APP_ID@]);
                    Some(AppPath { base: h, segments })
                },
                None => None,
            },
        },
    }
}

/// Where the file `name` of the configuration directory lies.
pub open spec fn file_location<B>(
    name: Seq<char>,
    platform: Platform,
    env: DirectoryEnv<B>,
) -> Option<(B, Seq<Seq<char>>)> {
    match config_location(platform, env) {
        Some((base, parts)) => Some((base, parts.push(name))),
        None => None,
    }
}

/// The file `name` in the configuration directory, or `None` when there is no
/// such directory.
pub fn config_file<B>(name: &str, platform: Platform, env: DirectoryEnv<B>) -> (r: Option<
    AppPath<B>,
>)
    ensures
        match r {
            Some(p) => file_location(name@, platform, env) == Some((p.base, p.parts())),
            None => file_location(name@, platform, env) is None,
        },
{
    match config_dir(platform, env) {
        Some(dir) => {
            let mut p = dir;
            let ghost before = p.parts();
            p.segments.push(name.to_owned());
            assert(p.parts() =~= before.push(name@));
            Some(p)
        },
        None => None,
    }
}

/// Every configuration file lies directly in a directory named after the
/// application.
pub proof fn config_files_lie_in_the_app_directory<B>(
    name: Seq<char>,
    platform: Platform,
    env: DirectoryEnv<B>,
)
    ensures
        file_location(name, platform, env) matches Some((_, parts)) ==> parts.len() >= 2
            && parts.last() == name && parts[parts.len() - 2] == APP_ID@,
{
}

} // verus!
