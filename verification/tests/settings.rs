use rezon::dotenv::{config_env_path, load_error, report, ConfigLoad};
use rezon::paths::{config_dir, config_file, AppPath, DirectoryEnv, Platform, APP_ID};
use rezon::secrets::{
    cloud_api_key_account, read_outcome, stored, write_outcome, write_verb, KeyringFault,
    KeyringVerb, NullStore, SecretStore, SERVICE,
};

fn env(
    home: Option<&str>,
    appdata: Option<&str>,
    xdg: Option<&str>,
) -> DirectoryEnv<String> {
    DirectoryEnv {
        home: home.map(str::to_string),
        appdata: appdata.map(str::to_string),
        xdg_config_home: xdg.map(str::to_string),
    }
}

fn joined(p: &AppPath<String>) -> String {
    format!("{}/{}", p.base, p.segments.join("/"))
}

const PLATFORMS: [Platform; 3] = [Platform::MacOs, Platform::Windows, Platform::Other];

#[test]
fn config_file_sits_under_an_app_named_directory() {
    for platform in PLATFORMS {
        if let Some(p) = config_file("thing.json", platform, env(Some("/h"), Some("/a"), None)) {
            assert_eq!(p.file_name().unwrap(), "thing.json");
            assert!(joined(&p).contains(APP_ID), "got {p:?}");
        }
    }
}

#[test]
fn app_id_is_the_keyring_service_name() {
    assert_eq!(APP_ID, "rezon-tui");
    assert_eq!(SERVICE, APP_ID);
}

#[test]
fn each_platform_has_its_own_layout() {
    let all = || env(Some("/h"), Some("/a"), Some("/x"));
    let dir = |p, e| config_dir(p, e).map(|d| joined(&d));
    assert_eq!(
        dir(Platform::MacOs, all()).unwrap(),
        "/h/Library/Application Support/rezon-tui"
    );
    assert_eq!(dir(Platform::Windows, all()).unwrap(), "/a/rezon-tui");
    assert_eq!(dir(Platform::Other, all()).unwrap(), "/x/rezon-tui");
    assert_eq!(
        dir(Platform::Other, env(Some("/h"), None, None)).unwrap(),
        "/h/.config/rezon-tui"
    );
    assert!(dir(Platform::MacOs, env(None, Some("/a"), Some("/x"))).is_none());
    assert!(dir(Platform::Windows, env(Some("/h"), None, Some("/x"))).is_none());
    assert!(dir(Platform::Other, env(None, Some("/a"), None)).is_none());
}

#[test]
fn config_env_path_ends_in_dotenv_under_an_app_dir() {
    for platform in PLATFORMS {
        if let Some(p) = config_env_path(platform, env(Some("/h"), Some("/a"), Some("/x"))) {
            assert_eq!(p.file_name().unwrap(), ".env");
            assert!(joined(&p).contains("rezon-tui"), "got {p:?}");
        }
    }
    assert!(config_env_path(Platform::Other, env(None, None, None)).is_none());
}

#[test]
fn loaded_files_are_reported_in_order() {
    let config = |is_file, loaded| Some(ConfigLoad { path: 2, is_file, loaded });
    assert_eq!(report(Some(1), config(true, true)).paths, vec![1, 2]);
    assert_eq!(report(None, config(true, true)).paths, vec![2]);
    assert_eq!(report(Some(1), config(false, true)).paths, vec![1]);
    assert_eq!(report(Some(1), config(true, false)).paths, vec![1]);
    assert!(report::<i32>(None, None).paths.is_empty());
    assert_eq!(load_error("/e/.env", "missing"), "load /e/.env: missing");
}

#[test]
fn account_naming_is_stable() {
    assert_eq!(cloud_api_key_account("openai"), "api_key:openai");
    assert_eq!(cloud_api_key_account("other"), "api_key:other");
}

#[test]
fn null_store_never_answers() {
    assert_eq!(NullStore.get("api_key:openai"), None);
}

#[test]
fn a_missing_entry_is_no_failure() {
    let none = || Err(KeyringFault::NoEntry("nothing there".to_string()));
    assert_eq!(read_outcome("a", none()), Ok(None));
    assert_eq!(read_outcome("a", Ok("s".to_string())), Ok(Some("s".to_string())));
    let gone = || Err(KeyringFault::NoEntry("nothing there".to_string()));
    assert_eq!(write_outcome(KeyringVerb::Delete, "a", gone()), Ok(()));
    assert_eq!(
        write_outcome(KeyringVerb::Write, "a", gone()),
        Err("keyring set a: nothing there".to_string())
    );
}

#[test]
fn keyring_failures_are_named() {
    let open = || KeyringFault::Open("locked".to_string());
    let other = || KeyringFault::Other("corrupt".to_string());
    assert_eq!(read_outcome("a", Err(open())), Err("keyring: locked".to_string()));
    assert_eq!(read_outcome("a", Err(other())), Err("keyring get a: corrupt".to_string()));
    assert_eq!(
        write_outcome(KeyringVerb::Write, "a", Err(other())),
        Err("keyring set a: corrupt".to_string())
    );
    assert_eq!(
        write_outcome(KeyringVerb::Delete, "a", Err(other())),
        Err("keyring delete a: corrupt".to_string())
    );
    assert_eq!(
        write_outcome(KeyringVerb::Delete, "a", Err(open())),
        Err("keyring: locked".to_string())
    );
    assert_eq!(write_outcome(KeyringVerb::Write, "a", Ok(())), Ok(()));
}

#[test]
fn an_empty_value_deletes() {
    assert_eq!(write_verb(""), KeyringVerb::Delete);
    assert_eq!(write_verb(" "), KeyringVerb::Write);
}

#[test]
fn a_failing_store_has_no_secret() {
    assert_eq!(stored(Err("locked".to_string())), None);
    assert_eq!(stored(Ok(None)), None);
    assert_eq!(stored(Ok(Some("s".to_string()))), Some("s".to_string()));
}
