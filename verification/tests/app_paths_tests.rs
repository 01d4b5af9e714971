use rovdex::app_paths::{home_dir, AppPaths, DesktopPlatform, PathEnvironment, PathsError};
use rovdex::auth::AuthStore;
use rovdex::session_store::SessionStore;

fn env_with_home(home: &str) -> PathEnvironment {
    PathEnvironment {
        home: Some(String::from(home)),
        userprofile: None,
        appdata: None,
        localappdata: None,
        xdg_data_home: None,
        xdg_config_home: None,
        xdg_cache_home: None,
    }
}

fn discovered(r: Result<AppPaths, PathsError>) -> AppPaths {
    match r {
        Ok(p) => p,
        Err(_) => panic!("paths"),
    }
}

#[test]
fn discovers_platform_paths() {
    let paths = discovered(AppPaths::discover("Rovdex", DesktopPlatform::Linux, &env_with_home("/home/dev")));
    assert_eq!(paths.app_name, "Rovdex");
    assert!(!paths.data_dir.is_empty());
    assert!(!paths.config_dir.is_empty());
    assert!(!paths.cache_dir.is_empty());
}

#[test]
fn linux_paths_follow_xdg_fallbacks() {
    let paths = discovered(AppPaths::discover("Rovdex", DesktopPlatform::Linux, &env_with_home("/home/dev")));
    assert_eq!(paths.home_dir, "/home/dev");
    assert_eq!(paths.data_dir, "/home/dev/.local/share/Rovdex");
    assert_eq!(paths.config_dir, "/home/dev/.config/Rovdex");
    assert_eq!(paths.cache_dir, "/home/dev/.cache/Rovdex");
    assert_eq!(paths.data_dir_path(), "/home/dev/.local/share/Rovdex");
    assert_eq!(paths.config_dir_path(), "/home/dev/.config/Rovdex");
    assert_eq!(paths.cache_dir_path(), "/home/dev/.cache/Rovdex");
}

#[test]
fn xdg_variables_take_precedence() {
    let mut env = env_with_home("/home/dev");
    env.xdg_config_home = Some(String::from("/etc/xdg"));
    let paths = discovered(AppPaths::discover("Rovdex", DesktopPlatform::Unknown(String::from("freebsd")), &env));
    assert_eq!(paths.config_dir, "/etc/xdg/Rovdex");
    assert_eq!(paths.data_dir, "/home/dev/.local/share/Rovdex");
}

#[test]
fn macos_paths_live_under_library() {
    let paths = discovered(AppPaths::discover("Rovdex", DesktopPlatform::MacOS, &env_with_home("/Users/dev")));
    assert_eq!(paths.data_dir, "/Users/dev/Library/Application Support/Rovdex");
    assert_eq!(paths.cache_dir, "/Users/dev/Library/Caches/Rovdex");
}

#[test]
fn missing_home_is_an_error() {
    let mut env = env_with_home("/home/dev");
    env.home = None;
    assert!(matches!(
        AppPaths::discover("Rovdex", DesktopPlatform::Linux, &env),
        Err(PathsError::NoHomeDirectory)
    ));
    env.userprofile = Some(String::from("/profile"));
    assert_eq!(home_dir(&env).ok(), Some(String::from("/profile")));
}

#[test]
fn platform_names_round_trip() {
    for name in ["macos", "windows", "linux", "haiku"] {
        assert_eq!(DesktopPlatform::from_os_name(name).as_str(), name);
    }
    assert!(matches!(DesktopPlatform::from_os_name("windows"), DesktopPlatform::Windows));
}

#[test]
fn stores_live_under_the_app_directories() {
    let env = env_with_home("/home/dev");
    let sessions = match SessionStore::for_app("Rovdex", DesktopPlatform::Linux, &env) {
        Ok(s) => s,
        Err(_) => panic!("store"),
    };
    assert_eq!(sessions.root(), "/home/dev/.local/share/Rovdex/sessions");
    let auth = match AuthStore::for_app("Rovdex", DesktopPlatform::Linux, &env) {
        Ok(s) => s,
        Err(_) => panic!("store"),
    };
    assert_eq!(auth.path(), "/home/dev/.config/Rovdex/auth.json");
}
