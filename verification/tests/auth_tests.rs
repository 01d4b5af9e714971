use rovdex::app_paths::DesktopPlatform;
use rovdex::auth::{
    parse_github_copilot_token, token_from_files, token_search, AuthError, AuthFile, AuthProvider, AuthStore,
    DiscoveryError, TokenEnvironment, TokenSearch,
};

#[test]
fn parses_hosts_json_token() {
    let content = r#"{
      "github.com": {
        "oauth_token": "gho_test_token"
      }
    }"#;

    let token = parse_github_copilot_token(content).expect("token");
    assert_eq!(token, "gho_test_token");
}

#[test]
fn blank_or_foreign_tokens_are_skipped() {
    assert_eq!(parse_github_copilot_token(r#"{"github.com": {"oauth_token": "   "}}"#), None);
    assert_eq!(parse_github_copilot_token(r#"{"gitlab.com": {"oauth_token": "x"}}"#), None);
    assert_eq!(parse_github_copilot_token("not json"), None);
    assert_eq!(
        parse_github_copilot_token(r#"{"a": 1, "github.com:Iv1": {"oauth_token": "gho_app"}}"#),
        Some(String::from("gho_app"))
    );
}

#[test]
fn auth_store_round_trip() {
    let store = AuthStore::new("/tmp/rovdex-auth/auth.json");
    let mut file = AuthFile::default();
    let record = match store.save(&mut file, AuthProvider::GitHubCopilot, String::from("gho_test"), String::from("test")) {
        Ok(r) => r,
        Err(_) => panic!("save"),
    };
    assert_eq!(record.source, "test");
    assert!(store.load(&file, AuthProvider::GitHubCopilot).is_some());
    let removed = store.delete(&mut file, AuthProvider::GitHubCopilot);
    assert!(removed);
}

#[test]
fn status_reports_the_stored_source() {
    let store = AuthStore::new("/tmp/auth.json");
    let mut file = AuthFile::default();
    let before = store.status(&file, AuthProvider::GitHubCopilot);
    assert!(!before.stored);
    assert_eq!(before.source, None);
    assert_eq!(before.auth_file, "/tmp/auth.json");
    let rec = store.save_at(&mut file, AuthProvider::GitHubCopilot, String::from("t"), String::from("flag"), 42);
    assert_eq!(rec.saved_at_unix, 42);
    let after = store.status(&file, AuthProvider::GitHubCopilot);
    assert!(after.stored);
    assert_eq!(after.source, Some(String::from("flag")));
    assert!(!store.delete(&mut AuthFile::default(), AuthProvider::GitHubCopilot));
}

#[test]
fn provider_names_parse() {
    for name in ["copilot", "github-copilot", "github_copilot"] {
        assert!(matches!(AuthProvider::parse(name), Ok(AuthProvider::GitHubCopilot)));
    }
    assert_eq!(AuthProvider::GitHubCopilot.as_str(), "github-copilot");
    assert!(matches!(AuthProvider::parse(AuthProvider::GitHubCopilot.as_str()), Ok(AuthProvider::GitHubCopilot)));
    match AuthProvider::parse("gitlab") {
        Err(e) => {
            assert!(matches!(e, AuthError::UnsupportedProvider(_)));
            assert_eq!(e.message(), "unsupported auth provider: gitlab");
        }
        Ok(_) => panic!("expected an error"),
    }
}

fn no_env() -> TokenEnvironment {
    TokenEnvironment { github_token: None, xdg_config_home: None, localappdata: None, userprofile: None, home: None }
}

#[test]
fn token_search_prefers_the_environment() {
    let mut env = no_env();
    env.github_token = Some(String::from("  gho_env  "));
    match token_search(&env, &DesktopPlatform::Linux) {
        Ok(TokenSearch::Found(d)) => {
            assert_eq!(d.token, "gho_env");
            assert_eq!(d.source, "env:GITHUB_TOKEN");
        }
        _ => panic!("expected the environment token"),
    }
}

#[test]
fn token_search_lists_copilot_files() {
    let mut env = no_env();
    env.github_token = Some(String::from("   "));
    env.home = Some(String::from("/home/dev"));
    match token_search(&env, &DesktopPlatform::Linux) {
        Ok(TokenSearch::Files(files)) => {
            assert_eq!(files, vec![
                String::from("/home/dev/.config/github-copilot/hosts.json"),
                String::from("/home/dev/.config/github-copilot/apps.json"),
            ]);
        }
        _ => panic!("expected files"),
    }
}

#[test]
fn token_search_needs_a_directory() {
    assert!(matches!(token_search(&no_env(), &DesktopPlatform::Linux), Err(DiscoveryError::NoHome)));
    assert!(matches!(token_search(&no_env(), &DesktopPlatform::Windows), Err(DiscoveryError::NoLocalAppData)));
    assert_eq!(DiscoveryError::NotFound.message(), "GitHub token not found in standard locations");
}

#[test]
fn token_from_files_takes_the_first_that_holds_one() {
    let files = vec![String::from("hosts.json"), String::from("apps.json")];
    let contents = vec![None, Some(String::from(r#"{"github.com": {"oauth_token": "gho_apps"}}"#))];
    match token_from_files(&files, &contents) {
        Ok(d) => {
            assert_eq!(d.token, "gho_apps");
            assert_eq!(d.source, "apps.json");
        }
        Err(_) => panic!("expected a token"),
    }
    let empty = vec![Some(String::from("{}")), None];
    assert!(matches!(token_from_files(&files, &empty), Err(DiscoveryError::NotFound)));
}
