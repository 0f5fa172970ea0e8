use kevi::config::{
    environment_warning, policy_from_options, resolve_vault_path, ttl_seconds, AddOptions, Config,
    ConfigError, EnvSettings, FileConfig, FileProfileConfig,
};
use kevi::tui::{label_matches, str_contains, App, FormField, GetField, Mode, View};
use kevi::vault::{SecretText, VaultEntry};

fn make(label: &str) -> VaultEntry {
    VaultEntry { label: label.into(), username: None, password: SecretText::new("x".into()), notes: None }
}

#[test]
fn filtering_updates_visible_labels() {
    let entries = vec![make("alpha"), make("beta"), make("gamma")];
    let mut app = App::new(entries);
    assert_eq!(app.visible_labels(), vec!["alpha", "beta", "gamma"]);
    app.enter_search();
    app.push_filter('a');
    assert_eq!(app.visible_labels(), vec!["alpha", "beta", "gamma"]);
    app.push_filter('l');
    assert_eq!(app.visible_labels(), vec!["alpha"]);
    app.pop_filter();
    assert_eq!(app.visible_labels(), vec!["alpha", "beta", "gamma"]);
}

#[test]
fn filter_ignores_case_and_selection_stays_in_range() {
    let mut app = App::new(vec![make("Alpha"), make("BETA"), make("gamma")]);
    app.next();
    app.next();
    app.next();
    assert_eq!(app.selected(), 2);
    app.push_filter('b');
    assert_eq!(app.visible_labels(), vec!["BETA"]);
    assert_eq!(app.selected(), 0);
    assert_eq!(app.selected_label().as_deref(), Some("BETA"));
    app.prev();
    assert_eq!(app.selected(), 0);
    app.pop_filter();
    app.push_filter('L');
    assert_eq!(app.visible_labels(), vec!["Alpha"]);
    app.push_filter('z');
    assert!(app.visible_labels().is_empty());
    assert_eq!(app.selected_label(), None);
    assert_eq!(app.selected_field(GetField::Password), None);
}

#[test]
fn selected_fields_and_edit_form() {
    let e = VaultEntry {
        label: "mysite".into(),
        username: Some(SecretText::new("alice".into())),
        password: SecretText::new("secret123".into()),
        notes: Some("noteZ".into()),
    };
    let mut app = App::new(vec![e]);
    assert_eq!(app.selected_field(GetField::Password).as_deref(), Some("secret123"));
    assert_eq!(app.selected_field(GetField::User).as_deref(), Some("alice"));
    assert_eq!(app.selected_field(GetField::Notes).as_deref(), Some("noteZ"));
    app.enter_edit();
    assert_eq!(app.view(), View::EditModal);
    assert_eq!(app.form_texts(), ("mysite", "alice", "noteZ"));
    assert_eq!(app.form_original_label(), "mysite");
    app.update_form_char('!');
    app.next_field();
    assert_eq!(app.form_field(), FormField::User);
    app.backspace_form();
    app.prev_field();
    app.prev_field();
    assert_eq!(app.form_field(), FormField::Notes);
    assert_eq!(app.form_texts(), ("mysite!", "alic", "noteZ"));
    app.enter_add();
    assert_eq!(app.form_texts(), ("", "", ""));
    app.cancel_modal();
    assert_eq!(app.view(), View::List);
    assert_eq!(app.mode(), Mode::Normal);
}

#[test]
fn toast_fades_after_ten_ticks() {
    let mut app = App::new(Vec::new());
    app.toast("saved".to_string());
    for _ in 0..9 {
        app.tick();
    }
    assert_eq!(app.toast_message(), Some("saved"));
    app.tick();
    assert_eq!(app.toast_message(), None);
}

#[test]
fn substring_search() {
    assert!(str_contains("alphabet", "phab"));
    assert!(str_contains("abc", ""));
    assert!(!str_contains("abc", "abcd"));
    assert!(!str_contains("abc", "ac"));
}

fn no_env() -> EnvSettings {
    EnvSettings {
        vault_path: None,
        clipboard_ttl: None,
        backups: None,
        generator_length: None,
        generator_words: None,
        generator_sep: None,
        avoid_ambiguous: None,
    }
}

fn file_cfg() -> FileConfig {
    FileConfig {
        vault_path: Some("/tmp/cfg_vault.ron".into()),
        clipboard_ttl: Some(33),
        backups: Some(4),
        generator_length: Some(33),
        generator_words: Some(6),
        generator_sep: Some(":".into()),
        avoid_ambiguous: None,
        default_profile: None,
        profiles: vec![("work".into(), FileProfileConfig { vault_path: "/tmp/work-vault.ron".into() })],
    }
}

#[test]
fn vault_path_precedence() {
    let mut env = no_env();
    env.vault_path = Some("/tmp/env_vault.ron".into());
    let cfg = file_cfg();
    let d = "/home/u/.local/share/kevi/vault.ron".to_string();
    assert_eq!(resolve_vault_path(Some("/tmp/cli_vault.ron".into()), None, &env, &cfg, d.clone()).unwrap(), "/tmp/cli_vault.ron");
    assert_eq!(resolve_vault_path(None, None, &env, &cfg, d.clone()).unwrap(), "/tmp/env_vault.ron");
    assert_eq!(resolve_vault_path(None, None, &no_env(), &cfg, d.clone()).unwrap(), "/tmp/cfg_vault.ron");
    assert_eq!(resolve_vault_path(None, Some("work"), &env, &cfg, d.clone()).unwrap(), "/tmp/work-vault.ron");
    assert_eq!(
        resolve_vault_path(None, Some("home"), &env, &cfg, d.clone()),
        Err(ConfigError::UnknownProfile("home".into()))
    );
    let mut with_default = file_cfg();
    with_default.default_profile = Some("work".into());
    assert_eq!(resolve_vault_path(None, None, &no_env(), &with_default, d.clone()).unwrap(), "/tmp/work-vault.ron");
    with_default.default_profile = Some("gone".into());
    assert_eq!(resolve_vault_path(None, None, &no_env(), &with_default, d.clone()).unwrap(), "/tmp/cfg_vault.ron");
    let mut empty = file_cfg();
    empty.vault_path = None;
    assert_eq!(resolve_vault_path(None, None, &no_env(), &empty, d.clone()).unwrap(), d);
}

#[test]
fn environment_overrides_file_settings() {
    let mut env = no_env();
    env.clipboard_ttl = Some(99);
    let c = Config::create(None, None, &env, &file_cfg(), "v".into()).unwrap();
    assert_eq!(c.clipboard_ttl, Some(99));
    assert_eq!(c.backups, Some(4));
    assert_eq!(ttl_seconds(None, None, &c), 99);
    assert_eq!(ttl_seconds(Some(5), Some(7), &c), 5);
    let c2 = Config::create(None, None, &no_env(), &file_cfg(), "v".into()).unwrap();
    assert_eq!(ttl_seconds(None, None, &c2), 33);
}

#[test]
fn add_options_shape_the_policy() {
    let c = Config::create(None, None, &no_env(), &file_cfg(), "v".into()).unwrap();
    let mut opts = AddOptions {
        generate: true,
        length: None,
        no_lower: false,
        no_upper: false,
        no_digits: true,
        no_symbols: false,
        allow_ambiguous: false,
        passphrase: false,
        words: None,
        sep: None,
        label: None,
        user: None,
        notes: None,
    };
    let p = policy_from_options(&opts, &c);
    assert_eq!(p.length, 33);
    assert!(!p.digits && p.lower && p.avoid_ambiguous);
    opts.passphrase = true;
    opts.sep = Some("-".into());
    let p = policy_from_options(&opts, &c);
    assert!(p.passphrase);
    assert_eq!(p.words, 6);
    assert_eq!(p.sep, "-");
}

#[test]
fn clipboard_warnings() {
    assert!(environment_warning(true, false).unwrap().contains("SSH"));
    assert!(environment_warning(false, true).is_some());
    assert!(environment_warning(false, false).is_none());
}

#[test]
fn list_query_matches_labels_case_insensitively() {
    assert!(label_matches("BeTa", "beta"));
    assert!(label_matches("", "anything"));
    assert!(!label_matches("alp", "beta"));
    assert!(label_matches("ALP", "xAlpha"));
}
