use slack_deputy::config::{config_dir, env_file_path, load_env_file, Config, Env};
use slack_deputy::db::resolve_path;

fn env(vars: &[(&str, &str)]) -> Env {
    Env { vars: vars.iter().map(|(k, v)| (k.to_string(), Some(v.to_string()))).collect() }
}

fn not_unicode(name: &str) -> Env {
    Env { vars: vec![(name.to_string(), None)] }
}

fn tokens() -> Vec<(&'static str, &'static str)> {
    vec![("SLACK_APP_TOKEN", "app"), ("SLACK_BOT_TOKEN", "bot"), ("SLACK_USER_TOKEN", "user")]
}

#[test]
fn variables_are_looked_up() {
    let e = env(&[("A", "1")]);
    assert_eq!(e.var("A"), Some("1".to_string()));
    assert_eq!(e.var("B"), None);
    assert_eq!(e.var_or("B", "d"), "d");
    assert_eq!(e.var_or("A", "d"), "1");
    assert!(e.is_set("A"));
    assert!(!e.is_set("B"));
    // A variable that is no text is set but cannot be read.
    let n = not_unicode("A");
    assert!(n.is_set("A"));
    assert_eq!(n.var("A"), None);
    assert_eq!(n.var_or("A", "d"), "d");
}

#[test]
fn the_database_path_has_three_sources() {
    assert_eq!(resolve_path(&env(&[("SLACK_DEPUTY_DB", "/tmp/x.db")])), "/tmp/x.db");
    assert_eq!(
        resolve_path(&env(&[("XDG_CONFIG_HOME", "/c"), ("HOME", "/h")])),
        "/c/slack-deputy/slack-deputy.db"
    );
    assert_eq!(
        resolve_path(&env(&[("XDG_CONFIG_HOME", ""), ("HOME", "/h")])),
        "/h/.config/slack-deputy/slack-deputy.db"
    );
    assert_eq!(
        resolve_path(&env(&[("HOME", "/h")])),
        "/h/.config/slack-deputy/slack-deputy.db"
    );
    // Without either the path is absolute all the same.
    assert_eq!(resolve_path(&env(&[])), "/slack-deputy/slack-deputy.db");
    assert_eq!(config_dir(&env(&[])), "");
    assert_eq!(config_dir(&env(&[("HOME", "/h")])), "/h/.config");
}

#[test]
fn the_env_file_path_has_three_sources() {
    assert_eq!(env_file_path(&env(&[("SLACK_DEPUTY_CONFIG", "/e")])), "/e");
    assert_eq!(env_file_path(&env(&[("XDG_CONFIG_HOME", "/c")])), "/c/slack-deputy/.env");
    assert_eq!(env_file_path(&env(&[("HOME", "/h")])), "/h/.config/slack-deputy/.env");
    assert_eq!(env_file_path(&env(&[])), "/slack-deputy/.env");
}

#[test]
fn the_env_file_assigns_what_is_not_set() {
    let file = "# tokens\r\n\r\n A = \"one\" \nB=2=3\n=x\nnothing\nC=\nA=two\n D = \"\"q\"\n";
    let got = load_env_file(&env(&[("B", "set")]), file);
    let want = vec![
        ("A".to_string(), "one".to_string()),
        ("C".to_string(), String::new()),
        ("D".to_string(), "q".to_string()),
    ];
    assert_eq!(got, want);
}

#[test]
fn the_env_file_overrides_nothing_and_its_first_line_wins() {
    let e = env(&[("A", "set")]).load(Some("A=file\nB=1\nB=2\n"));
    assert_eq!(e.var("A"), Some("set".to_string()));
    assert_eq!(e.var("B"), Some("1".to_string()));
    // A variable that is no text is not overridden either.
    assert_eq!(not_unicode("A").load(Some("A=file")).var("A"), None);
    assert_eq!(env(&[("A", "set")]).load(None).var("A"), Some("set".to_string()));
}

#[test]
fn a_config_has_defaults() {
    let c = Config::from_env(&env(&tokens()), None).ok().unwrap();
    assert_eq!(c.app_token, "app");
    assert_eq!(c.bot_token, "bot");
    assert_eq!(c.user_token, "user");
    assert_eq!(c.db_path, "/slack-deputy/slack-deputy.db");
    assert_eq!(c.listen, "127.0.0.1:8799");
    assert!(!c.watch_channels.contains(""));
}

#[test]
fn a_config_is_read_from_the_environment_and_the_file() {
    let mut vars = tokens();
    vars.push(("SLACK_DEPUTY_LISTEN", "0.0.0.0:1"));
    let file = "SLACK_DEPUTY_WATCH_CHANNELS=\" C1, ,C2\"\nSLACK_DEPUTY_LISTEN=no\n";
    let c = Config::from_env(&env(&vars), Some(file)).ok().unwrap();
    assert_eq!(c.listen, "0.0.0.0:1");
    assert!(c.watch_channels.contains("C1"));
    assert!(c.watch_channels.contains("C2"));
    assert!(!c.watch_channels.contains(""));
    assert!(!c.watch_channels.contains("C3"));
}

#[test]
fn each_missing_token_is_an_error() {
    for name in ["SLACK_APP_TOKEN", "SLACK_BOT_TOKEN", "SLACK_USER_TOKEN"] {
        let vars: Vec<(&str, &str)> = tokens().into_iter().filter(|(k, _)| *k != name).collect();
        let e = Config::from_env(&env(&vars), None).err().unwrap();
        assert_eq!(e, format!("{name}: not set"));
    }
    let e = Config::from_env(&env(&[]), None).err().unwrap();
    assert_eq!(e, "SLACK_APP_TOKEN: not set");
}
