use onemorebeer_ui::cache::{cache_dir, cache_key_to_path, cache_ns_dir};
use onemorebeer_ui::config::{Config, ConfigError};
use onemorebeer_ui::database::Database;
use onemorebeer_ui::mode::{parse_mode, Mode};

fn config() -> Config {
    Config { listen_on: 8080, cache_dir: "/var/cache/omb".to_string() }
}

#[test]
fn cache_paths() {
    let c = config();
    assert_eq!(cache_dir(&c), "/var/cache/omb");
    assert_eq!(cache_ns_dir(&c, "untappd"), "/var/cache/omb/untappd");
    assert_eq!(cache_key_to_path(&c, "untappd", "piwo/x"), "/var/cache/omb/untappd/piwo/x");
    assert_eq!(
        cache_key_to_path(&c, "onemorebeer", "beer-3"),
        format!("{}/{}", cache_ns_dir(&c, "onemorebeer"), "beer-3")
    );
    assert_ne!(cache_key_to_path(&c, "ns", "a"), cache_key_to_path(&c, "ns", "b"));
}

#[test]
fn database_path() {
    assert_eq!(Database::path(&config()), "/var/cache/omb/database.json");
}

#[test]
fn config_slot_holds_one_config() {
    let mut slot: Option<Config> = None;
    assert_eq!(Config::global(&slot).unwrap_err(), ConfigError::NotLoaded);
    assert_eq!(Config::install(&mut slot, config()), Ok(()));
    assert_eq!(Config::global(&slot).unwrap().listen_on, 8080);
    let other = Config { listen_on: 1, cache_dir: "x".to_string() };
    assert_eq!(Config::install(&mut slot, other), Err(ConfigError::AlreadyLoaded));
    let kept = Config::global(&slot).unwrap();
    assert_eq!(kept.listen_on, 8080);
    assert_eq!(kept.cache_dir, "/var/cache/omb");
}

fn args(list: &[&str]) -> Vec<String> {
    list.iter().map(|s| s.to_string()).collect()
}

#[test]
fn modes() {
    assert_eq!(parse_mode(&args(&["--sync"])), Some(Mode::Sync));
    assert_eq!(parse_mode(&args(&["--web"])), Some(Mode::Web));
    assert_eq!(parse_mode(&args(&[])), None);
    assert_eq!(parse_mode(&args(&["--serve"])), None);
    assert_eq!(parse_mode(&args(&["--sync", "--web"])), None);
    assert_eq!(parse_mode(&args(&["--web", "x"])), None);
}
