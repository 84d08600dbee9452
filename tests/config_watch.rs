use sitegen::config::{Config, EnvVars};
use sitegen::watch::{watch_step, WatchAction, WatchEvent, WatchState};

fn no_env() -> EnvVars {
    EnvVars { title: None, base_url: None, data_dir: None, webpage_dir: None, images_dir: None }
}

#[test]
fn defaults_outside_production() {
    let mut env = no_env();
    env.base_url = Some("https://ignored.example".to_string());
    let c = Config::new(&vec!["site".to_string()], "/home/me", &env);
    assert!(!c.is_prod);
    assert_eq!(c.title, "Title");
    assert_eq!(c.base_url, "/home/me/webpage");
    assert_eq!(c.data_dir, "./data/");
    assert_eq!(c.webpage_dir, "./webpage/");
    assert_eq!(c.images_dir, "./webpage/images/");
    assert_eq!(c.css_path(), "/home/me/webpage/main.css");
    assert_eq!(c.mobile_css_path(), "../webpage/mobile.css");
}

#[test]
fn production_uses_the_base_url() {
    let mut env = no_env();
    env.base_url = Some("https://blog.example".to_string());
    env.title = Some("Blog".to_string());
    env.webpage_dir = Some("out/".to_string());
    let c = Config::new(&vec!["site".to_string(), "--prod".to_string()], "/home/me", &env);
    assert!(c.is_prod);
    assert_eq!(c.title, "Blog");
    assert_eq!(c.base_url, "https://blog.example");
    assert_eq!(c.images_dir, "out/images/");
    assert_eq!(c.css_path(), "https://blog.example/main.css");
    assert_eq!(c.mobile_css_path(), "./mobile.css");
}

#[test]
fn production_without_base_url_falls_back() {
    let c = Config::new(&vec!["--prod".to_string()], "/w", &no_env());
    assert!(c.is_prod);
    assert_eq!(c.base_url, "/w/webpage");
}

#[test]
fn explicit_images_dir_is_kept() {
    let mut env = no_env();
    env.images_dir = Some("pics/".to_string());
    let c = Config::new(&vec![], "/w", &env);
    assert_eq!(c.images_dir, "pics/");
}

#[test]
fn every_change_triggers_a_rebuild() {
    assert_eq!(watch_step(WatchState::Idle, WatchEvent::Started), (WatchState::Rebuilding, WatchAction::Rebuild));
    assert_eq!(watch_step(WatchState::Idle, WatchEvent::Changed), (WatchState::Rebuilding, WatchAction::Rebuild));
    assert_eq!(watch_step(WatchState::Rebuilding, WatchEvent::Changed), (WatchState::Rebuilding, WatchAction::Rebuild));
    assert_eq!(watch_step(WatchState::Rebuilding, WatchEvent::RebuildDone), (WatchState::Idle, WatchAction::Wait));
}

#[test]
fn watch_errors_are_reported_and_ignored() {
    assert_eq!(watch_step(WatchState::Idle, WatchEvent::WatchFailed), (WatchState::Idle, WatchAction::ReportError));
    assert_eq!(watch_step(WatchState::Rebuilding, WatchEvent::WatchFailed), (WatchState::Rebuilding, WatchAction::ReportError));
}
