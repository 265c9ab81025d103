use mpris_watch::dispatch::{classify, handle_event, matches_player_prefix, startup, EventClass};
use mpris_watch::metadata::{decode_metadata, PropValue};
use mpris_watch::registry::Registry;

#[test]
fn prefix_matching() {
    assert!(matches_player_prefix("org.mpris.MediaPlayer2.vlc"));
    assert!(matches_player_prefix("org.mpris.MediaPlayer2"));
    assert!(!matches_player_prefix("org.other.Service"));
    assert!(!matches_player_prefix("org.mpris.MediaPlayer"));
    assert!(!matches_player_prefix(""));
}

#[test]
fn classification_of_owner_fields() {
    assert_eq!(classify("", ":1.42"), EventClass::Arrival);
    assert_eq!(classify(":1.10", ""), EventClass::Departure);
    assert_eq!(classify(":1.10", ":1.42"), EventClass::HandoffOrNoop);
    assert_eq!(classify("", ""), EventClass::Departure);
}

#[test]
fn foreign_name_changes_nothing_and_triggers_no_fetch() {
    let mut reg = Registry::new();
    reg.insert("org.mpris.MediaPlayer2.vlc".to_string());
    let before = reg.snapshot();
    let fetch = handle_event(&mut reg, &"org.other.Service".to_string(), "", ":1.7");
    assert!(!fetch);
    assert_eq!(reg.snapshot(), before);
}

#[test]
fn arrival_registers_the_name_and_asks_for_a_fetch() {
    let mut reg = Registry::new();
    let name = "org.mpris.MediaPlayer2.spotify".to_string();
    let fetch = handle_event(&mut reg, &name, "", ":1.42");
    assert!(fetch);
    assert!(reg.snapshot().contains(&name));
}

#[test]
fn registration_stands_even_when_the_fetch_fails() {
    let mut reg = Registry::new();
    let name = "org.mpris.MediaPlayer2.spotify".to_string();
    let fetch = handle_event(&mut reg, &name, "", ":1.42");
    assert!(fetch);
    // The metadata fetch the dispatcher asks for yields nothing: the
    // player advertises an empty property map.
    let outcome = decode_metadata(&Vec::new());
    assert!(outcome.is_err());
    assert!(reg.snapshot().contains(&name));
}

#[test]
fn departure_of_a_present_name_unregisters_it() {
    let mut reg = Registry::new();
    let name = "org.mpris.MediaPlayer2.vlc".to_string();
    reg.insert(name.clone());
    let fetch = handle_event(&mut reg, &name, ":1.10", "");
    assert!(!fetch);
    assert!(!reg.snapshot().contains(&name));
}

#[test]
fn departure_of_an_absent_name_changes_nothing() {
    let mut reg = Registry::new();
    reg.insert("org.mpris.MediaPlayer2.vlc".to_string());
    let before = reg.snapshot();
    let fetch = handle_event(
        &mut reg,
        &"org.mpris.MediaPlayer2.gone".to_string(),
        ":1.10",
        "",
    );
    assert!(!fetch);
    assert_eq!(reg.snapshot(), before);
}

#[test]
fn handoff_changes_nothing() {
    let mut reg = Registry::new();
    let name = "org.mpris.MediaPlayer2.vlc".to_string();
    reg.insert(name.clone());
    let before = reg.snapshot();
    let fetch = handle_event(&mut reg, &name, ":1.10", ":1.42");
    assert!(!fetch);
    assert_eq!(reg.snapshot(), before);
}

#[test]
fn startup_seeds_only_player_names() {
    let mut reg = Registry::new();
    let listing = vec![
        "org.mpris.MediaPlayer2.vlc".to_string(),
        "org.other.Service".to_string(),
    ];
    let to_fetch = startup(&mut reg, &listing);
    assert_eq!(to_fetch, vec!["org.mpris.MediaPlayer2.vlc".to_string()]);
    assert_eq!(reg.snapshot(), vec!["org.mpris.MediaPlayer2.vlc".to_string()]);
}

#[test]
fn startup_then_arrival_then_departure() {
    // The full scenario: seed from a directory listing, then one
    // arrival, then one departure.
    let mut reg = Registry::new();
    let listing = vec![
        "org.mpris.MediaPlayer2.vlc".to_string(),
        "org.other.Service".to_string(),
    ];
    startup(&mut reg, &listing);
    assert_eq!(reg.snapshot(), vec!["org.mpris.MediaPlayer2.vlc".to_string()]);

    let spotify = "org.mpris.MediaPlayer2.spotify".to_string();
    let fetch = handle_event(&mut reg, &spotify, "", ":1.42");
    assert!(fetch);
    let snap = reg.snapshot();
    assert_eq!(snap.len(), 2);
    assert!(snap.contains(&"org.mpris.MediaPlayer2.vlc".to_string()));
    assert!(snap.contains(&spotify));

    let fetch = handle_event(
        &mut reg,
        &"org.mpris.MediaPlayer2.vlc".to_string(),
        ":1.10",
        "",
    );
    assert!(!fetch);
    assert_eq!(reg.snapshot(), vec![spotify]);
}

#[test]
fn startup_replaces_prior_contents() {
    let mut reg = Registry::new();
    reg.insert("org.mpris.MediaPlayer2.stale".to_string());
    let listing = vec!["org.mpris.MediaPlayer2.fresh".to_string()];
    let to_fetch = startup(&mut reg, &listing);
    assert_eq!(to_fetch, vec!["org.mpris.MediaPlayer2.fresh".to_string()]);
    assert_eq!(
        reg.snapshot(),
        vec!["org.mpris.MediaPlayer2.fresh".to_string()]
    );
}
