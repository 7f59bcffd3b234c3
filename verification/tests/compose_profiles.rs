use devcontainer::compose_profiles::{
    compose_profiled_services, profile_override_content, profiles_state, ComposeServiceEntry, ProfilesValue,
};

fn entry(name: &str, profiles: Option<ProfilesValue>) -> ComposeServiceEntry {
    ComposeServiceEntry { name: Some(name.to_string()), is_mapping: true, profiles }
}

fn reset(inner: ProfilesValue) -> ProfilesValue {
    ProfilesValue::Tagged("!reset".to_string(), Box::new(inner))
}

#[test]
fn profiles_state_reads_sequences_null_and_reset_tags() {
    assert_eq!(profiles_state(&ProfilesValue::Sequence(2)), Some(true));
    assert_eq!(profiles_state(&ProfilesValue::Sequence(0)), None);
    assert_eq!(profiles_state(&ProfilesValue::Null), Some(false));
    assert_eq!(profiles_state(&ProfilesValue::Other), None);
    assert_eq!(profiles_state(&reset(ProfilesValue::Sequence(0))), Some(false));
    assert_eq!(profiles_state(&reset(ProfilesValue::Sequence(1))), Some(true));
    assert_eq!(profiles_state(&ProfilesValue::Tagged("!custom".to_string(), Box::new(ProfilesValue::Sequence(1)))), Some(true));
}

#[test]
fn profiled_services_are_sorted_unique_and_follow_later_files() {
    let entries = vec![
        entry("worker", Some(ProfilesValue::Sequence(1))),
        entry("app", Some(ProfilesValue::Sequence(1))),
        entry("db", Some(ProfilesValue::Sequence(1))),
        entry("plain", None),
        ComposeServiceEntry { name: None, is_mapping: true, profiles: Some(ProfilesValue::Sequence(1)) },
        ComposeServiceEntry { name: Some("scalar".to_string()), is_mapping: false, profiles: Some(ProfilesValue::Sequence(1)) },
        entry("app", Some(ProfilesValue::Sequence(3))),
        entry("db", Some(reset(ProfilesValue::Sequence(0)))),
        entry("cache", Some(ProfilesValue::Other)),
    ];
    assert_eq!(compose_profiled_services(&entries), vec!["app".to_string(), "worker".to_string()]);
    assert!(compose_profiled_services(&Vec::new()).is_empty());
}

#[test]
fn profile_override_resets_profiled_services() {
    let services = vec!["app".to_string(), "it's".to_string()];
    assert_eq!(
        profile_override_content(true, &services, "version: '3.9'\n\n").as_deref(),
        Some("version: '3.9'\n\nservices:\n  'app':\n    profiles: !reset []\n  'it''s':\n    profiles: !reset []\n")
    );
    assert_eq!(profile_override_content(false, &services, ""), None);
    assert_eq!(profile_override_content(true, &Vec::new(), ""), None);
}
