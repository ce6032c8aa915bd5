use rpc_privacy_proxy::privacy_mode::{is_cacheable_method, PrivacyMode};

#[test]
fn policy_table() {
    let table = [
        (PrivacyMode::Strict, "getSlot", true),
        (PrivacyMode::Strict, "getAccountInfo", true),
        (PrivacyMode::Strict, "getBalance", true),
        (PrivacyMode::Strict, "sendTransaction", false),
        (PrivacyMode::Balanced, "getSlot", true),
        (PrivacyMode::Balanced, "getAccountInfo", false),
        (PrivacyMode::Balanced, "getBalance", true),
        (PrivacyMode::Balanced, "sendTransaction", false),
        (PrivacyMode::Dev, "getSlot", false),
        (PrivacyMode::Dev, "getAccountInfo", false),
        (PrivacyMode::Dev, "getBalance", false),
        (PrivacyMode::Dev, "sendTransaction", false),
    ];
    for (mode, method, expected) in table {
        assert_eq!(mode.should_cache(method), expected, "{:?} {}", mode, method);
    }
}

#[test]
fn the_two_cacheable_sets() {
    for method in ["getAccountInfo", "getBalance", "getLatestBlockhash", "getSlot", "getBlock"] {
        assert!(is_cacheable_method(method));
        assert!(PrivacyMode::Strict.should_cache(method));
    }
    for method in ["getLatestBlockhash", "getSlot", "getBalance"] {
        assert!(PrivacyMode::Balanced.should_cache(method));
    }
    assert!(!PrivacyMode::Balanced.should_cache("getBlock"));
    assert!(!PrivacyMode::Balanced.should_cache("getAccountInfo"));
}

#[test]
fn unknown_and_empty_methods_are_never_cacheable() {
    for mode in [PrivacyMode::Strict, PrivacyMode::Balanced, PrivacyMode::Dev] {
        assert!(!mode.should_cache(""));
        assert!(!mode.should_cache("getslot"));
        assert!(!mode.should_cache("getSlot "));
        assert!(!mode.should_cache("getSlo"));
        assert!(!mode.should_cache("getSlots"));
    }
    assert!(!is_cacheable_method(""));
    assert!(!is_cacheable_method("GETSLOT"));
}

#[test]
fn outbound_normalization_by_level() {
    assert!(PrivacyMode::Strict.should_normalize_outbound());
    assert!(PrivacyMode::Balanced.should_normalize_outbound());
    assert!(!PrivacyMode::Dev.should_normalize_outbound());
}

#[test]
fn levels_are_read_in_any_case() {
    assert_eq!(PrivacyMode::parse("strict"), Ok(PrivacyMode::Strict));
    assert_eq!(PrivacyMode::parse("STRICT"), Ok(PrivacyMode::Strict));
    assert_eq!(PrivacyMode::parse("Balanced"), Ok(PrivacyMode::Balanced));
    assert_eq!(PrivacyMode::parse("dEv"), Ok(PrivacyMode::Dev));
    assert_eq!(PrivacyMode::parse(""), Err(()));
    assert_eq!(PrivacyMode::parse(" strict"), Err(()));
    assert_eq!(PrivacyMode::parse("paranoid"), Err(()));
    assert_eq!("Strict".parse::<PrivacyMode>(), Ok(PrivacyMode::Strict));
    assert_eq!("none".parse::<PrivacyMode>(), Err(()));
}

#[test]
fn levels_are_named_in_lower_case() {
    assert_eq!(PrivacyMode::Strict.to_string(), "strict");
    assert_eq!(PrivacyMode::Balanced.to_string(), "balanced");
    assert_eq!(PrivacyMode::Dev.to_string(), "dev");
    for mode in [PrivacyMode::Strict, PrivacyMode::Balanced, PrivacyMode::Dev] {
        assert_eq!(PrivacyMode::parse(&mode.to_string()), Ok(mode));
    }
}

#[test]
fn names_in_lower_case_only() {
    assert_eq!(PrivacyMode::from_name("strict"), Ok(PrivacyMode::Strict));
    assert_eq!(PrivacyMode::from_name("balanced"), Ok(PrivacyMode::Balanced));
    assert_eq!(PrivacyMode::from_name("dev"), Ok(PrivacyMode::Dev));
    assert_eq!(PrivacyMode::from_name("Strict"), Err(()));
    assert_eq!(PrivacyMode::from_name("DEV"), Err(()));
    assert_eq!(PrivacyMode::from_name(""), Err(()));
    assert_eq!(PrivacyMode::from_name("de"), Err(()));
    assert_eq!(PrivacyMode::from_name("devs"), Err(()));
}
