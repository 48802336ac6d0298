use inf_server::config::{parse_memory, ConfigSetError, ConfigStore, ReloadClass};
use inf_server::glob::glob_match;

#[test]
fn defaults_match_redis_shapes() {
    let cfg = ConfigStore::default();
    assert_eq!(cfg.get("maxmemory"), Some("0"));
    assert_eq!(cfg.get("maxmemory-policy"), Some("noeviction"));
    assert_eq!(cfg.get("databases"), Some("16"));
}

#[test]
fn set_validates_and_normalizes() {
    let mut cfg = ConfigStore::default();
    assert_eq!(cfg.set(b"maxmemory", b"100mb"), Ok(ReloadClass::HotPerCell));
    assert_eq!(cfg.get("maxmemory"), Some("104857600"));
    assert_eq!(cfg.set(b"MAXMEMORY-POLICY", b"ALLKEYS-LFU"), Ok(ReloadClass::HotPerCell));
    assert_eq!(cfg.get("maxmemory-policy"), Some("allkeys-lfu"));
    assert!(matches!(
        cfg.set(b"maxmemory-policy", b"bogus"),
        Err(ConfigSetError::Invalid { .. })
    ));
    assert!(matches!(cfg.set(b"databases", b"32"), Err(ConfigSetError::Immutable(_))));
    assert!(matches!(cfg.set(b"nope", b"1"), Err(ConfigSetError::Unknown(_))));
}

#[test]
fn glob_get_is_nocase_and_multi_pattern() {
    let cfg = ConfigStore::default();
    let hits = cfg.get_matching(&[b"MaxMemory*"]);
    assert_eq!(
        hits.iter().map(|(k, _)| *k).collect::<Vec<_>>(),
        vec!["maxmemory", "maxmemory-policy", "maxmemory-samples"]
    );
    let multi = cfg.get_matching(&[b"save", b"timeout"]);
    assert_eq!(multi.len(), 2);
}

#[test]
fn refused_values_change_nothing() {
    let mut cfg = ConfigStore::default();
    assert_eq!(
        cfg.set(b"timeout", b"soon"),
        Err(ConfigSetError::Invalid { key: "timeout".to_string(), value: "soon".to_string() })
    );
    assert_eq!(cfg.get("timeout"), Some("0"));
    assert_eq!(cfg.check(b"timeout", b"7"), Ok(ReloadClass::Hot));
    assert_eq!(cfg.get("timeout"), Some("0"), "a check stores nothing");
    assert_eq!(cfg.set(b"TimeOut", b"+7"), Ok(ReloadClass::Hot));
    assert_eq!(cfg.get("timeout"), Some("7"));
    assert_eq!(cfg.set(b"N\xffPE", b"1"), Err(ConfigSetError::Unknown("n\u{fffd}pe".to_string())));
}

#[test]
fn memory_sizes_scale_and_refuse_overflow() {
    assert_eq!(parse_memory("100MB"), Some(104_857_600));
    assert_eq!(parse_memory("1gb"), Some(1 << 30));
    assert_eq!(parse_memory("3k"), Some(3_000));
    assert_eq!(parse_memory("3kb"), Some(3 << 10));
    assert_eq!(parse_memory("17"), Some(17));
    assert_eq!(parse_memory(""), None);
    assert_eq!(parse_memory("gb"), None);
    assert_eq!(parse_memory("18446744073709551615"), Some(u64::MAX));
    assert_eq!(parse_memory("18446744073709551615kb"), None);
}

#[test]
fn globs_match_like_redis() {
    assert!(glob_match(b"h[^e]llo", b"hallo", false));
    assert!(!glob_match(b"h[^e]llo", b"hello", false));
    assert!(glob_match(b"h[a-c]l*o", b"hblllo", false));
    assert!(glob_match(b"\\*x", b"*x", false));
    assert!(!glob_match(b"ABC", b"abc", false));
    assert!(glob_match(b"ABC", b"abc", true));
    assert!(glob_match(b"a?c", b"abc", false));
    assert!(glob_match(b"**", b"", false));
}

#[test]
fn a_value_read_can_be_written_back() {
    let mut cfg = ConfigStore::default();
    assert!(cfg.set(b"MaxMemory", b"2MB").is_ok());
    assert!(cfg.set(b"timeout", b"-7").is_ok());
    assert!(cfg.set(b"maxmemory-policy", b"AllKeys-LRU").is_ok());
    assert!(cfg.set(b"save", "pünktlich".as_bytes()).is_ok());
    let rows: Vec<(String, String)> = cfg
        .get_matching(&[b"*"])
        .into_iter()
        .map(|(key, value)| (key.to_string(), value.to_string()))
        .collect();
    assert_eq!(rows.len(), 10);
    for (key, value) in &rows {
        let boot_only = ["appendonly", "databases", "maxclients"].contains(&key.as_str());
        assert_eq!(cfg.set(key.as_bytes(), value.as_bytes()).is_ok(), !boot_only, "{key}");
        assert_eq!(cfg.get(key), Some(value.as_str()));
    }
}

#[test]
fn listings_are_sorted_whatever_the_patterns() {
    let cfg = ConfigStore::default();
    let keys = |patterns: &[&[u8]]| -> Vec<&'static str> {
        cfg.get_matching(patterns).into_iter().map(|(key, _)| key).collect()
    };
    assert_eq!(keys(&[b"timeout", b"SAVE", b"s*", b"save"]), ["save", "timeout"]);
    let all = keys(&[b"*"]);
    assert!(all.windows(2).all(|pair| pair[0] < pair[1]));
    assert!(keys(&[]).is_empty());
}
