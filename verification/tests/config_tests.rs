use trng_core::config::{
    flatten_config, is_lc_alnum, is_valid_id, CombineMode, Config, FileConfig, LrngConfig,
    SourcesGroup,
};

fn lrng(id: &str, enabled: bool) -> LrngConfig {
    LrngConfig { id: id.to_string(), enabled, buffer_mebibytes: None }
}

fn file(id: &str, enabled: bool) -> FileConfig {
    FileConfig {
        id: id.to_string(),
        path: "/var/lib/entropy/pool".to_string(),
        loop_: Some(true),
        enabled,
        buffer_mebibytes: None,
    }
}

#[test]
fn test_is_lc_alnum() {
    assert!(is_lc_alnum('a'));
    assert!(is_lc_alnum('z'));
    assert!(is_lc_alnum('0'));
    assert!(is_lc_alnum('9'));
    assert!(!is_lc_alnum('A'));
    assert!(!is_lc_alnum('-'));
    assert!(!is_lc_alnum('_'));
    assert!(!is_lc_alnum(' '));
}

#[test]
fn test_is_valid_id() {
    assert!(is_valid_id("abc"));
    assert!(is_valid_id("a-b_1"));
    assert!(is_valid_id("0source"));
    assert!(!is_valid_id(""));
    assert!(!is_valid_id("Abc"));
    assert!(!is_valid_id("-ab"));
    assert!(!is_valid_id("_ab"));
    assert!(!is_valid_id("ab cd"));
    assert!(!is_valid_id("töst"));
}

#[test]
fn test_flatten_keeps_enabled_valid_ids_in_order() {
    let cfg = Config {
        sources: vec![SourcesGroup {
            combine: Some("xor".to_string()),
            lrng: vec![lrng("rng0", true), lrng("rng1", false), lrng("UPPER", true)],
            file: vec![file("seed", true)],
        }],
    };
    let flat = flatten_config(cfg);
    assert!(matches!(flat.combine, CombineMode::Xor));
    let ids: Vec<&str> = flat.lrng_sources.iter().map(|c| c.id.as_str()).collect();
    assert_eq!(ids, vec!["rng0"]);
    let fids: Vec<&str> = flat.file_sources.iter().map(|c| c.id.as_str()).collect();
    assert_eq!(fids, vec!["seed"]);
}

#[test]
fn test_flatten_deduplicates_across_kinds_and_groups() {
    let cfg = Config {
        sources: vec![
            SourcesGroup {
                combine: None,
                lrng: vec![lrng("shared", true), lrng("shared", true)],
                file: vec![file("shared", true), file("only-file", true)],
            },
            SourcesGroup {
                combine: None,
                lrng: vec![lrng("only-file", true), lrng("late", true)],
                file: vec![],
            },
        ],
    };
    let flat = flatten_config(cfg);
    let ids: Vec<&str> = flat.lrng_sources.iter().map(|c| c.id.as_str()).collect();
    // the second "shared" and the lrng reusing a file id are dropped
    assert_eq!(ids, vec!["shared", "late"]);
    let fids: Vec<&str> = flat.file_sources.iter().map(|c| c.id.as_str()).collect();
    assert_eq!(fids, vec!["only-file"]);
}

#[test]
fn test_flatten_empty_config() {
    let flat = flatten_config(Config { sources: vec![] });
    assert!(flat.lrng_sources.is_empty());
    assert!(flat.file_sources.is_empty());
}
