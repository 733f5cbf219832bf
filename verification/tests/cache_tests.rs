use fix_lib::cache::{
    load_or_create_cache, parse_cache, render_cache, whole_seconds, ToolInfo, ToolsCache,
    CACHE_FILE, CACHE_REFRESH_SECS,
};
use fix_lib::model::model_file_name;
use std::path::PathBuf;
use std::time::Duration;

fn now() -> String {
    chrono::Utc::now().to_rfc3339()
}

fn now_ms() -> i64 {
    chrono::Utc::now().timestamp_millis()
}

#[test]
fn test_tool_info_creation() {
    let info = ToolInfo {
        path: "/usr/bin/git".to_string(),
        desc: "distributed version control".to_string(),
    };

    assert_eq!(info.path, "/usr/bin/git");
    assert_eq!(info.desc, "distributed version control");
}

#[test]
fn test_tools_cache_new() {
    let cache = ToolsCache::new(now());

    assert!(cache.tools.is_empty());
    assert!(!cache.last_updated.is_empty());
}

#[test]
fn test_tools_cache_needs_refresh_new() {
    let cache = ToolsCache::new(now());

    // A newly created cache should not need refresh
    assert!(!cache.needs_refresh(now_ms()));
}

#[test]
fn test_tools_cache_needs_refresh_old() {
    let mut cache = ToolsCache::new(now());

    // Set timestamp to 25 hours ago
    let old_time = chrono::Utc::now() - chrono::Duration::hours(25);
    cache.last_updated = old_time.to_rfc3339();

    assert!(cache.needs_refresh(now_ms()));
}

#[test]
fn test_tools_cache_age() {
    let cache = ToolsCache::new(now());

    let age = Duration::from_secs(cache.age(now_ms()).unwrap());
    // Age should be very small (just created)
    assert!(age.as_secs() < 5);
}

#[test]
fn test_cache_serialization() {
    let mut cache = ToolsCache::new(now());
    cache.tools.insert(
        "git".to_string(),
        ToolInfo {
            path: "/usr/bin/git".to_string(),
            desc: "distributed version control".to_string(),
        },
    );

    let json = render_cache(&cache);
    assert!(json.contains("git"));
    assert!(json.contains("/usr/bin/git"));

    let deserialized: ToolsCache = parse_cache(&json).unwrap();
    assert_eq!(deserialized.tools.len(), 1);
    assert_eq!(deserialized.tools.get("git").unwrap().path, "/usr/bin/git");
}

#[test]
fn test_load_or_create_cache_creates_new() {
    // This should always succeed, creating a new cache if needed
    let cache = load_or_create_cache(None, now());

    // A newly created cache should have a timestamp
    assert!(!cache.last_updated.is_empty());
}

#[test]
fn test_tool_info_serialization() {
    let info = ToolInfo {
        path: "/usr/bin/git".to_string(),
        desc: "distributed version control".to_string(),
    };
    let mut cache = ToolsCache::new(now());
    cache.tools.insert("git".to_string(), info.clone());

    let json = render_cache(&cache);
    let deserialized = parse_cache(&json).unwrap();
    let read = deserialized.tools.get("git").unwrap();

    assert_eq!(read.path, info.path);
    assert_eq!(read.desc, info.desc);
}

#[test]
fn test_tools_cache_creation() {
    let cache = ToolsCache::new(now());

    assert!(cache.tools.is_empty());
    assert!(!cache.last_updated.is_empty());
}

#[test]
fn test_tools_cache_age_fresh() {
    let cache = ToolsCache::new(now());
    let age = Duration::from_secs(cache.age(now_ms()).unwrap());

    // Newly created cache should be very fresh
    assert!(age.as_secs() < 5);
}

#[test]
fn test_tools_cache_needs_refresh_fresh() {
    let cache = ToolsCache::new(now());

    // Brand new cache should not need refresh
    assert!(!cache.needs_refresh(now_ms()));
}

#[test]
fn test_tools_cache_needs_refresh_stale() {
    let mut cache = ToolsCache::new(now());

    // Set timestamp to 25 hours ago (older than 24h threshold)
    let old_time = chrono::Utc::now() - chrono::Duration::hours(25);
    cache.last_updated = old_time.to_rfc3339();

    assert!(cache.needs_refresh(now_ms()));
}

#[test]
fn test_cache_refresh_interval_is_24_hours() {
    assert_eq!(Duration::from_secs(CACHE_REFRESH_SECS).as_secs(), 24 * 60 * 60);
}

#[test]
fn test_tools_cache_with_multiple_tools() {
    let mut cache = ToolsCache::new(now());

    cache.tools.insert(
        "git".to_string(),
        ToolInfo {
            path: "/usr/bin/git".to_string(),
            desc: "distributed version control".to_string(),
        },
    );
    cache.tools.insert(
        "docker".to_string(),
        ToolInfo {
            path: "/usr/local/bin/docker".to_string(),
            desc: "container runtime".to_string(),
        },
    );

    assert_eq!(cache.tools.len(), 2);
    assert!(cache.tools.contains_key("git"));
    assert!(cache.tools.contains_key("docker"));
}

#[test]
fn test_cache_serialization_format() {
    let mut cache = ToolsCache::new(now());
    cache.tools.insert(
        "git".to_string(),
        ToolInfo {
            path: "/usr/bin/git".to_string(),
            desc: "version control".to_string(),
        },
    );

    let json = render_cache(&cache);

    // Verify JSON structure
    assert!(json.contains("last_updated"));
    assert!(json.contains("tools"));
    assert!(json.contains("git"));
    assert!(json.contains("/usr/bin/git"));
    assert!(json.contains("version control"));
}

#[test]
fn lib_test_get_model_path_preserves_name() {
    let model_names = vec![
        "qwen3-correct-0.6B",
        "llama-7b-q4",
        "model_with_underscore",
        "model-with-dash",
    ];

    for name in model_names {
        let path = PathBuf::from("/home/user/.config/fix").join(model_file_name(name));
        let filename = path.file_name().unwrap().to_str().unwrap();
        assert_eq!(filename, format!("{}.gguf", name));
    }
}

#[test]
fn main_test_get_model_path_preserves_name() {
    let model_names = vec![
        "qwen3-correct-0.6B",
        "llama-7b-q4",
        "model_with_underscore",
        "model-with-dash",
    ];

    for name in model_names {
        let path = PathBuf::from("/home/user/.config/fix").join(model_file_name(name));
        let filename = path.file_name().unwrap().to_str().unwrap();
        assert_eq!(filename, format!("{}.gguf", name));
    }
}

#[test]
fn rendered_cache_is_exact() {
    let mut cache = ToolsCache::new("2024-05-01T10:00:00+00:00".to_string());
    assert_eq!(
        render_cache(&cache),
        "{\n  \"last_updated\": \"2024-05-01T10:00:00+00:00\",\n  \"tools\": {}\n}"
    );
    cache.tools.insert(
        "ls".to_string(),
        ToolInfo { path: "/bin/ls".to_string(), desc: "list \"files\"".to_string() },
    );
    cache.tools.insert(
        "git".to_string(),
        ToolInfo { path: "/usr/bin/git".to_string(), desc: "vcs".to_string() },
    );
    let text = render_cache(&cache);
    assert_eq!(
        text,
        "{\n  \"last_updated\": \"2024-05-01T10:00:00+00:00\",\n  \"tools\": {\n    \"git\": {\n      \"path\": \"/usr/bin/git\",\n      \"desc\": \"vcs\"\n    },\n    \"ls\": {\n      \"path\": \"/bin/ls\",\n      \"desc\": \"list \\\"files\\\"\"\n    }\n  }\n}"
    );
    assert_eq!(parse_cache(&text), Ok(cache.clone()));
    assert_eq!(load_or_create_cache(Some(&text), "later".to_string()), cache);
    assert_eq!(CACHE_FILE, "tools_cache.json");
}

#[test]
fn broken_cache_files_are_replaced() {
    for text in [
        "",
        "[]",
        "{\"tools\": {}}",
        "{\"last_updated\": 5, \"tools\": {}}",
        "{\"last_updated\": \"x\", \"tools\": []}",
        "{\"last_updated\": \"x\", \"tools\": {\"git\": 1}}",
        "{\"last_updated\": \"x\", \"tools\": {\"git\": {\"path\": \"/g\"}}}",
        "{\"last_updated\": \"x\", \"tools\": {\"a\": {\"path\": \"/a\", \"desc\": \"d\"}, \"git\": {\"path\": 1, \"desc\": \"d\"}}}",
    ] {
        assert_eq!(parse_cache(text), Err("Failed to parse cache".to_string()), "{}", text);
        let cache = load_or_create_cache(Some(text), "now".to_string());
        assert_eq!(cache.last_updated, "now");
        assert!(cache.tools.is_empty());
    }
}

#[test]
fn age_is_told_in_whole_seconds() {
    let cache = ToolsCache::new("1970-01-01T00:00:10+00:00".to_string());
    assert_eq!(cache.age(10_000), Ok(0));
    assert_eq!(cache.age(10_999), Ok(0));
    assert_eq!(cache.age(11_000), Ok(1));
    assert_eq!(cache.age(9_000), Ok(0));
    assert_eq!(cache.age(i64::MAX), Ok(((i64::MAX - 10_000) / 1000) as u64));
    assert!(!cache.needs_refresh(10_000 + 86_399_999));
    assert!(cache.needs_refresh(10_000 + 86_400_000));
    // Another offset names the same instant.
    let shifted = ToolsCache::new("1970-01-01T02:00:10+02:00".to_string());
    assert_eq!(shifted.age(11_000), Ok(1));
    assert_eq!(whole_seconds(i64::MIN, i64::MAX), ((i64::MAX as i128 - i64::MIN as i128) / 1000) as u64);
}

#[test]
fn a_timestamp_that_is_none_makes_the_cache_due() {
    let mut cache = ToolsCache::new("yesterday".to_string());
    let age = cache.age(0);
    assert!(age.is_err());
    assert!(age.unwrap_err().starts_with("Invalid timestamp: "));
    assert!(cache.needs_refresh(0));
    cache.update_timestamp("1970-01-01T00:00:00Z".to_string());
    assert_eq!(cache.last_updated, "1970-01-01T00:00:00Z");
    assert!(!cache.needs_refresh(0));
}

#[test]
fn lib_test_get_model_path_appends_gguf() {
    let config_dir = PathBuf::from("/home/user/.config/fix");
    let path = config_dir.join(model_file_name("test-model"));

    assert!(path.ends_with("test-model.gguf"));
    assert_eq!(path.parent().unwrap(), config_dir);
}

#[test]
fn main_test_get_model_path_appends_gguf() {
    let config_dir = PathBuf::from("/home/user/.config/fix");
    let path = config_dir.join(model_file_name("test-model"));

    assert!(path.ends_with("test-model.gguf"));
    assert_eq!(path.parent().unwrap(), config_dir);
}
