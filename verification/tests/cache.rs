use charcoal_dict::app::cache::{archive_entry, join_path, CacheError};
use charcoal_dict::{Cache, CacheKey, ExactQuery, Lang};

fn cache(root: &str) -> Cache {
    Cache::new(
        format!("{root}/cache"),
        format!("{root}/vault"),
        format!("{root}/tmp"),
    )
}

#[test]
fn arbitrary_queries_remain_inside_cache() {
    let cache = cache("/tmp/charcoal-test");
    for word in [
        "../../outside",
        "/tmp/outside",
        "C:\\outside",
        "hello world",
        "\u{6e05}\u{6670}",
    ] {
        let key = CacheKey::new(word, Lang::Eng, "youdao", 1);
        let path = cache.get_file_path(&key, "bin").unwrap();
        let rest = path.strip_prefix("/tmp/charcoal-test/cache/").unwrap();
        let parts: Vec<&str> = rest.split('/').collect();
        assert_eq!(parts.len(), 2);
        for part in parts {
            assert!(!part.is_empty() && part != "." && part != "..");
            assert!(!part.contains('\\'));
        }
        assert!(!path.contains("outside"));
    }
}

#[test]
fn keys_separate_languages_providers_and_versions() {
    let base = CacheKey::new("hello", Lang::Eng, "youdao", 1);
    for key in [
        CacheKey::new("hello", Lang::Fra, "youdao", 1),
        CacheKey::new("hello", Lang::Eng, "google-tts", 1),
        CacheKey::new("hello", Lang::Eng, "youdao", 2),
    ] {
        assert_ne!(base.as_str(), key.as_str());
    }
    assert_eq!(base.as_str(), CacheKey::new("hello", Lang::Eng, "youdao", 1).as_str());
}

#[test]
fn archives_preserve_hashed_identities() {
    let key = CacheKey::new("hello world", Lang::Fra, "google-tts", 1);
    let name = key.file_name("mp3");
    let (imported, suffix) = archive_entry(&name).unwrap();
    assert_eq!(imported, key);
    assert_eq!(suffix, "mp3");
}

#[test]
fn keys_are_versioned_lowercase_sha256_hex() {
    // SHA-256 of the JSON identity `[1,"youdao","eng","hello"]`.
    let key = CacheKey::new("hello", Lang::Eng, "youdao", 1);
    let id = key.as_str();
    assert_eq!(id.len(), 67);
    assert!(id.starts_with("v1-"));
    assert!(id[3..].chars().all(|c| c.is_ascii_hexdigit() && !c.is_ascii_uppercase()));
    assert_eq!(id, "v1-09eb0e4a90c9f5cc40e284080444927e4adc87446cc39bbba6460c41a6c8fbb1");
    let tts = CacheKey::new("hello world", Lang::Fra, "google-tts", 1);
    assert_eq!(
        tts.as_str(),
        "v1-77ec1ea6a66476614d6c35cbc7c0d1d0832a7fb0bb2752b6dca7e6bc3d39302c"
    );
}

#[test]
fn file_paths_shard_by_the_first_digest_digits() {
    let cache = cache("/var/cache/charcoal");
    let key = CacheKey::new("clear", Lang::Eng, "youdao", 1);
    let id = key.as_str().to_owned();
    let path = cache.get_file_path(&key, "mp3").unwrap();
    assert_eq!(path, format!("/var/cache/charcoal/cache/{}/{}.mp3", &id[3..5], id));
}

#[test]
fn unsupported_formats_are_refused() {
    let cache = cache("/tmp/c");
    let key = CacheKey::new("clear", Lang::Eng, "youdao", 1);
    assert_eq!(cache.get_file_path(&key, "txt"), Err(CacheError::UnsupportedFormat));
    assert_eq!(cache.get_file_path(&key, "BIN"), Err(CacheError::UnsupportedFormat));
}

#[test]
fn archive_names_are_checked() {
    assert_eq!(archive_entry("noextension").unwrap_err(), CacheError::InvalidArchiveName);
    assert_eq!(archive_entry("hello.txt").unwrap_err(), CacheError::InvalidArchiveName);
    assert_eq!(archive_entry("v1-abc.bin").unwrap_err(), CacheError::InvalidDigest);
    let bad = format!("v1-{}.bin", "g".repeat(64));
    assert_eq!(archive_entry(&bad).unwrap_err(), CacheError::InvalidDigest);
}

#[test]
fn upper_case_digests_are_read_in_lower_case() {
    let key = CacheKey::new("hello", Lang::Eng, "youdao", 1);
    let upper = format!("v1-{}", key.as_str()[3..].to_ascii_uppercase());
    let read = CacheKey::from_archive_name(&upper, "bin").unwrap();
    assert_eq!(read, key);
}

#[test]
fn legacy_names_are_english_words_of_the_format_provider() {
    let (key, suffix) = archive_entry("hello.world.bin").unwrap();
    assert_eq!(suffix, "bin");
    assert_eq!(key, CacheKey::new("hello.world", Lang::Eng, "youdao", 1));
    let (key, suffix) = archive_entry("hello.mp3").unwrap();
    assert_eq!(suffix, "mp3");
    assert_eq!(key, CacheKey::new("hello", Lang::Eng, "google-tts", 1));
}

#[test]
fn query_entries_are_keyed_by_youdao() {
    let query = ExactQuery::new("hello".to_owned(), Lang::Fra, false).unwrap();
    assert_eq!(query.cache_key(), CacheKey::new("hello", Lang::Fra, "youdao", 1));
}

#[test]
fn paths_join_with_one_separator() {
    assert_eq!(join_path(&"a/".to_owned(), &"b".to_owned()), "a/b");
    assert_eq!(join_path(&"a".to_owned(), &"b".to_owned()), "a/b");
    assert_eq!(join_path(&String::new(), &"b".to_owned()), "b");
}

#[test]
fn cache_shows_its_entry_directory() {
    let cache = cache("/x");
    assert_eq!(cache.show(), "/x/cache");
    assert_eq!(cache.vault_dir(), "/x/vault");
    assert_eq!(cache.tmp_dir(), "/x/tmp");
}
