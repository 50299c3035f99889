use cinode_extract::cache::{
    cache_file_path, file_for_digest, judge_cached, judge_fetched, Answer, Fatal, Lookup, Verdict,
    CACHE_DIR, QUOTA_PHRASE,
};
use std::collections::HashMap;

/// What a request gave, in a run against a cache in memory.
#[derive(Debug, PartialEq)]
enum Got {
    Parsed(String),
    Empty,
    Stopped(Fatal),
}

fn looks_like_a_list(text: &str) -> bool {
    text.starts_with('[') && text.ends_with(']')
}

/// Follows a lookup step by step, as a caller has to. Returns what the
/// request gave and how often the service was asked.
fn serve(files: &mut HashMap<String, String>, path: &str, remote: &str) -> (Got, u32) {
    let mut asked = 0;
    let mut lookup = Lookup::begin(path);
    let mut text = String::new();
    loop {
        lookup = match lookup {
            Lookup::ReadCache { file } => {
                let answer = match files.get(&file) {
                    Some(held) => {
                        text = held.clone();
                        Answer::CacheFile { parses: looks_like_a_list(held) }
                    }
                    None => Answer::NoCacheFile,
                };
                Lookup::ReadCache { file }.step(&answer)
            }
            Lookup::Fetch { file } => {
                asked += 1;
                text = remote.to_string();
                let answer = Answer::Service { body: remote, parses: looks_like_a_list(remote) };
                Lookup::Fetch { file }.step(&answer)
            }
            Lookup::StoreAndUse { file } => {
                files.insert(file, text.clone());
                return (Got::Parsed(text), asked);
            }
            Lookup::UseCached => return (Got::Parsed(text), asked),
            Lookup::UseEmpty => return (Got::Empty, asked),
            Lookup::Stop(why) => return (Got::Stopped(why), asked),
        }
    }
}

#[test]
fn cache_file_is_named_by_the_md5_of_the_path() {
    assert_eq!(cache_file_path(""), "cache/d41d8cd98f00b204e9800998ecf8427e.json");
    assert_eq!(
        cache_file_path("abcdefghijklmnopqrstuvwxyz"),
        "cache/c3fcd3d76192e4007dfb496cca67e13b.json"
    );
}

#[test]
fn cache_file_is_the_digest_in_hex_with_json_behind() {
    assert_eq!(CACHE_DIR, "cache");
    let digest = [
        0xd4, 0x1d, 0x8c, 0xd9, 0x8f, 0x00, 0xb2, 0x04, 0xe9, 0x80, 0x09, 0x98, 0xec, 0xf8, 0x42,
        0x7e,
    ];
    assert_eq!(file_for_digest(&digest), "cache/d41d8cd98f00b204e9800998ecf8427e.json");
    assert_eq!(file_for_digest(&[0x0a]), "cache/0a.json");
}

#[test]
fn cache_file_agrees_with_the_digest_crate() {
    let path = "https://api.cinode.com/v0.1/companies/31/customers/17";
    let expected = format!("cache/{:x}.json", md5::compute(path));
    assert_eq!(cache_file_path(path), expected);
}

#[test]
fn cache_file_differs_for_different_paths() {
    assert_ne!(cache_file_path("a/1"), cache_file_path("a/2"));
    assert_eq!(cache_file_path("a/1"), cache_file_path("a/1"));
}

#[test]
fn cached_text_is_used_or_is_damage() {
    assert_eq!(judge_cached(true), Verdict::Accept);
    assert_eq!(judge_cached(false), Verdict::Stop(Fatal::CorruptCache));
}

#[test]
fn fetched_text_of_the_right_shape_is_accepted() {
    assert_eq!(judge_fetched("[]", true), Verdict::Accept);
    assert_eq!(judge_fetched("[\"Too many requests for 24 hrs.\"]", true), Verdict::Accept);
}

#[test]
fn fetched_text_with_the_quota_phrase_stops_the_run() {
    assert_eq!(QUOTA_PHRASE, "Too many requests for 24 hrs.");
    assert_eq!(
        judge_fetched("Too many requests for 24 hrs.", false),
        Verdict::Stop(Fatal::QuotaExhausted)
    );
    assert_eq!(
        judge_fetched("<p>Too many requests for 24 hrs. Come back later.</p>", false),
        Verdict::Stop(Fatal::QuotaExhausted)
    );
}

#[test]
fn fetched_text_of_another_shape_stands_for_nothing() {
    assert_eq!(judge_fetched("", false), Verdict::Nothing);
    assert_eq!(judge_fetched("Not found", false), Verdict::Nothing);
    assert_eq!(judge_fetched("Too many requests", false), Verdict::Nothing);
}

#[test]
fn lookup_begins_with_the_cache_file() {
    match Lookup::begin("abcdefghijklmnopqrstuvwxyz") {
        Lookup::ReadCache { file } => {
            assert_eq!(file, "cache/c3fcd3d76192e4007dfb496cca67e13b.json")
        }
        other => panic!("unexpected first step: {:?}", other),
    }
}

#[test]
fn lookup_ignores_an_answer_it_did_not_ask_for() {
    let start = Lookup::begin("p");
    let same = start.step(&Answer::Service { body: "[]", parses: true });
    assert!(matches!(same, Lookup::ReadCache { .. }));
    let fetch = same.step(&Answer::NoCacheFile);
    assert!(matches!(fetch, Lookup::Fetch { .. }));
    let still = fetch.step(&Answer::CacheFile { parses: true });
    assert!(matches!(still, Lookup::Fetch { .. }));
    let done = Lookup::UseEmpty.step(&Answer::NoCacheFile);
    assert!(matches!(done, Lookup::UseEmpty));
}

#[test]
fn second_lookup_is_served_from_the_cache() {
    let mut files = HashMap::new();
    let first = serve(&mut files, "customers", "[1, 2]");
    assert_eq!(first, (Got::Parsed("[1, 2]".to_string()), 1));
    assert_eq!(files.len(), 1);
    let second = serve(&mut files, "customers", "[3]");
    assert_eq!(second, (Got::Parsed("[1, 2]".to_string()), 0));
    assert_eq!(files.len(), 1);
}

#[test]
fn rejected_text_is_not_cached_and_is_asked_for_again() {
    let mut files = HashMap::new();
    let first = serve(&mut files, "customers/9", "Not found");
    assert_eq!(first, (Got::Empty, 1));
    assert!(files.is_empty());
    let second = serve(&mut files, "customers/9", "[4]");
    assert_eq!(second, (Got::Parsed("[4]".to_string()), 1));
    assert_eq!(files.get(&cache_file_path("customers/9")), Some(&"[4]".to_string()));
}

#[test]
fn quota_phrase_stops_the_lookup_and_writes_nothing() {
    let mut files = HashMap::new();
    let got = serve(&mut files, "projects", "Too many requests for 24 hrs.");
    assert_eq!(got, (Got::Stopped(Fatal::QuotaExhausted), 1));
    assert!(files.is_empty());
}

#[test]
fn damaged_cache_file_stops_the_lookup() {
    let mut files = HashMap::new();
    files.insert(cache_file_path("projects"), "{broken".to_string());
    let got = serve(&mut files, "projects", "[]");
    assert_eq!(got, (Got::Stopped(Fatal::CorruptCache), 0));
    assert_eq!(files.get(&cache_file_path("projects")), Some(&"{broken".to_string()));
}
