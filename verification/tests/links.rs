//! Links: capturing, decoding, routing, and watching the clipboard.

use std::path::PathBuf;

use fluxdown::capture_link::{
    is_capture_url, normalize_capture_url, percent_decode, torrent_file_path,
};
use fluxdown::category_dir::{
    category_save_dir, category_takes, dir_for_name, file_name_from_url, matches as takes,
    percent_decode as decode_segment, CustomCategoryDto,
};
use fluxdown::clipboard_watch::{extract_capture_urls, ClipboardWatcher, SeenUrls};
use fluxdown::clock::{Duration, Instant};
use fluxdown::preferences::{PrefValue, Preferences};

#[test]
fn normalizes_fluxdown_scheme_variants() {
    assert_eq!(
        normalize_capture_url("fluxdown://download?url=https%3A%2F%2Fa.b%2Fc"),
        "https://a.b/c"
    );
    assert_eq!(
        normalize_capture_url("fluxdown:https://a.b/c"),
        "https://a.b/c"
    );
    assert_eq!(normalize_capture_url("magnet:?x"), "magnet:?x");
}

#[test]
fn percent_decode_keeps_malformed_and_multibyte_sequences() {
    assert_eq!(percent_decode("a%2"), "a%2");
    assert_eq!(percent_decode("%zz"), "%zz");
    assert_eq!(percent_decode("%E4%B8%AD"), "中");
    assert_eq!(percent_decode("%中文"), "%中文");
}

#[test]
fn torrent_paths_require_torrent_suffix() {
    assert_eq!(
        torrent_file_path("/tmp/X.TORRENT").map(PathBuf::from),
        Some(PathBuf::from("/tmp/X.TORRENT"))
    );
    assert_eq!(torrent_file_path("/tmp/x.zip"), None);
}

#[test]
fn links_are_known_by_their_scheme_in_any_case() {
    assert!(is_capture_url("MAGNET:?xt=urn:btih:abc"));
    assert!(is_capture_url("FtPs://host/file"));
    assert!(is_capture_url("ed2k://|file|a|1|h|/"));
    assert!(!is_capture_url("ed2k:|file|"));
    assert!(!is_capture_url("/tmp/a.torrent"));
    assert!(!is_capture_url(""));
}

#[test]
fn decoding_leaves_signs_plain_text_and_bad_utf8_alone() {
    assert_eq!(percent_decode("%+5"), "%+5");
    assert_eq!(percent_decode("plain text"), "plain text");
    assert_eq!(percent_decode("a%FFb"), "a%FFb");
    assert_eq!(percent_decode("100%"), "100%");
    assert_eq!(percent_decode("%41%6a"), "Aj");
}

#[test]
fn deep_links_take_the_first_url_of_their_query() {
    assert_eq!(
        normalize_capture_url("FLUXDOWN:///download?a=1&url=ftp%3A%2F%2Fh&url=x"),
        "ftp://h"
    );
    assert_eq!(normalize_capture_url("fluxdown://download?a=1"), "download?a=1");
    assert_eq!(
        normalize_capture_url("fluxdown:magnet:?xt=urn:btih:abc"),
        "magnet:?xt=urn:btih:abc"
    );
}

#[test]
fn encoded_targets_come_back_whole() {
    let target = "https://a.b/c%20d?x=1&y=中#z";
    let encoded: String = target
        .bytes()
        .map(|b| {
            if b.is_ascii_alphanumeric() {
                char::from(b).to_string()
            } else {
                format!("%{b:02X}")
            }
        })
        .collect();
    let link = format!("fluxdown://download?url={encoded}");
    assert_eq!(normalize_capture_url(&link), target);
    assert_eq!(normalize_capture_url(&format!("{link}&more=1")), target);
}

#[test]
fn torrent_urls_are_decoded_to_paths() {
    assert_eq!(
        torrent_file_path("file:///tmp/a%20b.torrent").as_deref(),
        Some("/tmp/a b.torrent")
    );
    assert_eq!(torrent_file_path("https://a.b/c.torrent.html"), None);
}

#[test]
fn extract_single_url() {
    let urls = extract_capture_urls("  https://example.com/file.zip  ");
    assert_eq!(urls, vec!["https://example.com/file.zip".to_owned()]);
}

#[test]
fn extract_magnet_url() {
    let urls = extract_capture_urls("magnet:?xt=urn:btih:abcdef");
    assert_eq!(urls, vec!["magnet:?xt=urn:btih:abcdef".to_owned()]);
}

#[test]
fn extract_multiline_all_urls() {
    let text = "https://a.example.com/1.zip\nhttps://b.example.com/2.zip\n";
    let urls = extract_capture_urls(text);
    assert_eq!(
        urls,
        vec![
            "https://a.example.com/1.zip".to_owned(),
            "https://b.example.com/2.zip".to_owned(),
        ]
    );
}

#[test]
fn extract_multiline_mixed_rejected() {
    let text = "https://a.example.com/1.zip\nnot a url\n";
    assert!(extract_capture_urls(text).is_empty());
}

#[test]
fn extract_plain_text_rejected() {
    assert!(extract_capture_urls("just some copied text").is_empty());
}

#[test]
fn extract_empty_rejected() {
    assert!(extract_capture_urls("   \n  ").is_empty());
}

const TTL_SECS: u64 = 30 * 60;
const CAPACITY: usize = 50;

fn start() -> Instant {
    Instant { nanos: 1_000_000_000_000 }
}

fn after(at: Instant, secs: u64) -> Instant {
    at.plus(Duration::from_secs(secs))
}

#[test]
fn seen_urls_dedupes_within_ttl() {
    let mut seen = SeenUrls::new();
    let now = start();
    assert!(seen.insert("https://example.com/a", now));
    assert!(!seen.insert("https://example.com/a", after(now, 60)));
}

#[test]
fn seen_urls_expires_after_ttl() {
    let mut seen = SeenUrls::new();
    let now = start();
    assert!(seen.insert("https://example.com/a", now));
    let later = after(now, TTL_SECS + 1);
    assert!(seen.insert("https://example.com/a", later));
}

#[test]
fn seen_urls_evicts_oldest_beyond_capacity() {
    let mut seen = SeenUrls::new();
    let now = start();
    for i in 0..CAPACITY {
        assert!(seen.insert(&format!("https://example.com/{i}"), now));
    }
    assert!(seen.insert("https://example.com/new", now));
    assert!(seen.insert("https://example.com/0", now));
}

#[test]
fn seen_urls_expire_exactly_at_the_ttl_and_stay_bounded() {
    let mut seen = SeenUrls::new();
    let now = start();
    assert!(seen.insert("u", now));
    assert!(!seen.insert("u", after(now, TTL_SECS - 1)));
    assert!(seen.insert("u", after(now, TTL_SECS)));
    for i in 0..200 {
        seen.insert(&format!("{i}"), after(now, TTL_SECS));
        assert!(seen.entries.len() <= CAPACITY);
    }
}

fn watching(on: bool) -> Preferences {
    let mut preferences = Preferences::new();
    preferences
        .entries
        .push(("general.clipboard_watch".to_owned(), PrefValue::Bool(on)));
    preferences
}

#[test]
fn clipboard_hands_over_new_links_once() {
    let on = watching(true);
    let now = start();
    let mut watcher = ClipboardWatcher::new(Some("https://old.example/a".to_owned()));
    assert!(watcher
        .poll(&on, Some("https://old.example/a".to_owned()), now)
        .is_empty());
    assert_eq!(
        watcher.poll(&on, Some("fluxdown:https://a.b/c".to_owned()), now),
        vec!["https://a.b/c".to_owned()]
    );
    assert!(watcher.poll(&on, None, now).is_empty());
    assert!(watcher
        .poll(&on, Some("https://a.b/c".to_owned()), after(now, 5))
        .is_empty());
    assert!(watcher
        .poll(&on, Some("text".to_owned()), after(now, 6))
        .is_empty());
}

#[test]
fn clipboard_is_left_alone_while_watching_is_off() {
    let now = start();
    let mut watcher = ClipboardWatcher::new(None);
    let text = || Some("https://a.b/c".to_owned());
    assert!(watcher.poll(&Preferences::new(), text(), now).is_empty());
    assert!(watcher.poll(&watching(false), text(), now).is_empty());
    assert_eq!(watcher.last_text, None);
    assert_eq!(watcher.poll(&watching(true), text(), now).len(), 1);
}

fn category(
    id: &str,
    builtin: Option<&str>,
    extensions: &[&str],
    save_dir: &str,
    position: i64,
) -> CustomCategoryDto {
    CustomCategoryDto {
        id: id.to_owned(),
        name: id.to_owned(),
        match_mode: "extension".to_owned(),
        regex_pattern: String::new(),
        extensions: extensions.iter().map(|e| (*e).to_owned()).collect(),
        position,
        visible: true,
        builtin_type: builtin.map(str::to_owned),
        save_dir: save_dir.to_owned(),
    }
}

fn pattern(id: &str, regex: &str, save_dir: &str, position: i64) -> CustomCategoryDto {
    CustomCategoryDto {
        match_mode: "regex".to_owned(),
        regex_pattern: regex.to_owned(),
        ..category(id, None, &[], save_dir, position)
    }
}

#[test]
fn first_matching_category_with_dir_wins_in_position_order() {
    let categories = vec![
        category("video2", None, &["mp4"], "/second", 5),
        category("video", Some("video"), &["mp4", "mkv"], "/videos", 1),
        category("docs", Some("document"), &["pdf"], "", 2),
    ];
    assert_eq!(
        category_save_dir(&categories, "Movie.MP4", "").as_deref(),
        Some("/videos")
    );
    assert_eq!(category_save_dir(&categories, "a.pdf", ""), None);
}

#[test]
fn other_dir_applies_only_when_no_normal_category_matches() {
    let categories = vec![
        category("video", Some("video"), &["mp4"], "", 1),
        category("other", Some("other"), &[], "/other", 7),
    ];
    assert_eq!(
        category_save_dir(&categories, "setup.exe", "").as_deref(),
        Some("/other")
    );
    assert_eq!(category_save_dir(&categories, "clip.mp4", ""), None);
}

#[test]
fn url_segment_fills_missing_name_and_hidden_categories_are_ignored() {
    let mut hidden = category("music", None, &["flac"], "/music-hidden", 1);
    hidden.visible = false;
    let categories = vec![hidden, category("audio", Some("audio"), &["flac"], "/music", 2)];
    assert_eq!(
        category_save_dir(&categories, "", "https://x.test/a/My%20Song.flac?x=1").as_deref(),
        Some("/music")
    );
    assert_eq!(
        category_save_dir(&categories, "", "https://x.test/download"),
        None
    );
}

#[test]
fn regex_matches_case_insensitively_and_invalid_regex_never_matches() {
    let categories = vec![
        pattern("bad", "(", "/bad", 1),
        pattern("iso", "^ubuntu-.*\\.iso$", "/iso", 2),
    ];
    assert_eq!(
        category_save_dir(&categories, "Ubuntu-24.04.ISO", "").as_deref(),
        Some("/iso")
    );
}

#[test]
fn patterns_and_extensions_decide_what_a_category_takes() {
    assert!(takes(&pattern("x", "b+c", "", 1), "aBBC"));
    assert!(!takes(&pattern("x", "b+c", "", 1), "ac"));
    assert!(!takes(&pattern("x", "", "", 1), "a"));
    assert!(takes(&category("x", None, &[".ISO"], "", 1), "a.b.iso"));
    assert!(!takes(&category("x", None, &["iso"], "", 1), "iso"));
    assert!(!takes(&category("x", None, &[""], "", 1), "a."));
    assert!(category_takes(&pattern("x", "p", "", 1), "n", Some(true)));
    assert!(!category_takes(&pattern("x", "p", "", 1), "n", Some(false)));
    assert!(!category_takes(&pattern("x", "p", "", 1), "n", None));
}

#[test]
fn equal_positions_keep_their_order_and_all_takes_nothing() {
    let categories = vec![
        category("all", Some("all"), &["zip"], "/all", 0),
        category("one", None, &["zip"], "/one", 3),
        category("two", None, &["zip"], "/two", 3),
    ];
    assert_eq!(dir_for_name(&categories, "a.zip").as_deref(), Some("/one"));
    assert_eq!(dir_for_name(&categories, ""), None);
}

#[test]
fn names_come_from_the_last_part_of_an_address() {
    assert_eq!(
        file_name_from_url(" https://h/p/%E4%B8%AD.bin#f ").as_deref(),
        Some("中.bin")
    );
    assert_eq!(file_name_from_url("https://h/p/"), None);
    assert_eq!(file_name_from_url("not a url.zip"), None);
    assert_eq!(file_name_from_url("data:text/plain,x.y"), None);
}

#[test]
fn segments_are_decoded_with_replacements() {
    assert_eq!(decode_segment("a%20b%2"), "a b%2");
    assert_eq!(decode_segment("%+f"), "%+f");
    assert_eq!(decode_segment("a%FFb"), "a\u{FFFD}b");
}
