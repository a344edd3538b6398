use untracker::compose::{compose_announcement, compose_dm_reply, format_reply_text,
    sanitize_and_join_urls};
use untracker::sanitize::Parser;

#[test]
fn sanitize_youtube_note_yields_one_pair() {
    let parser = Parser::new();
    let text = "check this https://www.youtube.com/watch?v=abc&utm_source=x&feature=youtu.be";
    let pairs = parser.sanitize(text);
    assert_eq!(pairs.len(), 1);
    assert_eq!(pairs[0].0, "https://www.youtube.com/watch?v=abc");
    assert!(pairs[0].1.contains("utm_source=x"));
    assert!(pairs[0].1.contains("feature=youtu.be"));
}

#[test]
fn sanitize_keeps_valid_params_in_order() {
    let parser = Parser::new();
    let pairs = parser.sanitize("https://twitter.com/user/status/123?valid=1&utm_source=x");
    assert_eq!(pairs.len(), 1);
    assert_eq!(pairs[0].0, "https://twitter.com/user/status/123?valid=1");
}

#[test]
fn sanitize_ignores_unrecognized_host() {
    let parser = Parser::new();
    let pairs = parser.sanitize("https://example.com/?utm_source=x");
    assert_eq!(pairs.len(), 0);
}

#[test]
fn sanitize_is_idempotent_on_cleaned_urls() {
    let parser = Parser::new();
    let text = "look: https://www.youtube.com/watch?v=abc&utm_source=x&t=10s and \
        https://x.com/u/status/9?s=1&keep=2";
    let pairs = parser.sanitize(text);
    assert_eq!(pairs.len(), 2);
    let mut again = String::from("reposting:");
    for (cleaned, _) in &pairs {
        again.push(' ');
        again.push_str(cleaned);
    }
    let second = parser.sanitize(&again);
    assert_eq!(second.len(), 0);
}

#[test]
fn sanitize_is_deterministic() {
    let parser = Parser::new();
    let text = "https://open.spotify.com/track/xyz?si=abc&utm_medium=m https://substack.com/inbox?r=1";
    let first = parser.sanitize(text);
    let second = parser.sanitize(text);
    assert_eq!(first, second);
    assert_eq!(first.len(), 2);
}

#[test]
fn sanitize_reports_links_in_order_of_appearance() {
    let parser = Parser::new();
    let text = "a https://t.co/one?s=1 b https://instagram.com/p/2/?igshid=7 c \
        https://youtu.be/3?si=x";
    let pairs = parser.sanitize(text);
    assert_eq!(pairs.len(), 3);
    assert_eq!(pairs[0].0, "https://t.co/one");
    assert_eq!(pairs[1].0, "https://instagram.com/p/2/");
    assert_eq!(pairs[2].0, "https://youtu.be/3");
}

#[test]
fn sanitize_reports_no_pair_without_tracking_params() {
    let parser = Parser::new();
    // recognized hosts, but nothing to remove
    let pairs = parser.sanitize("https://twitter.com/a/b?x=1 https://youtube.com/watch?v=1");
    assert_eq!(pairs.len(), 0);
}

#[test]
fn parse_spotify_url_strips_identifiers() {
    let parser = Parser::new();
    let result = parser.parse_spotify_url("https://open.spotify.com/track/xyz?si=abcdef&nd=1");
    assert_eq!(result, Some("https://open.spotify.com/track/xyz".to_string()));
    assert_eq!(parser.parse_spotify_url("https://open.spotify.com/track/xyz"), None);
}

#[test]
fn parse_url_keeps_fragment() {
    let parser = Parser::new();
    let result = parser.parse_youtube_url("https://www.youtube.com/watch?v=abc&si=x#t=30");
    assert_eq!(result, Some("https://www.youtube.com/watch?v=abc#t=30".to_string()));
}

#[test]
fn parse_event_content_joins_cleaned_urls() {
    let parser = Parser::new();
    let text = "https://t.co/one?s=1 and https://youtu.be/3?si=x";
    let joined = parser.parse_event_content(text);
    assert_eq!(
        joined,
        Some("https://t.co/one\n\nhttps://youtu.be/3".to_string())
    );
    assert_eq!(parser.parse_event_content("no links here"), None);
}

#[test]
fn sanitize_and_join_urls_joins_both_sides() {
    let joined = sanitize_and_join_urls("https://t.co/one?s=1 and https://youtu.be/3?si=x");
    let (urls, removed) = joined.unwrap();
    assert_eq!(urls, "https://t.co/one\n\nhttps://youtu.be/3");
    assert_eq!(removed, "s=1\nsi=x");
    assert_eq!(sanitize_and_join_urls("nothing"), None);
}

#[test]
fn format_reply_text_exact() {
    let r = format_reply_text("https://a".to_string(), "s=1".to_string());
    assert_eq!(
        r,
        "🤖 Tracking strings detected and removed!\n\n🔗 Clean URL(s):\n\
         https://a\n\n❌ Removed parts:\ns=1"
    );
}

#[test]
fn compose_dm_reply_falls_back_when_nothing_to_clean() {
    assert_eq!(
        compose_dm_reply("hello, nothing to see"),
        "🤖 No tracking strings detected."
    );
    let replied = compose_dm_reply("https://t.co/one?s=1");
    assert!(replied.contains("https://t.co/one"));
    assert!(replied.starts_with("🤖 Tracking strings detected and removed!"));
}

#[test]
fn compose_announcement_exact() {
    let r = compose_announcement(1024, "npub1example");
    assert_eq!(
        r,
        "This bot has replied to 1024 events with tracking tokens in the last 3 days.\n\
         Zap this bot to incentivize development.\n@npub1example"
    );
    let zero = compose_announcement(0, "m");
    assert_eq!(
        zero,
        "This bot has replied to 0 events with tracking tokens in the last 3 days.\n\
         Zap this bot to incentivize development.\n@m"
    );
}

#[test]
fn valueless_query_keys_are_matched_and_kept_verbatim() {
    let parser = Parser::new();
    // "s" is a tracked key even without a value; "k" is kept as written
    let result = parser.parse_twitter_url("https://t.co/a?s&k");
    assert_eq!(result, Some("https://t.co/a?k".to_string()));
}

#[test]
fn duplicate_keys_keep_their_order() {
    let parser = Parser::new();
    let result = parser.parse_twitter_url("https://t.co/a?x=1&s=9&x=2");
    assert_eq!(result, Some("https://t.co/a?x=1&x=2".to_string()));
}

#[test]
fn malformed_urls_are_skipped_silently() {
    let parser = Parser::new();
    // the finder can pick up schemes the URL parser rejects; a plain text
    // with no parsable URL must degrade to an empty result, not an error
    let pairs = parser.sanitize("http:// not-a-url ://x");
    assert_eq!(pairs.len(), 0);
}
