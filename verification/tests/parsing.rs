use untracker::sanitize::Parser;
use url::Url;

#[test]
fn test_remove_youtube_tracking_tokens() {
    let parser = Parser::new();
    // Test case 1: URL with tracking tokens
    let url_with_tokens = "https://www.youtube.com/watch?v=dQw4w9WgXcQ&feature=youtu.be&utm_source=newsletter&utm_medium=email";
    let expected_clean_url = Url::parse("https://www.youtube.com/watch?v=dQw4w9WgXcQ").unwrap();
    assert_eq!(
        parser.parse_youtube_url(url_with_tokens),
        Some(expected_clean_url.to_string())
    );

    // Test case 2: URL without tracking tokens
    let url_without_tokens = "https://www.youtube.com/watch?v=dQw4w9WgXcQ";
    assert_eq!(parser.parse_youtube_url(url_without_tokens), None);

    // Test case 3: URL with mixed parameters
    let url_mixed = "https://www.youtube.com/watch?v=dQw4w9WgXcQ&feature=youtu.be&t=10s&utm_source=newsletter";
    let expected_mixed_clean = "https://www.youtube.com/watch?v=dQw4w9WgXcQ&t=10s";
    assert_eq!(
        parser.parse_youtube_url(url_mixed),
        Some(expected_mixed_clean.to_string())
    );

    // Test case 4: Non-YouTube URL
    let non_youtube_url = "https://www.example.com?param1=value1&utm_source=test";
    assert_eq!(parser.parse_youtube_url(non_youtube_url), None);
}

#[test]
fn test_twitter_url_with_tracking_params() {
    let parser = Parser::new();
    let url = "https://twitter.com/user/status/123?utm_source=test&s=1";
    let result = parser.parse_twitter_url(url);
    assert_eq!(
        result,
        Some("https://twitter.com/user/status/123".to_string())
    );
}

#[test]
fn test_twitter_url_without_tracking_params() {
    let parser = Parser::new();
    let url = "https://twitter.com/user/status/123";
    let result = parser.parse_twitter_url(url);
    assert_eq!(result, None);
}

#[test]
fn test_x_com_url_with_tracking_params() {
    let parser = Parser::new();
    let url = "https://x.com/user/status/123?utm_source=test&twclid=123";
    let result = parser.parse_twitter_url(url);
    assert_eq!(result, Some("https://x.com/user/status/123".to_string()));
}

#[test]
fn test_t_co_url_with_tracking_params() {
    let parser = Parser::new();
    let url = "https://t.co/abcdef?utm_campaign=test";
    let result = parser.parse_twitter_url(url);
    assert_eq!(result, Some("https://t.co/abcdef".to_string()));
}

#[test]
fn test_non_twitter_url() {
    let parser = Parser::new();
    let url = "https://example.com/page?utm_source=test";
    let result = parser.parse_twitter_url(url);
    assert_eq!(result, None);
}

#[test]
fn test_twitter_url_with_mixed_params() {
    let parser = Parser::new();
    let url = "https://twitter.com/user/status/123?utm_source=test&valid_param=true";
    let result = parser.parse_twitter_url(url);
    assert_eq!(
        result,
        Some("https://twitter.com/user/status/123?valid_param=true".to_string())
    );
}

#[test]
fn test_www_x_com_url() {
    let parser = Parser::new();
    let url = "https://www.x.com/user/status/123?s=1&t=2";
    let result = parser.parse_twitter_url(url);
    assert_eq!(
        result,
        Some("https://www.x.com/user/status/123".to_string())
    );
}

#[test]
fn test_parse_instagram_url_valid_host_with_tracking() {
    let parser = Parser::new();
    let url = "https://www.instagram.com/p/ABC123/?utm_source=ig_web_copy_link&igshid=1234567890";
    let result = parser.parse_instagram_url(url);
    assert_eq!(
        result,
        Some("https://www.instagram.com/p/ABC123/".to_string())
    );
}

#[test]
fn test_parse_instagram_url_valid_host_without_tracking() {
    let parser = Parser::new();
    let url = "https://instagram.com/user/post/123";
    let result = parser.parse_instagram_url(url);
    assert_eq!(result, None);
}

#[test]
fn test_parse_instagram_url_invalid_host() {
    let parser = Parser::new();
    let url = "https://facebook.com/instagram/post/123";
    let result = parser.parse_instagram_url(url);
    assert_eq!(result, None);
}

#[test]
fn test_parse_instagram_url_with_multiple_tracking_params() {
    let parser = Parser::new();
    let url = "https://www.instagram.com/reel/ABC123/?utm_source=ig_web_copy_link&igshid=1234567890&utm_medium=copy_link&_ga=GA1.2.1234567890.1234567890";
    let result = parser.parse_instagram_url(url);
    assert_eq!(
        result,
        Some("https://www.instagram.com/reel/ABC123/".to_string())
    );
}

#[test]
fn test_parse_instagram_url_with_non_tracking_params() {
    let parser = Parser::new();
    let url = "https://www.instagram.com/p/ABC123/?hl=en&user=johndoe";
    let result = parser.parse_instagram_url(url);
    assert_eq!(result, None);
}

#[test]
fn test_parse_instagram_url_with_mixed_params() {
    let parser = Parser::new();
    let url = "https://www.instagram.com/p/ABC123/?hl=en&utm_source=ig_web&user=johndoe&igshid=1234567890";
    let result = parser.parse_instagram_url(url);
    assert_eq!(
        result,
        Some("https://www.instagram.com/p/ABC123/?hl=en&user=johndoe".to_string())
    );
}

#[test]
fn test_remove_substack_tracking_tokens() {
    let parser = Parser::new();

    // Test case 1: URL with tracking tokens
    let url_with_tokens = "https://example.substack.com/p/article-title?utm_source=newsletter&utm_medium=email&utm_campaign=promotion";
    let expected_clean_url = Url::parse("https://example.substack.com/p/article-title").unwrap();
    assert_eq!(
        parser.parse_substack_url(url_with_tokens),
        Some(expected_clean_url.to_string())
    );

    // Test case 2: URL without tracking tokens
    let url_without_tokens = "https://example.substack.com/p/article-title";
    assert_eq!(parser.parse_substack_url(url_without_tokens), None);

    // Test case 3: URL with mixed parameters
    let url_mixed = "https://www.substack.com/profile/12345-author-name?utm_source=substack&r=abcde&foo=bar";
    let expected_mixed_clean = "https://www.substack.com/profile/12345-author-name?foo=bar";
    assert_eq!(
        parser.parse_substack_url(url_mixed),
        Some(expected_mixed_clean.to_string())
    );

    // Test case 4: Non-Substack URL
    let non_substack_url = "https://www.example.com?param1=value1&utm_source=test";
    assert_eq!(parser.parse_substack_url(non_substack_url), None);

    // Test case 5: Substack URL with subscriber parameter
    let url_with_subscriber = "https://example.substack.com/p/article-title?s=r";
    let expected_subscriber_clean = "https://example.substack.com/p/article-title";
    assert_eq!(
        parser.parse_substack_url(url_with_subscriber),
        Some(expected_subscriber_clean.to_string())
    );

    // Test case 6: Substack main domain URL
    let main_domain_url = "https://substack.com/inbox?utm_source=substack";
    let expected_main_domain_clean = "https://substack.com/inbox";
    assert_eq!(
        parser.parse_substack_url(main_domain_url),
        Some(expected_main_domain_clean.to_string())
    );
}
