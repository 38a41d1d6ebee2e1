use regex::Regex;
use woah::url::{from_url, parse_flagged_url};

#[test]
fn test_extract_git() {
    let cases = [
        from_url("https://github.com/username/repository.git"),
        from_url("http://github.com/username/repository"),
        from_url("git@github.com:username/repository.git"),
        from_url("ssh://git@github.com/username/repository"),
        from_url("git://github.com/username/repository"),
        from_url("https://bitbucket.org/username/repository.git"),
        from_url("git@gitlab.com:username/repository.git"),
        from_url("https://example.com/username/repository"),
        from_url("git@example.com:username/repository.git"),
        from_url("ssh://git@example.com/username/repository"),
        from_url("https://github.com/username/repository.git/extra"),
    ];

    for case in cases {
        assert!(case.is_ok(), "Expected a valid URL: {:?}", case);
    }

    assert!(
        from_url("https://github.com").is_err(),
        "Expected an invalid URL"
    );
    assert!(
        from_url("ssh://github.com").is_err(),
        "Expected an invalid URL"
    );
    assert!(
        from_url("git@github.com").is_err(),
        "Expected an invalid URL"
    );
}

fn parts(url: &str) -> (String, String, String) {
    let r = from_url(url).expect("valid URL");
    assert_eq!(r.url, url);
    (r.host, r.username, r.name)
}

fn owned(h: &str, u: &str, n: &str) -> (String, String, String) {
    (h.to_string(), u.to_string(), n.to_string())
}

#[test]
fn parses_https_with_git_suffix() {
    assert_eq!(
        parts("https://github.com/torvalds/linux.git"),
        owned("github.com", "torvalds", "linux")
    );
}

#[test]
fn parses_scp_form() {
    assert_eq!(
        parts("git@gitlab.com:team/proj.git"),
        owned("gitlab.com", "team", "proj")
    );
}

#[test]
fn ignores_trailing_segment() {
    assert_eq!(
        parts("https://github.com/a/b.git/extra"),
        owned("github.com", "a", "b")
    );
}

#[test]
fn parses_every_scheme() {
    assert_eq!(parts("http://h.io/u/r"), owned("h.io", "u", "r"));
    assert_eq!(parts("ssh://git@h-1.io/u/r"), owned("h-1.io", "u", "r"));
    assert_eq!(parts("git://h_2.io/u/r.git"), owned("h_2.io", "u", "r"));
    assert_eq!(parts("h.io:u/r"), owned("h.io", "u", "r"));
}

#[test]
fn strips_www_from_host() {
    assert_eq!(
        parts("https://www.github.com/u/r"),
        owned("github.com", "u", "r")
    );
    assert_eq!(parts("https://www./u/r"), owned("www.", "u", "r"));
}

#[test]
fn repository_name_stops_at_first_dot() {
    assert_eq!(
        parts("https://github.com/u/my.repo.git"),
        owned("github.com", "u", "my")
    );
}

#[test]
fn rejects_urls_without_path() {
    for url in [
        "https://github.com",
        "git@github.com",
        "https://github.com/username",
        "git@github.com:username",
        "https://github.com/username/",
        "https://github.com//repo",
        "https://h:/u",
        "",
    ] {
        assert_eq!(from_url(url).unwrap_err(), "Invalid URL", "{}", url);
    }
}

#[test]
fn agrees_with_capture_pattern() {
    let re = Regex::new(
        r"(?:https?:\/\/|(?:ssh:\/\/)?git@|git:\/\/)?(?:www\.)?([\w.-]+)[/:]([^/]+)\/([^/.]+)(?:\.git)?",
    )
    .unwrap();
    for url in [
        "https://github.com/username/repository.git",
        "http://github.com/username/repository",
        "git@github.com:username/repository.git",
        "ssh://git@github.com/username/repository",
        "git://github.com/username/repository",
        "https://bitbucket.org/username/repository.git",
        "https://www.example.com/user/repo",
        "https://github.com/username/repository.git/extra",
        "https://github.com",
        "git@github.com",
        "ssh://github.com",
        "ftp://h/u/r",
        "https://user@github.com/u/r",
        "http://git@h/u/r",
        "  https://github.com/u/r",
        "ssh://github.com/u/r",
        "xhttps://h/u/r",
    ] {
        let expected = re
            .captures(url)
            .map(|c| owned(&c[1], &c[2], &c[3]));
        let got = from_url(url).ok().map(|r| (r.host, r.username, r.name));
        assert_eq!(got, expected, "{}", url);
    }
}

#[test]
fn unicode_host_agrees_with_capture_pattern() {
    let re = Regex::new(
        r"(?:https?:\/\/|(?:ssh:\/\/)?git@|git:\/\/)?(?:www\.)?([\w.-]+)[/:]([^/]+)\/([^/.]+)(?:\.git)?",
    )
    .unwrap();
    for url in [
        "https://é/u/r",
        "https://é/u/r.git",
        "git@bücher.de:ü/ß.git",
        "https://日本.jp/u/r",
        "https://→/u/r",
    ] {
        let expected = re
            .captures(url)
            .map(|c| owned(&c[1], &c[2], &c[3]));
        let got = from_url(url).ok().map(|r| (r.host, r.username, r.name));
        assert_eq!(got, expected, "{}", url);
    }
    assert_eq!(parts("https://é/u/r"), owned("é", "u", "r"));
}

#[test]
fn search_finds_first_match() {
    assert_eq!(parts("ftp://h/u/r"), owned("h", "u", "r"));
    assert_eq!(parts("https://user@github.com/u/r"), owned("github.com", "u", "r"));
    assert_eq!(parts("  https://github.com/u/r"), owned("github.com", "u", "r"));
}

#[test]
fn flagged_parse_follows_flags() {
    let url = "https://é/u/r";
    let mut word: Vec<bool> = url
        .chars()
        .map(|c| c.is_ascii_alphanumeric() || c == '_')
        .collect();
    assert!(parse_flagged_url(url, &word).is_err());
    word[8] = true;
    let r = parse_flagged_url(url, &word).unwrap();
    assert_eq!((r.host, r.username, r.name), owned("é", "u", "r"));
}
