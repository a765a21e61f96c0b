use regex::Regex;
use url::Url;
use stream_relay::common::uri::{
    is_secret_key, mask_query, redact_chars, redact_kv_like, redact_uri_secrets,
};

#[test]
fn redact_srt_pass() {
    let uri = "srt://127.0.0.1:9000?mode=caller&pass=hello";
    let red = redact_uri_secrets(uri);
    assert!(!red.contains("pass=hello"));
    assert!(red.contains("pass=***"));
}

#[test]
fn redact_rist_psk_env() {
    let uri = "rist://@:10000?mode=listener&psk=env:FOO";
    let red = redact_uri_secrets(uri);
    assert!(!red.contains("psk=env:FOO"));
    assert!(red.contains("psk=***"));
}

#[test]
fn redact_token_urlencoded() {
    let uri = "srt://host?token=abc%20123&mode=caller";
    let red = redact_uri_secrets(uri);
    assert!(!red.contains("token=abc%20123"));
    assert!(red.contains("token=***"));
}

#[test]
fn redact_fragment() {
    let uri = "srt://host/path#secret=shh&x=1";
    let red = redact_uri_secrets(uri);
    assert!(red.contains("secret=***"));
    assert!(!red.contains("secret=shh"));
}

#[test]
fn redact_token_leaves_neither_form_of_the_value() {
    let red = redact_uri_secrets("proto://host?token=abc%20123&mode=caller");
    assert_eq!(red, "proto://host?token=***&mode=caller");
    assert!(red.contains("token=***"));
    assert!(!red.contains("abc%20123"));
    assert!(!red.contains("abc 123"));
}

#[test]
fn secret_keys_are_matched_in_any_case() {
    for key in ["psk", "token", "pass", "password", "secret", "key"] {
        assert!(is_secret_key(key));
        assert!(is_secret_key(&key.to_uppercase()));
    }
    assert!(is_secret_key("PassWord"));
    assert!(is_secret_key("kEy"));
}

#[test]
fn other_keys_are_not_secret() {
    for key in ["", "mode", "passw", "keys", "monkey", "pass ", "to ken", "p\u{17f}k", "\u{212a}ey"] {
        assert!(!is_secret_key(key));
    }
}

#[test]
fn query_keeps_order_names_and_other_parameters() {
    assert_eq!(
        mask_query("mode=caller&PASS=hunter2&latency=80&key=&keyring=open"),
        "mode=caller&PASS=***&latency=80&key=***&keyring=open"
    );
    assert_eq!(mask_query("a=%20b+c&token=x%26y&d=e=f&&g"), "a=%20b+c&token=***&d=e=f&&g");
    assert_eq!(mask_query("key"), "key=***");
    assert_eq!(mask_query("secret=a=b&=secret&monkey=1"), "secret=***&=secret&monkey=1");
    assert_eq!(mask_query("%70ass=hello&pa%73s=x&p+ass=y"), "%70ass=***&pa%73s=***&p+ass=y");
    assert_eq!(mask_query(""), "");
    assert_eq!(mask_query("&&"), "&&");
    assert_eq!(mask_query("x=1&y=2"), "x=1&y=2");
    for q in ["pass=1&x=2", "key", "a&token=%00&b", "PSK=***"] {
        let once = mask_query(q);
        assert_eq!(mask_query(&once), once, "on {:?}", q);
    }
}

#[test]
fn scan_masks_up_to_the_next_delimiter() {
    assert_eq!(redact_kv_like("pass=hello"), "pass=***");
    assert_eq!(redact_kv_like("pass=hello&x=1"), "pass=***&x=1");
    assert_eq!(redact_kv_like("a=1&token=t#key=k&b=2"), "a=1&token=***#key=***&b=2");
    assert_eq!(redact_kv_like("password=a=b=c&d"), "password=***&d");
    assert_eq!(redact_kv_like("secret="), "secret=***");
    assert_eq!(redact_kv_like("PSK=x"), "PSK=***");
}

#[test]
fn scan_leaves_plain_text_alone() {
    for text in ["", "&", "#&#", "mode=caller&latency=80", "pass", "pass&=x", "token =x", "keyx=1"] {
        assert_eq!(redact_kv_like(text), text);
    }
}

#[test]
fn scan_passes_over_a_name_at_the_end_of_a_longer_key() {
    assert_eq!(redact_kv_like("monkey=banana"), "monkey=banana");
    assert_eq!(redact_kv_like("xpassword=1&bypass=2"), "xpassword=1&bypass=2");
    assert_eq!(redact_kv_like("monkey=1&secret=shh"), "monkey=1&secret=***");
    assert_eq!(redact_kv_like("my key=1&my-token=2#a.pass=3"), "my key=1&my-token=2#a.pass=3");
    assert_eq!(redact_kv_like("\u{17f}ecret=1&\u{212a}ey=2"), "\u{17f}ecret=1&\u{212a}ey=2");
}

#[test]
fn scan_takes_a_key_behind_a_question_mark() {
    assert_eq!(redact_kv_like("rist://@:1?psk=x&a=b"), "rist://@:1?psk=***&a=b");
    assert_eq!(redact_kv_like("a?b?key=1"), "a?b?key=***");
    assert_eq!(redact_kv_like("x=a?pass=b&c=d"), "x=a?pass=***&c=d");
    assert_eq!(redact_kv_like("#?key=1"), "#?key=***");
    assert_eq!(redact_kv_like("a:key=1&b/key=2"), "a:key=1&b/key=2");
}

#[test]
fn fragment_keeps_a_parameter_whose_key_only_ends_in_a_secret_name() {
    let masked = redact_uri_secrets("srt://host/path#monkey=1&secret=shh");
    assert_eq!(masked, "srt://host/path#monkey=1&secret=***");
    assert!(masked.contains("monkey=1"));
    assert!(masked.contains("secret=***"));
    assert!(!masked.contains("shh"));
}

#[test]
fn scan_masks_once_per_stretch() {
    assert_eq!(redact_kv_like("pass=a key=b"), "pass=***");
    assert_eq!(redact_kv_like("pass=a&key=b?key=c"), "pass=***&key=***");
    assert_eq!(redact_kv_like("x pass=a key=b&key=c"), "x pass=a key=b&key=***");
}

#[test]
fn scan_works_on_characters_not_bytes() {
    assert_eq!(redact_kv_like("\u{e9}t\u{e9}&key=\u{1f511}&\u{4e2d}"), "\u{e9}t\u{e9}&key=***&\u{4e2d}");
    let chars: Vec<char> = "key=\u{1f511}".chars().collect();
    let masked: String = redact_chars(&chars).into_iter().collect();
    assert_eq!(masked, "key=***");
}

#[test]
fn scan_agrees_with_the_pattern_it_stands_for() {
    let pattern =
        Regex::new(r"(^|[&#?])((?i-u:psk|token|pass|password|secret|key))=([^&#]*)").unwrap();
    for text in [
        "",
        "srt://@:9000?mode=listener&psk=env:FOO",
        "pass=1&password=2&PASSWORD=3&Pass=4",
        "passkey=1&keypass=2&secretkey=&tokentoken=x",
        "password=pass=key=secret",
        "a=b#c=d&key=e#f",
        "key==&=key&key&&##key=#",
        "pas=1&passw=2&passwor=3&passwordpassword=4",
        "toke=n&oken=1&x-token=abc def&y",
        "psk=\u{e9}&\u{e9}psk=1",
        "KEY=1 key=2\nkey=3&kEy=4",
        "\u{212a}ey=1&to\u{212a}en=2&\u{17f}ecret=3&p\u{17f}\u{212a}=4&pa\u{17f}\u{17f}word=5",
        "\u{e9}key=\u{17f}&\u{212a}=key",
    ] {
        let expected = pattern.replace_all(text, "${1}${2}=***").into_owned();
        assert_eq!(redact_kv_like(text), expected, "on {:?}", text);
    }
}

#[test]
fn masking_twice_is_masking_once() {
    for text in [
        "srt://127.0.0.1:9000?mode=caller&pass=hello",
        "rist://@:10000?mode=listener&psk=env:FOO",
        "srt://host?token=abc%20123&mode=caller",
        "srt://host/path#secret=shh&x=1",
        "srt://host?PASS=x&flag&a=b c#KEY=1&z",
        "srt://host?%70ass=x&a=%20#monkey=1&secret=2",
        "no url at all: key=1&pass=***&x",
        "pass=***",
    ] {
        let once = redact_uri_secrets(text);
        assert_eq!(redact_uri_secrets(&once), once, "on {:?}", text);
        let scanned = redact_kv_like(text);
        assert_eq!(redact_kv_like(&scanned), scanned, "on {:?}", text);
    }
}

#[test]
fn query_is_read_as_parameters() {
    // a name written with an escape is still recognised, which the scan of
    // the raw text would miss
    assert_eq!(redact_uri_secrets("srt://host?%70ass=hello"), "srt://host?%70ass=***");
    assert_eq!(redact_kv_like("srt://host?%70ass=hello"), "srt://host?%70ass=hello");
    // a name that only ends in a secret name is no secret parameter
    assert_eq!(redact_uri_secrets("srt://host?monkey=banana"), "srt://host?monkey=banana");
}

#[test]
fn other_parameters_stay_as_they_are_written() {
    assert_eq!(
        redact_uri_secrets("srt://host?a=b%20c&PASS=x&flag&d=e+f&g=%2F#KEY=1&z"),
        "srt://host?a=b%20c&PASS=***&flag&d=e+f&g=%2F#KEY=***&z"
    );
    assert_eq!(
        redact_uri_secrets("srt://host:9000/live?streamid=a/b:c&passphrase=x&pass=y"),
        "srt://host:9000/live?streamid=a/b:c&passphrase=x&pass=***"
    );
    // a URL without a secret in its query keeps the query that it was parsed with
    assert_eq!(redact_uri_secrets("srt://host?a=b%20c&&d"), "srt://host?a=b%20c&&d");
}

#[test]
fn url_without_query_keeps_its_text() {
    assert_eq!(redact_uri_secrets("srt://host:9000"), "srt://host:9000");
    assert_eq!(redact_uri_secrets("srt://host/path?"), "srt://host/path?");
}

#[test]
fn fragment_is_masked_as_the_url_holds_it() {
    assert_eq!(redact_uri_secrets("srt://host/p#key=v&\u{e9}"), "srt://host/p#key=***&%C3%A9");
    assert_eq!(redact_uri_secrets("srt://host/p?a=1#x=1"), "srt://host/p?a=1#x=1");
    assert_eq!(redact_uri_secrets("srt://host/p?key=1#token=2"), "srt://host/p?key=***#token=***");
}

#[test]
fn text_that_is_no_url_is_scanned() {
    assert_eq!(
        redact_uri_secrets("rist://@:10000?mode=listener&psk=env:FOO"),
        "rist://@:10000?mode=listener&psk=***"
    );
    assert_eq!(redact_uri_secrets("pass=1&x=2#token=3"), "pass=***&x=2#token=***");
    assert_eq!(redact_uri_secrets(""), "");
}

#[test]
fn scan_agrees_with_the_pattern_on_generated_texts() {
    let pattern =
        Regex::new(r"(^|[&#?])((?i-u:psk|token|pass|password|secret|key))=([^&#]*)").unwrap();
    let pieces = [
        "psk", "token", "pass", "password", "secret", "key", "PSK", "Token", "PASS", "PassWord",
        "sEcReT", "KEY", "=", "=", "=", "&", "&", "#", "?", "?", "*", "***", " ", "a", "k", "s", "w",
        "ord", "en", "\u{212a}", "\u{17f}", "\u{e9}", "\u{1f511}", "mode", "1", "://",
    ];
    let mut seed: u64 = 0x9e3779b97f4a7c15;
    for _ in 0..20000 {
        let mut text = String::new();
        seed = seed.wrapping_mul(6364136223846793005).wrapping_add(1442695040888963407);
        let count = (seed >> 60) as usize;
        for _ in 0..count {
            seed = seed.wrapping_mul(6364136223846793005).wrapping_add(1442695040888963407);
            text.push_str(pieces[(seed >> 33) as usize % pieces.len()]);
        }
        let expected = pattern.replace_all(&text, "${1}${2}=***").into_owned();
        let masked = redact_kv_like(&text);
        assert_eq!(masked, expected, "on {:?}", text);
        assert_eq!(redact_kv_like(&masked), masked, "on {:?}", text);
        let delimiters = |s: &str| s.chars().filter(|c| *c == '&' || *c == '#').collect::<String>();
        assert_eq!(delimiters(&masked), delimiters(&text), "on {:?}", text);
    }
}

fn kept_characters() -> String {
    ('!'..='~').filter(|c| !"\"#<>'`".contains(*c)).collect()
}

#[test]
fn url_that_comes_out_has_the_masked_query_and_fragment() {
    let kept = kept_characters();
    assert_eq!(kept.len(), 94 - 6);
    for scheme in ["srt", "rist", "http", "x-y"] {
        for (query, fragment) in [
            ("a=1&pass=x&b=2".to_string(), "c=3&key=y".to_string()),
            (format!("token=t&all={}", kept.replace('&', "")), format!("{}&secret={}", kept, kept)),
            ("".to_string(), "".to_string()),
            ("k%65y=1&&x=%26".to_string(), "monkey=1&secret=shh".to_string()),
        ] {
            let input = format!("{}://host:9/p?{}#{}", scheme, query, fragment);
            let parsed = Url::parse(&input).unwrap();
            let out = redact_uri_secrets(&input);
            let shown = Url::parse(&out).unwrap();
            assert_eq!(parsed.query(), Some(query.as_str()), "on {:?}", input);
            assert_eq!(shown.query(), Some(mask_query(&query).as_str()), "on {:?}", input);
            assert_eq!(shown.fragment(), Some(redact_kv_like(&fragment).as_str()), "on {:?}", input);
            assert_eq!(&out[..out.find('?').unwrap()], &input[..input.find('?').unwrap()]);
        }
    }
}

#[test]
fn url_without_query_or_fragment_gets_none() {
    for input in ["srt://host:9/p", "srt://host:9/p#key=1", "srt://host:9/p?key=1"] {
        let parsed = Url::parse(input).unwrap();
        let shown = Url::parse(&redact_uri_secrets(input)).unwrap();
        assert_eq!(shown.query().is_some(), parsed.query().is_some(), "on {:?}", input);
        assert_eq!(shown.fragment().is_some(), parsed.fragment().is_some(), "on {:?}", input);
    }
}

#[test]
fn writer_keeps_the_characters_that_the_library_counts_on() {
    let kept = kept_characters();
    for base in ["srt://h?old#frag", "http://h/p?old#frag", "a:b?old#frag"] {
        let mut url = Url::parse(base).unwrap();
        url.set_query(Some(&kept));
        assert_eq!(url.query(), Some(kept.as_str()));
        assert_eq!(url.fragment(), Some("frag"));
        url.set_fragment(Some(&kept));
        assert_eq!(url.fragment(), Some(kept.as_str()));
        assert_eq!(url.query(), Some(kept.as_str()));
    }
}
