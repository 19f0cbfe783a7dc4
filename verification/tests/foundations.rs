use fiducia_admin::clock::{now_ms, timestamp};
use fiducia_admin::config::{csv_env, optional_env, required_env, validated_grafana_public_url};
use fiducia_admin::fingerprint::{fingerprint_field, fingerprint_json};
use fiducia_admin::json::{Json, JsonNumber};
use fiducia_admin::text::{
    contains, decimal_text, eq_ignore_ascii_case, is_control, is_white_space, parse_signed, parse_unsigned,
    signed_decimal_text, split_on, split_once, strip_prefix, trim, trim_end_matches, trim_matches,
    trim_start_matches, urlencode,
};
use fiducia_admin::upstream::{
    append_chunk, check_status, error_class, json_array, scale_answer, service_url, UpstreamError, UpstreamFailure,
    MAX_UPSTREAM_BODY_BYTES,
};

fn parsed(text: &str) -> Json {
    match Json::from_bytes(text.as_bytes()) {
        Some(value) => value,
        None => panic!("not JSON: {text}"),
    }
}

#[test]
fn texts_are_taken_apart_like_the_standard_library_does() {
    let samples =
        ["", " ", "a", " a b ", "\u{a0}a\u{3000}", "//a//", "http://http://x", "é=ü=", "a=b=c", "x;y;;z", "-0", "+7"];
    for sample in samples {
        assert_eq!(trim(sample), sample.trim(), "{sample:?}");
        assert_eq!(trim_end_matches(sample, '/'), sample.trim_end_matches('/'), "{sample:?}");
        assert_eq!(trim_matches(sample, '/'), sample.trim_matches('/'), "{sample:?}");
        assert_eq!(trim_start_matches(sample, "http://"), sample.trim_start_matches("http://"), "{sample:?}");
        assert_eq!(split_once(sample, '='), sample.split_once('='), "{sample:?}");
        assert_eq!(split_on(sample, ';'), sample.split(';').map(str::to_string).collect::<Vec<_>>(), "{sample:?}");
        assert_eq!(strip_prefix(sample, "a"), sample.strip_prefix('a'), "{sample:?}");
        assert_eq!(contains(sample, "http"), sample.contains("http"), "{sample:?}");
        assert_eq!(parse_unsigned(sample), sample.parse::<u64>().ok(), "{sample:?}");
        assert_eq!(parse_signed(sample), sample.parse::<i64>().ok(), "{sample:?}");
    }
    assert!(eq_ignore_ascii_case("HoSt", "hOsT") && !eq_ignore_ascii_case("É", "é"));
}

#[test]
fn characters_are_classified_like_the_standard_library_does() {
    for ch in '\0'..=char::MAX {
        assert_eq!(is_white_space(ch), ch.is_whitespace(), "{ch:?}");
        assert_eq!(is_control(ch), ch.is_control(), "{ch:?}");
    }
}

#[test]
fn numbers_are_written_and_read() {
    for n in [0, 9, 10, 1234567890, u64::MAX] {
        assert_eq!(decimal_text(n), n.to_string());
        assert_eq!(parse_unsigned(&n.to_string()), Some(n));
    }
    for n in [i64::MIN, -1, 0, 42, i64::MAX] {
        assert_eq!(signed_decimal_text(n), n.to_string());
        assert_eq!(parse_signed(&n.to_string()), Some(n));
    }
    assert_eq!(parse_unsigned("18446744073709551616"), None);
    assert_eq!(parse_signed("-9223372036854775809"), None);
}

#[test]
fn escaped_text_is_inert() {
    assert_eq!(urlencode("a-Z_0.~"), "a-Z_0.~");
    assert_eq!(urlencode("{é} \"&"), "%7B%C3%A9%7D%20%22%26");
}

#[test]
fn escaping_is_undone_and_goes_piece_by_piece() {
    let texts = ["", "plain", "100% é", "a/b?c=d&e#f", "%41", "\0\u{7f}\u{10ffff}"];
    for a in texts {
        let escaped = urlencode(a);
        let mut bytes = Vec::new();
        let mut rest = escaped.as_bytes();
        while let Some((first, tail)) = rest.split_first() {
            if *first == b'%' {
                bytes.push(u8::from_str_radix(std::str::from_utf8(&tail[..2]).unwrap(), 16).unwrap());
                rest = &tail[2..];
            } else {
                bytes.push(*first);
                rest = tail;
            }
        }
        assert_eq!(bytes, a.as_bytes());
        assert_eq!(escaped == a, a.bytes().all(|byte| byte.is_ascii_alphanumeric() || b"-_.~".contains(&byte)));
        for b in texts {
            assert_eq!(urlencode(&format!("{a}{b}")), format!("{}{}", urlencode(a), urlencode(b)));
        }
    }
}

#[test]
fn json_is_read_and_written_as_serde_json_does() {
    let text = r#"{"b":[1,-2,1.5,true,null,"é\n"],"a":{"z":18446744073709551615,"y":-9223372036854775808}}"#;
    let value: serde_json::Value = serde_json::from_str(text).unwrap();
    assert_eq!(parsed(text).to_text(), value.to_string());
    for number in [
        "2.638344616030823e-256",
        "8.442911973260991817129021e-309",
        "1.7976931348623157e308",
        "9007199254740993.0",
        "3.3161339052167390562200598e-237",
        "6.25e-2",
        "-0.0",
    ] {
        let value: serde_json::Value = serde_json::from_str(number).unwrap();
        assert_eq!(parsed(number).to_text(), value.to_string());
    }
    assert!(Json::from_bytes(b"{} x").is_none());
    assert!(Json::from_bytes(b"\xff").is_none());
    assert_eq!(parsed(r#"{"a":1,"a":2}"#).get_i64("a"), Some(2));
    let json = parsed(text);
    assert_eq!(json.get("a").and_then(|a| a.get_u64("z")), Some(u64::MAX));
    assert_eq!(json.get("a").and_then(|a| a.get_i64("z")), None);
    assert_eq!(json.get("a").and_then(|a| a.get_i64("y")), Some(i64::MIN));
    assert_eq!(json.get("b").and_then(|b| b.at(3)).and_then(Json::as_bool), Some(true));
    assert!(json.get("b").and_then(|b| b.at(9)).is_none());
    assert_eq!(Json::Number(JsonNumber::Float("2.50".to_string())).to_text(), "2.5");
}

#[test]
fn encodings_are_unambiguous() {
    let bytes = |json: &Json| {
        let mut bytes = Vec::new();
        fingerprint_json(&mut bytes, json);
        bytes
    };
    let values = ["null", "false", "true", "0", "1", "-1", "\"\"", "\"1\"", "[]", "[null]", "{}", "{\"\":null}", "[[],[]]"];
    for (i, left) in values.iter().enumerate() {
        for (j, right) in values.iter().enumerate() {
            assert_eq!(bytes(&parsed(left)) == bytes(&parsed(right)), i == j, "{left} {right}");
        }
    }
    assert_eq!(bytes(&parsed(r#"{"a":1,"b":2}"#)), bytes(&parsed(r#"{"b":2,"a":1}"#)));
    let mut field = Vec::new();
    fingerprint_field(&mut field, b"ab");
    assert_eq!(field, [0, 0, 0, 0, 0, 0, 0, 2, b'a', b'b']);
}

#[test]
fn settings_are_trimmed_or_required() {
    assert_eq!(required_env("NAME", Some(" x ")), Ok(" x ".to_string()));
    assert_eq!(required_env("NAME", Some("  ")), Err("NAME must be set".to_string()));
    assert_eq!(required_env("NAME", None), Err("NAME must be set".to_string()));
    assert_eq!(optional_env(Some(" x ")), Some("x".to_string()));
    assert_eq!(optional_env(Some(" ")), None);
    assert_eq!(csv_env(Some(" a ,, b,")), vec!["a".to_string(), "b".to_string()]);
    assert!(csv_env(None).is_empty());
    assert_eq!(
        validated_grafana_public_url(Some(" javascript:x ")),
        Err("FIDUCIA_GRAFANA_PUBLIC_URL must be an http(s):// URL or a root-relative path starting with '/': got \"javascript:x\"".to_string())
    );
}

#[test]
fn failures_are_reduced_to_a_class() {
    assert_eq!(error_class(UpstreamFailure::Known(UpstreamError::UntrustedAddress)), "untrusted address");
    assert_eq!(error_class(UpstreamFailure::Known(UpstreamError::OversizedResponse)), "oversized response");
    assert_eq!(error_class(UpstreamFailure::Known(UpstreamError::BadStatus(302))), "bad status: 302");
    assert_eq!(error_class(UpstreamFailure::Transport { timeout: true, status: Some(500) }), "timeout");
    assert_eq!(error_class(UpstreamFailure::Transport { timeout: false, status: Some(500) }), "bad status: 500");
    assert_eq!(error_class(UpstreamFailure::Transport { timeout: false, status: None }), "unreachable");
    assert_eq!(error_class(UpstreamFailure::Other), "upstream error");
    assert_eq!(check_status(204), Ok(()));
    assert_eq!(check_status(302), Err(UpstreamError::BadStatus(302)));
}

#[test]
fn bodies_are_capped_as_they_arrive() {
    let mut buffer = vec![0; MAX_UPSTREAM_BODY_BYTES - 1];
    assert_eq!(append_chunk(&mut buffer, b"a"), Ok(()));
    assert_eq!(append_chunk(&mut buffer, b"b"), Err(UpstreamError::OversizedResponse));
    assert_eq!(buffer.len(), MAX_UPSTREAM_BODY_BYTES);
    assert_eq!(buffer[MAX_UPSTREAM_BODY_BYTES - 1], b'a');
}

#[test]
fn answers_must_hold_what_was_asked_for() {
    assert_eq!(service_url("http://brain:8095//", "/v1/nodes"), "http://brain:8095/v1/nodes");
    assert!(json_array(&parsed(r#"{"nodes":[1]}"#), "nodes").is_ok_and(|items| items.len() == 1));
    match json_array(&parsed(r#"{"nodes":{}}"#), "nodes") {
        Ok(_) => panic!("an object passed for an array"),
        Err(error) => assert_eq!(error, "upstream response omitted nodes array"),
    }
    assert_eq!(scale_answer(&parsed(r#"{"ok":false}"#)), Ok(false));
    assert_eq!(scale_answer(&parsed("{}")), Err("brain response omitted ok".to_string()));
}

#[test]
fn the_clock_counts_from_1970() {
    assert_eq!(timestamp(None), 0);
    assert_eq!(timestamp(Some(1_752_400_681_123)), 1_752_400_681_123);
    assert!(now_ms() > 1_600_000_000_000);
}
