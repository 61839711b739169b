use base64::Engine;
use klawply::auth::{build_authorize_url, parse_query};
use klawply::b64::base64_encode;
use klawply::clipboard::copy_to_clipboard;
use klawply::codec::{decode_base64url, random_b64url};

#[test]
fn standard_base64_with_padding() {
    assert_eq!(base64_encode(b""), "");
    assert_eq!(base64_encode(b"f"), "Zg==");
    assert_eq!(base64_encode(b"fo"), "Zm8=");
    assert_eq!(base64_encode(b"foo"), "Zm9v");
    assert_eq!(base64_encode(b"foobar"), "Zm9vYmFy");
    assert_eq!(base64_encode(&[0xfb, 0xff, 0xbf]), "+/+/");
}

#[test]
fn base64_length_is_four_for_each_three_bytes() {
    for n in 0..20usize {
        let bytes = vec![7u8; n];
        assert_eq!(base64_encode(&bytes).len(), (n + 2) / 3 * 4);
    }
}

#[test]
fn clipboard_escape_carries_base64() {
    assert_eq!(copy_to_clipboard("foo"), "\u{1b}]52;c;Zm9v\u{7}");
    assert_eq!(copy_to_clipboard("é"), "\u{1b}]52;c;w6k=\u{7}");
}

#[test]
fn url_safe_base64_is_read_back() {
    assert_eq!(decode_base64url("-_-_"), Some(vec![0xfb, 0xff, 0xbf]));
    assert_eq!(decode_base64url("Zg"), Some(b"f".to_vec()));
    assert_eq!(decode_base64url(""), Some(Vec::new()));
}

#[test]
fn what_is_not_url_safe_base64_is_refused() {
    assert_eq!(decode_base64url("Zg=="), None);
    assert_eq!(decode_base64url("+/+/"), None);
    assert_eq!(decode_base64url("Z"), None);
    assert_eq!(decode_base64url("Zh"), None);
}

#[test]
fn random_text_has_the_asked_for_bytes() {
    for n in 0..40usize {
        let s = random_b64url(n);
        assert_eq!(decode_base64url(&s).map(|b| b.len()), Some(n));
    }
    assert_ne!(random_b64url(32), random_b64url(32));
}

#[test]
fn encoded_bytes_are_read_back() {
    for n in 0..70u8 {
        let bytes: Vec<u8> = (0..n).map(|i| i.wrapping_mul(37)).collect();
        let standard = base64::engine::general_purpose::STANDARD.decode(base64_encode(&bytes));
        assert_eq!(standard.ok(), Some(bytes));
    }
}

#[test]
fn url_safe_base64_needs_no_escaping() {
    let s = random_b64url(300);
    assert!(s.chars().all(|c| c.is_ascii_alphanumeric() || c == '-' || c == '_'));
}

#[test]
fn encoded_texts_are_read_back() {
    for s in ["", "plain", "a b&c=d?e/f", "é€😀\n\t", "100%25", "+"] {
        let url = build_authorize_url("c", s);
        let encoded = url.rsplit('=').next().unwrap_or_default().to_string();
        assert!(encoded.chars().all(|c| c.is_ascii_alphanumeric() || "-._~%".contains(c)));
        let back = parse_query(&format!("state={encoded}"));
        assert_eq!(back.get("state"), Some(&s.to_string()));
    }
}
