use huobi_future::sign::{build_query_string, canonical_query, percent_encode, sign,
    sign_hmac_sha256_base64, get_timestamp};
use huobi_future::text::u64_to_dec;

fn pairs(v: &[(&str, &str)]) -> Vec<(String, String)> {
    v.iter().map(|(k, val)| (k.to_string(), val.to_string())).collect()
}

#[test]
fn percent_encode_escapes_plus_and_comma() {
    assert_eq!(percent_encode("1+2,3"), "1%2B2%2C3");
}

#[test]
fn percent_encode_keeps_unreserved() {
    assert_eq!(percent_encode("AbZ09.-_~!$&'()*"), "AbZ09.-_~!$&'()*");
}

#[test]
fn percent_encode_escapes_userinfo_set() {
    assert_eq!(percent_encode(" \"#<>`?{}"), "%20%22%23%3C%3E%60%3F%7B%7D");
    assert_eq!(percent_encode("/:;=@[\\]^|"), "%2F%3A%3B%3D%40%5B%5C%5D%5E%7C");
}

#[test]
fn percent_encode_escapes_non_ascii_bytes() {
    // U+00E9 is 0xC3 0xA9 in UTF-8: both bytes are escaped.
    assert_eq!(percent_encode("\u{e9}"), "%C3%A9");
}

#[test]
fn percent_encode_empty() {
    assert_eq!(percent_encode(""), "");
}

#[test]
fn build_query_string_keeps_given_order() {
    let q = build_query_string(&pairs(&[("b", "2"), ("a", "1")]));
    assert_eq!(q, "b=2&a=1");
}

#[test]
fn canonical_query_sorts_by_key() {
    let q = canonical_query(&pairs(&[("b", "2"), ("a", "1")]));
    assert_eq!(q, "a=1&b=2");
}

#[test]
fn canonical_query_is_insertion_order_insensitive() {
    let q1 = canonical_query(&pairs(&[("b", "2"), ("a", "1"), ("c", "x y")]));
    let q2 = canonical_query(&pairs(&[("c", "x y"), ("a", "1"), ("b", "2")]));
    assert_eq!(q1, q2);
    assert_eq!(q1, "a=1&b=2&c=x%20y");
}

#[test]
fn canonical_query_encodes_values_not_keys() {
    let q = canonical_query(&pairs(&[("Timestamp", "2020-01-01T00:00:00")]));
    assert_eq!(q, "Timestamp=2020-01-01T00%3A00%3A00");
}

#[test]
fn sign_matches_fixed_vector() {
    let s = sign(
        "mysecret",
        "GET",
        "api.hbdm.vn",
        "/api/v1/contract_order",
        &pairs(&[("b", "2"), ("a", "1")]),
    );
    assert_eq!(s, "6Dbird+DbEb2goy4QBN68MfNtG4fTwlCY9/mMyaLfVA=");
}

#[test]
fn sign_is_deterministic_and_order_insensitive() {
    let a = sign("mysecret", "GET", "api.hbdm.vn", "/api/v1/contract_order",
        &pairs(&[("b", "2"), ("a", "1")]));
    let b = sign("mysecret", "GET", "api.hbdm.vn", "/api/v1/contract_order",
        &pairs(&[("a", "1"), ("b", "2")]));
    assert_eq!(a, b);
}

#[test]
fn sign_changes_with_each_input() {
    let base = sign("mysecret", "GET", "api.hbdm.vn", "/p", &pairs(&[("a", "1")]));
    let m = sign("mysecret", "POST", "api.hbdm.vn", "/p", &pairs(&[("a", "1")]));
    let h = sign("mysecret", "GET", "api.huobi.pro", "/p", &pairs(&[("a", "1")]));
    let p = sign("mysecret", "GET", "api.hbdm.vn", "/q", &pairs(&[("a", "1")]));
    let s = sign("other", "GET", "api.hbdm.vn", "/p", &pairs(&[("a", "1")]));
    let v = sign("mysecret", "GET", "api.hbdm.vn", "/p", &pairs(&[("a", "2")]));
    for other in [&m, &h, &p, &s, &v] {
        assert_ne!(&base, other);
    }
}

#[test]
fn sign_method_vector() {
    let s = sign("mysecret", "POST", "api.hbdm.vn", "/api/v1/contract_order",
        &pairs(&[("b", "2"), ("a", "1")]));
    assert_eq!(s, "BwAdHZC2x203IMT53xHYwDS15Ty8HBGNhra0yRoxAJo=");
}

#[test]
fn sign_percent_encodes_values() {
    let s = sign("s", "GET", "h", "/p", &pairs(&[("k", "1+2,3")]));
    assert_eq!(s, "WMyIMC9vTdYbLeqqWLH8/1tcQ/smrMBik2vl4rAsfPU=");
}

#[test]
fn hmac_base64_of_empty_payload_has_base64_shape() {
    let s = sign_hmac_sha256_base64("key", "");
    // 32 tag bytes make 44 base64 characters with one trailing pad.
    assert_eq!(s.len(), 44);
    assert!(s.ends_with('='));
}

#[test]
fn timestamp_has_second_precision_shape() {
    let t = get_timestamp();
    assert_eq!(t.len(), 19);
    let b = t.as_bytes();
    assert_eq!(b[4], b'-');
    assert_eq!(b[7], b'-');
    assert_eq!(b[10], b'T');
    assert_eq!(b[13], b':');
    assert_eq!(b[16], b':');
}

#[test]
fn decimal_rendering() {
    assert_eq!(u64_to_dec(0), "0");
    assert_eq!(u64_to_dec(7), "7");
    assert_eq!(u64_to_dec(1489474081631), "1489474081631");
    assert_eq!(u64_to_dec(u64::MAX), "18446744073709551615");
}
