use bird_routes::ipv4::ipv4_encryption_reverser;
use bird_routes::ipv4::ipv4_encryption_validation;
use bird_routes::ipv6::ipv6_encryption_reverser;
use bird_routes::ipv6::ipv6_encryption_validation;

fn s(t: &str) -> String {
    String::from(t)
}

#[test]
fn ipv4_dest_simple() {
    let from = s("10.0.0.1");
    let key = s("1.0.0.1");
    let r = ipv4_encryption_validation(Some(&from), Some(&key));
    assert_eq!(r.status, 200);
    assert_eq!(r.body, "11.0.0.2");
}

#[test]
fn ipv4_key_recovers() {
    let from = s("10.0.0.1");
    let to = s("11.0.0.2");
    let r = ipv4_encryption_reverser(Some(&from), Some(&to));
    assert_eq!(r.status, 200);
    assert_eq!(r.body, "1.0.0.1");
}

#[test]
fn ipv4_dest_wraps() {
    let from = s("255.255.255.255");
    let key = s("1.2.3.4");
    let r = ipv4_encryption_validation(Some(&from), Some(&key));
    assert_eq!(r.status, 200);
    assert_eq!(r.body, "0.1.2.3");
}

#[test]
fn ipv4_key_wraps() {
    let from = s("255.0.0.0");
    let to = s("1.0.0.0");
    let r = ipv4_encryption_reverser(Some(&from), Some(&to));
    assert_eq!(r.status, 200);
    assert_eq!(r.body, "2.0.0.0");
}

#[test]
fn ipv4_dest_round_trips_through_key() {
    let from = s("128.64.32.16");
    let key = s("200.100.50.25");
    let dest = ipv4_encryption_validation(Some(&from), Some(&key));
    assert_eq!(dest.status, 200);
    let back = ipv4_encryption_reverser(Some(&from), Some(&dest.body));
    assert_eq!(back.status, 200);
    assert_eq!(back.body, key);
}

#[test]
fn ipv4_missing_param_is_bad_request() {
    let from = s("10.0.0.1");
    let r = ipv4_encryption_validation(Some(&from), None);
    assert_eq!(r.status, 400);
    assert_eq!(r.body, "Error retrieving query parameters");
    let r = ipv4_encryption_reverser(None, None);
    assert_eq!(r.status, 400);
    assert_eq!(r.body, "Error retrieving query parameters");
}

#[test]
fn ipv4_invalid_address_is_bad_request() {
    let from = s("10.0.0.1");
    let bad = s("not-an-address");
    let r = ipv4_encryption_validation(Some(&from), Some(&bad));
    assert_eq!(r.status, 400);
    assert_eq!(r.body, "Error retrieving IP address(es) from query parameters");
    let r = ipv4_encryption_reverser(Some(&bad), Some(&from));
    assert_eq!(r.status, 400);
    assert_eq!(
        r.body,
        "One or more query parameter not representable as IP v6 address"
    );
}

#[test]
fn ipv4_rejects_leading_zero_and_overflow() {
    let from = s("10.0.0.1");
    for bad in ["01.2.3.4", "256.1.1.1", "1.2.3", "1.2.3.4.5", "1..2.3", "1.2.3.4 "] {
        let bad = s(bad);
        let r = ipv4_encryption_validation(Some(&from), Some(&bad));
        assert_eq!(r.status, 400, "{}", bad);
    }
}

#[test]
fn ipv6_dest_xors() {
    let from = s("feed:beef:deaf:bad:f00d::");
    let key = s("::");
    let r = ipv6_encryption_validation(Some(&from), Some(&key));
    assert_eq!(r.status, 200);
    assert_eq!(r.body, "feed:beef:deaf:bad:f00d::");
}

#[test]
fn ipv6_xor_with_all_ones_then_back() {
    let a = s("1234:5678::abcd");
    let b = s("ffff:ffff:ffff:ffff:ffff:ffff:ffff:ffff");
    let dest = ipv6_encryption_validation(Some(&a), Some(&b));
    assert_eq!(dest.status, 200);
    assert_eq!(dest.body, "edcb:a987:ffff:ffff:ffff:ffff:ffff:5432");
    let back = ipv6_encryption_reverser(Some(&a), Some(&dest.body));
    assert_eq!(back.status, 200);
    assert_eq!(back.body, b);
}

#[test]
fn ipv6_all_zero_stays_unspecified() {
    let z = s("::");
    let r = ipv6_encryption_validation(Some(&z), Some(&z));
    assert_eq!(r.status, 200);
    assert_eq!(r.body, "::");
}

#[test]
fn ipv6_loopback_form() {
    let a = s("::1");
    let z = s("::");
    let r = ipv6_encryption_validation(Some(&a), Some(&z));
    assert_eq!(r.status, 200);
    assert_eq!(r.body, "::1");
}

#[test]
fn ipv6_compresses_longest_leftmost_run() {
    let a = s("1:0:0:0:0:0:0:1");
    let z = s("::");
    let r = ipv6_encryption_validation(Some(&a), Some(&z));
    assert_eq!(r.status, 200);
    assert_eq!(r.body, "1::1");
    let a = s("1:0:2:0:3:0:4:5");
    let r = ipv6_encryption_validation(Some(&a), Some(&z));
    assert_eq!(r.status, 200);
    assert_eq!(r.body, "1:0:2:0:3:0:4:5");
    let a = s("1:0:0:2:0:0:0:3");
    let r = ipv6_encryption_validation(Some(&a), Some(&z));
    assert_eq!(r.status, 200);
    assert_eq!(r.body, "1:0:0:2::3");
}

#[test]
fn ipv6_mapped_address_prints_as_dotted_quad() {
    let a = s("::ffff:1.2.3.4");
    let z = s("::");
    let r = ipv6_encryption_validation(Some(&a), Some(&z));
    assert_eq!(r.status, 200);
    assert_eq!(r.body, "::ffff:1.2.3.4");
}

#[test]
fn ipv6_embedded_quad_without_mapping_prefix() {
    let a = s("::1.2.3.4");
    let z = s("::");
    let r = ipv6_encryption_validation(Some(&a), Some(&z));
    assert_eq!(r.status, 200);
    assert_eq!(r.body, "::102:304");
}

#[test]
fn ipv6_missing_param_is_bad_request() {
    let a = s("::1");
    let r = ipv6_encryption_validation(None, Some(&a));
    assert_eq!(r.status, 400);
    assert_eq!(r.body, "Error retrieving query parameters");
}

#[test]
fn ipv6_invalid_address_is_bad_request() {
    let a = s("::1");
    for bad in ["1::2::3", ":::", "12345::", "1:2:3:4:5:6:7:8:9", "1.2.3.4", "g::", "1:2:3:4:5:6:7"] {
        let bad = s(bad);
        let r = ipv6_encryption_validation(Some(&a), Some(&bad));
        assert_eq!(r.status, 400, "{}", bad);
        assert_eq!(
            r.body,
            "One or more query parameter not representable as IP v6 address"
        );
        let r = ipv6_encryption_reverser(Some(&bad), Some(&a));
        assert_eq!(r.status, 400, "{}", bad);
        assert_eq!(
            r.body,
            "One or more query parameter not representable as IP v4 address"
        );
    }
}

#[test]
fn ipv6_accepts_trailing_double_colon_and_case() {
    let z = s("::");
    let a = s("1:2:3:4:5:6:7::");
    let r = ipv6_encryption_validation(Some(&a), Some(&z));
    assert_eq!(r.status, 200);
    assert_eq!(r.body, "1:2:3:4:5:6:7:0");
    let a = s("ABCD:00ef::");
    let r = ipv6_encryption_validation(Some(&a), Some(&z));
    assert_eq!(r.status, 200);
    assert_eq!(r.body, "abcd:ef::");
}
