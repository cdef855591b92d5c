use dyndns::config::interval_from_text;
use dyndns::reconciler::Request;
use dyndns::record::ErrorKind;
use dyndns::resolver::{address_from_body, is_ipv4, resolve, Fetched};
use dyndns::store::StoreFault;

fn response(status: u16, body: &str) -> Fetched {
    Fetched::Response { status, body: body.to_string() }
}

#[test]
fn dotted_decimal_addresses_are_accepted() {
    for text in ["203.0.113.5", "0.0.0.0", "255.255.255.255", "1.2.3.4", "10.0.0.1", "192.168.100.99"]
    {
        assert!(is_ipv4(text), "{}", text);
        assert_eq!(address_from_body(text), Ok(text.to_string()));
    }
}

#[test]
fn malformed_addresses_are_rejected() {
    for text in [
        "",
        ".",
        "...",
        "1",
        "1.2.3",
        "1.2.3.",
        ".1.2.3",
        "1.2.3.4.",
        "1.2.3.4.5",
        "1..2.3",
        "256.0.0.1",
        "1.2.3.256",
        "1.2.3.999",
        "1.2.3.1000",
        "01.2.3.4",
        "1.2.3.04",
        "1.2.3.00",
        "1.2.3.-4",
        "+1.2.3.4",
        "1.2.3.4a",
        "a.b.c.d",
        "1,2,3,4",
        "1.2 .3.4",
        "2001:db8::1",
        "<html>203.0.113.5</html>",
    ] {
        assert!(!is_ipv4(text), "{}", text);
        assert_eq!(address_from_body(text), Err(ErrorKind::Parse), "{}", text);
    }
}

#[test]
fn the_body_is_trimmed_of_blanks() {
    assert_eq!(address_from_body("203.0.113.5\n"), Ok("203.0.113.5".to_string()));
    assert_eq!(address_from_body("  203.0.113.5"), Ok("203.0.113.5".to_string()));
    assert_eq!(address_from_body("\t\r\n 203.0.113.5 \r\n\t"), Ok("203.0.113.5".to_string()));
    assert_eq!(address_from_body("\u{b}\u{c}1.2.3.4\u{c}\u{b}"), Ok("1.2.3.4".to_string()));
    assert_eq!(address_from_body("   "), Err(ErrorKind::Parse));
    assert_eq!(address_from_body("203.0.113.5 x"), Err(ErrorKind::Parse));
    assert_eq!(address_from_body("203.0. 113.5"), Err(ErrorKind::Parse));
}

#[test]
fn bodies_that_are_not_ascii_are_rejected() {
    assert_eq!(address_from_body("203.0.113.5\u{a0}"), Err(ErrorKind::Parse));
    assert_eq!(address_from_body("\u{2003}203.0.113.5"), Err(ErrorKind::Parse));
    assert_eq!(address_from_body("２０３.0.113.5"), Err(ErrorKind::Parse));
}

#[test]
fn a_successful_response_resolves_to_its_address() {
    assert_eq!(resolve(&response(200, "203.0.113.5")), Ok("203.0.113.5".to_string()));
    assert_eq!(resolve(&response(299, " 203.0.113.5\n")), Ok("203.0.113.5".to_string()));
}

#[test]
fn an_unsuccessful_response_is_a_network_failure() {
    assert_eq!(resolve(&Fetched::Unreachable), Err(ErrorKind::Network));
    for status in [0, 100, 199, 300, 301, 404, 429, 500, 503, 65535] {
        assert_eq!(resolve(&response(status, "203.0.113.5")), Err(ErrorKind::Network));
    }
}

#[test]
fn a_successful_response_without_an_address_is_a_parse_failure() {
    assert_eq!(resolve(&response(200, "")), Err(ErrorKind::Parse));
    assert_eq!(resolve(&response(200, "not an address")), Err(ErrorKind::Parse));
    assert_eq!(resolve(&response(204, "::1")), Err(ErrorKind::Parse));
}

#[test]
fn store_faults_map_to_error_kinds() {
    let list = Request::ListRecords { domain: "example.com".to_string() };
    let create = Request::CreateRecord {
        domain: "example.com".to_string(),
        kind: "A".to_string(),
        name: "home".to_string(),
        value: "192.0.2.2".to_string(),
    };
    let update = Request::UpdateRecord {
        domain: "example.com".to_string(),
        id: 42,
        value: "192.0.2.2".to_string(),
    };
    for request in [&list, &create, &update] {
        assert_eq!(StoreFault::NotFound.kind_for(request), ErrorKind::NotFound);
        assert_eq!(StoreFault::Unauthorized.kind_for(request), ErrorKind::Auth);
        assert_eq!(StoreFault::Transport.kind_for(request), ErrorKind::Network);
        assert_eq!(StoreFault::UnexpectedStatus(500).kind_for(request), ErrorKind::Network);
    }
    assert_eq!(StoreFault::Unprocessable.kind_for(&create), ErrorKind::Conflict);
    assert_eq!(StoreFault::Unprocessable.kind_for(&list), ErrorKind::Network);
    assert_eq!(StoreFault::Unprocessable.kind_for(&update), ErrorKind::Network);
}

#[test]
fn an_address_read_again_gives_itself() {
    for body in [" 203.0.113.5 ", "0.0.0.0\n", "\t255.255.255.255"] {
        let ip = address_from_body(body).unwrap();
        assert_eq!(address_from_body(&ip), Ok(ip.clone()));
        assert_eq!(ip, body.trim());
    }
}

#[test]
fn the_interval_setting_is_a_number_of_seconds() {
    assert_eq!(interval_from_text("0"), Some(0));
    assert_eq!(interval_from_text("7"), Some(7));
    assert_eq!(interval_from_text("300"), Some(300));
    assert_eq!(interval_from_text("0060"), Some(60));
    assert_eq!(interval_from_text("18446744073709551615"), Some(u64::MAX));
    assert_eq!(interval_from_text("00018446744073709551615"), Some(u64::MAX));
}

#[test]
fn other_interval_settings_are_refused() {
    for text in [
        "",
        " ",
        "5m",
        " 300",
        "300 ",
        "-1",
        "+1",
        "1.5",
        "1e3",
        "0x10",
        "18446744073709551616",
        "18446744073709551620",
        "99999999999999999999",
        "184467440737095516150",
        "٣٠٠",
    ] {
        assert_eq!(interval_from_text(text), None, "{}", text);
    }
}
