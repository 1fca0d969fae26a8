use bridgehead::address::{address, address_under, found_or};

#[test]
fn address_is_printed_as_the_parser_prints_it() {
    assert_eq!(address("http://forward-proxy:3128"), "http://forward-proxy:3128/");
    assert_eq!(address("https://directory.bbmri-eric.eu"), "https://directory.bbmri-eric.eu/");
    assert_eq!(address("HTTP://Example.ORG:80/a/../b"), "http://example.org/b");
}

#[test]
fn text_that_is_no_address_is_handed_on() {
    assert_eq!(address("no address"), "no address");
    assert_eq!(address(""), "");
}

#[test]
fn path_is_joined_to_the_address() {
    assert_eq!(address_under("http://ccp-blaze:8080/", "/fhir"), "http://ccp-blaze:8080/fhir");
    assert_eq!(
        address_under("http://ccp-id-management:8080", "/patientlist"),
        "http://ccp-id-management:8080/patientlist"
    );
    assert_eq!(address_under("http://host/a/b", "c"), "http://host/a/c");
}

#[test]
fn path_under_a_text_that_is_no_address_follows_the_text() {
    assert_eq!(address_under("no address", "/fhir"), "no address/fhir");
}

#[test]
fn found_or_prefers_what_was_found() {
    assert_eq!(found_or(Some("found".to_string()), "text".to_string()), "found");
    assert_eq!(found_or(None, "text".to_string()), "text");
}
