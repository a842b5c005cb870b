use onvif::probe_match::{
    copy_texts, same_texts, scope_attribute, ProbeMatch, HARDWARE_SCOPE, LOCATION_SCOPE,
    NAME_SCOPE,
};

fn word_list(items: &[&str]) -> Vec<String> {
    items.iter().map(|s| s.to_string()).collect()
}

fn camera(scopes: &[&str]) -> ProbeMatch {
    ProbeMatch::new(
        "urn:uuid:1".to_string(),
        word_list(&["tdn:NetworkVideoTransmitter"]),
        word_list(scopes),
        word_list(&["http://10.0.0.2/onvif/device_service"]),
    )
}

#[test]
fn the_scope_prefixes_are_those_of_onvif() {
    assert_eq!(NAME_SCOPE, "onvif://www.onvif.org/name/");
    assert_eq!(HARDWARE_SCOPE, "onvif://www.onvif.org/hardware/");
    assert_eq!(LOCATION_SCOPE, "onvif://www.onvif.org/location/");
}

#[test]
fn attributes_come_from_the_scopes() {
    let found = camera(&[
        "onvif://www.onvif.org/type/video_encoder",
        "onvif://www.onvif.org/location/country/china",
        "onvif://www.onvif.org/hardware/IPC-model",
        "onvif://www.onvif.org/name/NVT",
    ]);
    assert_eq!(found.urn(), "urn:uuid:1");
    assert_eq!(found.name(), "NVT");
    assert_eq!(found.hardware(), "IPC-model");
    assert_eq!(found.location(), "china");
    assert_eq!(found.types(), &word_list(&["tdn:NetworkVideoTransmitter"]));
    assert_eq!(found.xaddrs(), &word_list(&["http://10.0.0.2/onvif/device_service"]));
    assert_eq!(found.scopes().len(), 4);
}

#[test]
fn the_last_of_two_hardware_scopes_wins() {
    let found = camera(&[
        "onvif://www.onvif.org/hardware/first",
        "onvif://www.onvif.org/name/cam",
        "onvif://www.onvif.org/hardware/rev/second",
        "onvif://www.onvif.org/type/ptz",
    ]);
    assert_eq!(found.hardware(), "second");
    assert_eq!(found.name(), "cam");
}

#[test]
fn attributes_without_a_scope_are_empty() {
    let found = camera(&["onvif://www.onvif.org/type/ptz"]);
    assert_eq!(found.name(), "");
    assert_eq!(found.hardware(), "");
    assert_eq!(found.location(), "");
    let bare = camera(&[]);
    assert_eq!(bare.name(), "");
}

#[test]
fn a_scope_must_begin_with_the_prefix() {
    let found = camera(&["x-onvif://www.onvif.org/name/no", "onvif://www.onvif.org/name"]);
    assert_eq!(found.name(), "");
}

#[test]
fn a_scope_that_is_only_the_prefix_gives_an_empty_attribute() {
    let found = camera(&["onvif://www.onvif.org/name/early", "onvif://www.onvif.org/name/"]);
    assert_eq!(found.name(), "");
}

#[test]
fn scope_attribute_takes_the_final_segment() {
    let scopes = word_list(&["a://b/k/one/two", "a://b/other/x"]);
    assert_eq!(scope_attribute(&scopes, "a://b/k/"), "two");
    assert_eq!(scope_attribute(&scopes, "a://b/other/"), "x");
    assert_eq!(scope_attribute(&scopes, "a://b/none/"), "");
}

#[test]
fn records_are_equal_when_every_field_is() {
    let scopes = ["onvif://www.onvif.org/name/NVT"];
    assert_eq!(camera(&scopes), camera(&scopes));
    assert!(camera(&scopes) == camera(&scopes).clone());
}

#[test]
fn records_differ_when_one_field_does() {
    let base = camera(&["onvif://www.onvif.org/name/NVT"]);
    let urn = ProbeMatch::new(
        "urn:uuid:2".to_string(),
        copy_texts(base.types()),
        copy_texts(base.scopes()),
        copy_texts(base.xaddrs()),
    );
    let types = ProbeMatch::new(
        base.urn().clone(),
        word_list(&["tds:Device"]),
        copy_texts(base.scopes()),
        copy_texts(base.xaddrs()),
    );
    let scopes = ProbeMatch::new(
        base.urn().clone(),
        copy_texts(base.types()),
        word_list(&["onvif://www.onvif.org/name/NVT", "onvif://www.onvif.org/type/ptz"]),
        copy_texts(base.xaddrs()),
    );
    let xaddrs = ProbeMatch::new(
        base.urn().clone(),
        copy_texts(base.types()),
        copy_texts(base.scopes()),
        word_list(&["http://10.0.0.3/onvif/device_service"]),
    );
    assert_ne!(base, urn);
    assert_ne!(base, types);
    assert_ne!(base, scopes);
    assert_ne!(base, xaddrs);
    assert_eq!(scopes.name(), "NVT");
}

#[test]
fn same_texts_compares_in_order() {
    assert!(same_texts(&word_list(&["a", "b"]), &word_list(&["a", "b"])));
    assert!(!same_texts(&word_list(&["a", "b"]), &word_list(&["b", "a"])));
    assert!(!same_texts(&word_list(&["a"]), &word_list(&["a", "b"])));
    assert!(same_texts(&word_list(&[]), &word_list(&[])));
}

#[test]
fn copy_texts_copies() {
    let list = word_list(&["x", "", "y z"]);
    assert_eq!(copy_texts(&list), list);
}
