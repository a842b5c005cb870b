use onvif::device::{MissingField, OnvifDeviceBuilder};
use onvif::plan::{ProbePlan, DISCOVERY_GROUP, DISCOVERY_PORT};

#[test]
fn a_device_is_built_from_its_three_fields() {
    let device = OnvifDeviceBuilder::default()
        .password("secret")
        .xaddr("http://10.0.0.1/onvif/device_service")
        .user("admin")
        .build()
        .unwrap();
    assert_eq!(device.xaddr(), "http://10.0.0.1/onvif/device_service");
    assert_eq!(device.user(), "admin");
}

#[test]
fn a_field_set_twice_keeps_the_later_value() {
    let device = OnvifDeviceBuilder::new()
        .xaddr("http://old")
        .user("u")
        .password("p")
        .xaddr("http://new")
        .build()
        .unwrap();
    assert_eq!(device.xaddr(), "http://new");
}

#[test]
fn the_first_missing_field_is_named() {
    assert_eq!(OnvifDeviceBuilder::new().build().unwrap_err(), MissingField::Xaddr);
    assert_eq!(
        OnvifDeviceBuilder::new().user("u").password("p").build().unwrap_err(),
        MissingField::Xaddr
    );
    assert_eq!(
        OnvifDeviceBuilder::new().xaddr("x").password("p").build().unwrap_err(),
        MissingField::User
    );
    assert_eq!(
        OnvifDeviceBuilder::new().xaddr("x").user("u").build().unwrap_err(),
        MissingField::Password
    );
}

#[test]
fn the_usual_plan() {
    let plan = ProbePlan::default();
    assert_eq!(plan.rounds, 3);
    assert_eq!(plan.pause_millis, 100);
    assert_eq!(plan.read_timeout_millis, 1000);
    assert_eq!(plan.limit, None);
}

#[test]
fn probes_go_to_the_discovery_group() {
    assert_eq!(DISCOVERY_GROUP, "239.255.255.250");
    assert_eq!(DISCOVERY_PORT, 3702);
}
