use fit_fixer::request::{Target, DEFAULT_DEVICE_TYPE, DEFAULT_MANUFACTURER};

#[test]
fn default_target_is_the_documented_device() {
    let target = Target::default();
    assert_eq!(target.device_type, 4341);
    assert_eq!(target.manufacturer, 1);
    assert_eq!(DEFAULT_DEVICE_TYPE, 4341);
    assert_eq!(DEFAULT_MANUFACTURER, 1);
}

#[test]
fn request_uri_of_the_default_target() {
    assert_eq!(
        Target::default().request_uri(),
        "https://www.fitfiletools.com/tools/devicechanger?devicetype=4341&mfgr=1"
    );
}

#[test]
fn request_uri_holds_both_numbers() {
    let target = Target { device_type: 0, manufacturer: u64::MAX };
    assert_eq!(
        target.request_uri(),
        "https://www.fitfiletools.com/tools/devicechanger?devicetype=0&mfgr=18446744073709551615"
    );
    let target = Target { device_type: 3291, manufacturer: 255 };
    assert_eq!(
        target.request_uri(),
        format!(
            "https://www.fitfiletools.com/tools/devicechanger?devicetype={}&mfgr={}",
            3291, 255
        )
    );
}
