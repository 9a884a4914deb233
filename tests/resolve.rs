use brightctl::adjust::{parse_adjustment, resolve, Adjustment, Mode, ResolveError};
use brightctl::device::Device;

fn device(brightness: u32, max_brightness: u32) -> Device {
    Device::new(String::from("intel_backlight"), String::from("backlight"), brightness, max_brightness)
}

#[test]
fn half_of_maximum() {
    assert_eq!(resolve(&device(0, 200), "50%"), Ok(100));
}

#[test]
fn increase_by_percentage() {
    assert_eq!(resolve(&device(40, 200), "+10%"), Ok(60));
}

#[test]
fn decrease_below_zero_is_underflow() {
    assert_eq!(resolve(&device(10, 200), "-20%"), Err(ResolveError::Underflow));
    assert_eq!(resolve(&device(10, 200), "-11"), Err(ResolveError::Underflow));
}

#[test]
fn decrease_to_exactly_zero() {
    assert_eq!(resolve(&device(10, 200), "-10"), Ok(0));
    assert_eq!(resolve(&device(20, 200), "-10%"), Ok(0));
    assert_eq!(resolve(&device(50, 200), "-5"), Ok(45));
}

#[test]
fn resolution_is_deterministic() {
    let a = device(40, 200);
    let b = Device::new(String::from("other"), String::from("leds"), 40, 200);
    for e in ["+10%", "-3", "70", "abc", "-50"] {
        assert_eq!(resolve(&a, e), resolve(&a, e));
        assert_eq!(resolve(&a, e), resolve(&b, e));
    }
}

#[test]
fn absolute_and_increase_are_capped() {
    let d = device(150, 200);
    assert_eq!(resolve(&d, "300"), Ok(200));
    assert_eq!(resolve(&d, "150%"), Ok(200));
    assert_eq!(resolve(&d, "+51"), Ok(200));
    assert_eq!(resolve(&d, "+4294967295%"), Ok(200));
    assert_eq!(resolve(&d, "+50"), Ok(200));
    assert_eq!(resolve(&d, "+49"), Ok(199));
    assert_eq!(resolve(&d, "120"), Ok(120));
    assert_eq!(resolve(&d, "0"), Ok(0));
    for e in ["0", "7", "200", "201", "99%", "100%", "+0", "+1%", "+4294967295"] {
        let q = resolve(&d, e).unwrap();
        assert!(q <= 200);
    }
}

#[test]
fn percentage_truncates() {
    assert_eq!(resolve(&device(0, 255), "33%"), Ok(84));
    assert_eq!(resolve(&device(0, 7), "10%"), Ok(0));
    assert_eq!(resolve(&device(0, 4294967295), "100%"), Ok(4294967295));
}

#[test]
fn malformed_expressions() {
    let d = device(40, 200);
    for e in ["", "+", "-", "%", "+%", "-%", "abc", "5a", "1 0", " 5", "5 ", "++5", "+-5", "5%%", "%5", "4294967296", "99999999999999999999"] {
        assert_eq!(resolve(&d, e), Err(ResolveError::NumericParse), "{e:?}");
    }
    assert_eq!(resolve(&d, "4294967295"), Ok(200));
}

#[test]
fn parsed_forms() {
    assert_eq!(
        parse_adjustment("-20%"),
        Ok(Adjustment { mode: Mode::Decrease, is_percentage: true, magnitude: 20 })
    );
    assert_eq!(
        parse_adjustment("+7"),
        Ok(Adjustment { mode: Mode::Increase, is_percentage: false, magnitude: 7 })
    );
    assert_eq!(
        parse_adjustment("007%"),
        Ok(Adjustment { mode: Mode::Absolute, is_percentage: true, magnitude: 7 })
    );
    assert_eq!(parse_adjustment("é5"), Err(ResolveError::NumericParse));
}

#[test]
fn apply_on_values() {
    let a = Adjustment { mode: Mode::Increase, is_percentage: false, magnitude: 5 };
    assert_eq!(a.apply(10, 12), Ok(12));
    assert_eq!(a.apply(1, 12), Ok(6));
}

#[test]
fn percent_of_maximum() {
    assert_eq!(device(50, 200).percent_brightness(), 25);
    assert_eq!(device(0, 0).percent_brightness(), 0);
    assert_eq!(device(1, 3).percent_brightness(), 33);
}
