use brightctl::catalog::{list_devices, map_device, select, ClassListing, Entry, SelectError};
use brightctl::text::parse_attribute;

fn entry(id: &str, max: Option<&str>, brightness: Option<&str>) -> Entry {
    Entry {
        id: id.to_string(),
        max_brightness: max.map(|s| s.to_string()),
        brightness: brightness.map(|s| s.to_string()),
    }
}

fn listing(class: &str, entries: Vec<Entry>) -> ClassListing {
    ClassListing { class: class.to_string(), entries }
}

fn sample() -> Vec<ClassListing> {
    vec![
        listing("backlight", vec![]),
        listing(
            "leds",
            vec![
                entry("input0::capslock", Some("1\n"), Some("0\n")),
                entry("broken", Some("not a number\n"), Some("3\n")),
                entry("input0::numlock", Some("1\n"), Some("1\n")),
                entry("tpacpi::kbd_backlight", Some("2\n"), Some("1\n")),
            ],
        ),
    ]
}

#[test]
fn list_skips_malformed_entries() {
    let found = list_devices(&sample());
    assert_eq!(found.len(), 3);
    let ids: Vec<&str> = found.iter().map(|d| d.id.as_str()).collect();
    assert_eq!(ids, vec!["input0::capslock", "input0::numlock", "tpacpi::kbd_backlight"]);
    assert!(found.iter().all(|d| d.class == "leds"));
    assert_eq!(found[2].brightness, 1);
    assert_eq!(found[2].max_brightness, 2);
}

#[test]
fn list_of_nothing_is_empty() {
    assert_eq!(list_devices(&vec![listing("backlight", vec![]), listing("leds", vec![])]).len(), 0);
    assert_eq!(list_devices(&vec![]).len(), 0);
}

#[test]
fn unknown_name_is_not_found() {
    assert_eq!(select(&sample(), Some("acpi_video0")).err(), Some(SelectError::DeviceNotFound));
    assert_eq!(select(&sample(), Some("broken")).err(), Some(SelectError::DeviceNotFound));
}

#[test]
fn no_device_anywhere() {
    let empty = vec![listing("backlight", vec![]), listing("leds", vec![entry("x", None, Some("1"))])];
    assert_eq!(select(&empty, None).err(), Some(SelectError::NoSuitableDevice));
}

#[test]
fn first_device_in_class_order() {
    let mut classes = sample();
    classes.push(listing("backlight", vec![entry("intel_backlight", Some("937\n"), Some("400\n"))]));
    let d = select(&classes, None).unwrap();
    assert_eq!(d.id, "input0::capslock");
    assert_eq!(d.class, "leds");
    classes.reverse();
    let d = select(&classes, None).unwrap();
    assert_eq!(d.id, "intel_backlight");
    assert_eq!(d.brightness, 400);
    assert_eq!(d.max_brightness, 937);
}

#[test]
fn named_device_across_classes() {
    let classes = vec![
        listing("backlight", vec![entry("same", Some("10"), Some("5"))]),
        listing("leds", vec![entry("numlock", Some("1"), Some("1")), entry("same", Some("1"), Some("0"))]),
    ];
    let d = select(&classes, Some("numlock")).unwrap();
    assert_eq!(d.class, "leds");
    let d = select(&classes, Some("same")).unwrap();
    assert_eq!(d.class, "backlight");
    assert_eq!(d.max_brightness, 10);
}

#[test]
fn entries_become_devices() {
    let class = String::from("backlight");
    let d = map_device(&class, &entry("acpi_video0", Some(" 15\n"), Some("7"))).unwrap();
    assert_eq!((d.id.as_str(), d.class.as_str(), d.brightness, d.max_brightness), ("acpi_video0", "backlight", 7, 15));
    assert!(map_device(&class, &entry("a", None, Some("7"))).is_none());
    assert!(map_device(&class, &entry("a", Some("7"), None)).is_none());
    assert!(map_device(&class, &entry("a", Some("7"), Some("-1"))).is_none());
    let d = map_device(&class, &entry("b", Some("\u{0B}1"), Some("+1\n"))).unwrap();
    assert_eq!((d.brightness, d.max_brightness), (1, 1));
}

#[test]
fn attribute_text() {
    assert_eq!(parse_attribute("255\n"), Some(255));
    assert_eq!(parse_attribute("  \t42 \r\n"), Some(42));
    assert_eq!(parse_attribute("0"), Some(0));
    assert_eq!(parse_attribute("4294967295"), Some(4294967295));
    assert_eq!(parse_attribute("4294967296"), None);
    assert_eq!(parse_attribute(""), None);
    assert_eq!(parse_attribute(" \n"), None);
    assert_eq!(parse_attribute("12 3"), None);
    assert_eq!(parse_attribute("+12"), Some(12));
    assert_eq!(parse_attribute("++12"), None);
    assert_eq!(parse_attribute("+"), None);
    assert_eq!(parse_attribute("-1"), None);
    assert_eq!(parse_attribute("\u{0B}1"), Some(1));
    assert_eq!(parse_attribute("\u{A0}7\u{3000}"), Some(7));
    assert_eq!(parse_attribute("\u{2028}\u{85}8\u{200A}\u{202F}\u{205F}\u{1680}"), Some(8));
    assert_eq!(parse_attribute("\u{200B}8"), None);
}
