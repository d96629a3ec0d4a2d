use egui_btleplug_example::async_msg::{AddressType, PeripheralProperties};
use egui_btleplug_example::sync_gui::{get_props_desc, periph_desc_string};
use egui_btleplug_example::text::{
    bytes_debug_text, byte_map_debug_text, contains_chars, join, push_int, push_nat, str_chars,
};

fn s(v: Vec<char>) -> String {
    v.into_iter().collect()
}

fn props(
    name: Option<&str>,
    rssi: Option<i16>,
    address: [u8; 6],
    manufacturer_data: Vec<(u16, Vec<u8>)>,
) -> PeripheralProperties {
    PeripheralProperties {
        address,
        address_type: Some(AddressType::Public),
        local_name: name.map(|n| n.to_string()),
        tx_power_level: None,
        rssi,
        manufacturer_data,
        service_data: vec![],
        services: vec![],
        class: None,
    }
}

#[test]
fn props_desc_lists_present_flags_in_order() {
    assert_eq!(get_props_desc(0x02 | 0x10), "Rd/Notif");
    assert_eq!(get_props_desc(0x3E), "Rd/Wr/Wr(w/o)/Notif/Indicate");
    assert_eq!(get_props_desc(0x08 | 0x04), "Wr/Wr(w/o)");
    assert_eq!(get_props_desc(0x20), "Indicate");
}

#[test]
fn props_desc_of_no_known_flag_is_empty() {
    assert_eq!(get_props_desc(0x00), "");
    assert_eq!(get_props_desc(0x01 | 0x40 | 0x80), "");
}

#[test]
fn periph_desc_with_every_part() {
    let p = props(Some("Sensor"), Some(-60), [0x2A, 0xCC, 0x00, 0x34, 0xFA, 0x00], vec![(76, vec![2, 21])]);
    assert_eq!(
        periph_desc_string(&p),
        "name=Sensor : rssi=-60 : 2A:CC:00:34:FA:00 : {76: [2, 21]}"
    );
}

#[test]
fn periph_desc_with_address_only() {
    let p = props(None, None, [0, 0, 0, 0, 0, 0], vec![]);
    assert_eq!(periph_desc_string(&p), "00:00:00:00:00:00");
}

#[test]
fn periph_desc_with_rssi_and_two_manufacturers() {
    let p = props(None, Some(7), [1, 2, 3, 4, 5, 255], vec![(1, vec![]), (65535, vec![0, 255])]);
    assert_eq!(
        periph_desc_string(&p),
        "rssi=7 : 01:02:03:04:05:FF : {1: [], 65535: [0, 255]}"
    );
}

#[test]
fn bytes_debug_matches_std_debug() {
    assert_eq!(s(bytes_debug_text(&vec![1, 2, 3])), format!("{:?}", vec![1u8, 2, 3]));
    assert_eq!(s(bytes_debug_text(&vec![])), "[]");
    assert_eq!(s(bytes_debug_text(&vec![0, 10, 255])), "[0, 10, 255]");
}

#[test]
fn byte_map_debug_lists_entries_in_order() {
    assert_eq!(s(byte_map_debug_text(&vec![(5, vec![9]), (300, vec![])])), "{5: [9], 300: []}");
    assert_eq!(s(byte_map_debug_text(&vec![])), "{}");
}

#[test]
fn decimal_notation() {
    let mut out = vec!['x'];
    push_nat(&mut out, 0);
    assert_eq!(s(out), "x0");
    let mut out = vec![];
    push_nat(&mut out, u64::MAX);
    assert_eq!(s(out), u64::MAX.to_string());
    let mut out = vec![];
    push_int(&mut out, i64::MIN);
    assert_eq!(s(out), i64::MIN.to_string());
    let mut out = vec![];
    push_int(&mut out, -1);
    assert_eq!(s(out), "-1");
}

#[test]
fn join_puts_separator_between_neighbours() {
    let parts = vec![vec!['a'], vec![], vec!['b', 'c']];
    assert_eq!(s(join(&parts, &vec![','])), "a,,bc");
    assert_eq!(s(join(&vec![], &vec![','])), "");
    assert_eq!(s(join(&vec![vec!['z']], &vec![','])), "z");
}

#[test]
fn substring_search() {
    let hay = str_chars("name=Sensor : rssi=-60");
    assert!(contains_chars(&hay, &str_chars("Sensor")));
    assert!(contains_chars(&hay, &str_chars("")));
    assert!(contains_chars(&hay, &str_chars("-60")));
    assert!(!contains_chars(&hay, &str_chars("sensor")));
    assert!(!contains_chars(&str_chars("ab"), &str_chars("abc")));
    assert!(contains_chars(&str_chars(""), &str_chars("")));
}

#[test]
fn str_chars_keeps_unicode_characters() {
    assert_eq!(str_chars("aé€"), vec!['a', 'é', '€']);
}
