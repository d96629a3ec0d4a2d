use egui_btleplug_example::async_msg::{
    characteristic_equal, characteristic_less, Characteristic, CharacteristicSet, Descriptor,
};
use egui_btleplug_example::ble_constants::get_default_char_descs;
use egui_btleplug_example::services::sort_svcs_chars;

fn ch(uuid: u128, service: u128, properties: u8) -> Characteristic {
    Characteristic { uuid, service_uuid: service, properties, descriptors: vec![] }
}

fn desc(uuid: u128) -> Descriptor {
    Descriptor { uuid, service_uuid: 0, characteristic_uuid: 0 }
}

fn uuids(set: &CharacteristicSet) -> Vec<(u128, u128)> {
    (0..set.len()).map(|i| (set.get(i).uuid, set.get(i).service_uuid)).collect()
}

#[test]
fn order_is_by_uuid_then_service_then_properties_then_descriptors() {
    assert!(characteristic_less(&ch(1, 9, 9), &ch(2, 0, 0)));
    assert!(characteristic_less(&ch(1, 1, 9), &ch(1, 2, 0)));
    assert!(characteristic_less(&ch(1, 1, 1), &ch(1, 1, 2)));
    let mut a = ch(1, 1, 1);
    let mut b = ch(1, 1, 1);
    assert!(!characteristic_less(&a, &b));
    assert!(characteristic_equal(&a, &b));
    b.descriptors = vec![desc(3)];
    assert!(characteristic_less(&a, &b));
    a.descriptors = vec![desc(3), desc(4)];
    assert!(characteristic_less(&b, &a));
    assert!(!characteristic_equal(&a, &b));
    a.descriptors = vec![desc(2), desc(9)];
    assert!(characteristic_less(&a, &b));
}

#[test]
fn set_insert_keeps_ascending_order_without_repetition() {
    let mut set = CharacteristicSet::new();
    assert!(set.insert(ch(5, 1, 0)));
    assert!(set.insert(ch(2, 1, 0)));
    assert!(set.insert(ch(9, 0, 0)));
    assert!(!set.insert(ch(5, 1, 0)));
    assert!(set.insert(ch(5, 0, 0)));
    assert_eq!(set.len(), 4);
    assert_eq!(uuids(&set), vec![(2, 1), (5, 0), (5, 1), (9, 0)]);
}

#[test]
fn grouping_by_service() {
    let mut set = CharacteristicSet::new();
    set.insert(ch(10, 0x180A, 0x02));
    set.insert(ch(11, 0x1800, 0x02));
    set.insert(ch(12, 0x180A, 0x10));
    set.insert(ch(13, 0x1800, 0x08));
    let (keys, map) = sort_svcs_chars(&set);
    assert_eq!(keys, vec![0x1800, 0x180A]);
    assert_eq!(map.len(), 2);
    let a: Vec<u128> = map[&0x1800].iter().map(|c| c.uuid).collect();
    let b: Vec<u128> = map[&0x180A].iter().map(|c| c.uuid).collect();
    assert_eq!(a, vec![11, 13]);
    assert_eq!(b, vec![10, 12]);
}

#[test]
fn grouping_of_nothing_is_empty() {
    let set = CharacteristicSet::new();
    let (keys, map) = sort_svcs_chars(&set);
    assert!(keys.is_empty());
    assert!(map.is_empty());
}

#[test]
fn default_descriptions_name_the_device_information_uuids() {
    let m = get_default_char_descs();
    assert_eq!(m.len(), 7);
    assert_eq!(m[&0x0000180A_0000_1000_8000_00805F9B34FBu128], "Device Info Service");
    assert_eq!(m[&0x00002A24_0000_1000_8000_00805F9B34FBu128], "Model");
    assert_eq!(m[&0x00002A25_0000_1000_8000_00805F9B34FBu128], "Serial Number");
    assert_eq!(m[&0x00002A26_0000_1000_8000_00805F9B34FBu128], "Firmware Version");
    assert_eq!(m[&0x00002A27_0000_1000_8000_00805F9B34FBu128], "Hardware Version");
    assert_eq!(m[&0x00002A28_0000_1000_8000_00805F9B34FBu128], "Software Version");
    assert_eq!(m[&0x00002A29_0000_1000_8000_00805F9B34FBu128], "Manufacturer");
}
