//! Names of the standard Device Information characteristics.
use vstd::prelude::*;
use vstd::string::*;
use std::collections::HashMap;

verus! {

broadcast use vstd::std_specs::hash::group_hash_axioms;

/// The standard names, keyed by the 128-bit value of the UUID.
pub open spec fn default_char_descs() -> Map<u128, Seq<char>> {
    map![
        0x0000180A_0000_1000_8000_00805F9B34FBu128 => "Device Info Service"@,
        0x00002A24_0000_1000_8000_00805F9B34FBu128 => "Model"@,
        0x00002A25_0000_1000_8000_00805F9B34FBu128 => "Serial Number"@,
        0x00002A26_0000_1000_8000_00805F9B34FBu128 => "Firmware Version"@,
        0x00002A27_0000_1000_8000_00805F9B34FBu128 => "Hardware Version"@,
        0x00002A28_0000_1000_8000_00805F9B34FBu128 => "Software Version"@,
        0x00002A29_0000_1000_8000_00805F9B34FBu128 => "Manufacturer"@,
    ]
}

/// The texts of a map from UUIDs to strings.
pub open spec fn descs_view(m: Map<u128, String>) -> Map<u128, Seq<char>> {
    m.map_values(|s: String| s@)
}

/// The standard names of the Device Information service and its
/// characteristics (model, serial number, firmware, hardware and software
/// version, manufacturer).
pub fn get_default_char_descs() -> (res: HashMap<u128, String>)
    ensures
        descs_view(res@) == default_char_descs(),
{
    let mut m: HashMap<u128, String> = HashMap::new();
    m.insert(0x0000180A_0000_1000_8000_00805F9B34FBu128, String::from_str("Device Info Service"));
    m.insert(0x00002A24_0000_1000_8000_00805F9B34FBu128, String::from_str("Model"));
    m.insert(0x00002A25_0000_1000_8000_00805F9B34FBu128, String::from_str("Serial Number"));
    m.insert(0x00002A26_0000_1000_8000_00805F9B34FBu128, String::from_str("Firmware Version"));
    m.insert(0x00002A27_0000_1000_8000_00805F9B34FBu128, String::from_str("Hardware Version"));
    m.insert(0x00002A28_0000_1000_8000_00805F9B34FBu128, String::from_str("Software Version"));
    m.insert(0x00002A29_0000_1000_8000_00805F9B34FBu128, String::from_str("Manufacturer"));
    assert(descs_view(m@) =~= default_char_descs());
    m
}

} // verus!
