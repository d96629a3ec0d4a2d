//! Verified core of a Bluetooth Low Energy GUI: the messages exchanged
//! between the GUI and the BLE transport, the GUI's state machine, the
//! transport's state machine, and the text the GUI shows.
pub mod async_msg;
pub mod text;
pub mod services;
pub mod ble_constants;
pub mod sync_gui;
pub mod async_ble;
