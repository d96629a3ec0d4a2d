# egui_btleplug_example

A small Bluetooth Low Energy desktop tool: an egui GUI that scans for
peripherals, connects to one, lists its GATT services and characteristics,
and reads, writes or subscribes to them. The GUI and the BLE work (btleplug,
on a tokio runtime in a thread of its own) talk through one message enum,
`AsyncMsg`, in both directions.

The decisions of both sides are a verified library (`src/`, Verus):

- `async_msg`: the messages and the plain values they carry (peripheral
  properties, characteristics, a characteristic set kept in ascending order).
- `sync_gui`: the GUI's state machine (what each click sends, what each
  message changes) and the texts it shows.
- `async_ble`: the transport's state machine: which Bluetooth work comes
  next, with up to five connection attempts and five discovery attempts
  each.
- `services`: grouping characteristics by service.
- `text`, `ble_constants`: notation of numbers, UUIDs, addresses and byte
  lists; the standard Device Information names.

`app/` is the program around it: the egui drawing, the btleplug calls, the
tokio channels and thread, and the conversions between btleplug's types and
the library's.

`libdbus-sys` is named with its `vendored` feature only so that btleplug's
D-Bus backend builds on Linux systems without the D-Bus development files;
nothing here calls it. The window icon of the GUI is left out: no icon file
ships with the program.
