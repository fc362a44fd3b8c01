# nks-smart-home

Firmware for an ESP32 smart-home node: relay modules bound to GPIO pins,
logical switch devices driven by them, an MQTT contract for configuration and
commands, and a captive portal that provisions Wi-Fi and broker details.

## Layout

- `src/` — the verified library (Verus). Configuration checks, the built-in
  schema registry, GPIO claims, the relay and debounce state machines, device
  normalisation, the MQTT topic layout and command contract, the runtime's
  connectivity decisions, the LED patterns, the provisioning flow and the
  portal's routing. Each public function states its result in its contract;
  the `law_*` proof functions state properties that span several functions.
- `tests/` — tests of the library on concrete values.
- `app/` — the firmware around the library: ESP-IDF drivers, NVS storage,
  the MQTT client, the HTTP servers, the LED thread, and the JSON shapes of
  the documents. It performs what the library decides and reports back.

## Relay output writes

A module step takes its relay output writes as a `PinWrites` value: the
writes it made, in order, and the one that fails, if any. A failed write
leaves its module as it was and ends the step with the write's error. The
application runs a step with every write succeeding, makes the listed writes
on the pins, and where one fails puts back the runtime states taken before
the step (`runtime_states`, `restore_runtime_states`) and runs it again with
that write failing, so that the step stops where the pin driver did.
