# Sofle Plus 2 Viewer

A live viewer for the XCMKB Sofle Plus 2 keyboard: it highlights the switch
matrix over Vial raw HID, shows the active layer from the firmware's
telemetry (or follows it from key presses when telemetry is missing), and
draws the touchpad contacts.

Layout:

- `src/` is the verified library (Verus): the key layout (`matrix`),
  keycode classification and lookup through transparent layers (`keycode`),
  layer masks, the active-layer search and the fallback layer tracker
  (`layer`), keycode labels (`label`), matrix reports for traces (`report`),
  telemetry packet decoding (`telemetry`), VIA/Vial request and reply
  packets (`protocol`), the viewer's live state (`state`) and the device
  worker's decisions (`worker`).
- `app/` is the program: the egui window and drawing, hidraw/hidapi access,
  the worker thread and the event trace.
- `tests/` runs the library on concrete values.
