# zoom_midi_adaptor

A verified library for routing MIDI controller messages to a Zoom MS-50G, with
the adaptor program around it.

- `src/config.rs`: the raw configuration, its validation into `Settings`, and the
  laws about validated settings (every mapping lands in its slot, numbers are
  distinct, unmapped numbers stay empty).
- `src/translator.rs`: translation of incoming messages (program changes pass
  through, mapped control changes become SysEx parameter edits or the tuner
  control change), with laws about channel filtering and well-formed output.
- `src/ports.rs`: choosing a port by prefix, in priority order.
- `src/rendering.rs`: how messages are written in the log.
- `src/text.rs`: decimal and hexadecimal text, and the white-space test.
- `app/`: the program: JSON config loading (serde), MIDI I/O (midir), logging.
