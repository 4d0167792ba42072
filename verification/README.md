# monitor_probe

Monitor discovery for a desktop display-control tool, written in Verus.

`src/` is the verified library:

- `application::monitor::get_monitors` — the monitor-list use case: how the
  DDC/CI monitor list and the EDID list are combined into the list that the
  user interface shows (names trimmed, EDIDs matched by logical display
  name, an EDID failure tolerated).
- `adapter` — the DDC/CI and EDID back ends: normalising and deduplicating
  what the platform reports, plus sample back ends.
- `infra::winapi::ddc::sys::caps_parse` — the parser for DDC/CI capability
  strings; `infra::winapi::ddc::sys::vcp` — reading and writing VCP codes
  across the physical monitors of a display.
- `infra::winapi::edid::sys::api` — EDID base-block decoding and the
  registry location of a monitor's EDID.
- `infra::fake` — sample platform layers; `bootstrap` — the container.
- `text`, `assoc` — trimming, hex and decimal text, association lists.

`app/` holds the Tauri entry point and command, the serialisable wire
types, and the Windows calls that feed the library.
