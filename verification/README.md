# cosmic_osd

The decision-making core of the COSMIC on-screen display, verified with Verus.

- `src/components/audio/model.rs` — the sink/source tables and `Model::update`,
  which decides which audio events raise a volume OSD. Its contract is the
  transition function `ModelView::step`; the laws (`law_*`) state that first
  reports never raise an OSD, that an OSD shows the active node, and that ids
  stay distinct.
- `src/components/polkit_dialog.rs` — the authentication dialog as a state
  machine (`State::update`, specified by `StateView::step`) and what it shows
  (`State::presentation`).
- `src/subscriptions/polkit_agent_helper.rs` — the line protocol of
  `polkit-agent-helper-1` (`event`, `frame_message`), the helper lookup
  (`resolve_helper_bin_path_in`) and the per-step decisions of the
  conversation and its retries.
- `src/subscriptions/osd_inhibit.rs` — the capped suppression window.
- `app/` — the libcosmic surfaces, the helper process and socket, the D-Bus
  interface and the audio event conversion, calling into the library.
- `tests/` — scenarios for each module.
