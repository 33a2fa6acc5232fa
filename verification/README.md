# westonite

The policy and bookkeeping core of the westonite compositor frontend and
desktop shell (weston 14 based), written in Verus and verified.

`src/` is the library:

- `registry`, `ids`, `forge`: generational ids over per-kind slot tables.
- `tracking`: the acquisition counts of watched focus surfaces.
- `dispatch`: the deferred-event queue drained at dispatch depth zero.
- `output_policy`, `heads`, `layoutput`: per-head output decisions, the
  heads-changed rules, DRM layout groups and `require-outputs`.
- `shell`, `shell_events`, `shell_laws`, `host`: the desktop-shell focus
  and activation state machine against the `ShellHost` boundary, its
  event step, and its invariants.
- `config`, `resolve`, `overrides`, `frontend`, `startup`, `compositor`:
  the configuration model, its resolution, the TOML tree of the file
  and the `-o` overrides written into it, the startup checks and the
  bring-up options.
- `libinput`, `grab`, `protocol`, `xwayland`, `screenshooter`,
  `logging`, `spawn`, `numeric`, `text`: device settings, interactive
  grabs, the protocol dump, the X server launch, the capture key
  bindings, log wiring, client commands and the text grammars they
  share.

`app/` is the program around it: the command line (clap), reading the
TOML file and deserialising the tree into the typed model (serde),
logging and the runtime-directory probe.  The libweston bindings are not part of this build, so the
program stops after the startup checks.

`tests/` exercise the library from outside.
