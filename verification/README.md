# piano_core

The verified core of a live piano monitor: notes and tones, keyboard layouts, the text
drawing of a keyboard with its sounding keys, the onset tracker that cuts audio into analysis
windows, the choice of detected tones, the command line of the terminal tools, the prompt
loop that records training data, and the decisions of the settings screens.

- `src/` — the library, verified with Verus: `note`, `tone`, `keyboard`, `model`, `piano`
  (terminal drawing), `layout`, `channels`, `onset`, `detect`, `cli`, `collect`, `settings`,
  `text`.
- `tests/` — tests of the library.
- `app/` — the programs around it: audio capture (PortAudio, cpal), the spectrum (rustfft),
  least angle regression (sklears), YIN pitch estimation, the settings file (serde), and the
  tracker, collector and pitch monitor loops.

The graphical front end (a bevy and egui window with the settings menu, the screen states,
the drawn keyboard and the falling note blocks) has no program in `app/`: bevy and egui are
not among its dependencies. Its decisions stand in the library all the same —
`settings::settings_update`, `MenuState`, `UiState`, the device, detection and keyboard
watches, `FirstFrameGate` and `layout::place_keys` — and the tests exercise them; no program
here calls them.
