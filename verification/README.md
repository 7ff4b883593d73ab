# augenblick

A reminder to blink: every few minutes two eyelids sweep over the screen
and open again.

- `src/` is the verified library (Verus):
  - `text.rs`: reading a `str` as characters, parsing unsigned numbers
    (optional `+`, decimal or hexadecimal, with an upper limit) and writing
    them back, with the round trip proved;
  - `config.rs`: the settings, their defaults, how command-line overrides
    win over the configuration file, colour parsing (`#RRGGBB`) and the
    line that announces the settings;
  - `cli.rs`: the command line, specified as a left-to-right reading of
    the arguments;
  - `backend.rs`: the choice between Wayland and X11;
  - `animation.rs`: the order of a blink's steps, where the lids go, the
    pixels that fill them and the Wayland surface handshake.
- `app/` is the program around it: reading files, the environment and the
  arguments, TOML, the X11 and Wayland connections, sleeping, and the
  floating-point easing of the lids.
- `tests/` runs the library on concrete inputs, comparing its parsing and
  formatting with the standard library's.
