# clocktui

A terminal clock: the time of a primary zone in big digits, smaller clocks
for other zones, and a confirmation dialog on Ctrl+Q.

- `src/` is the library, verified with Verus:
  - `config.rs`: defaults, the configuration file's settings, the
    command-line overrides, zone labels;
  - `paths.rs`: the configuration directory and path joining;
  - `theme.rs`: `#RRGGBB` colours, palettes, themes, theme file locations and
    the choice of theme source;
  - `glyphs.rs`: the big-digit clock face;
  - `app.rs`: the clock's state and the quit dialog's key handling;
  - `layout.rs`: screen geometry;
  - `text.rs`: character-level string helpers.
- `app/` is the program around it: environment, files, TOML parsing, the
  terminal and drawing.
- `tests/` runs the library on concrete values.
