# tazamun_gui

The desktop window of tazamun, a strict-checkout folder sync. `src/` is the
verified library: everything the window decides, computes and says. `app/` is
the painted half around it.

## What is verified

The library is written in Verus. It counts in whole numbers: lengths in
hundredths of a point, scales and fractions in ten-thousandths. A length or
fraction that is no number comes in as `None`.

| Modules | What they decide |
|---|---|
| `text`, `figures`, `tenths`, `order` | text, numbers and the order of names |
| `selection`, `grouping` | which rows are marked, how files fall into folders |
| `a11y`, `copy`, `health`, `onboarding` | what is said, and in which words |
| `menubar`, `headband`, `bar`, `shortcuts` | the menus, the bar they hang from, the keys |
| `register`, `rhythm`, `statusbar` | columns and rows, the running head, the status strip |
| `constellation`, `balance`, `marginalia` | the peer sky, the conflict scales, the selection brace |
| `chrome`, `components`, `controls`, `fields`, `ceremony`, `colophon`, `focusnav` | how the parts of the window are set and how they look |
| `prefs`, `folderpick`, `sysopen`, `dropzone` | what is remembered, picked, opened and dropped |
| `theme`, `geometry`, `model` | the measures and values the others share |

Proof functions whose names begin with `law_` state what holds across calls.

## Layout

- `src/` the library, `tests/` its tests
- `app/` egui widgets, the preferences file, dialogs and processes
