# ocalrs

A typing assistant for an on-screen word game: it watches a game window,
finds each word as it appears, binarises it, recognises it with `ocrs` and
types it back.

- `src/` is the verified library (Verus): colour classes and the word-start
  scan (`cv`), word bounds and binarisation, the raster type (`raster`), the
  joining of recognised lines and the calls into the recogniser (`ocr`), the
  typing plan (`typer`), the choice of the game window (`window`), the prompt's
  commands (`menu`) and the game session as a state machine (`session`).
- `app/` is the program around it: configuration file, screen capture,
  keyboard, logging, and the loop that performs what the session decides.
- `tests/` runs the library on concrete frames and inputs.

The program reads `Config.toml` (see the settings of `Config`) and the two
recogniser models `text-detection.rten` and `text-recognition.rten`, beside
the executable or in the working directory.
