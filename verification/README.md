# hi_observer

The recording formats of the HI Observer radio spectrometer, verified with Verus.

An observation is saved either as a versioned little-endian `.bin` file (a
256-byte header, then one record per spectrum) or as a FITS binary table
(`SPECTRA`, big-endian rows, headers padded to 2880-byte blocks). The library
decides every byte of both: headers, records, the fields rewritten when a
recording is closed, and the checks made before appending to an existing file.
Its contracts state those bytes exactly.

## Layout

- `src/` — the verified library.
  - `byte_codec` — little- and big-endian integer fields, with read-back laws.
  - `binary_observation` — the `.bin` header (encode, decode, round trip), append
    checks and `BinaryRecorder`.
  - `fits_card`, `fits_table` — FITS cards, headers and `FitsRecorder`.
  - `clock` — UTC time from the system clock and FITS dates, through `chrono`.
  - `text`, `error`, `metadata` — decimal numerals, errors, observation settings.
  - `save_format`, `channelize` — output format by file extension, and the
    channelizer's settings checks.
  - `file_chooser` — what the save-file chooser's answer means.
  - `save_control` — the recording status shown after each step of saving.
  - `session` — laws of whole recording sessions of both formats.
- `app/` — file I/O around the recorders, floating-point values, and the
  writers that the acquisition program uses.
- `tests/` — tests of the library on concrete values.

Floating-point settings travel through the library as their IEEE-754 bit
patterns; values derived from them by floating-point arithmetic, and their
decimal text, are computed in `app/` and handed in.
