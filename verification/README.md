# surfrs

Readers and URL builders for ocean and weather forecast data: NDBC buoy
stations and their files, NOAA and ECMWF model outputs, WAVEWATCH III point
bulletins and spectra, GEFS wave bulletins, SWAN output files and GRIB
indexes. The library is written in Verus: each public function states in
its contract what it returns, and Verus proves it.

Layout:

- `src/` is the verified library. Parsers hold the numbers they read as the
  decimal text they were read as, checked to be what Rust's float parser
  accepts; the values themselves are taken in `app/`.
- `src/text.rs` holds the text model shared by the parsers: lines, words,
  trimming, and integer and float syntax as Rust's `from_str` reads it.
- `src/pattern.rs`, `src/time.rs` and `src/data/delimited.rs` hold the calls
  into `regex`, `chrono` and `csv`, each behind a function whose contract
  says what the crate's result is, or names it.
- `app/` is ordinary Rust around the library: serde forms of its types, the
  float values of the text it holds, and what reads decoded GRIB messages
  with `gribberish`.
- `tests/` runs the library on sample files.
