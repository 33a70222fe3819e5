# Rekk

Rekk records the microphone together with system audio and transcribes what it
recorded on the machine it runs on. This crate is its logic, written in Verus:
every function in `src/` is verified against the contract in its header.

- `src/` is the library. Samples are generic there and their arithmetic is handed
  in by the caller, so that no floating point is needed to say which samples
  meet, which are written and which stay queued. Work that alternates with
  devices, files or the network is a function from what is known so far to what
  is to be done next.
- `app/` is the desktop application around it: devices, files, windows, the
  network, and the arithmetic on samples. The parts that need macOS are compiled
  only there.
- `tests/` runs the library.

Recordings go to `Rekk` in the user's music directory, or in the documents
directory where there is none. Speech models go to `io.dbr.rekk/models` in the
user's data directory.
