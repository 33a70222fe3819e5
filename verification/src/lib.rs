//! The logic of Rekk, a recorder that mixes the microphone with system audio and
//! transcribes its recordings on this machine.
//!
//! Samples pass through [`capture`], [`blocks`] and [`mixer`] on their way to the
//! file, and through [`wav`] and [`resample`] on their way to speech recognition.
//! [`clock`], [`session`] and [`meter`] follow a recording from start to stop,
//! [`models`], [`download`] and [`transcript`] follow a transcription,
//! [`recordings`] keeps the list and [`deletion`] takes from it, and
//! [`permissions`] words the system's answers. [`text`], [`paths`] and
//! [`protocol`] serve the others.
pub mod blocks;
pub mod capture;
pub mod clock;
pub mod deletion;
pub mod download;
pub mod meter;
pub mod mixer;
pub mod models;
pub mod paths;
pub mod permissions;
pub mod protocol;
pub mod recordings;
pub mod resample;
pub mod session;
pub mod text;
pub mod transcript;
pub mod wav;
