//! Encoding of two channels of 16-bit samples as a stereo PCM WAVE file,
//! with the byte layout proved against its specification.

pub mod wav;
