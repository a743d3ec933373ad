//! Analysis layer: the bounded ring that carries decoded samples from the
//! audio path to the analysis thread without ever holding the audio back.

pub mod ring;

pub use ring::SpScRing;
