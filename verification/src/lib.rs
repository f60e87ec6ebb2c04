//! Verified core of the Rustmas Christmas-lights toolkit: the pixel model,
//! the wire encodings sent to the lights, the reconnection back-off policy,
//! the combination of several light clients, and the integer logic of the
//! animations, the animation controller and the light-position capture.

pub mod animator;
pub mod color;
pub mod configurator;
pub mod cv;
pub mod events;
pub mod text;
pub mod light_client;
