//! Camera and display types of the configurator: the same as the shared
//! ones.

pub use crate::cv::{CameraError, Display};
