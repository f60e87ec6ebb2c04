//! The animation side: the built-in animations' integer logic, the frame
//! timing of the animation controller, JSON-RPC plugin bookkeeping and
//! plugin file naming.

pub mod animations;
pub mod controller;
pub mod factory;
pub mod jsonrpc;
pub mod jsonrpc_animation;

use vstd::prelude::*;

use crate::light_client::config::LightsConfig;

verus! {

/// The controller's configuration: where the light positions are, which
/// light controllers to drive, and where the animation plugins are.
#[derive(Debug)]
pub struct ControllerConfig {
    pub points_path: String,
    pub lights: Vec<LightsConfig>,
    pub plugin_path: String,
}

} // verus!
