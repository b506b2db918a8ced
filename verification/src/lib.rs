//! Orchestration of an image-based-lighting sampling job: the job model,
//! the planning of output file names, the call protocol of the sampling
//! engine and the progress state machine of a run.

pub mod engine;
pub mod error;
pub mod model;
pub mod orchestrator;
pub mod paths;
pub mod planner;
pub mod preview;
pub mod raster;
pub mod sampler;
pub mod text;
