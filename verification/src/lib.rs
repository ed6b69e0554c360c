//! Core engine of a desktop launcher for a voxel sandbox game:
//! version-descriptor inheritance resolution, platform rule evaluation,
//! classpath and native-library resolution, launch-argument synthesis,
//! process-registry bookkeeping and crash classification.
pub mod accounts;
pub mod args;
pub mod classpath;
pub mod config;
pub mod crash;
pub mod digest;
pub mod inspect;
pub mod launch;
pub mod merge;
pub mod model;
pub mod natives;
pub mod platform;
pub mod registry;
pub mod report;
pub mod rules;
pub mod script;
pub mod settings;
pub mod text;
