//! Configuration materialization pipeline for a small-board cooling-fan
//! daemon: a curve compiler that expands sparse temperature/speed control
//! points into a dense per-degree table, a loader that validates the
//! human-authored source document, a binary cache codec with corruption
//! detection, and a resolver that always yields a usable configuration by
//! falling back from cache to source to a built-in default.

pub mod codec;
pub mod config;
pub mod curve;
pub mod power;
pub mod resolver;
pub mod source;

pub use config::ArgonConfigRKYV;
pub use config::ArgonConfigValue;
pub use config::ArgonConfigYAML;
pub use config::FanConfigRKYV;
pub use config::FanConfigYAML;
pub use config::Hysteresis;
pub use config::PowerScript;
pub use curve::matrix_mapper;
pub use curve::ControlPoint;
pub use curve::TempMatrixYAML;
pub use curve::TemperatureCurve;
pub use resolver::load_argon_config;
pub use resolver::CachedOutcome;
pub use resolver::Resolution;
pub use source::ValidationError;
