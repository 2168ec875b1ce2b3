//! Probe aggregation and banner measurement for a system-information summary.

pub mod assembly;
pub mod context;
pub mod control;
pub mod dimension;
pub mod error;
pub mod fact;
pub mod info;
pub mod inject;
pub mod numeral;
pub mod probe;
pub mod key;
pub mod surface;
pub mod template;
