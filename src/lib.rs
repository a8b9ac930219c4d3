//! Match-report conversion: a tolerant streaming reader of a game server's
//! end-of-match XML document into a typed report, and a deterministic,
//! markup-escaped rendering of that report.

pub mod model;
pub mod text;
pub mod xml;
pub mod parser;
pub mod report;
pub mod laws;
