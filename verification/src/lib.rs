//! Verified core of a SiteWhere latency controller: it indexes the
//! inventory that the SiteWhere REST API reports, turns the device events
//! that arrive over MQTT into command invocations and result lines, and
//! collects those lines for the report.

pub mod text;
pub mod json;
pub mod strmap;
pub mod client;
pub mod inventory;
pub mod pipeline;
pub mod settings;
pub mod clock;
