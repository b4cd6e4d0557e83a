//! Request evaluation pipeline of a web-application firewall: decisions,
//! tags, counters, the bot-detector interface and the three-phase driver.
pub mod decision;
pub mod tags;
pub mod stats;
pub mod policy;
pub mod grasshopper;
pub mod acl;
pub mod counters;
pub mod analyze;
