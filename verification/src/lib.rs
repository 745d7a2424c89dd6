//! The detection logic of an endpoint agent.
//!
//! The analyzers look at what a process does: how it is started, what it reads and
//! writes, what its memory holds, and what it does to the tracing of the system. What
//! they find becomes alerts, which are scored, grouped, correlated and answered.
//!
//! Files, other processes and their memory are read elsewhere: what was read is an
//! argument. Where a function reads the clock or makes up an identifier, another one
//! beside it takes them. Fractions are whole numbers of millionths.

pub mod aggregation;
pub mod alert;
pub mod alert_rules;
pub mod alerting;
pub mod baseline;
pub mod behavioral;
pub mod behavioral_chains;
pub mod behavioral_laws;
pub mod bof_detector;
pub mod bytes;
pub mod cmdline_spoofing;
pub mod collect;
pub mod correlation;
pub mod critical_providers;
pub mod data_staging;
pub mod digest;
pub mod early_bird;
pub mod etw_tampering;
pub mod explainer;
pub mod heap_spray;
pub mod ids;
pub mod indirect_syscall;
pub mod json;
pub mod memory_write_monitor;
pub mod notification;
pub mod paths;
pub mod pattern;
pub mod predefined_rules;
pub mod response;
pub mod risk;
pub mod risk_scorer;
pub mod sightings;
pub mod similarity;
pub mod statistics;
pub mod telemetry;
pub mod text;
pub mod textmap;
pub mod textset;
pub mod wide;
pub mod words;
