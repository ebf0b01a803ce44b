//! A watcher's core: it counts how often an address shows up in a log within
//! a trailing window and drives a temporary, self-expiring firewall block
//! once a threshold is reached.
pub mod block;
pub mod config;
pub mod firewall;
pub mod ipv4;
pub mod pattern;
pub mod scan;
pub mod strmap;
pub mod tracker;
pub mod watch;
