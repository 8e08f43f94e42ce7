//! Verified core of a bridge between Elodin-DB sensor streams, ArduPilot SITL
//! and DroneCAN speed controllers.

pub mod endian;
pub mod bytes;
pub mod ardupilot_ipc;
pub mod can_output;
pub mod config;
pub mod elodin;
pub mod hitl;
pub mod imu_filter;
pub mod timing;
pub mod feeds;
pub mod bridge;
pub mod bridge_laws;
