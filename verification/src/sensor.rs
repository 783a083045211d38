//! Sensor models of satellite imagery.

pub mod rpc;
