//! Control core of a battery-powered tilt sensor: an accelerometer driver
//! over a two-wire bus and the connection lifecycle that powers the sensor
//! up for each wireless peer and down again when the peer leaves.
pub mod bus;
pub mod driver;
pub mod orchestrator;
