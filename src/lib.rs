//! Bring-up logic for an Ethernet PHY on an RP2040 board: the clock-tree boot
//! sequence, a bit-banged clause-22 MDIO bus engine, PHY discovery and
//! negotiation, and a link monitor. Every hardware access is left to the
//! caller, which performs the steps these state machines hand out.

pub mod delay;
pub mod mdio;
pub mod clocks;
pub mod phy;
