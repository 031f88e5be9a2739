//! Battery monitoring logic for voltage-divider sensors read through an ADC:
//! how a batch of readings is gathered and averaged, how a measured voltage is
//! classified against its warning boundary, how each status is reported, and
//! how measurement commands are scheduled and routed to sensors.

pub mod battery;
pub mod control;
