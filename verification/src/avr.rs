//! Flag records for the downstream AVR toolchain.
//!
//! The compiler core only assembles these settings; invoking the native
//! compiler driver and the flasher is the caller's business.

use vstd::prelude::*;

verus! {

/// Settings for the flashing tool: target MCU, serial port and baud rate.
#[derive(Debug, Clone)]
pub struct AVRDudeFlags {
    pub mcu: String,
    pub port: String,
    pub baudrate: u64,
}

impl AVRDudeFlags {
    pub fn new(mcu: String, port: &str, baudrate: u64) -> (r: Self)
        ensures
            r.mcu@ == mcu@,
            r.port@ == port@,
            r.baudrate == baudrate,
    {
        AVRDudeFlags { mcu, port: port.to_owned(), baudrate }
    }
}

/// Settings for the native AVR compiler driver: clock frequency and MCU.
#[derive(Debug, Clone)]
pub struct AVRCompilerFlags {
    pub cpu_f: u64,
    pub mcu: String,
}

impl AVRCompilerFlags {
    pub fn new(cpu_f: u64, mcu: String) -> (r: Self)
        ensures
            r.cpu_f == cpu_f,
            r.mcu@ == mcu@,
    {
        AVRCompilerFlags { cpu_f, mcu }
    }
}

} // verus!
