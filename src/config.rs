use vstd::prelude::*;

verus! {

/// The slowest serial line speed accepted.
pub const MIN_BAUD_RATE: u32 = 9600;

/// The largest TCP port number.
pub const MAX_TCP_PORT: u32 = 65535;

/// Why a configuration was refused.
#[derive(PartialEq, Eq, Structural, Clone, Copy, Debug)]
pub enum ConfigError {
    /// The baud rate is below the slowest accepted speed.
    BaudRateTooLow,
    /// The TCP port does not fit in 16 bits.
    PortOutOfRange,
}

/// What the relay needs to start: the serial device, its speed and the TCP
/// port to listen on.
pub struct Config {
    pub serial_path: String,
    pub baud_rate: u32,
    pub tcp_port: u16,
}

impl Config {
    /// Checks the values and builds a configuration from them. A too-low baud
    /// rate is reported before a port out of range.
    pub fn new(serial_path: String, baud_rate: u32, tcp_port: u32) -> (r: Result<Config, ConfigError>)
        ensures
            baud_rate < MIN_BAUD_RATE ==> r == Err::<Config, ConfigError>(ConfigError::BaudRateTooLow),
            baud_rate >= MIN_BAUD_RATE && tcp_port > MAX_TCP_PORT ==> r == Err::<Config, ConfigError>(
                ConfigError::PortOutOfRange,
            ),
            baud_rate >= MIN_BAUD_RATE && tcp_port <= MAX_TCP_PORT ==> (r matches Ok(c) && c.serial_path@
                == serial_path@ && c.baud_rate == baud_rate && c.tcp_port == tcp_port),
    {
        if baud_rate < MIN_BAUD_RATE {
            Err(ConfigError::BaudRateTooLow)
        } else if tcp_port > MAX_TCP_PORT {
            Err(ConfigError::PortOutOfRange)
        } else {
            Ok(Config { serial_path, baud_rate, tcp_port: tcp_port as u16 })
        }
    }
}

} // verus!
