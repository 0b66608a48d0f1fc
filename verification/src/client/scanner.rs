//! The state of a barcode scanner on a serial port.
//!
//! The port itself is opened and read by the host; this module keeps what
//! the host knows about the connection.

use vstd::prelude::*;
use vstd::string::StringExecFns;

verus! {

/// What can go wrong with the scanner.
#[derive(Debug)]
pub enum ScannerError {
    /// The serial port refused; the text says why.
    SerialError(String),
    /// No scanner is connected.
    NotConnected,
    /// The configuration is unusable; the text says why.
    ConfigError(String),
}

impl ScannerError {
    /// The text of the error.
    pub open spec fn spec_message(self) -> Seq<char> {
        match self {
            ScannerError::SerialError(reason) => "串口错误: "@ + reason@,
            ScannerError::NotConnected => "扫码枪未连接"@,
            ScannerError::ConfigError(reason) => "配置错误: "@ + reason@,
        }
    }

    /// The text of the error.
    pub fn message(&self) -> (text: String)
        ensures
            text@ == self.spec_message(),
    {
        match self {
            ScannerError::SerialError(reason) => String::from_str("串口错误: ").concat(
                reason.as_str(),
            ),
            ScannerError::NotConnected => String::from_str("扫码枪未连接"),
            ScannerError::ConfigError(reason) => String::from_str("配置错误: ").concat(
                reason.as_str(),
            ),
        }
    }
}

/// How to reach the scanner.
#[derive(Debug)]
pub struct ScannerConfig {
    pub enabled: bool,
    pub port: String,
    pub baud_rate: u32,
    pub data_bits: u8,
    pub stop_bits: u8,
    pub parity: String,
}

impl ScannerConfig {
    /// Whether this is the configuration of a scanner that was never set up:
    /// disabled, no port, 9600 baud, 8 data bits, 1 stop bit, no parity.
    pub open spec fn is_default(&self) -> bool {
        &&& !self.enabled
        &&& self.port@.len() == 0
        &&& self.baud_rate == 9600
        &&& self.data_bits == 8
        &&& self.stop_bits == 1
        &&& self.parity@ == "none"@
    }
}

impl Default for ScannerConfig {
    fn default() -> (config: Self)
        ensures
            config.is_default(),
    {
        ScannerConfig {
            enabled: false,
            port: String::new(),
            baud_rate: 9600,
            data_bits: 8,
            stop_bits: 1,
            parity: String::from_str("none"),
        }
    }
}

impl Clone for ScannerConfig {
    fn clone(&self) -> (copy: Self)
        ensures
            copy == *self,
    {
        ScannerConfig {
            enabled: self.enabled,
            port: self.port.clone(),
            baud_rate: self.baud_rate,
            data_bits: self.data_bits,
            stop_bits: self.stop_bits,
            parity: self.parity.clone(),
        }
    }
}

/// One barcode and the time at which it was read.
#[derive(Debug)]
pub struct ScanResult {
    pub barcode: String,
    pub timestamp: String,
}

/// Whether a scanner is connected, and on which port.
#[derive(Debug)]
pub struct ScannerStatus {
    pub connected: bool,
    pub port: Option<String>,
}

impl Clone for ScanResult {
    fn clone(&self) -> (copy: Self)
        ensures
            copy == *self,
    {
        ScanResult { barcode: self.barcode.clone(), timestamp: self.timestamp.clone() }
    }
}

impl Clone for ScannerStatus {
    fn clone(&self) -> (copy: Self)
        ensures
            copy == *self,
    {
        let port = match &self.port {
            Some(port) => Some(port.clone()),
            None => None,
        };
        ScannerStatus { connected: self.connected, port }
    }
}

/// What the host knows about its scanner.
pub struct ScannerManager {
    config: ScannerConfig,
    running: bool,
    connected: bool,
}

impl ScannerManager {
    /// The configuration of the last attempt to connect.
    pub closed spec fn config(&self) -> ScannerConfig {
        self.config
    }

    /// The reader of the port is meant to run.
    pub closed spec fn running(&self) -> bool {
        self.running
    }

    /// The port is open.
    pub closed spec fn connected(&self) -> bool {
        self.connected
    }

    /// A manager that knows of no scanner.
    pub fn new() -> (manager: Self)
        ensures
            manager.config().is_default(),
            !manager.running(),
            !manager.connected(),
    {
        ScannerManager { config: ScannerConfig::default(), running: false, connected: false }
    }

    /// Takes note of an attempt to open the port of `config`, of which
    /// `opened` is the outcome. A connection that ran before is given up and
    /// `config` is kept either way. On success the scanner is connected; on
    /// failure it is not, and the error carries the reason.
    pub fn connect(&mut self, config: ScannerConfig, opened: Result<(), String>) -> (outcome:
        Result<(), ScannerError>)
        ensures
            final(self).config() == config,
            final(self).running() == (opened is Ok),
            final(self).connected() == (opened is Ok),
            match opened {
                Ok(_) => outcome is Ok,
                Err(reason) => outcome matches Err(ScannerError::SerialError(text)) && text@
                    == "打开串口失败: "@ + reason@,
            },
    {
        self.running = false;
        self.connected = false;
        self.config = config;
        match opened {
            Ok(_) => {
                self.running = true;
                self.connected = true;
                Ok(())
            },
            Err(reason) => Err(
                ScannerError::SerialError(
                    String::from_str("打开串口失败: ").concat(reason.as_str()),
                ),
            ),
        }
    }

    /// Takes note that the reader of the port has ended.
    pub fn reader_stopped(&mut self)
        ensures
            final(self).config() == old(self).config(),
            !final(self).running(),
            !final(self).connected(),
    {
        self.connected = false;
        self.running = false;
    }

    /// Gives the connection up. This always succeeds.
    pub fn disconnect(&mut self) -> (outcome: Result<(), ScannerError>)
        ensures
            outcome is Ok,
            final(self).config() == old(self).config(),
            !final(self).running(),
            !final(self).connected(),
    {
        self.running = false;
        self.connected = false;
        Ok(())
    }

    /// Whether a scanner is connected, and if so on which port.
    pub fn get_status(&self) -> (status: ScannerStatus)
        ensures
            status.connected == self.connected(),
            match status.port {
                Some(port) => self.connected() && port@ == self.config().port@,
                None => !self.connected(),
            },
    {
        let port = if self.connected {
            Some(self.config.port.clone())
        } else {
            None
        };
        ScannerStatus { connected: self.connected, port }
    }

    /// Whether a scanner is connected.
    pub fn is_connected(&self) -> (connected: bool)
        ensures
            connected == self.connected(),
    {
        self.connected
    }
}

impl Default for ScannerManager {
    fn default() -> (manager: Self)
        ensures
            manager.config().is_default(),
            !manager.running(),
            !manager.connected(),
    {
        ScannerManager::new()
    }
}

} // verus!
