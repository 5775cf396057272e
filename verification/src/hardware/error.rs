use vstd::prelude::*;
use vstd::string::StringExecFns;

verus! {

/// A failure of the hardware layer.
#[derive(Debug, Clone, PartialEq, Eq)]
pub enum HardwareError {
    Spi(SpiError),
}

/// A failure of the serial bus.
#[derive(Debug, Clone, PartialEq, Eq)]
pub enum SpiError {
    /// The bus peripheral refused its configuration; the text is the cause
    /// as the peripheral reported it.
    Config(String),
    /// A request was refused before the bus was touched.
    InvalidParameters(&'static str),
    /// A full-duplex transfer failed on the bus.
    TransferFailed(&'static str),
    /// A write failed on the bus.
    WriteFailed(&'static str),
    /// A read failed on the bus.
    ReadFailed(&'static str),
}

impl SpiError {
    pub fn invalid_parameters(msg: &'static str) -> (error: Self)
        ensures
            error == SpiError::InvalidParameters(msg),
    {
        Self::InvalidParameters(msg)
    }

    pub fn transfer_failed(msg: &'static str) -> (error: Self)
        ensures
            error == SpiError::TransferFailed(msg),
    {
        Self::TransferFailed(msg)
    }

    pub fn write_failed(msg: &'static str) -> (error: Self)
        ensures
            error == SpiError::WriteFailed(msg),
    {
        Self::WriteFailed(msg)
    }

    pub fn read_failed(msg: &'static str) -> (error: Self)
        ensures
            error == SpiError::ReadFailed(msg),
    {
        Self::ReadFailed(msg)
    }
}

impl SpiError {
    /// The error in words.
    pub open spec fn message(self) -> Seq<char> {
        match self {
            SpiError::Config(cause) => "SPI configuration error: "@ + cause@,
            SpiError::InvalidParameters(msg) => "Invalid SPI parameters: "@ + msg@,
            SpiError::TransferFailed(msg) => "SPI transfer failed: "@ + msg@,
            SpiError::WriteFailed(msg) => "SPI write failed: "@ + msg@,
            SpiError::ReadFailed(msg) => "SPI read failed: "@ + msg@,
        }
    }

    /// The error in words.
    pub fn to_string(&self) -> (text: String)
        ensures
            text@ == self.message(),
    {
        match self {
            SpiError::Config(cause) => String::from_str("SPI configuration error: ").concat(
                cause.as_str(),
            ),
            SpiError::InvalidParameters(msg) => String::from_str("Invalid SPI parameters: ").concat(
                msg,
            ),
            SpiError::TransferFailed(msg) => String::from_str("SPI transfer failed: ").concat(msg),
            SpiError::WriteFailed(msg) => String::from_str("SPI write failed: ").concat(msg),
            SpiError::ReadFailed(msg) => String::from_str("SPI read failed: ").concat(msg),
        }
    }
}

impl HardwareError {
    /// The error in words.
    pub open spec fn message(self) -> Seq<char> {
        match self {
            HardwareError::Spi(err) => "SPI error: "@ + err.message(),
        }
    }

    /// The error in words.
    pub fn to_string(&self) -> (text: String)
        ensures
            text@ == self.message(),
    {
        match self {
            HardwareError::Spi(err) => String::from_str("SPI error: ").concat(
                err.to_string().as_str(),
            ),
        }
    }
}

impl From<SpiError> for HardwareError {
    fn from(err: SpiError) -> (error: Self) {
        Self::Spi(err)
    }
}

impl vstd::std_specs::convert::FromSpecImpl<SpiError> for HardwareError {
    open spec fn obeys_from_spec() -> bool {
        true
    }

    open spec fn from_spec(err: SpiError) -> Self {
        HardwareError::Spi(err)
    }
}

} // verus!
