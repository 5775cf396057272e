use crate::hardware::error::SpiError;
use crate::hardware::signal::{trace, Level, Signal, SignalView};
use vstd::prelude::*;

verus! {

/// The highest bus clock the transport accepts, in MHz.
pub const MAX_FREQUENCY_MHZ: u32 = 80;

/// A validated bus configuration. It frames each transfer between a claim
/// and a release of the chip-select line.
#[derive(Debug, Clone, Copy, PartialEq, Eq)]
pub struct SpiInterface {
    frequency: u32,
}

/// The signals of one framed write: claim the bus, send, drain, release.
pub open spec fn write_frame(data: Seq<u8>) -> Seq<SignalView> {
    seq![
        SignalView::ChipSelect(Level::Low),
        SignalView::Write(data),
        SignalView::Flush,
        SignalView::ChipSelect(Level::High),
    ]
}

/// The signals of one framed read: claim the bus, receive, release.
pub open spec fn read_frame(count: nat) -> Seq<SignalView> {
    seq![
        SignalView::ChipSelect(Level::Low),
        SignalView::Read(count),
        SignalView::ChipSelect(Level::High),
    ]
}

/// The signals of one framed full-duplex transfer.
pub open spec fn transfer_frame(data: Seq<u8>) -> Seq<SignalView> {
    seq![
        SignalView::ChipSelect(Level::Low),
        SignalView::Transfer(data),
        SignalView::ChipSelect(Level::High),
    ]
}

impl SpiInterface {
    /// The configured clock in MHz.
    pub closed spec fn frequency_mhz(&self) -> u32 {
        self.frequency
    }

    /// Always within the accepted range: a value of this type exists only
    /// for a clock above zero and at most [`MAX_FREQUENCY_MHZ`].
    #[verifier::type_invariant]
    spec fn in_range(&self) -> bool {
        0 < self.frequency <= MAX_FREQUENCY_MHZ
    }

    /// Accepts a clock above zero and at most [`MAX_FREQUENCY_MHZ`]; any
    /// other is refused, not clamped.
    pub fn new(frequency: u32) -> (result: Result<Self, SpiError>)
        ensures
            0 < frequency <= MAX_FREQUENCY_MHZ ==> result is Ok
                && result->Ok_0.frequency_mhz() == frequency,
            !(0 < frequency <= MAX_FREQUENCY_MHZ) ==> result == Err::<Self, SpiError>(
                SpiError::InvalidParameters("Frequency must be between 0Mhz and 80Mhz"),
            ),
    {
        if frequency == 0 || frequency > MAX_FREQUENCY_MHZ {
            return Err(
                SpiError::invalid_parameters("Frequency must be between 0Mhz and 80Mhz"),
            );
        }
        Ok(Self { frequency })
    }

    /// The configured clock in MHz.
    pub fn frequency(&self) -> (mhz: u32)
        ensures
            mhz == self.frequency_mhz(),
            0 < mhz <= MAX_FREQUENCY_MHZ,
    {
        proof {
            use_type_invariant(self);
        }
        self.frequency
    }

    /// Frames a write of `data`. An empty buffer is refused.
    pub fn write(&self, data: &[u8]) -> (result: Result<Vec<Signal>, SpiError>)
        ensures
            data@.len() > 0 ==> result is Ok && trace(result->Ok_0@) == write_frame(data@),
            data@.len() == 0 ==> result == Err::<Vec<Signal>, SpiError>(
                SpiError::InvalidParameters("Write data buffer cannot be empty"),
            ),
    {
        if data.len() == 0 {
            return Err(SpiError::invalid_parameters("Write data buffer cannot be empty"));
        }
        let mut frame: Vec<Signal> = Vec::new();
        frame.push(Signal::ChipSelect(Level::Low));
        frame.push(Signal::Write(copy_of(data)));
        frame.push(Signal::Flush);
        frame.push(Signal::ChipSelect(Level::High));
        assert(trace(frame@) =~= write_frame(data@));
        Ok(frame)
    }

    /// Frames a read of `count` bytes. A read of nothing is refused.
    pub fn read(&self, count: usize) -> (result: Result<Vec<Signal>, SpiError>)
        ensures
            count > 0 ==> result is Ok && trace(result->Ok_0@) == read_frame(count as nat),
            count == 0 ==> result == Err::<Vec<Signal>, SpiError>(
                SpiError::InvalidParameters("Read data buffer cannot be empty"),
            ),
    {
        if count == 0 {
            return Err(SpiError::invalid_parameters("Read data buffer cannot be empty"));
        }
        let mut frame: Vec<Signal> = Vec::new();
        frame.push(Signal::ChipSelect(Level::Low));
        frame.push(Signal::Read(count));
        frame.push(Signal::ChipSelect(Level::High));
        assert(trace(frame@) =~= read_frame(count as nat));
        Ok(frame)
    }

    /// Frames a full-duplex transfer that sends `write` while `read_count`
    /// bytes come in. The two lengths have to agree and may not both be
    /// zero.
    pub fn transfer(&self, read_count: usize, write: &[u8]) -> (result: Result<
        Vec<Signal>,
        SpiError,
    >)
        ensures
            read_count == write@.len() && read_count > 0 ==> result is Ok && trace(
                result->Ok_0@,
            ) == transfer_frame(write@),
            read_count == 0 && write@.len() == 0 ==> result == Err::<Vec<Signal>, SpiError>(
                SpiError::InvalidParameters("Read and write data buffers cannot be empty"),
            ),
            read_count != write@.len() ==> result == Err::<Vec<Signal>, SpiError>(
                SpiError::InvalidParameters(
                    "Read and write data buffers must have the same length",
                ),
            ),
    {
        if read_count == 0 && write.len() == 0 {
            return Err(
                SpiError::invalid_parameters("Read and write data buffers cannot be empty"),
            );
        }
        if read_count != write.len() {
            return Err(
                SpiError::invalid_parameters(
                    "Read and write data buffers must have the same length",
                ),
            );
        }
        let mut frame: Vec<Signal> = Vec::new();
        frame.push(Signal::ChipSelect(Level::Low));
        frame.push(Signal::Transfer(copy_of(write)));
        frame.push(Signal::ChipSelect(Level::High));
        assert(trace(frame@) =~= transfer_frame(write@));
        Ok(frame)
    }
}

/// An owned copy of a byte slice.
pub(crate) fn copy_of(data: &[u8]) -> (bytes: Vec<u8>)
    ensures
        bytes@ == data@,
{
    let mut bytes: Vec<u8> = Vec::with_capacity(data.len());
    let mut i: usize = 0;
    while i < data.len()
        invariant
            i <= data@.len(),
            bytes@ == data@.take(i as int),
        decreases data@.len() - i,
    {
        bytes.push(data[i]);
        assert(data@.take(i as int).push(data@[i as int]) =~= data@.take(i + 1));
        i += 1;
    }
    assert(data@.take(data@.len() as int) =~= data@);
    bytes
}

} // verus!
