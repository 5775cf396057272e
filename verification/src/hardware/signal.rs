use vstd::prelude::*;

verus! {

/// The state of a control line.
#[derive(Debug, Clone, Copy, PartialEq, Eq)]
pub enum Level {
    Low,
    High,
}

/// One thing the hardware is asked to do. A sequence of signals, performed
/// in order, is all the panel ever sees.
#[derive(Debug, Clone, PartialEq, Eq)]
pub enum Signal {
    /// Drive the panel's reset line.
    ResetLine(Level),
    /// Drive the data/command select line: low announces a command byte,
    /// high announces payload.
    DataCommand(Level),
    /// Drive the chip-select line: low claims the bus, high releases it.
    ChipSelect(Level),
    /// Clock these bytes out.
    Write(Vec<u8>),
    /// Clock this many bytes in.
    Read(usize),
    /// Clock these bytes out while clocking as many in.
    Transfer(Vec<u8>),
    /// Wait until the bus has sent everything it holds.
    Flush,
    /// Suspend for this many milliseconds.
    Delay(u64),
}

/// What a [`Signal`] means: the same variants, with byte strings as
/// mathematical sequences.
pub enum SignalView {
    ResetLine(Level),
    DataCommand(Level),
    ChipSelect(Level),
    Write(Seq<u8>),
    Read(nat),
    Transfer(Seq<u8>),
    Flush,
    Delay(u64),
}

impl View for Signal {
    type V = SignalView;

    open spec fn view(&self) -> SignalView {
        match *self {
            Signal::ResetLine(level) => SignalView::ResetLine(level),
            Signal::DataCommand(level) => SignalView::DataCommand(level),
            Signal::ChipSelect(level) => SignalView::ChipSelect(level),
            Signal::Write(bytes) => SignalView::Write(bytes@),
            Signal::Read(count) => SignalView::Read(count as nat),
            Signal::Transfer(bytes) => SignalView::Transfer(bytes@),
            Signal::Flush => SignalView::Flush,
            Signal::Delay(millis) => SignalView::Delay(millis),
        }
    }
}

/// The meaning of a list of signals, element by element.
pub open spec fn trace(signals: Seq<Signal>) -> Seq<SignalView> {
    Seq::new(signals.len(), |i: int| signals[i]@)
}

/// Appending a signal appends its meaning.
pub proof fn lemma_trace_push(signals: Seq<Signal>, signal: Signal)
    ensures
        trace(signals.push(signal)) == trace(signals).push(signal@),
{
    assert(trace(signals.push(signal)) =~= trace(signals).push(signal@));
}

/// The meaning of a concatenation is the concatenation of the meanings.
pub proof fn lemma_trace_concat(first: Seq<Signal>, second: Seq<Signal>)
    ensures
        trace(first + second) == trace(first) + trace(second),
{
    assert(trace(first + second) =~= trace(first) + trace(second));
}

} // verus!
