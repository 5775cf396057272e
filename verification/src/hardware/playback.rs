//! Playing queued signals on the hardware. The caller performs one signal
//! at a time and reports how it went; the playback decides what comes next.
//! It stops at the first failed transfer, and it never leaves the bus
//! claimed: after a failure the only signal still performed is the release
//! of the chip-select line that closes the failed transfer's frame.

use crate::hardware::error::SpiError;
use crate::hardware::signal::{trace, Level, Signal, SignalView};
use vstd::prelude::*;

verus! {

/// Whether a signal moves bytes over the bus, and so can fail.
pub open spec fn is_transfer(signal: SignalView) -> bool {
    signal is Write || signal is Read || signal is Transfer
}

/// Whether a signal releases the chip-select line.
pub open spec fn is_release(signal: SignalView) -> bool {
    signal == SignalView::ChipSelect(Level::High)
}

/// The error that a failed transfer is reported as.
pub open spec fn failure_of(signal: SignalView) -> SpiError {
    match signal {
        SignalView::Write(_) => SpiError::WriteFailed("Failed to write data to SPI bus"),
        SignalView::Read(_) => SpiError::ReadFailed("Failed to read data from SPI bus"),
        _ => SpiError::TransferFailed("Failed to read data from SPI bus"),
    }
}

/// The place of the first release at or after `from`; the script's length
/// when there is none.
pub open spec fn release_from(script: Seq<SignalView>, from: int) -> int
    decreases script.len() - from,
{
    if from < 0 || from >= script.len() {
        script.len() as int
    } else if is_release(script[from]) {
        from
    } else {
        release_from(script, from + 1)
    }
}

/// Where a playback stands: the place of the signal to perform next, and
/// the failure it has met, if any.
pub struct Progress {
    pub position: int,
    pub failure: Option<SpiError>,
}

/// Where a playback stands after the signal at `progress.position` has
/// been performed with the outcome `succeeded`.
///
/// A playback that has already met a failure has just performed the
/// release and is over. A transfer that failed is recorded, and the
/// playback jumps to the release that closes its frame, skipping everything
/// in between. Anything else lets the playback move on by one; how a flush,
/// a line change or a pause went is not looked at.
pub open spec fn step(script: Seq<SignalView>, progress: Progress, succeeded: bool) -> Progress {
    if progress.failure is Some {
        Progress { position: script.len() as int, failure: progress.failure }
    } else if is_transfer(script[progress.position]) && !succeeded {
        Progress {
            position: release_from(script, progress.position + 1),
            failure: Some(failure_of(script[progress.position])),
        }
    } else {
        Progress { position: progress.position + 1, failure: None }
    }
}

/// The kind of transfer that failed.
#[derive(Debug, Clone, Copy, PartialEq, Eq)]
enum Failed {
    Write,
    Read,
    Transfer,
}

impl Failed {
    /// The error a failure of this kind is reported as.
    spec fn error(self) -> SpiError {
        match self {
            Failed::Write => SpiError::WriteFailed("Failed to write data to SPI bus"),
            Failed::Read => SpiError::ReadFailed("Failed to read data from SPI bus"),
            Failed::Transfer => SpiError::TransferFailed("Failed to read data from SPI bus"),
        }
    }
}

/// The first release at or after `from` is where `release_from` says, and
/// nothing before it is a release.
pub proof fn lemma_release_from(script: Seq<SignalView>, from: int)
    requires
        0 <= from <= script.len(),
    ensures
        from <= release_from(script, from) <= script.len(),
        release_from(script, from) < script.len() ==> is_release(
            script[release_from(script, from)],
        ),
        forall|j: int| from <= j < release_from(script, from) ==> !is_release(#[trigger] script[j]),
    decreases script.len() - from,
{
    if from < script.len() && !is_release(script[from]) {
        lemma_release_from(script, from + 1);
    }
}

/// The bus is never left claimed. When a transfer fails, the playback
/// records the failure under its kind, performs nothing further except the
/// first release that follows, and is over once that release is done,
/// however the release went.
pub proof fn lemma_failed_transfer_releases(
    script: Seq<SignalView>,
    position: int,
    release_went_well: bool,
)
    requires
        0 <= position < script.len(),
        is_transfer(script[position]),
    ensures
        ({
            let failed = step(script, Progress { position, failure: None }, false);
            let ended = step(script, failed, release_went_well);
            &&& failed.failure == Some(failure_of(script[position]))
            &&& position < failed.position <= script.len()
            &&& failed.position < script.len() ==> is_release(script[failed.position])
            &&& forall|j: int|
                position < j < failed.position ==> !is_release(#[trigger] script[j])
            &&& ended.position == script.len()
            &&& ended.failure == failed.failure
        }),
{
    lemma_release_from(script, position + 1);
}

/// Whether the bus is claimed once a run of signals has been performed:
/// the chip-select line is where the run's last change left it, and
/// released if the run never changed it.
pub open spec fn claimed_after(performed: Seq<SignalView>) -> bool
    decreases performed.len(),
{
    if performed.len() == 0 {
        false
    } else {
        match performed.last() {
            SignalView::ChipSelect(Level::Low) => true,
            SignalView::ChipSelect(Level::High) => false,
            _ => claimed_after(performed.drop_last()),
        }
    }
}

/// A run that goes on without a release and ends with the bus free was
/// free already where the release-free stretch began.
proof fn lemma_free_without_release(script: Seq<SignalView>, from: int)
    requires
        0 <= from <= script.len(),
        !claimed_after(script),
        forall|j: int| from <= j < script.len() ==> !is_release(#[trigger] script[j]),
    ensures
        !claimed_after(script.take(from)),
    decreases script.len() - from,
{
    if from < script.len() {
        let shorter = script.drop_last();
        assert(script.last() == script[script.len() - 1]);
        assert(!is_release(script[script.len() - 1]));
        assert forall|j: int| from <= j < shorter.len() implies !is_release(
            #[trigger] shorter[j],
        ) by {
            assert(shorter[j] == script[j]);
        }
        lemma_free_without_release(shorter, from);
        assert(shorter.take(from) =~= script.take(from));
    } else {
        assert(script.take(from) =~= script);
    }
}

/// What a playback has performed when the transfer at `position` failed
/// and the playback has run to its end: everything up to and including the
/// failed transfer, and then the first release behind it, if there is one.
pub open spec fn performed_on_failure(script: Seq<SignalView>, position: int) -> Seq<SignalView> {
    let release = step(script, Progress { position, failure: None }, false).position;
    if release < script.len() {
        script.take(position + 1).push(script[release])
    } else {
        script.take(position + 1)
    }
}

/// Whichever transfer fails, a script that leaves the bus free when played
/// in full leaves it free when cut short by the failure.
pub proof fn lemma_failure_leaves_bus_free(script: Seq<SignalView>, position: int)
    requires
        0 <= position < script.len(),
        is_transfer(script[position]),
        !claimed_after(script),
    ensures
        !claimed_after(performed_on_failure(script, position)),
{
    lemma_release_from(script, position + 1);
    let release = release_from(script, position + 1);
    if release < script.len() {
        let performed = script.take(position + 1).push(script[release]);
        assert(performed.last() == script[release]);
    } else {
        lemma_free_without_release(script, position + 1);
    }
}

/// Running one run of signals after another leaves the bus as the second
/// leaves it, if the second changes the chip-select line at all, and as
/// the first left it otherwise. In particular two runs that each leave the
/// bus free leave it free together.
pub proof fn lemma_claimed_after_concat(first: Seq<SignalView>, second: Seq<SignalView>)
    ensures
        !claimed_after(first) && !claimed_after(second) ==> !claimed_after(first + second),
    decreases second.len(),
{
    if second.len() == 0 {
        assert(first + second =~= first);
    } else {
        let both = first + second;
        assert(both.last() == second.last());
        assert(both.drop_last() =~= first + second.drop_last());
        match second.last() {
            SignalView::ChipSelect(_) => {},
            _ => {
                lemma_claimed_after_concat(first, second.drop_last());
            },
        }
    }
}

/// A run that never touches the chip-select line leaves the bus free.
pub proof fn lemma_untouched_bus_is_free(performed: Seq<SignalView>)
    requires
        forall|i: int| 0 <= i < performed.len() ==> !(#[trigger] performed[i] is ChipSelect),
    ensures
        !claimed_after(performed),
    decreases performed.len(),
{
    if performed.len() > 0 {
        assert(performed.last() == performed[performed.len() - 1]);
        let shorter = performed.drop_last();
        assert forall|i: int| 0 <= i < shorter.len() implies !(#[trigger] shorter[i]
            is ChipSelect) by {
            assert(shorter[i] == performed[i]);
        }
        lemma_untouched_bus_is_free(shorter);
    }
}

/// Every frame the transport builds leaves the bus free.
pub proof fn lemma_frames_leave_bus_free(data: Seq<u8>, count: nat)
    ensures
        !claimed_after(crate::hardware::spi::write_frame(data)),
        !claimed_after(crate::hardware::spi::read_frame(count)),
        !claimed_after(crate::hardware::spi::transfer_frame(data)),
{
    assert(crate::hardware::spi::write_frame(data).last() == SignalView::ChipSelect(Level::High));
    assert(crate::hardware::spi::read_frame(count).last() == SignalView::ChipSelect(Level::High));
    assert(crate::hardware::spi::transfer_frame(data).last() == SignalView::ChipSelect(
        Level::High,
    ));
}

/// A failed write inside its frame: of the frame's four signals the claim
/// and the write have been performed, the flush is skipped, and the release
/// is performed next.
pub proof fn lemma_failed_write_skips_flush(data: Seq<u8>)
    ensures
        step(
            crate::hardware::spi::write_frame(data),
            Progress { position: 1, failure: None },
            false,
        ) == (Progress {
            position: 3,
            failure: Some(SpiError::WriteFailed("Failed to write data to SPI bus")),
        }),
{
    let script = crate::hardware::spi::write_frame(data);
    assert(script[1] == SignalView::Write(data));
    assert(!is_release(script[2]));
    assert(is_release(script[3]));
    assert(release_from(script, 3) == 3);
    assert(release_from(script, 2) == 3);
}

/// While nothing fails the playback walks the script signal by signal.
pub proof fn lemma_success_moves_on(script: Seq<SignalView>, position: int)
    requires
        0 <= position < script.len(),
    ensures
        step(script, Progress { position, failure: None }, true) == (Progress {
            position: position + 1,
            failure: None,
        }),
{
}

/// A script being played.
pub struct Playback {
    script: Vec<Signal>,
    position: usize,
    failure: Option<Failed>,
}

impl Playback {
    /// The script, as given.
    pub closed spec fn script(&self) -> Seq<SignalView> {
        trace(self.script@)
    }

    /// Where the playback stands.
    pub closed spec fn progress(&self) -> Progress {
        Progress {
            position: self.position as int,
            failure: match self.failure {
                Some(kind) => Some(kind.error()),
                None => None,
            },
        }
    }

    /// The position never passes the end of the script.
    pub closed spec fn wf(&self) -> bool {
        self.position <= self.script@.len()
    }

    /// Whether every signal that will be performed has been.
    pub open spec fn over(&self) -> bool {
        self.progress().position >= self.script().len()
    }

    /// A playback at the start of `script`.
    pub fn new(script: Vec<Signal>) -> (playback: Self)
        ensures
            playback.wf(),
            playback.script() == trace(script@),
            playback.progress() == (Progress { position: 0, failure: None }),
    {
        Self { script, position: 0, failure: None }
    }

    /// The signal to perform next; `None` when the playback is over.
    pub fn pending(&self) -> (signal: Option<&Signal>)
        requires
            self.wf(),
        ensures
            self.over() <==> signal is None,
            !self.over() ==> signal->Some_0@ == self.script()[self.progress().position],
    {
        if self.position < self.script.len() {
            Some(&self.script[self.position])
        } else {
            None
        }
    }

    /// Takes the outcome of the pending signal and moves on.
    pub fn complete(&mut self, succeeded: bool)
        requires
            old(self).wf(),
            !old(self).over(),
        ensures
            final(self).wf(),
            final(self).script() == old(self).script(),
            final(self).progress() == step(old(self).script(), old(self).progress(), succeeded),
    {
        let position: usize = self.position;
        let length: usize = self.script.len();
        if self.failure.is_some() {
            self.position = length;
            return ;
        }
        let failed: Option<Failed> = if succeeded {
            None
        } else {
            match &self.script[position] {
                Signal::Write(_) => Some(Failed::Write),
                Signal::Read(_) => Some(Failed::Read),
                Signal::Transfer(_) => Some(Failed::Transfer),
                _ => None,
            }
        };
        match failed {
            None => {
                self.position = position + 1;
            },
            Some(error) => {
                let ghost start = position as int + 1;
                let mut next: usize = position + 1;
                while next < length && !is_release_signal(&self.script[next])
                    invariant
                        length == self.script@.len(),
                        start <= next <= self.script@.len(),
                        self.script == old(self).script,
                        release_from(trace(self.script@), start) == release_from(
                            trace(self.script@),
                            next as int,
                        ),
                    decreases self.script@.len() - next,
                {
                    next += 1;
                }
                self.position = next;
                self.failure = Some(error);
            },
        }
    }

    /// How the playback ended: the first failure, if there was one.
    pub fn outcome(&self) -> (result: Result<(), SpiError>)
        ensures
            self.progress().failure matches Some(error) ==> result == Err::<(), SpiError>(error),
            self.progress().failure is None ==> result is Ok,
    {
        match self.failure {
            Some(Failed::Write) => Err(SpiError::write_failed("Failed to write data to SPI bus")),
            Some(Failed::Read) => Err(SpiError::read_failed("Failed to read data from SPI bus")),
            Some(Failed::Transfer) => Err(
                SpiError::transfer_failed("Failed to read data from SPI bus"),
            ),
            None => Ok(()),
        }
    }
}

/// Whether a signal releases the chip-select line.
fn is_release_signal(signal: &Signal) -> (release: bool)
    ensures
        release == is_release(signal@),
{
    match signal {
        Signal::ChipSelect(Level::High) => true,
        _ => false,
    }
}

} // verus!
