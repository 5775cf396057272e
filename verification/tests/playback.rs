use smartknob::hardware::error::SpiError;
use smartknob::hardware::playback::Playback;
use smartknob::hardware::signal::{Level, Signal};
use smartknob::hardware::spi::SpiInterface;

/// Plays a script; the transfer with the running number `fail_at` fails.
fn play(script: Vec<Signal>, fail_at: Option<usize>) -> (Vec<Signal>, Result<(), SpiError>) {
    let mut playback = Playback::new(script);
    let mut performed = Vec::new();
    let mut transfers = 0;
    loop {
        let signal = match playback.pending() {
            Some(signal) => signal.clone(),
            None => break,
        };
        let moves_bytes =
            matches!(signal, Signal::Write(_) | Signal::Read(_) | Signal::Transfer(_));
        let succeeded = !(moves_bytes && fail_at == Some(transfers));
        if moves_bytes {
            transfers += 1;
        }
        performed.push(signal);
        playback.complete(succeeded);
    }
    (performed, playback.outcome())
}

fn two_writes() -> Vec<Signal> {
    let spi = SpiInterface::new(40).unwrap();
    let mut script = vec![Signal::DataCommand(Level::Low)];
    script.extend(spi.write(&[0x2A]).unwrap());
    script.push(Signal::DataCommand(Level::High));
    script.extend(spi.write(&[0, 1, 0, 2]).unwrap());
    script
}

#[test]
fn a_script_without_failures_is_performed_in_full() {
    let script = two_writes();
    let (performed, outcome) = play(script.clone(), None);
    assert_eq!(performed, script);
    assert_eq!(outcome, Ok(()));
}

#[test]
fn an_empty_script_is_over_at_once() {
    let playback = Playback::new(Vec::new());
    assert!(playback.pending().is_none());
    assert_eq!(playback.outcome(), Ok(()));
}

#[test]
fn a_failed_write_skips_the_flush_and_releases_the_bus() {
    let (performed, outcome) = play(two_writes(), Some(0));
    assert_eq!(
        performed,
        vec![
            Signal::DataCommand(Level::Low),
            Signal::ChipSelect(Level::Low),
            Signal::Write(vec![0x2A]),
            Signal::ChipSelect(Level::High),
        ]
    );
    assert_eq!(outcome, Err(SpiError::WriteFailed("Failed to write data to SPI bus")));
}

#[test]
fn a_failure_in_the_second_frame_stops_there() {
    let (performed, outcome) = play(two_writes(), Some(1));
    assert_eq!(performed.len(), 9);
    assert_eq!(performed[6], Signal::ChipSelect(Level::Low));
    assert_eq!(performed[7], Signal::Write(vec![0, 1, 0, 2]));
    assert_eq!(performed[8], Signal::ChipSelect(Level::High));
    assert_eq!(outcome, Err(SpiError::WriteFailed("Failed to write data to SPI bus")));
}

#[test]
fn failed_reads_and_transfers_are_reported_by_kind() {
    let spi = SpiInterface::new(10).unwrap();
    let (performed, outcome) = play(spi.read(3).unwrap(), Some(0));
    assert_eq!(performed.len(), 3);
    assert_eq!(performed[2], Signal::ChipSelect(Level::High));
    assert_eq!(outcome, Err(SpiError::ReadFailed("Failed to read data from SPI bus")));

    let (performed, outcome) = play(spi.transfer(1, &[7]).unwrap(), Some(0));
    assert_eq!(performed.len(), 3);
    assert_eq!(outcome, Err(SpiError::TransferFailed("Failed to read data from SPI bus")));
}

#[test]
fn how_a_flush_or_a_line_change_went_is_not_looked_at() {
    let script = two_writes();
    let mut playback = Playback::new(script.clone());
    let mut performed = 0;
    while let Some(signal) = playback.pending() {
        let moves_bytes = matches!(signal, Signal::Write(_));
        performed += 1;
        playback.complete(moves_bytes);
    }
    assert_eq!(performed, script.len());
    assert_eq!(playback.outcome(), Ok(()));
}

#[test]
fn a_failure_with_no_release_behind_it_ends_the_playback() {
    let script = vec![Signal::Write(vec![1]), Signal::Flush, Signal::Delay(5)];
    let (performed, outcome) = play(script, Some(0));
    assert_eq!(performed, vec![Signal::Write(vec![1])]);
    assert_eq!(outcome, Err(SpiError::WriteFailed("Failed to write data to SPI bus")));
}
