use smartknob::error::SmartknobError;
use smartknob::hardware::error::{HardwareError, SpiError};
use smartknob::peripherals::display::error::DisplayError;

#[test]
fn spi_errors_read_as_their_kind_and_message() {
    assert_eq!(
        SpiError::InvalidParameters("Write data buffer cannot be empty").to_string(),
        "Invalid SPI parameters: Write data buffer cannot be empty"
    );
    assert_eq!(SpiError::TransferFailed("x").to_string(), "SPI transfer failed: x");
    assert_eq!(SpiError::WriteFailed("y").to_string(), "SPI write failed: y");
    assert_eq!(SpiError::ReadFailed("z").to_string(), "SPI read failed: z");
    assert_eq!(
        SpiError::Config(String::from("FrequencyOutOfRange")).to_string(),
        "SPI configuration error: FrequencyOutOfRange"
    );
}

#[test]
fn hardware_errors_wrap_the_bus_error() {
    let error = HardwareError::from(SpiError::WriteFailed("Failed to write data to SPI bus"));
    assert_eq!(error, HardwareError::Spi(SpiError::WriteFailed("Failed to write data to SPI bus")));
    assert_eq!(error.to_string(), "SPI error: SPI write failed: Failed to write data to SPI bus");
}

#[test]
fn display_errors_read_as_their_kind_and_message() {
    assert_eq!(
        DisplayError::from(SpiError::ReadFailed("r")).to_string(),
        "SPI error in display: SPI read failed: r"
    );
    assert_eq!(
        DisplayError::InvalidOperation("asleep").to_string(),
        "Invalid display operation: asleep"
    );
}

#[test]
fn out_of_bounds_prints_its_coordinates_in_decimal() {
    assert_eq!(
        DisplayError::OutOfBounds { x1: 250, y1: 7, x2: 240, y2: 240 }.to_string(),
        "Coordinates out of bounds: (250, 7) >= (240, 240)"
    );
    assert_eq!(
        DisplayError::OutOfBounds { x1: 0, y1: 65535, x2: 10, y2: 100 }.to_string(),
        "Coordinates out of bounds: (0, 65535) >= (10, 100)"
    );
}

#[test]
fn top_level_errors_name_their_layer() {
    let hardware = SmartknobError::from(HardwareError::Spi(SpiError::WriteFailed("w")));
    assert_eq!(hardware.to_string(), "Hardware error: SPI error: SPI write failed: w");
    let display =
        SmartknobError::from(DisplayError::OutOfBounds { x1: 1, y1: 2, x2: 3, y2: 4 });
    assert_eq!(display, SmartknobError::Display(DisplayError::OutOfBounds { x1: 1, y1: 2, x2: 3, y2: 4 }));
    assert_eq!(
        display.to_string(),
        "Display error: Coordinates out of bounds: (1, 2) >= (3, 4)"
    );
}
