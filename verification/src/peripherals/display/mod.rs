//! The panel driver: command protocol, addressing windows and the
//! framebuffer.

pub mod commands;
pub mod config;
pub mod error;
pub mod frame;
pub mod graphics;

use crate::hardware::playback::{
    claimed_after, lemma_claimed_after_concat, lemma_frames_leave_bus_free,
    lemma_untouched_bus_is_free,
};
use crate::hardware::signal::{
    lemma_trace_concat, lemma_trace_push, trace, Level, Signal, SignalView,
};
use crate::hardware::spi::{write_frame, SpiInterface};
use crate::peripherals::display::config::{
    config, init_table, payloads_present, table_view, Operation, OperationView,
};
use crate::peripherals::display::error::DisplayError;
use crate::peripherals::display::frame::{
    bytes_of, frame_of, lemma_bytes_of_frame, lemma_store_pixel, pixel_index, solid_frame,
};
use crate::peripherals::display::graphics::color::Color;
use vstd::prelude::*;

verus! {

/// Panel width in pixels.
pub const DISPLAY_WIDTH: u16 = 240;

/// Panel height in pixels.
pub const DISPLAY_HEIGHT: u16 = 240;

/// Bytes in the framebuffer: two per pixel.
pub const BUFFER_SIZE: usize = 115200;

/// The signals that send one command byte: select command mode, then a
/// framed write of the byte.
pub open spec fn command_signals(command: u8) -> Seq<SignalView> {
    seq![SignalView::DataCommand(Level::Low)] + write_frame(seq![command])
}

/// The signals that send a payload: select data mode, then a framed write.
pub open spec fn data_signals(data: Seq<u8>) -> Seq<SignalView> {
    seq![SignalView::DataCommand(Level::High)] + write_frame(data)
}

/// Two 16-bit coordinates as four bytes, each high byte first.
pub open spec fn window_bytes(first: u16, last: u16) -> Seq<u8> {
    seq![(first / 256) as u8, (first % 256) as u8, (last / 256) as u8, (last % 256) as u8]
}

/// The four bytes of a window spell its two coordinates, high byte first.
pub proof fn lemma_window_bytes_spell(first: u16, last: u16)
    ensures
        window_bytes(first, last).len() == 4,
        window_bytes(first, last)[0] * 256 + window_bytes(first, last)[1] == first,
        window_bytes(first, last)[2] * 256 + window_bytes(first, last)[3] == last,
{
}

/// The signals that set the addressing window to the rectangle from
/// `(x1, y1)` to `(x2, y2)` and arm the panel for pixel data: the column
/// command with its four bytes, the row command with its four bytes, and the
/// memory-write command.
pub open spec fn window_signals(x1: u16, y1: u16, x2: u16, y2: u16) -> Seq<SignalView> {
    command_signals(commands::CASET) + data_signals(window_bytes(x1, x2)) + command_signals(
        commands::RASET,
    ) + data_signals(window_bytes(y1, y2)) + command_signals(commands::RAMWR)
}

/// Why a window is refused, if it is. Corners out of order are reported as
/// given. A corner outside the panel is reported in `x1`, `y1`, with the
/// panel's width and height in `x2`, `y2`; the first corner is looked at
/// before the second.
pub open spec fn window_fault(x1: u16, y1: u16, x2: u16, y2: u16) -> Option<DisplayError> {
    if x1 > x2 || y1 > y2 {
        Some(DisplayError::OutOfBounds { x1, y1, x2, y2 })
    } else if x1 >= DISPLAY_WIDTH || y1 >= DISPLAY_HEIGHT {
        Some(DisplayError::OutOfBounds { x1, y1, x2: DISPLAY_WIDTH, y2: DISPLAY_HEIGHT })
    } else if x2 >= DISPLAY_WIDTH || y2 >= DISPLAY_HEIGHT {
        Some(DisplayError::OutOfBounds { x1: x2, y1: y2, x2: DISPLAY_WIDTH, y2: DISPLAY_HEIGHT })
    } else {
        None
    }
}

/// A window is valid when its corners are in order and inside the panel.
pub open spec fn window_valid(x1: u16, y1: u16, x2: u16, y2: u16) -> bool {
    x1 <= x2 < DISPLAY_WIDTH && y1 <= y2 < DISPLAY_HEIGHT
}

/// A window is refused exactly when it is not valid.
pub proof fn lemma_window_fault_iff_invalid(x1: u16, y1: u16, x2: u16, y2: u16)
    ensures
        window_fault(x1, y1, x2, y2) is None <==> window_valid(x1, y1, x2, y2),
        window_fault(x1, y1, x2, y2) is Some ==> window_fault(x1, y1, x2, y2)->Some_0
            is OutOfBounds,
{
}

/// The high byte of a 16-bit value.
pub(crate) fn high_byte(value: u16) -> (byte: u8)
    ensures
        byte == value / 256,
{
    assert((value >> 8) == value / 256 && (value >> 8) < 256) by (bit_vector);
    (value >> 8) as u8
}

/// The low byte of a 16-bit value.
pub(crate) fn low_byte(value: u16) -> (byte: u8)
    ensures
        byte == value % 256,
{
    assert((value & 0xFF) == value % 256 && (value & 0xFF) < 256) by (bit_vector);
    (value & 0xFF) as u8
}

/// What a display is set up with.
#[derive(Debug, Clone, Copy, PartialEq, Eq)]
pub struct Settings {
    /// The bus transport the display writes through.
    pub transport: SpiInterface,
    /// The pause, in milliseconds, between the two commands of a sleep and
    /// of a wake. Zero, the default, puts no pause there; a panel that
    /// needs time to settle between the two may misbehave without one.
    pub settle_millis: u64,
}

/// Fills a frame's worth of bytes with one packed colour: for every pixel
/// the colour's high byte, then its low byte.
pub(crate) fn fill_solid(buffer: &mut Vec<u8>, packed: u16)
    requires
        old(buffer)@.len() == BUFFER_SIZE,
    ensures
        final(buffer)@ == bytes_of(solid_frame(packed)),
{
    let high: u8 = high_byte(packed);
    let low: u8 = low_byte(packed);
    let mut i: usize = 0;
    while i < BUFFER_SIZE / 2
        invariant
            i <= BUFFER_SIZE / 2,
            buffer@.len() == BUFFER_SIZE,
            high == packed / 256,
            low == packed % 256,
            forall|j: int|
                0 <= j < 2 * i ==> #[trigger] buffer@[j] == (if j % 2 == 0 {
                    high
                } else {
                    low
                }),
        decreases BUFFER_SIZE / 2 - i,
    {
        buffer.set(i * 2, high);
        buffer.set(i * 2 + 1, low);
        i += 1;
    }
    assert(buffer@ =~= bytes_of(solid_frame(packed)));
}

/// The display: a framebuffer and the outbox of signals still to be
/// performed on the hardware.
pub struct Display {
    settings: Settings,
    buffer: Vec<u8>,
    outbox: Vec<Signal>,
    asleep: bool,
}

/// What an operation is refused with when it would send pixels to a panel
/// that has been put to sleep.
pub const ASLEEP: &'static str = "Display is asleep";

impl Display {
    /// The framebuffer holds exactly one frame. Every constructor
    /// establishes this and every method keeps it.
    pub open spec fn wf(&self) -> bool {
        self.bytes().len() == BUFFER_SIZE
    }

    /// The framebuffer's bytes: two per pixel, high byte first, rows from
    /// the top, pixels from the left.
    pub closed spec fn bytes(&self) -> Seq<u8> {
        self.buffer@
    }

    /// The frame the buffer holds: one packed colour per pixel.
    pub open spec fn frame(&self) -> Seq<u16> {
        frame_of(self.bytes())
    }

    /// The signals queued for the hardware, oldest first.
    pub closed spec fn wire(&self) -> Seq<SignalView> {
        trace(self.outbox@)
    }

    /// Whether the panel has been put to sleep and not woken since. A
    /// sleeping panel takes commands; operations that would send it pixels
    /// are refused until it is woken.
    pub closed spec fn asleep(&self) -> bool {
        self.asleep
    }

    /// What the display is set up with.
    pub closed spec fn settings(&self) -> Settings {
        self.settings
    }

    /// A display with an all-zero framebuffer, nothing queued and no
    /// settling pause.
    pub fn new(spi: SpiInterface) -> (display: Self)
        ensures
            display.wf(),
            !display.asleep(),
            display.settings() == (Settings { transport: spi, settle_millis: 0 }),
            display.wire() == Seq::<SignalView>::empty(),
            display.bytes() == Seq::new(BUFFER_SIZE as nat, |i: int| 0u8),
    {
        let buffer: Vec<u8> = vec![0u8; BUFFER_SIZE];
        let settings = Settings { transport: spi, settle_millis: 0 };
        let display = Self { settings, buffer, outbox: Vec::new(), asleep: false };
        assert(display.bytes() =~= Seq::new(BUFFER_SIZE as nat, |i: int| 0u8));
        assert(display.wire() =~= Seq::<SignalView>::empty());
        display
    }

    /// Sets the pause between the two commands of a sleep and of a wake.
    pub fn set_settle_delay(&mut self, millis: u64)
        ensures
            final(self).settings() == (Settings { settle_millis: millis, ..old(self).settings() }),
            final(self).wire() == old(self).wire(),
            final(self).bytes() == old(self).bytes(),
            final(self).asleep() == old(self).asleep(),
    {
        self.settings.settle_millis = millis;
    }

    /// What the display is set up with.
    pub fn configuration(&self) -> (settings: Settings)
        ensures
            settings == self.settings(),
    {
        self.settings
    }

    /// Queues everything that brings the panel up: the hardware reset, then
    /// the whole initialisation table in its order.
    pub fn begin(&mut self) -> (result: Result<(), DisplayError>)
        ensures
            result is Ok,
            final(self).wire() == old(self).wire() + reset_signals() + table_signals(init_table()),
            final(self).bytes() == old(self).bytes(),
            final(self).settings() == old(self).settings(),
            !final(self).asleep(),
    {
        self.hardware_reset();
        self.initialize_display()?;
        self.asleep = false;
        Ok(())
    }

    /// Queues the reset pulse with its settling pauses.
    fn hardware_reset(&mut self)
        ensures
            final(self).wire() == old(self).wire() + reset_signals(),
            final(self).bytes() == old(self).bytes(),
            final(self).settings() == old(self).settings(),
            final(self).asleep() == old(self).asleep(),
    {
        self.queue(Signal::ResetLine(Level::High));
        self.queue(Signal::Delay(10));
        self.queue(Signal::ResetLine(Level::Low));
        self.queue(Signal::Delay(120));
        self.queue(Signal::ResetLine(Level::High));
        self.queue(Signal::Delay(120));
        assert(final(self).wire() =~= old(self).wire() + reset_signals());
    }

    /// Queues the settling pause, if one is set.
    fn settle(&mut self)
        ensures
            final(self).wire() == old(self).wire() + pause_signals(
                old(self).settings().settle_millis,
            ),
            final(self).bytes() == old(self).bytes(),
            final(self).settings() == old(self).settings(),
            final(self).asleep() == old(self).asleep(),
    {
        if self.settings.settle_millis > 0 {
            self.queue(Signal::Delay(self.settings.settle_millis));
        }
        assert(final(self).wire() =~= old(self).wire() + pause_signals(
            old(self).settings().settle_millis,
        ));
    }

    /// Queues one signal.
    fn queue(&mut self, signal: Signal)
        ensures
            final(self).wire() == old(self).wire().push(signal@),
            final(self).bytes() == old(self).bytes(),
            final(self).settings() == old(self).settings(),
            final(self).asleep() == old(self).asleep(),
    {
        proof {
            lemma_trace_push(self.outbox@, signal);
        }
        self.outbox.push(signal);
    }

    /// Queues the initialisation table, entry by entry.
    fn initialize_display(&mut self) -> (result: Result<(), DisplayError>)
        ensures
            result is Ok,
            final(self).wire() == old(self).wire() + table_signals(init_table()),
            final(self).bytes() == old(self).bytes(),
            final(self).settings() == old(self).settings(),
            final(self).asleep() == old(self).asleep(),
    {
        let table = config();
        let mut i: usize = 0;
        while i < table.len()
            invariant
                i <= table@.len(),
                table_view(table@) == init_table(),
                payloads_present(table_view(table@)),
                self.wire() == old(self).wire() + table_signals(table_view(table@).take(i as int)),
                self.bytes() == old(self).bytes(),
                self.settings() == old(self).settings(),
                self.asleep() == old(self).asleep(),
            decreases table@.len() - i,
        {
            proof {
                let done = table_view(table@).take(i + 1);
                assert(done.drop_last() =~= table_view(table@).take(i as int));
                assert(done.last() == table@[i as int]@);
                assert(table_view(table@)[i as int] == table@[i as int]@);
            }
            match &table[i] {
                Operation::Command(command) => {
                    self.write_command(*command)?;
                },
                Operation::Data(data) => {
                    self.write_data(data.as_slice())?;
                },
                Operation::Delay(delay) => {
                    self.queue(Signal::Delay(*delay));
                },
            }
            assert(self.wire() =~= old(self).wire() + table_signals(
                table_view(table@).take(i + 1),
            ));
            i += 1;
        }
        assert(table_view(table@).take(table@.len() as int) =~= table_view(table@));
        Ok(())
    }

    /// Queues a command byte.
    pub(crate) fn write_command(&mut self, command: u8) -> (result: Result<(), DisplayError>)
        ensures
            result is Ok,
            final(self).wire() == old(self).wire() + command_signals(command),
            final(self).bytes() == old(self).bytes(),
            final(self).settings() == old(self).settings(),
            final(self).asleep() == old(self).asleep(),
    {
        let one: [u8; 1] = [command];
        assert(one@ =~= seq![command]);
        let result = self.write_mode(Level::Low, one.as_slice());
        assert(final(self).wire() =~= old(self).wire() + command_signals(command));
        result
    }

    /// Queues a payload. The data line is driven high before the transport
    /// looks at the payload, so an empty payload leaves that one signal
    /// behind and is refused by the transport.
    pub fn write_data(&mut self, data: &[u8]) -> (result: Result<(), DisplayError>)
        ensures
            data@.len() > 0 ==> result is Ok && final(self).wire() == old(self).wire()
                + data_signals(data@),
            data@.len() == 0 ==> result == Err::<(), DisplayError>(
                DisplayError::Spi(
                    crate::hardware::error::SpiError::InvalidParameters(
                        "Write data buffer cannot be empty",
                    ),
                ),
            ) && final(self).wire() == old(self).wire().push(SignalView::DataCommand(Level::High)),
            final(self).bytes() == old(self).bytes(),
            final(self).settings() == old(self).settings(),
            final(self).asleep() == old(self).asleep(),
    {
        let result = self.write_mode(Level::High, data);
        assert(data@.len() > 0 ==> final(self).wire() =~= old(self).wire() + data_signals(data@));
        result
    }

    /// Sets the addressing window and arms the panel for pixel data. A
    /// window that is out of order or reaches outside the panel is refused
    /// before anything is queued.
    pub fn set_frame(&mut self, x1: u16, y1: u16, x2: u16, y2: u16) -> (result: Result<
        (),
        DisplayError,
    >)
        ensures
            window_valid(x1, y1, x2, y2) ==> result is Ok,
            window_valid(x1, y1, x2, y2) ==> final(self).wire() == old(self).wire()
                + window_signals(x1, y1, x2, y2),
            !window_valid(x1, y1, x2, y2) ==> window_fault(x1, y1, x2, y2) is Some,
            !window_valid(x1, y1, x2, y2) ==> result == Err::<(), DisplayError>(
                window_fault(x1, y1, x2, y2)->Some_0,
            ),
            !window_valid(x1, y1, x2, y2) ==> final(self).wire() == old(self).wire(),
            final(self).bytes() == old(self).bytes(),
            final(self).settings() == old(self).settings(),
            final(self).asleep() == old(self).asleep(),
    {
        if x1 > x2 || y1 > y2 {
            return Err(DisplayError::OutOfBounds { x1, y1, x2, y2 });
        }
        if x1 >= DISPLAY_WIDTH || y1 >= DISPLAY_HEIGHT {
            return Err(
                DisplayError::OutOfBounds { x1, y1, x2: DISPLAY_WIDTH, y2: DISPLAY_HEIGHT },
            );
        }
        if x2 >= DISPLAY_WIDTH || y2 >= DISPLAY_HEIGHT {
            return Err(
                DisplayError::OutOfBounds {
                    x1: x2,
                    y1: y2,
                    x2: DISPLAY_WIDTH,
                    y2: DISPLAY_HEIGHT,
                },
            );
        }
        self.write_command(commands::CASET)?;
        let columns: [u8; 4] = [high_byte(x1), low_byte(x1), high_byte(x2), low_byte(x2)];
        assert(columns@ =~= window_bytes(x1, x2));
        self.write_data(columns.as_slice())?;

        self.write_command(commands::RASET)?;
        let rows: [u8; 4] = [high_byte(y1), low_byte(y1), high_byte(y2), low_byte(y2)];
        assert(rows@ =~= window_bytes(y1, y2));
        self.write_data(rows.as_slice())?;

        self.write_command(commands::RAMWR)?;
        assert(final(self).wire() =~= old(self).wire() + window_signals(x1, y1, x2, y2));
        Ok(())
    }

    /// Drives the data/command line to `mode`, then queues a framed write.
    fn write_mode(&mut self, mode: Level, data: &[u8]) -> (result: Result<(), DisplayError>)
        ensures
            data@.len() > 0 ==> result is Ok && final(self).wire() == old(self).wire()
                + seq![SignalView::DataCommand(mode)] + write_frame(data@),
            data@.len() == 0 ==> result == Err::<(), DisplayError>(
                DisplayError::Spi(
                    crate::hardware::error::SpiError::InvalidParameters(
                        "Write data buffer cannot be empty",
                    ),
                ),
            ) && final(self).wire() == old(self).wire().push(SignalView::DataCommand(mode)),
            final(self).bytes() == old(self).bytes(),
            final(self).settings() == old(self).settings(),
            final(self).asleep() == old(self).asleep(),
    {
        queue_write(&mut self.outbox, &self.settings.transport, mode, data)
    }

    /// The panel's size in pixels: width, then height.
    pub fn size(&self) -> (size: (u32, u32))
        ensures
            size == (DISPLAY_WIDTH as u32, DISPLAY_HEIGHT as u32),
    {
        (DISPLAY_WIDTH as u32, DISPLAY_HEIGHT as u32)
    }

    /// Whether the panel has been put to sleep and not woken since.
    pub fn is_asleep(&self) -> (asleep: bool)
        ensures
            asleep == self.asleep(),
    {
        self.asleep
    }

    /// The framebuffer's bytes.
    pub fn buffer(&self) -> (bytes: &[u8])
        ensures
            bytes@ == self.bytes(),
    {
        self.buffer.as_slice()
    }

    /// The packed colour of pixel `(x, y)` in the framebuffer.
    pub fn pixel(&self, x: u16, y: u16) -> (color: u16)
        requires
            self.wf(),
            x < DISPLAY_WIDTH,
            y < DISPLAY_HEIGHT,
        ensures
            color == self.frame()[pixel_index(x as int, y as int)],
    {
        assert((y as usize) * (DISPLAY_WIDTH as usize) == y * 240) by (nonlinear_arith)
            requires
                DISPLAY_WIDTH == 240,
        ;
        let index: usize = ((y as usize) * (DISPLAY_WIDTH as usize) + (x as usize)) * 2;
        let high: u16 = self.buffer[index] as u16;
        let low: u16 = self.buffer[index + 1] as u16;
        high * 256 + low
    }

    /// Hands over everything queued, oldest first, and leaves the outbox
    /// empty.
    pub fn take_signals(&mut self) -> (signals: Vec<Signal>)
        ensures
            trace(signals@) == old(self).wire(),
            final(self).wire() == Seq::<SignalView>::empty(),
            final(self).bytes() == old(self).bytes(),
            final(self).settings() == old(self).settings(),
            final(self).asleep() == old(self).asleep(),
    {
        let mut signals: Vec<Signal> = Vec::new();
        core::mem::swap(&mut signals, &mut self.outbox);
        assert(final(self).wire() =~= Seq::<SignalView>::empty());
        signals
    }

    /// Stores a packed colour at pixel `(x, y)` of the framebuffer. The
    /// pixel has to be on the panel.
    pub fn set_pixel(&mut self, x: u16, y: u16, color: u16)
        requires
            old(self).wf(),
            x < DISPLAY_WIDTH,
            y < DISPLAY_HEIGHT,
        ensures
            final(self).wf(),
            final(self).frame() == old(self).frame().update(pixel_index(x as int, y as int), color),
            final(self).wire() == old(self).wire(),
            final(self).settings() == old(self).settings(),
            final(self).asleep() == old(self).asleep(),
    {
        assert((y as usize) * (DISPLAY_WIDTH as usize) == y * 240) by (nonlinear_arith)
            requires
                DISPLAY_WIDTH == 240,
        ;
        let index: usize = ((y as usize) * (DISPLAY_WIDTH as usize) + (x as usize)) * 2;
        proof {
            lemma_store_pixel(self.buffer@, pixel_index(x as int, y as int), color);
        }
        self.buffer.set(index, high_byte(color));
        self.buffer.set(index + 1, low_byte(color));
    }

    /// Fills the framebuffer with one colour.
    pub fn clear(&mut self, color: Color)
        requires
            old(self).wf(),
        ensures
            final(self).wf(),
            final(self).frame() == solid_frame(color.packed()),
            final(self).wire() == old(self).wire(),
            final(self).settings() == old(self).settings(),
            final(self).asleep() == old(self).asleep(),
    {
        let packed: u16 = color.into();
        fill_solid(&mut self.buffer, packed);
        proof {
            crate::peripherals::display::frame::lemma_frame_of_bytes(solid_frame(packed));
        }
    }

    /// Queues the whole framebuffer for the panel: the full-panel window,
    /// then every byte of the buffer as one payload. A sleeping panel is
    /// sent nothing.
    pub fn render(&mut self) -> (result: Result<(), DisplayError>)
        requires
            old(self).wf(),
        ensures
            !old(self).asleep() ==> result is Ok,
            !old(self).asleep() ==> final(self).wire() == old(self).wire() + render_signals(
                old(self).bytes(),
            ),
            old(self).asleep() ==> result == Err::<(), DisplayError>(
                DisplayError::InvalidOperation(ASLEEP),
            ),
            old(self).asleep() ==> final(self).wire() == old(self).wire(),
            final(self).bytes() == old(self).bytes(),
            final(self).settings() == old(self).settings(),
            final(self).asleep() == old(self).asleep(),
    {
        if self.asleep {
            return Err(DisplayError::InvalidOperation(ASLEEP));
        }
        self.set_frame(0, 0, DISPLAY_WIDTH - 1, DISPLAY_HEIGHT - 1)?;
        let result = queue_write(
            &mut self.outbox,
            &self.settings.transport,
            Level::High,
            self.buffer.as_slice(),
        );
        assert(final(self).wire() =~= old(self).wire() + render_signals(old(self).bytes()));
        result
    }

    /// Queues the two commands that blank the panel and put it to sleep,
    /// with the settling pause between them if one is set.
    pub fn sleep(&mut self) -> (result: Result<(), DisplayError>)
        ensures
            result is Ok,
            final(self).wire() == old(self).wire() + sleep_signals(
                old(self).settings().settle_millis,
            ),
            final(self).bytes() == old(self).bytes(),
            final(self).settings() == old(self).settings(),
            final(self).asleep(),
    {
        self.write_command(commands::DISPOFF)?;
        self.settle();
        self.write_command(commands::SLPIN)?;
        self.asleep = true;
        assert(final(self).wire() =~= old(self).wire() + sleep_signals(
            old(self).settings().settle_millis,
        ));
        Ok(())
    }

    /// Queues the two commands that wake the panel and light it, with the
    /// settling pause between them if one is set.
    pub fn wake(&mut self) -> (result: Result<(), DisplayError>)
        ensures
            result is Ok,
            final(self).wire() == old(self).wire() + wake_signals(
                old(self).settings().settle_millis,
            ),
            final(self).bytes() == old(self).bytes(),
            final(self).settings() == old(self).settings(),
            !final(self).asleep(),
    {
        self.write_command(commands::SLPOUT)?;
        self.settle();
        self.write_command(commands::DISPON)?;
        self.asleep = false;
        assert(final(self).wire() =~= old(self).wire() + wake_signals(
            old(self).settings().settle_millis,
        ));
        Ok(())
    }
}

/// The signals of a hardware reset: the reset line high for 10 ms, low for
/// 120 ms, high again for 120 ms.
pub open spec fn reset_signals() -> Seq<SignalView> {
    seq![
        SignalView::ResetLine(Level::High),
        SignalView::Delay(10),
        SignalView::ResetLine(Level::Low),
        SignalView::Delay(120),
        SignalView::ResetLine(Level::High),
        SignalView::Delay(120),
    ]
}

/// The signals of one table entry: a command byte under command mode, a
/// payload under data mode, or a pause.
pub open spec fn operation_signals(operation: OperationView) -> Seq<SignalView> {
    match operation {
        OperationView::Command(command) => command_signals(command),
        OperationView::Data(bytes) => data_signals(bytes),
        OperationView::Delay(millis) => seq![SignalView::Delay(millis)],
    }
}

/// The signals of a table: those of its entries, in the table's order.
pub open spec fn table_signals(table: Seq<OperationView>) -> Seq<SignalView>
    decreases table.len(),
{
    if table.len() == 0 {
        Seq::empty()
    } else {
        table_signals(table.drop_last()) + operation_signals(table.last())
    }
}

/// The signals of a render: the window that covers the whole panel, then
/// the frame's bytes as a single payload.
pub open spec fn render_signals(bytes: Seq<u8>) -> Seq<SignalView> {
    window_signals(0, 0, (DISPLAY_WIDTH - 1) as u16, (DISPLAY_HEIGHT - 1) as u16) + data_signals(
        bytes,
    )
}

/// A pause of `millis` milliseconds; nothing at all for zero.
pub open spec fn pause_signals(millis: u64) -> Seq<SignalView> {
    if millis == 0 {
        Seq::empty()
    } else {
        seq![SignalView::Delay(millis)]
    }
}

/// Display off, the settling pause, sleep in.
pub open spec fn sleep_signals(settle_millis: u64) -> Seq<SignalView> {
    command_signals(commands::DISPOFF) + pause_signals(settle_millis) + command_signals(
        commands::SLPIN,
    )
}

/// Sleep out, the settling pause, display on.
pub open spec fn wake_signals(settle_millis: u64) -> Seq<SignalView> {
    command_signals(commands::SLPOUT) + pause_signals(settle_millis) + command_signals(
        commands::DISPON,
    )
}

/// A command and a payload each leave the bus free.
pub proof fn lemma_writes_leave_bus_free(command: u8, data: Seq<u8>)
    ensures
        !claimed_after(command_signals(command)),
        !claimed_after(data_signals(data)),
{
    lemma_frames_leave_bus_free(seq![command], 0);
    lemma_frames_leave_bus_free(data, 0);
    lemma_untouched_bus_is_free(seq![SignalView::DataCommand(Level::Low)]);
    lemma_untouched_bus_is_free(seq![SignalView::DataCommand(Level::High)]);
    lemma_claimed_after_concat(
        seq![SignalView::DataCommand(Level::Low)],
        write_frame(seq![command]),
    );
    lemma_claimed_after_concat(seq![SignalView::DataCommand(Level::High)], write_frame(data));
}

/// Setting a window leaves the bus free.
pub proof fn lemma_window_leaves_bus_free(x1: u16, y1: u16, x2: u16, y2: u16)
    ensures
        !claimed_after(window_signals(x1, y1, x2, y2)),
{
    let column_command = command_signals(commands::CASET);
    let columns = data_signals(window_bytes(x1, x2));
    let row_command = command_signals(commands::RASET);
    let rows = data_signals(window_bytes(y1, y2));
    let write_command = command_signals(commands::RAMWR);
    lemma_writes_leave_bus_free(commands::CASET, window_bytes(x1, x2));
    lemma_writes_leave_bus_free(commands::RASET, window_bytes(y1, y2));
    lemma_writes_leave_bus_free(commands::RAMWR, window_bytes(y1, y2));
    lemma_claimed_after_concat(column_command, columns);
    lemma_claimed_after_concat(column_command + columns, row_command);
    lemma_claimed_after_concat(column_command + columns + row_command, rows);
    lemma_claimed_after_concat(column_command + columns + row_command + rows, write_command);
}

/// Rendering, sleeping, waking and resetting each leave the bus free.
pub proof fn lemma_protocol_leaves_bus_free(bytes: Seq<u8>, settle_millis: u64)
    ensures
        !claimed_after(render_signals(bytes)),
        !claimed_after(sleep_signals(settle_millis)),
        !claimed_after(wake_signals(settle_millis)),
        !claimed_after(reset_signals()),
{
    lemma_window_leaves_bus_free(0, 0, (DISPLAY_WIDTH - 1) as u16, (DISPLAY_HEIGHT - 1) as u16);
    lemma_writes_leave_bus_free(commands::DISPOFF, bytes);
    lemma_writes_leave_bus_free(commands::SLPIN, bytes);
    lemma_writes_leave_bus_free(commands::SLPOUT, bytes);
    lemma_writes_leave_bus_free(commands::DISPON, bytes);
    lemma_claimed_after_concat(
        window_signals(0, 0, (DISPLAY_WIDTH - 1) as u16, (DISPLAY_HEIGHT - 1) as u16),
        data_signals(bytes),
    );
    lemma_untouched_bus_is_free(pause_signals(settle_millis));
    lemma_claimed_after_concat(command_signals(commands::DISPOFF), pause_signals(settle_millis));
    lemma_claimed_after_concat(
        command_signals(commands::DISPOFF) + pause_signals(settle_millis),
        command_signals(commands::SLPIN),
    );
    lemma_claimed_after_concat(command_signals(commands::SLPOUT), pause_signals(settle_millis));
    lemma_claimed_after_concat(
        command_signals(commands::SLPOUT) + pause_signals(settle_millis),
        command_signals(commands::DISPON),
    );
    lemma_untouched_bus_is_free(reset_signals());
}

/// Playing a table leaves the bus free.
pub proof fn lemma_table_leaves_bus_free(table: Seq<OperationView>)
    ensures
        !claimed_after(table_signals(table)),
    decreases table.len(),
{
    if table.len() > 0 {
        lemma_table_leaves_bus_free(table.drop_last());
        match table.last() {
            OperationView::Command(command) => {
                lemma_writes_leave_bus_free(command, seq![]);
            },
            OperationView::Data(bytes) => {
                lemma_writes_leave_bus_free(0, bytes);
            },
            OperationView::Delay(millis) => {
                lemma_untouched_bus_is_free(seq![SignalView::Delay(millis)]);
            },
        }
        lemma_claimed_after_concat(
            table_signals(table.drop_last()),
            operation_signals(table.last()),
        );
    }
}

/// Clearing and then rendering, on a panel that is awake, sends the colour
/// and nothing else: after the full-panel window a single payload goes out,
/// and its bytes are the packed colour, high byte first, once for every
/// pixel of the panel.
pub proof fn lemma_clear_then_render(
    before: Display,
    cleared: Display,
    rendered: Display,
    color: Color,
)
    requires
        cleared.wf(),
        cleared.frame() == solid_frame(color.packed()),
        cleared.wire() == before.wire(),
        cleared.asleep() == before.asleep(),
        !before.asleep(),
        !cleared.asleep() ==> rendered.wire() == cleared.wire() + render_signals(cleared.bytes()),
    ensures
        rendered.wire() == before.wire() + window_signals(
            0,
            0,
            (DISPLAY_WIDTH - 1) as u16,
            (DISPLAY_HEIGHT - 1) as u16,
        ) + data_signals(bytes_of(solid_frame(color.packed()))),
        bytes_of(solid_frame(color.packed())).len() == 2 * (DISPLAY_WIDTH * DISPLAY_HEIGHT),
        forall|i: int|
            0 <= i < DISPLAY_WIDTH * DISPLAY_HEIGHT ==> #[trigger] bytes_of(
                solid_frame(color.packed()),
            )[2 * i] == color.packed() / 256 && bytes_of(solid_frame(color.packed()))[2 * i + 1]
                == color.packed() % 256,
{
    lemma_bytes_of_frame(cleared.bytes());
    assert(rendered.wire() =~= before.wire() + window_signals(
        0,
        0,
        (DISPLAY_WIDTH - 1) as u16,
        (DISPLAY_HEIGHT - 1) as u16,
    ) + data_signals(bytes_of(solid_frame(color.packed()))));
}

/// Drives the data/command line to `mode`, then queues a framed write of
/// `data` through the transport.
fn queue_write(outbox: &mut Vec<Signal>, spi: &SpiInterface, mode: Level, data: &[u8]) -> (result:
    Result<(), DisplayError>)
    ensures
        data@.len() > 0 ==> result is Ok && trace(final(outbox)@) == trace(old(outbox)@)
            + seq![SignalView::DataCommand(mode)] + write_frame(data@),
        data@.len() == 0 ==> result == Err::<(), DisplayError>(
            DisplayError::Spi(
                crate::hardware::error::SpiError::InvalidParameters(
                    "Write data buffer cannot be empty",
                ),
            ),
        ) && trace(final(outbox)@) == trace(old(outbox)@).push(SignalView::DataCommand(mode)),
{
    proof {
        lemma_trace_push(outbox@, Signal::DataCommand(mode));
    }
    outbox.push(Signal::DataCommand(mode));
    match spi.write(data) {
        Ok(mut frame) => {
            proof {
                lemma_trace_concat(outbox@, frame@);
            }
            outbox.append(&mut frame);
            assert(trace(final(outbox)@) =~= trace(old(outbox)@) + seq![
                SignalView::DataCommand(mode),
            ] + write_frame(data@));
            Ok(())
        },
        Err(error) => Err(DisplayError::from(error)),
    }
}

} // verus!
