//! Protocol logic for the board's ST7796-compatible 480x320 SPI panel: which commands and
//! bytes go over the bus, in which order, and with which chip-select and data/command levels.
//! Driving the pins and the SPI peripheral is left to the caller.

use byte_slice_cast::AsByteSlice;
use vstd::prelude::*;

use crate::color::{rgb565_of, Color};
use crate::geometry::validity::Valid;
use crate::screen::DrawCommand;

pub mod command;
pub mod transfer;

use crate::lcd::transfer::{fill_steps, fill_window, PanelTransfer};

verus! {

/// Pixel format argument: 16 bits per pixel (RGB565).
pub const COLMOD_RGB565: u8 = 0x55;

/// Memory access argument: landscape orientation, mirrored, RGB order.
pub const MADCTL_WIDE_INVERTED_RGB: u8 = 0xE0;

/// Width of the panel in landscape orientation.
pub const PANEL_WIDTH: u16 = 480;

/// Height of the panel in landscape orientation.
pub const PANEL_HEIGHT: u16 = 320;

/// Why a rectangle cannot be drawn.
#[derive(Debug, Clone, Copy, PartialEq, Eq, Structural)]
pub enum Error {
    /// A rectangle with zero width or height was requested.
    EmptyRect,
    /// The rectangle's last column or row does not fit in a `u16`.
    CoordinatesOutOfRange,
}

/// A panel command byte and the data bytes sent after it, if any.
#[derive(Debug)]
pub struct PanelCommand {
    pub command: u8,
    pub data: Option<Vec<u8>>,
}

/// What a [`PanelCommand`] holds, with its data as a sequence.
pub struct PanelCommandView {
    pub command: u8,
    pub data: Option<Seq<u8>>,
}

impl View for PanelCommand {
    type V = PanelCommandView;

    open spec fn view(&self) -> PanelCommandView {
        PanelCommandView {
            command: self.command,
            data: match self.data {
                Some(d) => Some(d@),
                None => None,
            },
        }
    }
}

/// One step on the panel's bus.
#[derive(Debug)]
pub enum BusStep {
    /// Chip select low.
    Select,
    /// Chip select high.
    Deselect,
    /// Data/command line low: the next bytes are a command.
    CommandMode,
    /// Data/command line high: the next bytes are data.
    DataMode,
    /// Send these bytes over SPI.
    Send(Vec<u8>),
}

/// What a [`BusStep`] holds, with sent bytes as a sequence.
pub enum BusStepView {
    Select,
    Deselect,
    CommandMode,
    DataMode,
    Send(Seq<u8>),
}

impl View for BusStep {
    type V = BusStepView;

    open spec fn view(&self) -> BusStepView {
        match self {
            BusStep::Select => BusStepView::Select,
            BusStep::Deselect => BusStepView::Deselect,
            BusStep::CommandMode => BusStepView::CommandMode,
            BusStep::DataMode => BusStepView::DataMode,
            BusStep::Send(bytes) => BusStepView::Send(bytes@),
        }
    }
}

/// The views of a sequence of bus steps.
pub open spec fn steps_view(steps: Seq<BusStep>) -> Seq<BusStepView> {
    steps.map_values(|s: BusStep| s@)
}

/// The bus steps that send command `code` with its data bytes, if any: chip select low,
/// data/command low, the command byte, then data/command high and the data bytes, and
/// chip select high.
pub open spec fn command_steps(code: u8, data: Option<Seq<u8>>) -> Seq<BusStepView> {
    match data {
        Some(d) => seq![
            BusStepView::Select,
            BusStepView::CommandMode,
            BusStepView::Send(seq![code]),
            BusStepView::DataMode,
            BusStepView::Send(d),
            BusStepView::Deselect,
        ],
        None => seq![
            BusStepView::Select,
            BusStepView::CommandMode,
            BusStepView::Send(seq![code]),
            BusStepView::Deselect,
        ],
    }
}

/// The bus steps that open a pixel transfer: chip select low, the memory-write command in
/// command mode, then data mode.
pub open spec fn memory_write_steps() -> Seq<BusStepView> {
    seq![
        BusStepView::Select,
        BusStepView::CommandMode,
        BusStepView::Send(seq![command::RAMWR]),
        BusStepView::DataMode,
    ]
}

/// A step of the panel's power-up sequence.
#[derive(Debug)]
pub enum InitStep {
    Command(PanelCommand),
    /// Wait this many milliseconds.
    DelayMs(u64),
}

/// The big-endian bytes of a `u16`.
pub open spec fn be_bytes(value: u16) -> Seq<u8> {
    seq![(value / 256) as u8, (value % 256) as u8]
}

/// The big-endian bytes of a `u16`, most significant first.
pub fn to_be_bytes(value: u16) -> (bytes: [u8; 2])
    ensures
        bytes@ == be_bytes(value),
{
    [(value / 256) as u8, (value % 256) as u8]
}

/// The panel's command codes.
pub proof fn lemma_command_codes()
    ensures
        command::SWRESET == 0x01,
        command::SLPOUT == 0x11,
        command::NORON == 0x13,
        command::INVOFF == 0x20,
        command::DISPON == 0x29,
        command::CASET == 0x2A,
        command::RASET == 0x2B,
        command::RAMWR == 0x2C,
        command::MADCTL == 0x36,
        command::COLMOD == 0x3A,
        command::PGC == 0xE0,
        command::NGC == 0xE1,
        command::CSCON == 0xF0,
        COLMOD_RGB565 == 0x55,
        MADCTL_WIDE_INVERTED_RGB == 0xE0,
        PANEL_WIDTH == 480,
        PANEL_HEIGHT == 320,
{
}

/// Sending a command selects the chip, sends the command byte while the data/command line
/// is low, then any data bytes while it is high, and deselects the chip last.
pub proof fn lemma_command_protocol(code: u8, data: Option<Seq<u8>>)
    ensures
        command_steps(code, data)[0] == BusStepView::Select,
        command_steps(code, data)[1] == BusStepView::CommandMode,
        command_steps(code, data)[2] == BusStepView::Send(seq![code]),
        command_steps(code, data).last() == BusStepView::Deselect,
        data is None ==> command_steps(code, data).len() == 4,
        data matches Some(d) ==> command_steps(code, data).len() == 6 && command_steps(code, data)[3]
            == BusStepView::DataMode && command_steps(code, data)[4] == BusStepView::Send(d),
        memory_write_steps() == seq![
            BusStepView::Select,
            BusStepView::CommandMode,
            BusStepView::Send(seq![0x2Cu8]),
            BusStepView::DataMode,
        ],
{
}

/// Reading two big-endian bytes back gives the value that was written.
pub proof fn lemma_be_bytes_roundtrip(value: u16)
    ensures
        256 * be_bytes(value)[0] + be_bytes(value)[1] == value,
{
}

/// The bus steps that send one command: select the chip, send the command byte in command
/// mode, then the data bytes, if any, in data mode, and deselect.
pub fn write_command(command: &PanelCommand) -> (steps: Vec<BusStep>)
    ensures
        steps_view(steps@) == command_steps(command@.command, command@.data),
{
    let mut steps: Vec<BusStep> = Vec::new();
    steps.push(BusStep::Select);
    steps.push(BusStep::CommandMode);
    let mut code: Vec<u8> = Vec::new();
    code.push(command.command);
    steps.push(BusStep::Send(code));
    match &command.data {
        Some(data) => {
            steps.push(BusStep::DataMode);
            steps.push(BusStep::Send(data.clone()));
        },
        None => {},
    }
    steps.push(BusStep::Deselect);
    assert(steps_view(steps@) =~= command_steps(command@.command, command@.data));
    steps
}

/// The bus steps that open a pixel transfer: select the chip, send the memory-write command
/// in command mode and switch to data mode. The pixel bytes follow, then a deselect.
pub fn begin_memory_write() -> (steps: Vec<BusStep>)
    ensures
        steps_view(steps@) == memory_write_steps(),
{
    let mut steps: Vec<BusStep> = Vec::new();
    steps.push(BusStep::Select);
    steps.push(BusStep::CommandMode);
    let mut code: Vec<u8> = Vec::new();
    code.push(command::RAMWR);
    steps.push(BusStep::Send(code));
    steps.push(BusStep::DataMode);
    assert(steps_view(steps@) =~= memory_write_steps());
    steps
}

/// A command with the given code and data bytes.
fn command_with(code: u8, data: Vec<u8>) -> (c: PanelCommand)
    ensures
        c@ == (PanelCommandView { command: code, data: Some(data@) }),
{
    PanelCommand { command: code, data: Some(data) }
}

/// A command with no data bytes.
fn command_alone(code: u8) -> (c: PanelCommand)
    ensures
        c@ == (PanelCommandView { command: code, data: None }),
{
    PanelCommand { command: code, data: None }
}

/// `commands` set the drawing window to columns `x0..=x1` and rows `y0..=y1`:
/// column address set, then row address set, each with its bounds in big-endian bytes.
pub open spec fn is_window_commands(commands: Seq<PanelCommand>, x0: u16, y0: u16, x1: u16, y1: u16) -> bool {
    &&& commands.len() == 2
    &&& commands[0]@ == (PanelCommandView {
        command: command::CASET,
        data: Some(be_bytes(x0) + be_bytes(x1)),
    })
    &&& commands[1]@ == (PanelCommandView {
        command: command::RASET,
        data: Some(be_bytes(y0) + be_bytes(y1)),
    })
}

/// The two commands that set the drawing window to columns `x0..=x1` and rows `y0..=y1`.
pub fn set_window(x0: u16, y0: u16, x1: u16, y1: u16) -> (commands: Vec<PanelCommand>)
    ensures
        is_window_commands(commands@, x0, y0, x1, y1),
{
    let x0_bytes = to_be_bytes(x0);
    let x1_bytes = to_be_bytes(x1);
    let y0_bytes = to_be_bytes(y0);
    let y1_bytes = to_be_bytes(y1);
    let mut columns: Vec<u8> = Vec::new();
    columns.push(x0_bytes[0]);
    columns.push(x0_bytes[1]);
    columns.push(x1_bytes[0]);
    columns.push(x1_bytes[1]);
    let mut rows: Vec<u8> = Vec::new();
    rows.push(y0_bytes[0]);
    rows.push(y0_bytes[1]);
    rows.push(y1_bytes[0]);
    rows.push(y1_bytes[1]);
    let mut commands: Vec<PanelCommand> = Vec::new();
    commands.push(command_with(command::CASET, columns));
    commands.push(command_with(command::RASET, rows));
    assert(commands@[0]@.data->0 =~= be_bytes(x0) + be_bytes(x1));
    assert(commands@[1]@.data->0 =~= be_bytes(y0) + be_bytes(y1));
    commands
}

/// What an [`InitStep`] holds.
pub enum InitStepView {
    Command(PanelCommandView),
    DelayMs(u64),
}

impl View for InitStep {
    type V = InitStepView;

    open spec fn view(&self) -> InitStepView {
        match self {
            InitStep::Command(c) => InitStepView::Command(c@),
            InitStep::DelayMs(ms) => InitStepView::DelayMs(*ms),
        }
    }
}

/// The positive gamma curve written at power-up.
pub open spec fn positive_gamma_spec() -> Seq<u8> {
    seq![0xF0u8, 0x09, 0x0B, 0x06, 0x04, 0x15, 0x2F, 0x54, 0x42, 0x3C, 0x17, 0x14, 0x18, 0x1B]
}

/// The negative gamma curve written at power-up.
pub open spec fn negative_gamma_spec() -> Seq<u8> {
    seq![0xE0u8, 0x09, 0x0B, 0x06, 0x04, 0x03, 0x2B, 0x43, 0x42, 0x3B, 0x16, 0x14, 0x17, 0x1B]
}

/// A command step with data bytes.
pub open spec fn command_step(code: u8, data: Seq<u8>) -> InitStepView {
    InitStepView::Command(PanelCommandView { command: code, data: Some(data) })
}

/// A command step without data bytes.
pub open spec fn bare_command_step(code: u8) -> InitStepView {
    InitStepView::Command(PanelCommandView { command: code, data: None })
}

/// The panel's power-up sequence: software reset, unlock the command set, RGB565 pixels,
/// landscape orientation, gamma curves, lock the command set, no inversion, normal mode,
/// wake from sleep, display on; with the waits the controller needs.
pub open spec fn init_sequence_spec() -> Seq<InitStepView> {
    seq![
        bare_command_step(command::SWRESET),
        InitStepView::DelayMs(100),
        command_step(command::CSCON, seq![0xC3u8]),
        command_step(command::CSCON, seq![0x96u8]),
        command_step(command::COLMOD, seq![COLMOD_RGB565]),
        command_step(command::MADCTL, seq![MADCTL_WIDE_INVERTED_RGB]),
        command_step(command::PGC, positive_gamma_spec()),
        command_step(command::NGC, negative_gamma_spec()),
        command_step(command::CSCON, seq![0x3Cu8]),
        command_step(command::CSCON, seq![0x69u8]),
        bare_command_step(command::INVOFF),
        bare_command_step(command::NORON),
        bare_command_step(command::SLPOUT),
        InitStepView::DelayMs(120),
        bare_command_step(command::DISPON),
        InitStepView::DelayMs(20),
    ]
}

/// The power-up sequence byte by byte: software reset (0x01), wait 100 ms, command set
/// control (0xF0) with 0xC3 then 0x96, pixel format (0x3A) 0x55, memory access (0x36) 0xE0,
/// the positive (0xE0) and negative (0xE1) gamma tables, command set control with 0x3C then
/// 0x69, inversion off (0x20), normal mode (0x13), sleep out (0x11), wait 120 ms, display on
/// (0x29), wait 20 ms.
pub proof fn lemma_power_up_sequence()
    ensures
        init_sequence_spec().len() == 16,
        init_sequence_spec()[0] == InitStepView::Command(PanelCommandView { command: 0x01, data: None }),
        init_sequence_spec()[1] == InitStepView::DelayMs(100),
        init_sequence_spec()[2] == InitStepView::Command(
            PanelCommandView { command: 0xF0, data: Some(seq![0xC3u8]) },
        ),
        init_sequence_spec()[3] == InitStepView::Command(
            PanelCommandView { command: 0xF0, data: Some(seq![0x96u8]) },
        ),
        init_sequence_spec()[4] == InitStepView::Command(
            PanelCommandView { command: 0x3A, data: Some(seq![0x55u8]) },
        ),
        init_sequence_spec()[5] == InitStepView::Command(
            PanelCommandView { command: 0x36, data: Some(seq![0xE0u8]) },
        ),
        init_sequence_spec()[6] == InitStepView::Command(
            PanelCommandView {
                command: 0xE0,
                data: Some(
                    seq![0xF0u8, 0x09, 0x0B, 0x06, 0x04, 0x15, 0x2F, 0x54, 0x42, 0x3C, 0x17, 0x14, 0x18, 0x1B],
                ),
            },
        ),
        init_sequence_spec()[7] == InitStepView::Command(
            PanelCommandView {
                command: 0xE1,
                data: Some(
                    seq![0xE0u8, 0x09, 0x0B, 0x06, 0x04, 0x03, 0x2B, 0x43, 0x42, 0x3B, 0x16, 0x14, 0x17, 0x1B],
                ),
            },
        ),
        init_sequence_spec()[8] == InitStepView::Command(
            PanelCommandView { command: 0xF0, data: Some(seq![0x3Cu8]) },
        ),
        init_sequence_spec()[9] == InitStepView::Command(
            PanelCommandView { command: 0xF0, data: Some(seq![0x69u8]) },
        ),
        init_sequence_spec()[10] == InitStepView::Command(PanelCommandView { command: 0x20, data: None }),
        init_sequence_spec()[11] == InitStepView::Command(PanelCommandView { command: 0x13, data: None }),
        init_sequence_spec()[12] == InitStepView::Command(PanelCommandView { command: 0x11, data: None }),
        init_sequence_spec()[13] == InitStepView::DelayMs(120),
        init_sequence_spec()[14] == InitStepView::Command(PanelCommandView { command: 0x29, data: None }),
        init_sequence_spec()[15] == InitStepView::DelayMs(20),
{
}

/// The positive gamma curve.
fn positive_gamma() -> (g: Vec<u8>)
    ensures
        g@ == positive_gamma_spec(),
{
    let g = vec![0xF0u8, 0x09, 0x0B, 0x06, 0x04, 0x15, 0x2F, 0x54, 0x42, 0x3C, 0x17, 0x14, 0x18, 0x1B];
    assert(g@ =~= positive_gamma_spec());
    g
}

/// The negative gamma curve.
fn negative_gamma() -> (g: Vec<u8>)
    ensures
        g@ == negative_gamma_spec(),
{
    let g = vec![0xE0u8, 0x09, 0x0B, 0x06, 0x04, 0x03, 0x2B, 0x43, 0x42, 0x3B, 0x16, 0x14, 0x17, 0x1B];
    assert(g@ =~= negative_gamma_spec());
    g
}

/// A command step with one data byte.
fn one_byte_step(code: u8, value: u8) -> (step: InitStep)
    ensures
        step@ == command_step(code, seq![value]),
{
    let mut data: Vec<u8> = Vec::new();
    data.push(value);
    assert(data@ =~= seq![value]);
    InitStep::Command(command_with(code, data))
}

/// The panel's power-up sequence, see [`init_sequence_spec`].
pub fn init_sequence() -> (steps: Vec<InitStep>)
    ensures
        steps@.len() == init_sequence_spec().len(),
        forall|i: int| 0 <= i < steps@.len() ==> #[trigger] steps@[i]@ == init_sequence_spec()[i],
{
    let mut steps: Vec<InitStep> = Vec::new();
    steps.push(InitStep::Command(command_alone(command::SWRESET)));
    steps.push(InitStep::DelayMs(100));
    steps.push(one_byte_step(command::CSCON, 0xC3));
    steps.push(one_byte_step(command::CSCON, 0x96));
    steps.push(one_byte_step(command::COLMOD, COLMOD_RGB565));
    steps.push(one_byte_step(command::MADCTL, MADCTL_WIDE_INVERTED_RGB));
    steps.push(InitStep::Command(command_with(command::PGC, positive_gamma())));
    steps.push(InitStep::Command(command_with(command::NGC, negative_gamma())));
    steps.push(one_byte_step(command::CSCON, 0x3C));
    steps.push(one_byte_step(command::CSCON, 0x69));
    steps.push(InitStep::Command(command_alone(command::INVOFF)));
    steps.push(InitStep::Command(command_alone(command::NORON)));
    steps.push(InitStep::Command(command_alone(command::SLPOUT)));
    steps.push(InitStep::DelayMs(120));
    steps.push(InitStep::Command(command_alone(command::DISPON)));
    steps.push(InitStep::DelayMs(20));
    assert forall|i: int| 0 <= i < steps@.len() implies #[trigger] steps@[i]@
        == init_sequence_spec()[i] by {
        assert(0 <= i < 16);
    }
    steps
}

/// The sizes of the chunks that a stream of `total` pixels, `sent` of them already handed
/// out, hands out from now on when each chunk takes all remaining pixels up to `max`.
pub open spec fn chunk_sizes(total: nat, sent: nat, max: nat) -> Seq<nat>
    decreases total - sent,
{
    if sent >= total || max == 0 {
        seq![]
    } else {
        let chunk: nat = if total - sent < max {
            (total - sent) as nat
        } else {
            max
        };
        seq![chunk] + chunk_sizes(total, sent + chunk, max)
    }
}

/// The sum of a sequence of chunk sizes.
pub open spec fn sum_of(sizes: Seq<nat>) -> nat
    decreases sizes.len(),
{
    if sizes.len() == 0 {
        0
    } else {
        sizes[0] + sum_of(sizes.drop_first())
    }
}

/// Handing out chunks of at most `max` pixels until none remain hands out every remaining
/// pixel exactly once, in non-empty chunks of at most `max` pixels.
pub proof fn lemma_chunks_cover_remaining(total: nat, sent: nat, max: nat)
    requires
        sent <= total,
        max > 0,
    ensures
        sum_of(chunk_sizes(total, sent, max)) == total - sent,
        forall|i: int|
            0 <= i < chunk_sizes(total, sent, max).len() ==> 0 < #[trigger] chunk_sizes(
                total,
                sent,
                max,
            )[i] <= max,
    decreases total - sent,
{
    if sent < total {
        let chunk: nat = if total - sent < max {
            (total - sent) as nat
        } else {
            max
        };
        lemma_chunks_cover_remaining(total, sent + chunk, max);
        let rest = chunk_sizes(total, sent + chunk, max);
        assert((seq![chunk] + rest).drop_first() =~= rest);
        assert forall|i: int| 0 <= i < chunk_sizes(total, sent, max).len() implies 0
            < #[trigger] chunk_sizes(total, sent, max)[i] <= max by {
            if i > 0 {
                assert(chunk_sizes(total, sent, max)[i] == rest[i - 1]);
            }
        }
    }
}

/// The 64-byte burst that holds 32 copies of `color` in big-endian byte order.
pub open spec fn burst_spec(color: u16) -> Seq<u8> {
    Seq::new(64, |i: int| be_bytes(color)[i % 2])
}

/// The pixel bytes of a solid fill, handed out in bursts of at most 32 pixels.
pub struct RepeatedColor {
    burst: Vec<u8>,
    total: usize,
    sent: usize,
}

/// What a [`RepeatedColor`] stands for: its burst bytes, how many pixels it sends in all,
/// and how many it has handed out so far.
pub struct RepeatedColorView {
    pub burst: Seq<u8>,
    pub total: nat,
    pub sent: nat,
}

impl View for RepeatedColor {
    type V = RepeatedColorView;

    closed spec fn view(&self) -> RepeatedColorView {
        RepeatedColorView { burst: self.burst@, total: self.total as nat, sent: self.sent as nat }
    }
}

impl RepeatedColor {
    #[verifier::type_invariant]
    spec fn inv(&self) -> bool {
        &&& self.sent <= self.total
        &&& self.burst@.len() == 64
    }

    /// A stream of `pixel_count` pixels of `color` (RGB565), none handed out yet.
    pub fn new(color: u16, pixel_count: usize) -> (stream: RepeatedColor)
        ensures
            stream@ == (RepeatedColorView { burst: burst_spec(color), total: pixel_count as nat, sent: 0 }),
    {
        let bytes = to_be_bytes(color);
        let mut burst: Vec<u8> = Vec::new();
        let mut i: usize = 0;
        while i < 32
            invariant
                i <= 32,
                bytes@ == be_bytes(color),
                burst@ =~= Seq::new(2 * i as nat, |k: int| be_bytes(color)[k % 2]),
            decreases 32 - i,
        {
            burst.push(bytes[0]);
            burst.push(bytes[1]);
            i = i + 1;
        }
        assert(burst@ =~= burst_spec(color));
        RepeatedColor { burst, total: pixel_count, sent: 0 }
    }

    /// The burst bytes; a chunk is a prefix of them.
    pub fn burst(&self) -> (bytes: &[u8])
        ensures
            bytes@ == self@.burst,
            bytes@.len() == 64,
    {
        proof {
            use_type_invariant(self);
        }
        self.burst.as_slice()
    }

    /// Hands out the next chunk: the number of burst bytes to send, for the next
    /// `min(remaining, 32)` pixels, or `None` once all pixels were handed out.
    pub fn next_chunk(&mut self) -> (len: Option<usize>)
        ensures
            final(self)@.burst == old(self)@.burst,
            final(self)@.burst.len() == 64,
            final(self)@.total == old(self)@.total,
            old(self)@.sent <= old(self)@.total,
            final(self)@.sent <= final(self)@.total,
            old(self)@.sent == old(self)@.total ==> len is None && final(self)@.sent == old(self)@.sent,
            old(self)@.sent < old(self)@.total ==> len == Some(
                (2 * (if old(self)@.total - old(self)@.sent < 32 {
                    old(self)@.total - old(self)@.sent
                } else {
                    32
                })) as usize,
            ),
            old(self)@.sent < old(self)@.total ==> {
                let chunk = chunk_sizes(old(self)@.total, old(self)@.sent, 32)[0];
                &&& len == Some((2 * chunk) as usize)
                &&& final(self)@.sent == old(self)@.sent + chunk
            },
    {
        proof {
            use_type_invariant(&*self);
        }
        if self.sent == self.total {
            return None;
        }
        let remaining = self.total - self.sent;
        let chunk_pixels = if remaining < 32 {
            remaining
        } else {
            32
        };
        self.sent = self.sent + chunk_pixels;
        Some(chunk_pixels * 2)
    }
}

/// Fills columns `x..x + width` and rows `y..y + height` with `color` (RGB565): the window
/// commands, then a memory write of `width * height` pixels of `color`, then a deselect.
pub fn fill_rect(x: u16, y: u16, width: u16, height: u16, color: u16) -> (res: Result<
    PanelTransfer,
    Error,
>)
    ensures
        (width == 0 || height == 0) ==> res matches Err(Error::EmptyRect),
        (width > 0 && height > 0 && (x + width - 1 > u16::MAX || y + height - 1 > u16::MAX))
            ==> res matches Err(Error::CoordinatesOutOfRange),
        res is Ok <==> (width > 0 && height > 0 && x + width - 1 <= u16::MAX && y + height - 1
            <= u16::MAX),
        res matches Ok(transfer) ==> transfer@ == fill_steps(x, y, width, height, color),
{
    if width == 0 || height == 0 {
        return Err(Error::EmptyRect);
    }
    let x1 = match x.checked_add(width - 1) {
        Some(v) => v,
        None => return Err(Error::CoordinatesOutOfRange),
    };
    let y1 = match y.checked_add(height - 1) {
        Some(v) => v,
        None => return Err(Error::CoordinatesOutOfRange),
    };
    assert(width * height <= 0xffff * 0xffff) by (nonlinear_arith)
        requires
            width <= 0xffff,
            height <= 0xffff,
    ;
    Ok(fill_window(x, y, x1, y1, color, width as usize * height as usize))
}

/// The window commands for a draw command: its columns and rows, last ones included.
pub fn draw_window(command: &DrawCommand<Valid>) -> (commands: Vec<PanelCommand>)
    requires
        1 <= command.at.x + command.size.width <= u16::MAX,
        1 <= command.at.y + command.size.height <= u16::MAX,
    ensures
        is_window_commands(
            commands@,
            command.at.x,
            command.at.y,
            (command.at.x + command.size.width - 1) as u16,
            (command.at.y + command.size.height - 1) as u16,
        ),
{
    set_window(
        command.at.x,
        command.at.y,
        command.at.x + command.size.width - 1,
        command.at.y + command.size.height - 1,
    )
}

/// The RGB565 word sent for pixel `i` of a draw command with these colors: the color's
/// word while there are colors, 0 once they ran out.
pub open spec fn pixel_word(colors: Seq<Color>, i: int) -> u16 {
    if i < colors.len() {
        rgb565_of(colors[i].r, colors[i].g, colors[i].b) as u16
    } else {
        0
    }
}

/// The words of pixels `start..start + n`.
pub open spec fn chunk_words(colors: Seq<Color>, start: int, n: nat) -> Seq<u16> {
    Seq::new(n, |k: int| pixel_word(colors, start + k))
}

/// Byte `k` (0 or 1) of `word` in memory order: big-endian or little-endian.
pub open spec fn memory_byte(word: u16, big_endian: bool, k: int) -> u8 {
    if big_endian == (k == 0) {
        (word / 256) as u8
    } else {
        (word % 256) as u8
    }
}

/// `bytes` are `words` laid out in memory with the given byte order.
pub open spec fn words_in_memory(bytes: Seq<u8>, words: Seq<u16>, big_endian: bool) -> bool {
    &&& bytes.len() == 2 * words.len()
    &&& forall|k: int|
        #![trigger words[k]]
        0 <= k < words.len() ==> bytes[2 * k] == memory_byte(words[k], big_endian, 0) && bytes[2
            * k + 1] == memory_byte(words[k], big_endian, 1)
}

/// `bytes` are `words` laid out in memory, in one byte order or the other.
pub open spec fn is_memory_image(bytes: Seq<u8>, words: Seq<u16>) -> bool {
    exists|big_endian: bool| #[trigger] words_in_memory(bytes, words, big_endian)
}

/// The bytes of `words` as they lie in memory, by `byte_slice_cast::AsByteSlice::as_byte_slice`.
/// Its documentation: the bytes are the words' memory, so their order is the machine's byte
/// order, which is big-endian or little-endian for every word alike.
#[verifier::external_body]
fn words_as_bytes(words: &[u16]) -> (bytes: Vec<u8>)
    ensures
        is_memory_image(bytes@, words@),
{
    words.as_byte_slice().to_vec()
}

/// Largest number of pixels handed out at once by [`PixelStream`].
pub const SINK_PIXELS: usize = 8192;

/// The pixel bytes of a draw command, handed out in chunks of at most [`SINK_PIXELS`]
/// pixels, each an RGB565 word in the machine's byte order.
pub struct PixelStream {
    total: usize,
    sent: usize,
}

/// How many pixels a [`PixelStream`] sends in all and how many it has handed out.
pub struct PixelStreamView {
    pub total: nat,
    pub sent: nat,
}

impl View for PixelStream {
    type V = PixelStreamView;

    closed spec fn view(&self) -> PixelStreamView {
        PixelStreamView { total: self.total as nat, sent: self.sent as nat }
    }
}

/// How many pixels the stream hands out next: all that remain, up to [`SINK_PIXELS`].
pub open spec fn stream_chunk_len(stream: PixelStreamView) -> nat {
    chunk_sizes(stream.total, stream.sent, SINK_PIXELS as nat)[0]
}

impl PixelStream {
    #[verifier::type_invariant]
    spec fn inv(&self) -> bool {
        self.sent <= self.total
    }

    /// A stream of the `width * height` pixels of `command`, none handed out yet.
    pub fn new(command: &DrawCommand<Valid>) -> (stream: PixelStream)
        ensures
            stream@ == (PixelStreamView {
                total: (command.size.width * command.size.height) as nat,
                sent: 0,
            }),
    {
        let w = command.size.width;
        let h = command.size.height;
        assert(w * h <= 0xffff * 0xffff) by (nonlinear_arith)
            requires
                w <= 0xffff,
                h <= 0xffff,
        ;
        PixelStream { total: w as usize * h as usize, sent: 0 }
    }

    /// Hands out the bytes of the next `min(remaining, SINK_PIXELS)` pixels, pixel `i` being
    /// [`pixel_word`]`(colors, i)`, or `None` once all pixels were handed out.
    pub fn next_chunk(&mut self, colors: &[Color]) -> (chunk: Option<Vec<u8>>)
        ensures
            final(self)@.total == old(self)@.total,
            old(self)@.sent <= old(self)@.total,
            final(self)@.sent <= final(self)@.total,
            old(self)@.sent == old(self)@.total ==> chunk is None && final(self)@.sent == old(self)@.sent,
            old(self)@.sent < old(self)@.total ==> final(self)@.sent == old(self)@.sent
                + stream_chunk_len(old(self)@),
            old(self)@.sent < old(self)@.total ==> chunk is Some,
            old(self)@.sent < old(self)@.total ==> final(self)@.sent - old(self)@.sent == (if old(
                self,
            )@.total - old(self)@.sent < 8192 {
                old(self)@.total - old(self)@.sent
            } else {
                8192
            }),
            chunk matches Some(bytes) ==> is_memory_image(
                bytes@,
                chunk_words(colors@, old(self)@.sent as int, stream_chunk_len(old(self)@)),
            ),
            chunk matches Some(bytes) ==> is_memory_image(
                bytes@,
                Seq::new(
                    (final(self)@.sent - old(self)@.sent) as nat,
                    |k: int|
                        if old(self)@.sent + k < colors@.len() {
                            rgb565_of(
                                colors@[old(self)@.sent + k].r,
                                colors@[old(self)@.sent + k].g,
                                colors@[old(self)@.sent + k].b,
                            ) as u16
                        } else {
                            0u16
                        },
                ),
            ),
    {
        proof {
            use_type_invariant(&*self);
        }
        if self.sent == self.total {
            return None;
        }
        let remaining = self.total - self.sent;
        let n = if remaining < SINK_PIXELS {
            remaining
        } else {
            SINK_PIXELS
        };
        let mut words: Vec<u16> = Vec::new();
        let mut k: usize = 0;
        while k < n
            invariant
                k <= n,
                n <= self.total - self.sent,
                self.sent <= self.total,
                words@ =~= chunk_words(colors@, self.sent as int, k as nat),
            decreases n - k,
        {
            let index = self.sent + k;
            let word = if index < colors.len() {
                colors[index].rgb565()
            } else {
                0
            };
            words.push(word);
            k = k + 1;
        }
        assert(stream_chunk_len(self@) == n as nat);
        assert(words@ == chunk_words(colors@, self@.sent as int, stream_chunk_len(self@)));
        assert(words@ =~= Seq::new(
            n as nat,
            |k: int|
                if self.sent + k < colors@.len() {
                    rgb565_of(colors@[self.sent + k].r, colors@[self.sent + k].g, colors@[self.sent + k].b) as u16
                } else {
                    0u16
                },
        ));
        let bytes = words_as_bytes(words.as_slice());
        self.sent = self.sent + n;
        Some(bytes)
    }
}

/// How many of a draw command's pixels have no color in its color data; they are sent as 0.
pub fn missing_colors(command: &DrawCommand<Valid>) -> (missing: usize)
    ensures
        missing == (if command.size.width * command.size.height > command.color_data@.len() {
            command.size.width * command.size.height - command.color_data@.len()
        } else {
            0
        }),
{
    let w = command.size.width;
    let h = command.size.height;
    assert(w * h <= 0xffff * 0xffff) by (nonlinear_arith)
        requires
            w <= 0xffff,
            h <= 0xffff,
    ;
    let pixel_count = w as usize * h as usize;
    if pixel_count > command.color_data.len() {
        pixel_count - command.color_data.len()
    } else {
        0
    }
}

/// The backlight level, from 0 (darkest) to 255 (brightest).
pub struct Backlight {
    brightness: u8,
}

impl View for Backlight {
    type V = u8;

    closed spec fn view(&self) -> u8 {
        self.brightness
    }
}

impl Backlight {
    /// The level a freshly set up panel reports: 128.
    pub fn new() -> (b: Backlight)
        ensures
            b@ == 128,
    {
        Backlight { brightness: 128 }
    }

    /// Records `brightness` and returns the PWM duty to set, which equals it.
    pub fn set_brightness(&mut self, brightness: u8) -> (duty: u32)
        ensures
            final(self)@ == brightness,
            duty == brightness,
    {
        self.brightness = brightness;
        brightness as u32
    }

    /// The level last set.
    pub fn get_brightness(&self) -> (brightness: u8)
        ensures
            brightness == self@,
    {
        self.brightness
    }
}

} // verus!
