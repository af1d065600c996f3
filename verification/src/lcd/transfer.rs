//! Whole panel transfers, handed out one bus step at a time: a draw command, a solid fill,
//! and the memory write of one repeated color.

use vstd::prelude::*;

use crate::color::{rgb565_of, Color};
use crate::geometry::validity::Valid;
use crate::lcd::command;
use crate::lcd::{
    be_bytes, begin_memory_write, burst_spec, chunk_sizes, chunk_words, command_steps, draw_window,
    is_memory_image, memory_write_steps, pixel_word, set_window, steps_view, write_command, BusStep,
    BusStepView, PixelStream, RepeatedColor, SINK_PIXELS,
};
use crate::screen::DrawCommand;

verus! {

/// What a step of a transfer must be: exactly this step, or the sending of these pixel
/// words laid out in memory (in the machine's byte order).
pub enum ExpectedStep {
    Exactly(BusStepView),
    PixelWords(Seq<u16>),
}

/// Whether `step` is what `expected` asks for.
pub open spec fn step_meets(step: BusStepView, expected: ExpectedStep) -> bool {
    match expected {
        ExpectedStep::Exactly(v) => step == v,
        ExpectedStep::PixelWords(words) => step matches BusStepView::Send(bytes) && is_memory_image(
            bytes,
            words,
        ),
    }
}

/// Exactly these steps.
pub open spec fn exactly(steps: Seq<BusStepView>) -> Seq<ExpectedStep> {
    steps.map_values(|s: BusStepView| ExpectedStep::Exactly(s))
}

/// The steps that set the drawing window to columns `x0..=x1` and rows `y0..=y1`:
/// the column address command, then the row address command, bounds in big-endian bytes.
pub open spec fn window_steps(x0: u16, y0: u16, x1: u16, y1: u16) -> Seq<BusStepView> {
    command_steps(command::CASET, Some(be_bytes(x0) + be_bytes(x1))) + command_steps(
        command::RASET,
        Some(be_bytes(y0) + be_bytes(y1)),
    )
}

/// The sending of pixels `sent..total` of a draw with these colors, in chunks of at most
/// [`SINK_PIXELS`] pixels.
pub open spec fn pixel_chunk_steps(colors: Seq<Color>, total: nat, sent: nat) -> Seq<ExpectedStep>
    decreases total - sent,
{
    if sent >= total {
        seq![]
    } else {
        let n: nat = if total - sent < SINK_PIXELS {
            (total - sent) as nat
        } else {
            SINK_PIXELS as nat
        };
        seq![ExpectedStep::PixelWords(chunk_words(colors, sent as int, n))] + pixel_chunk_steps(
            colors,
            total,
            sent + n,
        )
    }
}

/// The sending of pixels `sent..total` of a solid fill, each chunk a prefix of the burst
/// of at most 32 pixels.
pub open spec fn burst_chunk_steps(burst: Seq<u8>, total: nat, sent: nat) -> Seq<ExpectedStep>
    decreases total - sent,
{
    if sent >= total {
        seq![]
    } else {
        let n: nat = if total - sent < 32 {
            (total - sent) as nat
        } else {
            32
        };
        seq![ExpectedStep::Exactly(BusStepView::Send(burst.take(2 * n as int)))] + burst_chunk_steps(
            burst,
            total,
            sent + n,
        )
    }
}

/// The whole transfer of a draw command at (`x`, `y`) of `width` x `height` with `colors`:
/// the window from (`x`, `y`) to (`x + width - 1`, `y + height - 1`), the memory write
/// command, the `width * height` pixels, pixel `k` being the color `k`'s RGB565 word or 0
/// when the colors ran out, and chip select high.
pub open spec fn draw_steps(x: u16, y: u16, width: u16, height: u16, colors: Seq<Color>) -> Seq<
    ExpectedStep,
> {
    exactly(
        window_steps(x, y, (x + width - 1) as u16, (y + height - 1) as u16) + memory_write_steps(),
    ) + pixel_chunk_steps(colors, (width * height) as nat, 0) + exactly(
        seq![BusStepView::Deselect],
    )
}

/// The memory write of `pixel_count` pixels of `color`: the memory write command, the
/// pixels in big-endian bytes in chunks of at most 32 pixels, and chip select high.
pub open spec fn repeated_color_steps(color: u16, pixel_count: nat) -> Seq<ExpectedStep> {
    exactly(memory_write_steps()) + burst_chunk_steps(burst_spec(color), pixel_count, 0) + exactly(
        seq![BusStepView::Deselect],
    )
}

/// The whole transfer of a solid fill of columns `x..x + width`, rows `y..y + height`.
pub open spec fn fill_steps(x: u16, y: u16, width: u16, height: u16, color: u16) -> Seq<
    ExpectedStep,
> {
    exactly(window_steps(x, y, (x + width - 1) as u16, (y + height - 1) as u16))
        + repeated_color_steps(color, (width * height) as nat)
}

/// The pixel words that these steps send, in order.
pub open spec fn words_of(steps: Seq<ExpectedStep>) -> Seq<u16>
    decreases steps.len(),
{
    if steps.len() == 0 {
        seq![]
    } else {
        let first = match steps[0] {
            ExpectedStep::PixelWords(words) => words,
            ExpectedStep::Exactly(_) => seq![],
        };
        first + words_of(steps.drop_first())
    }
}

/// The bytes that these steps send exactly, in order.
pub open spec fn bytes_of(steps: Seq<ExpectedStep>) -> Seq<u8>
    decreases steps.len(),
{
    if steps.len() == 0 {
        seq![]
    } else {
        let first = match steps[0] {
            ExpectedStep::Exactly(BusStepView::Send(bytes)) => bytes,
            _ => seq![],
        };
        first + bytes_of(steps.drop_first())
    }
}

/// The pixel chunks of a draw send every remaining pixel once, in order: pixel `k` is the
/// RGB565 word of color `k`, or 0 once the colors ran out.
pub proof fn lemma_pixel_chunks_send_every_pixel(colors: Seq<Color>, total: nat, sent: nat)
    requires
        sent <= total,
    ensures
        words_of(pixel_chunk_steps(colors, total, sent)) == Seq::new(
            (total - sent) as nat,
            |k: int| pixel_word(colors, sent + k),
        ),
    decreases total - sent,
{
    if sent < total {
        let n: nat = if total - sent < SINK_PIXELS {
            (total - sent) as nat
        } else {
            SINK_PIXELS as nat
        };
        lemma_pixel_chunks_send_every_pixel(colors, total, sent + n);
        let steps = pixel_chunk_steps(colors, total, sent);
        let rest = pixel_chunk_steps(colors, total, sent + n);
        assert(steps.drop_first() =~= rest);
        assert(words_of(steps) =~= Seq::new(
            (total - sent) as nat,
            |k: int| pixel_word(colors, sent + k),
        ));
    } else {
        assert(words_of(pixel_chunk_steps(colors, total, sent)) =~= Seq::new(
            (total - sent) as nat,
            |k: int| pixel_word(colors, sent + k),
        ));
    }
}

/// The chunks of a solid fill send every remaining pixel's big-endian bytes once, in
/// order, in non-empty chunks of at most 64 bytes.
pub proof fn lemma_burst_chunks_send_every_pixel(color: u16, total: nat, sent: nat)
    requires
        sent <= total,
    ensures
        bytes_of(burst_chunk_steps(burst_spec(color), total, sent)) == Seq::new(
            (2 * (total - sent)) as nat,
            |i: int| be_bytes(color)[i % 2],
        ),
        forall|j: int|
            0 <= j < burst_chunk_steps(burst_spec(color), total, sent).len() ==> (
            #[trigger] burst_chunk_steps(burst_spec(color), total, sent)[j] matches ExpectedStep::Exactly(
                BusStepView::Send(bytes),
            ) && 0 < bytes.len() <= 64),
    decreases total - sent,
{
    let burst = burst_spec(color);
    if sent < total {
        let n: nat = if total - sent < 32 {
            (total - sent) as nat
        } else {
            32
        };
        lemma_burst_chunks_send_every_pixel(color, total, sent + n);
        let steps = burst_chunk_steps(burst, total, sent);
        let rest = burst_chunk_steps(burst, total, sent + n);
        assert(steps.drop_first() =~= rest);
        let whole = Seq::new((2 * (total - sent)) as nat, |i: int| be_bytes(color)[i % 2]);
        assert forall|i: int| 0 <= i < whole.len() implies #[trigger] bytes_of(steps)[i]
            == whole[i] by {
            if i >= 2 * n {
                assert((i - 2 * n) % 2 == i % 2) by (nonlinear_arith)
                    requires
                        i >= 2 * n,
                ;
            }
        }
        assert(bytes_of(steps) =~= whole);
        assert forall|j: int| 0 <= j < steps.len() implies (#[trigger] steps[j] matches ExpectedStep::Exactly(
            BusStepView::Send(bytes),
        ) && 0 < bytes.len() <= 64) by {
            if j > 0 {
                assert(steps[j] == rest[j - 1]);
            }
        }
    } else {
        assert(bytes_of(burst_chunk_steps(burst, total, sent)) =~= Seq::new(
            (2 * (total - sent)) as nat,
            |i: int| be_bytes(color)[i % 2],
        ));
    }
}

/// The words of two step sequences one after the other are the words of each, in order.
pub proof fn lemma_words_of_concat(a: Seq<ExpectedStep>, b: Seq<ExpectedStep>)
    ensures
        words_of(a + b) == words_of(a) + words_of(b),
    decreases a.len(),
{
    if a.len() == 0 {
        assert(a + b =~= b);
        assert(words_of(a) + words_of(b) =~= words_of(b));
    } else {
        lemma_words_of_concat(a.drop_first(), b);
        assert((a + b).drop_first() =~= a.drop_first() + b);
        assert(words_of(a + b) =~= words_of(a) + words_of(b));
    }
}

/// Steps sent exactly carry no pixel words.
pub proof fn lemma_words_of_exactly(steps: Seq<BusStepView>)
    ensures
        words_of(exactly(steps)) == Seq::<u16>::empty(),
    decreases steps.len(),
{
    if steps.len() > 0 {
        lemma_words_of_exactly(steps.drop_first());
        assert(exactly(steps).drop_first() =~= exactly(steps.drop_first()));
        assert(words_of(exactly(steps)) =~= Seq::<u16>::empty());
    } else {
        assert(exactly(steps) =~= Seq::<ExpectedStep>::empty());
    }
}

/// A draw sends exactly `width * height` pixel words, in order: word `k` is the RGB565 word
/// of color `k` of the command while there are colors, and 0 after they ran out.
pub proof fn lemma_draw_sends_colors_in_order(
    x: u16,
    y: u16,
    width: u16,
    height: u16,
    colors: Seq<Color>,
)
    ensures
        words_of(draw_steps(x, y, width, height, colors)) == Seq::new(
            (width * height) as nat,
            |k: int|
                if k < colors.len() {
                    rgb565_of(colors[k].r, colors[k].g, colors[k].b) as u16
                } else {
                    0u16
                },
        ),
{
    let opening = exactly(
        window_steps(x, y, (x + width - 1) as u16, (y + height - 1) as u16) + memory_write_steps(),
    );
    let pixels = pixel_chunk_steps(colors, (width * height) as nat, 0);
    let closing = exactly(seq![BusStepView::Deselect]);
    lemma_words_of_concat(opening + pixels, closing);
    lemma_words_of_concat(opening, pixels);
    lemma_words_of_exactly(
        window_steps(x, y, (x + width - 1) as u16, (y + height - 1) as u16) + memory_write_steps(),
    );
    lemma_words_of_exactly(seq![BusStepView::Deselect]);
    lemma_pixel_chunks_send_every_pixel(colors, (width * height) as nat, 0);
    assert(words_of(draw_steps(x, y, width, height, colors)) =~= Seq::new(
        (width * height) as nat,
        |k: int|
            if k < colors.len() {
                rgb565_of(colors[k].r, colors[k].g, colors[k].b) as u16
            } else {
                0u16
            },
    ));
}

/// The opening of a windowed transfer, byte by byte: column address set (0x2A) with the
/// first and last column in big-endian bytes, row address set (0x2B) with the first and last
/// row, each selected, sent in command mode and data mode and deselected; then the memory
/// write command (0x2C) in command mode and data mode for the pixels.
pub open spec fn opens_window(
    steps: Seq<ExpectedStep>,
    x0: u16,
    y0: u16,
    x1: u16,
    y1: u16,
) -> bool {
    &&& steps.len() >= 16
    &&& steps[0] == ExpectedStep::Exactly(BusStepView::Select)
    &&& steps[1] == ExpectedStep::Exactly(BusStepView::CommandMode)
    &&& steps[2] == ExpectedStep::Exactly(BusStepView::Send(seq![0x2Au8]))
    &&& steps[3] == ExpectedStep::Exactly(BusStepView::DataMode)
    &&& steps[4] == ExpectedStep::Exactly(
        BusStepView::Send(
            seq![(x0 / 256) as u8, (x0 % 256) as u8, (x1 / 256) as u8, (x1 % 256) as u8],
        ),
    )
    &&& steps[5] == ExpectedStep::Exactly(BusStepView::Deselect)
    &&& steps[6] == ExpectedStep::Exactly(BusStepView::Select)
    &&& steps[7] == ExpectedStep::Exactly(BusStepView::CommandMode)
    &&& steps[8] == ExpectedStep::Exactly(BusStepView::Send(seq![0x2Bu8]))
    &&& steps[9] == ExpectedStep::Exactly(BusStepView::DataMode)
    &&& steps[10] == ExpectedStep::Exactly(
        BusStepView::Send(
            seq![(y0 / 256) as u8, (y0 % 256) as u8, (y1 / 256) as u8, (y1 % 256) as u8],
        ),
    )
    &&& steps[11] == ExpectedStep::Exactly(BusStepView::Deselect)
    &&& steps[12] == ExpectedStep::Exactly(BusStepView::Select)
    &&& steps[13] == ExpectedStep::Exactly(BusStepView::CommandMode)
    &&& steps[14] == ExpectedStep::Exactly(BusStepView::Send(seq![0x2Cu8]))
    &&& steps[15] == ExpectedStep::Exactly(BusStepView::DataMode)
}

/// The window and memory-write opening, step by step.
proof fn lemma_window_opening(x0: u16, y0: u16, x1: u16, y1: u16)
    ensures
        opens_window(exactly(window_steps(x0, y0, x1, y1) + memory_write_steps()), x0, y0, x1, y1),
        exactly(window_steps(x0, y0, x1, y1) + memory_write_steps()).len() == 16,
        exactly(window_steps(x0, y0, x1, y1)).len() == 12,
{
    let xs = be_bytes(x0) + be_bytes(x1);
    let ys = be_bytes(y0) + be_bytes(y1);
    assert(xs =~= seq![(x0 / 256) as u8, (x0 % 256) as u8, (x1 / 256) as u8, (x1 % 256) as u8]);
    assert(ys =~= seq![(y0 / 256) as u8, (y0 % 256) as u8, (y1 / 256) as u8, (y1 % 256) as u8]);
    let steps = window_steps(x0, y0, x1, y1) + memory_write_steps();
    assert(steps.len() == 16);
    assert(steps[4] == BusStepView::Send(xs));
    assert(steps[10] == BusStepView::Send(ys));
}

/// A draw opens the window from (`x`, `y`) to (`x + width - 1`, `y + height - 1`) and the
/// memory write, then only sends pixel words, and deselects the chip last.
pub proof fn lemma_draw_transfer_frame(x: u16, y: u16, width: u16, height: u16, colors: Seq<Color>)
    requires
        1 <= x + width <= u16::MAX,
        1 <= y + height <= u16::MAX,
    ensures
        opens_window(
            draw_steps(x, y, width, height, colors),
            x,
            y,
            (x + width - 1) as u16,
            (y + height - 1) as u16,
        ),
        draw_steps(x, y, width, height, colors).last() == ExpectedStep::Exactly(
            BusStepView::Deselect,
        ),
        forall|i: int|
            16 <= i < draw_steps(x, y, width, height, colors).len() - 1 ==> #[trigger] draw_steps(
                x,
                y,
                width,
                height,
                colors,
            )[i] is PixelWords,
{
    let x1 = (x + width - 1) as u16;
    let y1 = (y + height - 1) as u16;
    let opening = exactly(window_steps(x, y, x1, y1) + memory_write_steps());
    let pixels = pixel_chunk_steps(colors, (width * height) as nat, 0);
    lemma_pixel_chunks_are_words(colors, (width * height) as nat, 0);
    lemma_window_opening(x, y, x1, y1);
    let steps = draw_steps(x, y, width, height, colors);
    assert forall|i: int| 0 <= i < 16 implies #[trigger] steps[i] == opening[i] by {}
    assert forall|i: int| 16 <= i < steps.len() - 1 implies #[trigger] steps[i] is PixelWords by {
        assert(steps[i] == pixels[i - 16]);
    }
}

/// Every step of the pixel chunks of a draw sends pixel words.
proof fn lemma_pixel_chunks_are_words(colors: Seq<Color>, total: nat, sent: nat)
    ensures
        forall|i: int|
            0 <= i < pixel_chunk_steps(colors, total, sent).len() ==> #[trigger] pixel_chunk_steps(
                colors,
                total,
                sent,
            )[i] is PixelWords,
    decreases total - sent,
{
    if sent < total {
        let n: nat = if total - sent < SINK_PIXELS {
            (total - sent) as nat
        } else {
            SINK_PIXELS as nat
        };
        lemma_pixel_chunks_are_words(colors, total, sent + n);
        let steps = pixel_chunk_steps(colors, total, sent);
        let rest = pixel_chunk_steps(colors, total, sent + n);
        assert forall|i: int| 0 <= i < steps.len() implies #[trigger] steps[i] is PixelWords by {
            if i > 0 {
                assert(steps[i] == rest[i - 1]);
            }
        }
    }
}

/// A fill opens the window from (`x`, `y`) to (`x + width - 1`, `y + height - 1`) and the
/// memory write, then sends exactly the color's big-endian bytes, once per pixel, and
/// deselects the chip last.
pub proof fn lemma_fill_transfer_frame(x: u16, y: u16, width: u16, height: u16, color: u16)
    requires
        1 <= x + width <= u16::MAX + 1,
        1 <= y + height <= u16::MAX + 1,
    ensures
        opens_window(
            fill_steps(x, y, width, height, color),
            x,
            y,
            (x + width - 1) as u16,
            (y + height - 1) as u16,
        ),
        fill_steps(x, y, width, height, color).last() == ExpectedStep::Exactly(
            BusStepView::Deselect,
        ),
        bytes_of(fill_steps(x, y, width, height, color).subrange(
            16,
            fill_steps(x, y, width, height, color).len() - 1,
        )) == Seq::new(
            (2 * width * height) as nat,
            |i: int| if i % 2 == 0 { (color / 256) as u8 } else { (color % 256) as u8 },
        ),
{
    let x1 = (x + width - 1) as u16;
    let y1 = (y + height - 1) as u16;
    let total = (width * height) as nat;
    let chunks = burst_chunk_steps(burst_spec(color), total, 0);
    let steps = fill_steps(x, y, width, height, color);
    lemma_burst_chunks_send_every_pixel(color, total, 0);
    lemma_window_opening(x, y, x1, y1);
    let opening = exactly(window_steps(x, y, x1, y1) + memory_write_steps());
    assert(exactly(window_steps(x, y, x1, y1)) + exactly(memory_write_steps()) =~= opening);
    assert forall|i: int| 0 <= i < 16 implies #[trigger] steps[i] == opening[i] by {}
    assert(steps.subrange(16, steps.len() - 1) =~= chunks);
    assert(2 * (total - 0) == 2 * width * height) by (nonlinear_arith)
        requires
            total == width * height,
    ;
    assert(Seq::new((2 * (total - 0)) as nat, |i: int| be_bytes(color)[i % 2]) =~= Seq::new(
        (2 * width * height) as nat,
        |i: int| if i % 2 == 0 { (color / 256) as u8 } else { (color % 256) as u8 },
    ));
}

/// Where the pixels of a transfer come from.
enum Payload {
    Pixels(PixelStream, Vec<Color>),
    Repeated(RepeatedColor),
}

/// The steps that the pixels of a transfer still take.
spec fn payload_steps(payload: Payload) -> Seq<ExpectedStep> {
    match payload {
        Payload::Pixels(stream, colors) => pixel_chunk_steps(colors@, stream@.total, stream@.sent),
        Payload::Repeated(stream) => burst_chunk_steps(stream@.burst, stream@.total, stream@.sent),
    }
}

/// A panel transfer: the bus steps before the pixels, the pixels, and chip select high,
/// handed out one at a time by [`PanelTransfer::next_step`].
pub struct PanelTransfer {
    opening: Vec<BusStep>,
    payload: Payload,
    closed: bool,
}

impl View for PanelTransfer {
    type V = Seq<ExpectedStep>;

    /// The steps still to come.
    closed spec fn view(&self) -> Seq<ExpectedStep> {
        exactly(steps_view(self.opening@)) + payload_steps(self.payload) + if self.closed {
            seq![]
        } else {
            exactly(seq![BusStepView::Deselect])
        }
    }
}

/// The first `len` bytes.
fn prefix(bytes: &[u8], len: usize) -> (p: Vec<u8>)
    requires
        len <= bytes@.len(),
    ensures
        p@ == bytes@.take(len as int),
{
    let mut p: Vec<u8> = Vec::new();
    let mut i: usize = 0;
    while i < len
        invariant
            i <= len,
            len <= bytes@.len(),
            p@ =~= bytes@.take(i as int),
        decreases len - i,
    {
        p.push(bytes[i]);
        i = i + 1;
    }
    p
}

/// The steps of `a` followed by those of `b`.
fn concat(a: Vec<BusStep>, b: Vec<BusStep>) -> (c: Vec<BusStep>)
    ensures
        steps_view(c@) == steps_view(a@) + steps_view(b@),
{
    let mut a = a;
    let mut b = b;
    let ghost a0 = a@;
    let ghost b0 = b@;
    a.append(&mut b);
    assert(steps_view(a@) =~= steps_view(a0) + steps_view(b0));
    a
}

impl PanelTransfer {
    /// Hands out the next step of the transfer, or `None` once the transfer is complete.
    #[verifier::rlimit(40)]
    pub fn next_step(&mut self) -> (step: Option<BusStep>)
        ensures
            old(self)@.len() == 0 ==> step is None && final(self)@.len() == 0,
            old(self)@.len() > 0 ==> (step matches Some(s) && step_meets(s@, old(self)@[0])),
            old(self)@.len() > 0 ==> final(self)@ == old(self)@.drop_first(),
    {
        let ghost rest = payload_steps(self.payload) + if self.closed {
            seq![]
        } else {
            exactly(seq![BusStepView::Deselect])
        };
        if self.opening.len() > 0 {
            let ghost before = self.opening@;
            let step = self.opening.remove(0);
            assert(exactly(steps_view(before)) =~= seq![ExpectedStep::Exactly(step@)] + exactly(
                steps_view(self.opening@),
            ));
            assert(self@ =~= exactly(steps_view(self.opening@)) + rest);
            assert(old(self)@ =~= seq![ExpectedStep::Exactly(step@)] + self@);
            return Some(step);
        }
        assert(exactly(steps_view(self.opening@)) =~= seq![]);
        let ghost old_payload = self.payload;
        let chunk = match &mut self.payload {
            Payload::Pixels(stream, colors) => {
                let ghost v = stream@;
                let ghost c = colors@;
                match stream.next_chunk(colors.as_slice()) {
                    Some(bytes) => {
                        proof {
                            let n: nat = if v.total - v.sent < SINK_PIXELS {
                                (v.total - v.sent) as nat
                            } else {
                                SINK_PIXELS as nat
                            };
                            assert(chunk_sizes(v.total, v.sent, SINK_PIXELS as nat)[0] == n);
                            assert(pixel_chunk_steps(c, v.total, v.sent) =~= seq![
                                ExpectedStep::PixelWords(chunk_words(c, v.sent as int, n)),
                            ] + pixel_chunk_steps(c, v.total, v.sent + n));
                        }
                        Some(BusStep::Send(bytes))
                    },
                    None => None,
                }
            },
            Payload::Repeated(stream) => {
                let ghost v = stream@;
                match stream.next_chunk() {
                    Some(len) => {
                        proof {
                            let n: nat = if v.total - v.sent < 32 {
                                (v.total - v.sent) as nat
                            } else {
                                32
                            };
                            assert(chunk_sizes(v.total, v.sent, 32)[0] == n);
                            assert(burst_chunk_steps(v.burst, v.total, v.sent) =~= seq![
                                ExpectedStep::Exactly(BusStepView::Send(v.burst.take(2 * n as int))),
                            ] + burst_chunk_steps(v.burst, v.total, v.sent + n));
                        }
                        Some(BusStep::Send(prefix(stream.burst(), len)))
                    },
                    None => None,
                }
            },
        };
        if chunk.is_some() {
            assert(old(self)@ =~= seq![old(self)@[0]] + self@);
            return chunk;
        }
        assert(payload_steps(self.payload) =~= seq![]);
        if !self.closed {
            self.closed = true;
            return Some(BusStep::Deselect);
        }
        None
    }
}

/// The transfer that draws `command`.
pub fn draw(command: DrawCommand<Valid>) -> (transfer: PanelTransfer)
    requires
        1 <= command.at.x + command.size.width <= u16::MAX,
        1 <= command.at.y + command.size.height <= u16::MAX,
    ensures
        transfer@ == draw_steps(
            command.at.x,
            command.at.y,
            command.size.width,
            command.size.height,
            command.color_data@,
        ),
{
    let window = draw_window(&command);
    let columns = write_command(&window[0]);
    let rows = write_command(&window[1]);
    let opening = concat(concat(columns, rows), begin_memory_write());
    let stream = PixelStream::new(&command);
    let colors = command.color_data;
    let transfer = PanelTransfer { opening, payload: Payload::Pixels(stream, colors), closed: false };
    assert(transfer@ =~= draw_steps(
        command.at.x,
        command.at.y,
        command.size.width,
        command.size.height,
        command.color_data@,
    ));
    transfer
}

/// The memory write of `pixel_count` pixels of `color` (RGB565).
pub fn write_repeated_color(color: u16, pixel_count: usize) -> (transfer: PanelTransfer)
    ensures
        transfer@ == repeated_color_steps(color, pixel_count as nat),
{
    let stream = RepeatedColor::new(color, pixel_count);
    let transfer = PanelTransfer {
        opening: begin_memory_write(),
        payload: Payload::Repeated(stream),
        closed: false,
    };
    assert(transfer@ =~= repeated_color_steps(color, pixel_count as nat));
    transfer
}

/// The fill of columns `x0..=x1`, rows `y0..=y1` with `pixel_count` pixels of `color`.
pub(crate) fn fill_window(x0: u16, y0: u16, x1: u16, y1: u16, color: u16, pixel_count: usize) -> (transfer: PanelTransfer)
    ensures
        transfer@ == exactly(window_steps(x0, y0, x1, y1)) + repeated_color_steps(
            color,
            pixel_count as nat,
        ),
{
    let window = set_window(x0, y0, x1, y1);
    let columns = write_command(&window[0]);
    let rows = write_command(&window[1]);
    let opening = concat(concat(columns, rows), begin_memory_write());
    let stream = RepeatedColor::new(color, pixel_count);
    let transfer = PanelTransfer { opening, payload: Payload::Repeated(stream), closed: false };
    assert(transfer@ =~= exactly(window_steps(x0, y0, x1, y1)) + repeated_color_steps(
        color,
        pixel_count as nat,
    ));
    transfer
}

} // verus!
