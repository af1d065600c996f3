use lcd_graphics::color::Color;
use lcd_graphics::geometry::{Position2, Size2};
use lcd_graphics::lcd::command;
use lcd_graphics::lcd::transfer::{draw, write_repeated_color, PanelTransfer};
use lcd_graphics::lcd::{
    begin_memory_write, draw_window, fill_rect, init_sequence, missing_colors, set_window,
    to_be_bytes, write_command, Backlight, BusStep, Error, InitStep, PanelCommand, PixelStream,
    RepeatedColor,
};
use lcd_graphics::screen::DrawCommand;

fn sent(step: &BusStep) -> Option<Vec<u8>> {
    match step {
        BusStep::Send(b) => Some(b.clone()),
        _ => None,
    }
}

#[test]
fn big_endian_bytes() {
    assert_eq!(to_be_bytes(0x1234), [0x12, 0x34]);
    assert_eq!(to_be_bytes(479), [0x01, 0xDF]);
}

#[test]
fn window_commands() {
    let cmds = set_window(0, 1, 479, 319);
    assert_eq!(cmds.len(), 2);
    assert_eq!(cmds[0].command, command::CASET);
    assert_eq!(cmds[0].data, Some(vec![0x00, 0x00, 0x01, 0xDF]));
    assert_eq!(cmds[1].command, command::RASET);
    assert_eq!(cmds[1].data, Some(vec![0x00, 0x01, 0x01, 0x3F]));
}

#[test]
fn command_with_data_steps() {
    let steps = write_command(&PanelCommand { command: 0xF0, data: Some(vec![0xC3]) });
    assert_eq!(steps.len(), 6);
    assert!(matches!(steps[0], BusStep::Select));
    assert!(matches!(steps[1], BusStep::CommandMode));
    assert_eq!(sent(&steps[2]), Some(vec![0xF0]));
    assert!(matches!(steps[3], BusStep::DataMode));
    assert_eq!(sent(&steps[4]), Some(vec![0xC3]));
    assert!(matches!(steps[5], BusStep::Deselect));
}

#[test]
fn command_without_data_steps() {
    let steps = write_command(&PanelCommand { command: command::SWRESET, data: None });
    assert_eq!(steps.len(), 4);
    assert_eq!(sent(&steps[2]), Some(vec![0x01]));
    assert!(matches!(steps[3], BusStep::Deselect));
}

#[test]
fn memory_write_opening() {
    let steps = begin_memory_write();
    assert_eq!(steps.len(), 4);
    assert_eq!(sent(&steps[2]), Some(vec![command::RAMWR]));
    assert!(matches!(steps[3], BusStep::DataMode));
}

#[test]
fn power_up_sequence() {
    let steps = init_sequence();
    assert_eq!(steps.len(), 16);
    match &steps[0] {
        InitStep::Command(c) => assert_eq!((c.command, c.data.is_none()), (command::SWRESET, true)),
        _ => panic!("expected a command"),
    }
    assert!(matches!(steps[1], InitStep::DelayMs(100)));
    match &steps[4] {
        InitStep::Command(c) => assert_eq!((c.command, c.data.clone()), (command::COLMOD, Some(vec![0x55]))),
        _ => panic!("expected a command"),
    }
    match &steps[6] {
        InitStep::Command(c) => {
            assert_eq!(c.command, command::PGC);
            assert_eq!(c.data.as_ref().unwrap().len(), 14);
            assert_eq!(c.data.as_ref().unwrap()[7], 0x54);
        }
        _ => panic!("expected a command"),
    }
    assert!(matches!(steps[13], InitStep::DelayMs(120)));
    match &steps[14] {
        InitStep::Command(c) => assert_eq!(c.command, command::DISPON),
        _ => panic!("expected a command"),
    }
    assert!(matches!(steps[15], InitStep::DelayMs(20)));
}

#[test]
fn fill_rect_rejects_empty_and_overflowing() {
    assert!(matches!(fill_rect(0, 0, 0, 10, 0xFFFF), Err(Error::EmptyRect)));
    assert!(matches!(fill_rect(0, 0, 10, 0, 0xFFFF), Err(Error::EmptyRect)));
    assert!(matches!(fill_rect(65535, 0, 2, 1, 0), Err(Error::CoordinatesOutOfRange)));
    assert!(matches!(fill_rect(0, 65000, 1, 600, 0), Err(Error::CoordinatesOutOfRange)));
    assert!(fill_rect(65535, 65535, 1, 1, 0).is_ok());
}

/// A compact record of a transfer: 'S' select, 'D' deselect, 'c' command mode,
/// 'd' data mode, and the bytes of each send.
fn record(mut transfer: PanelTransfer) -> Vec<(char, Vec<u8>)> {
    let mut out = Vec::new();
    while let Some(step) = transfer.next_step() {
        out.push(match step {
            BusStep::Select => ('S', vec![]),
            BusStep::Deselect => ('D', vec![]),
            BusStep::CommandMode => ('c', vec![]),
            BusStep::DataMode => ('d', vec![]),
            BusStep::Send(b) => ('w', b),
        });
    }
    assert!(transfer.next_step().is_none());
    out
}

fn window_record(x0: u16, y0: u16, x1: u16, y1: u16) -> Vec<(char, Vec<u8>)> {
    let [a, b] = x0.to_be_bytes();
    let [c, d] = x1.to_be_bytes();
    let [e, f] = y0.to_be_bytes();
    let [g, h] = y1.to_be_bytes();
    vec![
        ('S', vec![]),
        ('c', vec![]),
        ('w', vec![0x2A]),
        ('d', vec![]),
        ('w', vec![a, b, c, d]),
        ('D', vec![]),
        ('S', vec![]),
        ('c', vec![]),
        ('w', vec![0x2B]),
        ('d', vec![]),
        ('w', vec![e, f, g, h]),
        ('D', vec![]),
    ]
}

fn memory_write_record() -> Vec<(char, Vec<u8>)> {
    vec![('S', vec![]), ('c', vec![]), ('w', vec![0x2C]), ('d', vec![])]
}

#[test]
fn fill_rect_transfer() {
    let steps = record(fill_rect(10, 20, 10, 7, 0xF800).unwrap());
    let mut expected = window_record(10, 20, 19, 26);
    expected.extend(memory_write_record());
    expected.push(('w', [0xF8, 0x00].repeat(32)));
    expected.push(('w', [0xF8, 0x00].repeat(32)));
    expected.push(('w', [0xF8, 0x00].repeat(6)));
    expected.push(('D', vec![]));
    assert_eq!(steps, expected);
}

#[test]
fn repeated_color_transfer() {
    let mut expected = memory_write_record();
    expected.push(('w', [0x12, 0x34].repeat(3)));
    expected.push(('D', vec![]));
    assert_eq!(record(write_repeated_color(0x1234, 3)), expected);
}

#[test]
fn repeated_color_transfer_without_pixels() {
    let mut expected = memory_write_record();
    expected.push(('D', vec![]));
    assert_eq!(record(write_repeated_color(0x1234, 0)), expected);
}

#[test]
fn draw_transfer() {
    let white = Color::new(255, 255, 255);
    let red = Color::new(255, 0, 0);
    let cmd = DrawCommand::new(Position2::new(5, 6), Size2::new(3, 1), vec![white, red]).unchecked_validate();
    let steps = record(draw(cmd));
    let mut expected = window_record(5, 6, 7, 6);
    expected.extend(memory_write_record());
    let mut pixels = Vec::new();
    for w in [0xFFFFu16, 0xF800, 0x0000] {
        pixels.extend_from_slice(&w.to_ne_bytes());
    }
    expected.push(('w', pixels));
    expected.push(('D', vec![]));
    assert_eq!(steps, expected);
}

#[test]
fn draw_transfer_of_an_empty_row() {
    let cmd = DrawCommand::new(Position2::new(12, 20), Size2::new(0, 1), vec![]).unchecked_validate();
    let mut expected = window_record(12, 20, 11, 20);
    expected.extend(memory_write_record());
    expected.push(('D', vec![]));
    assert_eq!(record(draw(cmd)), expected);
}

#[test]
fn missing_colors_counts_padding() {
    let c = Color::new(1, 1, 1);
    let short = DrawCommand::new(Position2::new(0, 0), Size2::new(3, 2), vec![c; 4]).unchecked_validate();
    assert_eq!(missing_colors(&short), 2);
    let full = DrawCommand::new(Position2::new(0, 0), Size2::new(3, 2), vec![c; 9]).unchecked_validate();
    assert_eq!(missing_colors(&full), 0);
}

#[test]
fn repeated_color_chunks() {
    let mut stream = RepeatedColor::new(0xABCD, 70);
    assert_eq!(stream.burst().len(), 64);
    assert!(stream.burst().chunks(2).all(|p| p == [0xAB, 0xCD]));
    assert_eq!(stream.next_chunk(), Some(64));
    assert_eq!(stream.next_chunk(), Some(64));
    assert_eq!(stream.next_chunk(), Some(12));
    assert_eq!(stream.next_chunk(), None);
    assert_eq!(stream.next_chunk(), None);
}

#[test]
fn repeated_color_without_pixels() {
    let mut stream = RepeatedColor::new(1, 0);
    assert_eq!(stream.next_chunk(), None);
}

#[test]
fn draw_window_of_an_empty_row() {
    let cmd = DrawCommand::new(Position2::new(12, 20), Size2::new(0, 1), vec![]).unchecked_validate();
    let w = draw_window(&cmd);
    assert_eq!(w[0].data, Some(vec![0, 12, 0, 11]));
    assert_eq!(w[1].data, Some(vec![0, 20, 0, 20]));
}

#[test]
fn draw_window_covers_the_command() {
    let cmd = DrawCommand::new(Position2::new(100, 50), Size2::new(35, 2), vec![]).unchecked_validate();
    let w = draw_window(&cmd);
    assert_eq!(w[0].data, Some(vec![0, 100, 0, 134]));
    assert_eq!(w[1].data, Some(vec![0, 50, 0, 51]));
}

#[test]
fn pixel_stream_pads_missing_colors_with_zero() {
    let white = Color::new(255, 255, 255);
    let red = Color::new(255, 0, 0);
    let cmd = DrawCommand::new(Position2::new(0, 0), Size2::new(3, 1), vec![white, red]).unchecked_validate();
    let mut stream = PixelStream::new(&cmd);
    let bytes = stream.next_chunk(&cmd.color_data).unwrap();
    let mut expected = Vec::new();
    for w in [0xFFFFu16, 0xF800, 0x0000] {
        expected.extend_from_slice(&w.to_ne_bytes());
    }
    assert_eq!(bytes, expected);
    assert!(stream.next_chunk(&cmd.color_data).is_none());
}

#[test]
fn pixel_stream_chunks_large_commands() {
    let cmd = DrawCommand::new(Position2::new(0, 0), Size2::new(480, 320), vec![Color::new(0, 0, 255); 480 * 320])
        .unchecked_validate();
    let mut stream = PixelStream::new(&cmd);
    let mut sizes = Vec::new();
    while let Some(bytes) = stream.next_chunk(&cmd.color_data) {
        sizes.push(bytes.len() / 2);
    }
    assert_eq!(sizes.len(), 19);
    assert!(sizes[..18].iter().all(|&n| n == 8192));
    assert_eq!(sizes[18], 480 * 320 - 18 * 8192);
}

#[test]
fn backlight_reads_back_what_was_set() {
    let mut b = Backlight::new();
    assert_eq!(b.get_brightness(), 128);
    assert_eq!(b.set_brightness(255), 255);
    assert_eq!(b.get_brightness(), 255);
    assert_eq!(b.set_brightness(0), 0);
    assert_eq!(b.get_brightness(), 0);
}
