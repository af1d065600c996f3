use lcd_graphics::color::Color;
use lcd_graphics::geometry::validity::Valid;
use lcd_graphics::geometry::{Position2, Size2};
use lcd_graphics::screen::{fill_command, DrawCommand, Screen};

struct Recorder {
    brightness: u8,
    drawn: Vec<DrawCommand<Valid>>,
}

impl Screen for Recorder {
    const WIDTH: u16 = 480;
    const HEIGHT: u16 = 320;
    type Error = ();

    fn set_brightness(&mut self, brightness: u8) {
        self.brightness = brightness;
    }

    fn get_brightness(&self) -> u8 {
        self.brightness
    }

    fn draw(&mut self, command: DrawCommand<Valid>) -> Result<(), ()> {
        self.drawn.push(command);
        Ok(())
    }
}

#[test]
fn size_is_the_screen() {
    let s = Recorder::size();
    assert_eq!((s.width, s.height), (480, 320));
}

#[test]
fn positions_on_and_off_screen() {
    assert!(Recorder::validate_position(Position2::new(0, 0)).is_some());
    assert!(Recorder::validate_position(Position2::new(479, 319)).is_some());
    assert!(Recorder::validate_position(Position2::new(480, 0)).is_none());
    assert!(Recorder::validate_position(Position2::new(0, 320)).is_none());
    let p = Recorder::validate_position(Position2::new(100, 100)).unwrap();
    assert_eq!((p.x, p.y), (100, 100));
}

#[test]
fn sizes_that_fit_and_do_not() {
    let at = Recorder::validate_position(Position2::new(100, 100)).unwrap();
    let s = Recorder::validate_size(&at, Size2::new(35, 35)).unwrap();
    assert_eq!((s.width, s.height), (35, 35));
    assert!(Recorder::validate_size(&at, Size2::new(380, 220)).is_some());
    assert!(Recorder::validate_size(&at, Size2::new(381, 220)).is_none());
    assert!(Recorder::validate_size(&at, Size2::new(380, 221)).is_none());
    assert!(Recorder::validate_size(&at, Size2::new(0, 5)).is_none());
    assert!(Recorder::validate_size(&at, Size2::new(5, 0)).is_none());
}

#[test]
fn size_check_with_position_beyond_screen() {
    let far = Position2::new(500, 10).unchecked_validate();
    assert!(Recorder::validate_size(&far, Size2::new(1, 1)).is_none());
}

#[test]
fn draw_commands_are_checked_whole() {
    let red = Color::new(255, 0, 0);
    let ok = DrawCommand::new(Position2::new(0, 0), Size2::new(480, 320), vec![red; 3]);
    let v = Recorder::validate_draw_command(ok).unwrap();
    assert_eq!((v.at.x, v.at.y, v.size.width, v.size.height), (0, 0, 480, 320));
    assert_eq!(v.color_data.len(), 3);
    let off = DrawCommand::new(Position2::new(480, 0), Size2::new(1, 1), vec![]);
    assert!(Recorder::validate_draw_command(off).is_none());
    let too_big = DrawCommand::new(Position2::new(1, 0), Size2::new(480, 1), vec![]);
    assert!(Recorder::validate_draw_command(too_big).is_none());
}

#[test]
fn fill_command_repeats_the_color() {
    let c = Color::new(1, 2, 3);
    let at = Position2::new(2, 3).unchecked_validate();
    let size = Size2::new(4, 5).unchecked_validate();
    let cmd = fill_command(at, size, c);
    assert_eq!(cmd.color_data.len(), 20);
    assert!(cmd.color_data.iter().all(|&x| x == c));
    assert_eq!((cmd.at.x, cmd.at.y, cmd.size.width, cmd.size.height), (2, 3, 4, 5));
}

#[test]
fn fill_draws_one_filled_command() {
    let mut screen = Recorder { brightness: 0, drawn: Vec::new() };
    let c = Color::new(9, 9, 9);
    screen
        .fill(Position2::upper_left(), Recorder::size(), c)
        .unwrap();
    assert_eq!(screen.drawn.len(), 1);
    assert_eq!(screen.drawn[0].color_data.len(), 480 * 320);
}
