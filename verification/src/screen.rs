use core::marker::PhantomData;
use vstd::prelude::*;

use crate::color::{repeat_color, Color};
use crate::geometry::validity::{Unchecked, Valid};
use crate::geometry::{Position2, Size2};

verus! {

/// A rectangle of pixels to draw, with the colors of its pixels row by row.
#[derive(Debug)]
pub struct DrawCommand<Validity> {
    pub at: Position2<Validity>,
    pub size: Size2<Validity>,
    pub color_data: Vec<Color>,
    pub validity: PhantomData<Validity>,
}

impl DrawCommand<Unchecked> {
    pub fn new(at: Position2<Unchecked>, size: Size2<Unchecked>, color_data: Vec<Color>) -> (c:
        DrawCommand<Unchecked>)
        ensures
            c.at == at,
            c.size == size,
            c.color_data == color_data,
    {
        DrawCommand { at, size, color_data, validity: PhantomData }
    }

    /// Converts to `Valid` without checking bounds: the caller must know that the
    /// command lies within the target screen.
    pub fn unchecked_validate(self) -> (c: DrawCommand<Valid>)
        ensures
            c.at.x == self.at.x,
            c.at.y == self.at.y,
            c.size.width == self.size.width,
            c.size.height == self.size.height,
            c.color_data == self.color_data,
    {
        DrawCommand {
            at: self.at.unchecked_validate(),
            size: self.size.unchecked_validate(),
            color_data: self.color_data,
            validity: PhantomData,
        }
    }
}

/// The command that paints every pixel of the rectangle at `at` of `size` with `color`.
pub fn fill_command(at: Position2<Valid>, size: Size2<Valid>, color: Color) -> (c: DrawCommand<
    Valid,
>)
    ensures
        c.at == at,
        c.size == size,
        c.color_data@ == Seq::new((size.width * size.height) as nat, |i: int| color),
{
    let w = size.width;
    let h = size.height;
    assert(w * h <= 0xffff * 0xffff) by (nonlinear_arith)
        requires
            w <= 0xffff,
            h <= 0xffff,
    ;
    let pixel_count = w as usize * h as usize;
    let color_data = repeat_color(color, pixel_count);
    DrawCommand { at, size, color_data, validity: PhantomData }
}

/// Whether a position lies on a screen of `width` x `height` pixels.
pub open spec fn position_on_screen(x: u16, y: u16, width: u16, height: u16) -> bool {
    x < width && y < height
}

/// Whether a non-empty rectangle of `size_width` x `size_height` at (`x`, `y`) fits on a
/// screen of `width` x `height` pixels.
pub open spec fn size_fits_screen(
    x: u16,
    y: u16,
    size_width: u16,
    size_height: u16,
    width: u16,
    height: u16,
) -> bool {
    &&& size_width > 0
    &&& size_height > 0
    &&& x + size_width <= width
    &&& y + size_height <= height
}

/// A rectangle fits on a screen exactly when it is non-empty and its right and bottom edges
/// stay within the screen's width and height.
pub proof fn lemma_size_fits_screen(
    x: u16,
    y: u16,
    size_width: u16,
    size_height: u16,
    width: u16,
    height: u16,
)
    ensures
        size_fits_screen(x, y, size_width, size_height, width, height) <==> (size_width > 0
            && size_height > 0 && x + size_width <= width && y + size_height <= height),
        position_on_screen(x, y, width, height) <==> (x < width && y < height),
{
}

/// A display that draws pixel rectangles.
pub trait Screen {
    /// Width of the screen in pixels.
    const WIDTH: u16;

    /// Height of the screen in pixels.
    const HEIGHT: u16;

    type Error;

    /// The whole screen's size.
    fn size() -> (s: Size2<Valid>)
        ensures
            s.width == Self::WIDTH,
            s.height == Self::HEIGHT,
    {
        Size2::new(Self::WIDTH, Self::HEIGHT).unchecked_validate()
    }

    fn set_brightness(&mut self, brightness: u8);

    fn get_brightness(&self) -> u8;

    fn draw(&mut self, command: DrawCommand<Valid>) -> Result<(), Self::Error>;

    /// Paints the rectangle at `at` of `size` with `color`: draws [`fill_command`]`(at, size, color)`
    /// and returns what `draw` returns on it, leaving the screen as `draw` leaves it.
    fn fill(&mut self, at: Position2<Valid>, size: Size2<Valid>, color: Color) -> (r: Result<
        (),
        Self::Error,
    >) where Self: Sized
        ensures
            exists|m: &mut Self, c: DrawCommand<Valid>|
                #[trigger] call_ensures(Self::draw, (m, c), r) && *m == *old(self) && *final(m)
                    == *final(self) && c.at == at && c.size == size && c.color_data@ == Seq::new(
                    (size.width * size.height) as nat,
                    |i: int| color,
                ),
    {
        let command = fill_command(at, size, color);
        // called through a function value, so that the outcome is known as a `call_ensures` of `draw`
        let draw = Self::draw;
        let res = draw(self, command);
        res
    }

    /// Checks a command's position and size against this screen.
    fn validate_draw_command(command: DrawCommand<Unchecked>) -> (res: Option<DrawCommand<Valid>>)
        ensures
            res is Some <==> position_on_screen(
                command.at.x,
                command.at.y,
                Self::WIDTH,
                Self::HEIGHT,
            ) && size_fits_screen(
                command.at.x,
                command.at.y,
                command.size.width,
                command.size.height,
                Self::WIDTH,
                Self::HEIGHT,
            ),
            res is Some <==> (command.at.x < Self::WIDTH && command.at.y < Self::HEIGHT
                && command.size.width > 0 && command.size.height > 0 && command.at.x
                + command.size.width <= Self::WIDTH && command.at.y + command.size.height
                <= Self::HEIGHT),
            res matches Some(c) ==> {
                &&& c.at.x == command.at.x
                &&& c.at.y == command.at.y
                &&& c.size.width == command.size.width
                &&& c.size.height == command.size.height
                &&& c.color_data == command.color_data
            },
    {
        let DrawCommand { at, size, color_data, .. } = command;
        let at = match Self::validate_position(at) {
            Some(at) => at,
            None => return None,
        };
        let size = match Self::validate_size(&at, size) {
            Some(size) => size,
            None => return None,
        };
        Some(DrawCommand { at, size, color_data, validity: PhantomData })
    }

    /// Checks that a position lies on this screen.
    fn validate_position(position: Position2<Unchecked>) -> (res: Option<Position2<Valid>>)
        ensures
            res is Some <==> position_on_screen(position.x, position.y, Self::WIDTH, Self::HEIGHT),
            res matches Some(p) ==> p.x == position.x && p.y == position.y,
            res is Some <==> (position.x < Self::WIDTH && position.y < Self::HEIGHT),
    {
        if position.x < Self::WIDTH && position.y < Self::HEIGHT {
            return Some(position.unchecked_validate());
        }
        None
    }

    /// Checks that a non-empty rectangle of `size` placed at `at` fits on this screen.
    fn validate_size(at: &Position2<Valid>, size: Size2<Unchecked>) -> (res: Option<Size2<Valid>>)
        ensures
            res is Some <==> size_fits_screen(
                at.x,
                at.y,
                size.width,
                size.height,
                Self::WIDTH,
                Self::HEIGHT,
            ),
            res matches Some(s) ==> s.width == size.width && s.height == size.height,
            res is Some <==> (size.width > 0 && size.height > 0 && at.x + size.width <= Self::WIDTH
                && at.y + size.height <= Self::HEIGHT),
    {
        if size.height == 0 || size.width == 0 {
            return None;
        }
        let remaining_width = match Self::WIDTH.checked_sub(at.x) {
            Some(w) => w,
            None => return None,
        };
        let remaining_height = match Self::HEIGHT.checked_sub(at.y) {
            Some(h) => h,
            None => return None,
        };
        if size.width > remaining_width || size.height > remaining_height {
            return None;
        }
        Some(size.unchecked_validate())
    }
}

} // verus!
