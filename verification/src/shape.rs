use vstd::prelude::*;

use crate::color::{repeat_color, Color};
use crate::geometry::validity::Valid;
use crate::geometry::{Position2, Size2};
use crate::screen::DrawCommand;

verus! {

/// Something that can be drawn as a list of draw commands.
pub trait Shape<Validity> {
    /// Whether the shape's draw commands stay within the range of pixel coordinates.
    spec fn can_draw(&self) -> bool;

    fn to_draw_commands(&self) -> Vec<DrawCommand<Validity>>
        requires
            self.can_draw(),
    ;
}

/// A filled rectangle whose corners are rounded with `corner_radius`.
#[derive(Debug)]
pub struct Rectangle {
    pub position: Position2<Valid>,
    pub size: Size2<Valid>,
    pub corner_radius: u16,
    pub fill: Color,
}

impl Clone for Rectangle {
    fn clone(&self) -> (r: Self)
        ensures
            r == *self,
    {
        Rectangle {
            position: self.position.clone(),
            size: self.size.clone(),
            corner_radius: self.corner_radius,
            fill: self.fill,
        }
    }
}

/// `r` is the square root of `n` rounded down.
pub open spec fn is_floor_sqrt(n: int, r: int) -> bool {
    0 <= r && r * r <= n < (r + 1) * (r + 1)
}

/// The square root of `n` rounded down.
pub open spec fn floor_sqrt(n: int) -> int {
    choose|r: int| is_floor_sqrt(n, r)
}

/// A non-negative integer has exactly one square root rounded down.
pub proof fn lemma_floor_sqrt_unique(n: int, r: int)
    requires
        is_floor_sqrt(n, r),
    ensures
        floor_sqrt(n) == r,
{
    let s = floor_sqrt(n);
    assert(is_floor_sqrt(n, s));
    if s < r {
        assert((s + 1) * (s + 1) <= r * r) by (nonlinear_arith)
            requires
                0 <= s < r,
        ;
    } else if r < s {
        assert((r + 1) * (r + 1) <= s * s) by (nonlinear_arith)
            requires
                0 <= r < s,
        ;
    }
}

/// The square root of `n` rounded down.
fn integer_sqrt(n: u16) -> (r: u16)
    ensures
        r == floor_sqrt(n as int),
        r <= 255,
{
    let mut r: u32 = 0;
    while (r + 1) * (r + 1) <= n as u32
        invariant
            r * r <= n,
            r <= 255,
            (r + 1) * (r + 1) <= 0x10000,
        decreases 255 - r,
    {
        assert(r + 1 <= 255) by (nonlinear_arith)
            requires
                (r + 1) * (r + 1) <= 0xffff,
        ;
        r = r + 1;
        assert((r + 1) * (r + 1) <= 0x10000) by (nonlinear_arith)
            requires
                r <= 255,
        ;
    }
    proof {
        lemma_floor_sqrt_unique(n as int, r as int);
    }
    r as u16
}

/// The corner radius actually drawn: at most half the smaller side.
pub open spec fn normalized_radius(rect: Rectangle) -> int {
    let smaller = if rect.size.width <= rect.size.height {
        rect.size.width
    } else {
        rect.size.height
    };
    if rect.corner_radius <= smaller / 2 {
        rect.corner_radius as int
    } else {
        (smaller / 2) as int
    }
}

/// How many pixels row `y` of the rectangle leaves out at each end.
/// Rows `r..=height - r` are full; in the rows above and below, at vertical distance `d`
/// from row `r` or row `height - r`, the inset is `r - floor_sqrt(r * r - d * d)`.
pub open spec fn row_inset(rect: Rectangle, y: int) -> int {
    let r = normalized_radius(rect);
    let h = rect.size.height as int;
    if r <= y <= h - r {
        0
    } else if y < r {
        r - floor_sqrt(r * r - (r - y) * (r - y))
    } else {
        r - floor_sqrt(r * r - (y - (h - r)) * (y - (h - r)))
    }
}

/// Whether every row command of the rectangle has coordinates within `u16`.
pub open spec fn rectangle_drawable(rect: Rectangle) -> bool {
    let r = normalized_radius(rect);
    ||| rect.size.height == 0
    ||| {
        &&& r <= 255
        &&& rect.position.x + r <= u16::MAX
        &&& rect.position.y + rect.size.height - 1 <= u16::MAX
    }
}

/// `command` draws row `y` of the rectangle.
pub open spec fn is_row_command(rect: Rectangle, command: DrawCommand<Valid>, y: int) -> bool {
    let inset = row_inset(rect, y);
    &&& command.at.x == rect.position.x + inset
    &&& command.at.y == rect.position.y + y
    &&& command.size.width == rect.size.width - 2 * inset
    &&& command.size.height == 1
    &&& command.color_data@ == Seq::new((rect.size.width - 2 * inset) as nat, |i: int| rect.fill)
}

/// The square root rounded down of a number below `r * r` is below `r`.
proof fn lemma_floor_sqrt_le(n: int, r: int)
    requires
        0 <= n <= r * r,
        0 <= r,
    ensures
        0 <= floor_sqrt(n) <= r,
{
    lemma_floor_sqrt_exists(n);
    let s = floor_sqrt(n);
    if s > r {
        assert((r + 1) * (r + 1) <= s * s) by (nonlinear_arith)
            requires
                0 <= r < s,
        ;
        assert(r * r < (r + 1) * (r + 1)) by (nonlinear_arith)
            requires
                0 <= r,
        ;
    }
}

/// Every non-negative integer has a square root rounded down.
pub proof fn lemma_floor_sqrt_exists(n: int)
    requires
        0 <= n,
    ensures
        is_floor_sqrt(n, floor_sqrt(n)),
    decreases n,
{
    if n == 0 {
        assert(is_floor_sqrt(0, 0));
    } else {
        lemma_floor_sqrt_exists(n - 1);
        let s = floor_sqrt(n - 1);
        if (s + 1) * (s + 1) <= n {
            assert((s + 1) * (s + 1) == n);
            assert(n < (s + 2) * (s + 2)) by (nonlinear_arith)
                requires
                    (s + 1) * (s + 1) == n,
                    0 <= s,
            ;
            assert(is_floor_sqrt(n, s + 1));
        } else {
            assert(is_floor_sqrt(n, s));
        }
    }
}

/// Square roots rounded down grow with their argument.
pub proof fn lemma_floor_sqrt_monotonic(n1: int, n2: int)
    requires
        0 <= n1 <= n2,
    ensures
        floor_sqrt(n1) <= floor_sqrt(n2),
{
    lemma_floor_sqrt_exists(n1);
    lemma_floor_sqrt_exists(n2);
    let s1 = floor_sqrt(n1);
    let s2 = floor_sqrt(n2);
    if s1 > s2 {
        assert((s2 + 1) * (s2 + 1) <= s1 * s1) by (nonlinear_arith)
            requires
                0 <= s2 < s1,
        ;
    }
}

/// Every row of a rectangle lies within the rectangle: it is indented by at most the
/// normalized corner radius at each end, and both indents together fit in the width.
pub proof fn lemma_row_within_rectangle(rect: Rectangle, y: int)
    requires
        0 <= y < rect.size.height,
    ensures
        0 <= row_inset(rect, y) <= normalized_radius(rect),
        2 * row_inset(rect, y) <= rect.size.width,
{
    let r = normalized_radius(rect);
    let h = rect.size.height as int;
    if !(r <= y <= h - r) {
        let d = if y < r { r - y } else { y - (h - r) };
        assert(0 <= d * d <= r * r) by (nonlinear_arith)
            requires
                0 <= d <= r,
        ;
        lemma_floor_sqrt_le(r * r - d * d, r);
    }
}

/// The top corner rows widen toward the middle: a higher row is indented at least as far
/// as a lower one.
pub proof fn lemma_top_rows_widen(rect: Rectangle, y1: int, y2: int)
    requires
        0 <= y1 <= y2 < normalized_radius(rect),
        y2 < rect.size.height,
    ensures
        row_inset(rect, y1) >= row_inset(rect, y2),
{
    let r = normalized_radius(rect);
    let d1 = r - y1;
    let d2 = r - y2;
    assert(0 <= r * r - d1 * d1 <= r * r - d2 * d2) by (nonlinear_arith)
        requires
            0 < d2 <= d1 <= r,
    ;
    lemma_floor_sqrt_monotonic(r * r - d1 * d1, r * r - d2 * d2);
}

/// The bottom corner rows narrow toward the bottom edge: a lower row is indented at least
/// as far as a higher one.
pub proof fn lemma_bottom_rows_narrow(rect: Rectangle, y1: int, y2: int)
    requires
        rect.size.height - normalized_radius(rect) < y1 <= y2 < rect.size.height,
    ensures
        row_inset(rect, y1) <= row_inset(rect, y2),
{
    let r = normalized_radius(rect);
    let h = rect.size.height as int;
    let d1 = y1 - (h - r);
    let d2 = y2 - (h - r);
    assert(0 <= r * r - d2 * d2 <= r * r - d1 * d1) by (nonlinear_arith)
        requires
            0 < d1 <= d2 <= r,
    ;
    lemma_floor_sqrt_monotonic(r * r - d2 * d2, r * r - d1 * d1);
}

/// The rows of a rounded rectangle in closed form: with the drawn radius
/// `r = min(corner_radius, min(width, height) / 2)`, every row `y` with `r <= y <= height - r`
/// is indented by nothing; any other row, at distance `d` from the nearer of rows `r` and
/// `height - r`, is indented by `r - s` where `s` is the square root of `r * r - d * d`
/// rounded down, so its ends lie on the circle of radius `r`.
pub proof fn lemma_row_inset_closed_form(rect: Rectangle, y: int)
    requires
        0 <= y < rect.size.height,
    ensures
        ({
            let w = rect.size.width as int;
            let h = rect.size.height as int;
            let smaller = if w <= h { w } else { h };
            let r = if rect.corner_radius <= smaller / 2 {
                rect.corner_radius as int
            } else {
                smaller / 2
            };
            let inset = row_inset(rect, y);
            let d = if y < r { r - y } else { y - (h - r) };
            &&& 0 <= inset <= r
            &&& 2 * inset <= w
            &&& (r <= y <= h - r ==> inset == 0)
            &&& (!(r <= y <= h - r) ==> 0 <= r - inset && (r - inset) * (r - inset) <= r * r - d * d
                < (r - inset + 1) * (r - inset + 1))
        }),
{
    lemma_row_within_rectangle(rect, y);
    let r = normalized_radius(rect);
    let h = rect.size.height as int;
    if !(r <= y <= h - r) {
        let d = if y < r { r - y } else { y - (h - r) };
        assert(0 <= d * d <= r * r) by (nonlinear_arith)
            requires
                0 <= d <= r,
        ;
        lemma_floor_sqrt_exists(r * r - d * d);
    }
}

impl Rectangle {
    /// Whether [`Shape::to_draw_commands`] can be called: every row command's coordinates
    /// fit in a `u16` and the corner radius is at most 255.
    pub fn drawable(&self) -> (ok: bool)
        ensures
            ok == rectangle_drawable(*self),
            ok == ({
                let w = self.size.width as int;
                let h = self.size.height as int;
                let smaller = if w <= h { w } else { h };
                let r = if self.corner_radius <= smaller / 2 {
                    self.corner_radius as int
                } else {
                    smaller / 2
                };
                h == 0 || (r <= 255 && self.position.x + r <= 0xffff && self.position.y + h - 1 <= 0xffff)
            }),
    {
        let width = self.size.width;
        let height = self.size.height;
        let smaller = if width <= height {
            width
        } else {
            height
        };
        let radius = if self.corner_radius <= smaller / 2 {
            self.corner_radius
        } else {
            smaller / 2
        };
        height == 0 || (radius <= 255 && self.position.x as u32 + radius as u32 <= 0xffff
            && self.position.y as u32 + height as u32 <= 0x10000)
    }
}

impl Shape<Valid> for Rectangle {
    open spec fn can_draw(&self) -> bool {
        rectangle_drawable(*self)
    }

    /// One command per row, top to bottom: row `y` starts `row_inset(y)` pixels right of
    /// the rectangle's left edge and is `width - 2 * row_inset(y)` pixels wide.
    fn to_draw_commands(&self) -> (commands: Vec<DrawCommand<Valid>>)
        ensures
            commands.len() == self.size.height,
            forall|y: int|
                0 <= y < commands.len() ==> is_row_command(*self, #[trigger] commands@[y], y),
            forall|y: int|
                #![trigger commands@[y]]
                0 <= y < commands.len() ==> {
                    let w = self.size.width as int;
                    let h = self.size.height as int;
                    let smaller = if w <= h { w } else { h };
                    let r = if self.corner_radius <= smaller / 2 {
                        self.corner_radius as int
                    } else {
                        smaller / 2
                    };
                    let inset = commands@[y].at.x - self.position.x;
                    let d = if y < r { r - y } else { y - (h - r) };
                    &&& commands@[y].at.y == self.position.y + y
                    &&& commands@[y].size.height == 1
                    &&& commands@[y].size.width == w - 2 * inset
                    &&& commands@[y].color_data@ == Seq::new(commands@[y].size.width as nat, |i: int| self.fill)
                    &&& 0 <= inset <= r
                    &&& (r <= y <= h - r ==> inset == 0)
                    &&& (!(r <= y <= h - r) ==> 0 <= r - inset && (r - inset) * (r - inset) <= r * r
                        - d * d < (r - inset + 1) * (r - inset + 1))
                },
    {
        let width = self.size.width;
        let height = self.size.height;
        let smaller_dimension = if width <= height {
            width
        } else {
            height
        };
        let normalized_corner_radius = if self.corner_radius <= smaller_dimension / 2 {
            self.corner_radius
        } else {
            smaller_dimension / 2
        };
        let center_y = height / 2;
        let top_corner_y = if normalized_corner_radius <= center_y {
            normalized_corner_radius
        } else {
            center_y
        };
        let below_corner = height.saturating_sub(normalized_corner_radius);
        let bottom_corner_y = if below_corner >= center_y {
            below_corner
        } else {
            center_y
        };
        let ghost r = normalized_radius(*self);
        assert(normalized_corner_radius == r);
        assert(top_corner_y == r);
        assert(bottom_corner_y == height - r);

        let mut commands: Vec<DrawCommand<Valid>> = Vec::new();
        let mut y: u16 = 0;
        while y < height
            invariant
                y <= height,
                height == self.size.height,
                width == self.size.width,
                normalized_corner_radius == r,
                r == normalized_radius(*self),
                2 * r <= width,
                2 * r <= height,
                center_y == height / 2,
                top_corner_y == r,
                bottom_corner_y == height - r,
                rectangle_drawable(*self),
                commands.len() == y,
                forall|i: int| 0 <= i < y ==> is_row_command(*self, #[trigger] commands@[i], i),
            decreases height - y,
        {
            let inset = if y >= top_corner_y && y <= bottom_corner_y {
                0
            } else {
                let closest_corner_y = if y < center_y {
                    top_corner_y
                } else {
                    bottom_corner_y
                };
                let distance = if closest_corner_y >= y {
                    closest_corner_y - y
                } else {
                    y - closest_corner_y
                };
                assert(distance <= r);
                assert(r * r <= 255 * 255 && distance * distance <= r * r) by (nonlinear_arith)
                    requires
                        0 <= distance <= r <= 255,
                ;
                let radius_squared = normalized_corner_radius * normalized_corner_radius;
                let distance_squared = distance * distance;
                let gap = if radius_squared >= distance_squared {
                    radius_squared - distance_squared
                } else {
                    distance_squared - radius_squared
                };
                let root = integer_sqrt(gap);
                proof {
                    lemma_floor_sqrt_le(gap as int, r);
                }
                normalized_corner_radius.saturating_sub(root)
            };
            assert(inset == row_inset(*self, y as int));
            assert(inset <= r);
            let total_inset = inset * 2;
            let row_width = match width.checked_sub(total_inset) {
                Some(w) => w,
                None => width,
            };
            let colors = repeat_color(self.fill, row_width as usize);
            let position = Position2::new(inset + self.position.x, y + self.position.y);
            let size = Size2::new(row_width, 1);
            let command = DrawCommand::new(position, size, colors).unchecked_validate();
            commands.push(command);
            assert(is_row_command(*self, commands@[y as int], y as int));
            proof {
                lemma_row_inset_closed_form(*self, y as int);
            }
            y = y + 1;
        }
        proof {
            assert forall|y: int| 0 <= y < commands.len() implies #[trigger] commands@[y].at.x
                == self.position.x + row_inset(*self, y) by {
                lemma_row_inset_closed_form(*self, y);
            }
            assert forall|y: int| 0 <= y < commands.len() implies is_row_command(*self, #[trigger] commands@[y], y) && {
                let w = self.size.width as int;
                let h = self.size.height as int;
                let smaller = if w <= h { w } else { h };
                let r = if self.corner_radius <= smaller / 2 {
                    self.corner_radius as int
                } else {
                    smaller / 2
                };
                let inset = row_inset(*self, y);
                let d = if y < r { r - y } else { y - (h - r) };
                &&& 0 <= inset <= r
                &&& (r <= y <= h - r ==> inset == 0)
                &&& (!(r <= y <= h - r) ==> 0 <= r - inset && (r - inset) * (r - inset) <= r * r
                    - d * d < (r - inset + 1) * (r - inset + 1))
            } by {
                lemma_row_inset_closed_form(*self, y);
            }
        }
        commands
    }
}

} // verus!
