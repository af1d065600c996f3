use core::marker::PhantomData;
use vstd::prelude::*;

pub mod validity;

use crate::geometry::validity::{Unchecked, Valid};

verus! {

/// A pixel position; `Validity` records whether it was checked against a screen.
#[derive(Debug)]
pub struct Position2<Validity> {
    pub x: u16,
    pub y: u16,
    pub validity: PhantomData<Validity>,
}

/// A rectangle's extent in pixels; `Validity` records whether it was checked against a screen.
#[derive(Debug)]
pub struct Size2<Validity> {
    pub width: u16,
    pub height: u16,
    pub validity: PhantomData<Validity>,
}

impl<T> Clone for Position2<T> {
    fn clone(&self) -> (p: Self)
        ensures
            p == *self,
    {
        Position2 { x: self.x, y: self.y, validity: PhantomData }
    }
}

impl<T> Clone for Size2<T> {
    fn clone(&self) -> (s: Self)
        ensures
            s == *self,
    {
        Size2 { width: self.width, height: self.height, validity: PhantomData }
    }
}

impl Position2<Unchecked> {
    /// The upper left pixel, valid on every screen.
    pub fn upper_left() -> (p: Position2<Valid>)
        ensures
            p.x == 0,
            p.y == 0,
    {
        Position2 { x: 0, y: 0, validity: PhantomData }
    }

    pub fn new(x: u16, y: u16) -> (p: Position2<Unchecked>)
        ensures
            p.x == x,
            p.y == y,
    {
        Position2 { x, y, validity: PhantomData }
    }

    /// Converts to `Valid` without checking bounds: the caller must know that the
    /// position lies within the target screen.
    pub fn unchecked_validate(self) -> (p: Position2<Valid>)
        ensures
            p.x == self.x,
            p.y == self.y,
    {
        Position2 { x: self.x, y: self.y, validity: PhantomData }
    }
}

impl<T> Size2<T> {
    /// The position of the center pixel of a rectangle of this size placed at the origin.
    pub fn center_position(&self) -> (p: Position2<T>)
        ensures
            p.x == self.width / 2,
            p.y == self.height / 2,
    {
        let x = self.width / 2;
        let y = self.height / 2;
        Position2 { x, y, validity: PhantomData }
    }

    /// Both dimensions divided by `rhs`, rounded down.
    pub fn div(self, rhs: u8) -> (s: Size2<T>)
        requires
            rhs != 0,
        ensures
            s.width == self.width / (rhs as u16),
            s.height == self.height / (rhs as u16),
    {
        let Size2 { width, height, .. } = self;
        Size2 { width: width / rhs as u16, height: height / rhs as u16, validity: PhantomData }
    }
}

impl Size2<Unchecked> {
    pub fn new(width: u16, height: u16) -> (s: Size2<Unchecked>)
        ensures
            s.width == width,
            s.height == height,
    {
        Size2 { width, height, validity: PhantomData }
    }

    /// Converts to `Valid` without checking bounds: the caller must know that the
    /// size fits within the target screen.
    pub fn unchecked_validate(self) -> (s: Size2<Valid>)
        ensures
            s.width == self.width,
            s.height == self.height,
    {
        Size2 { width: self.width, height: self.height, validity: PhantomData }
    }
}

} // verus!
