//! Rectangles: construction, area, and containment.
use vstd::prelude::*;

verus! {

/// A rectangle with a width and a height.
#[derive(Debug)]
pub struct Rectangle {
    width: u32,
    height: u32,
}

impl Rectangle {
    /// The rectangle's width.
    pub closed spec fn spec_width(&self) -> int {
        self.width as int
    }

    /// The rectangle's height.
    pub closed spec fn spec_height(&self) -> int {
        self.height as int
    }

    /// A rectangle of the given width and height.
    pub fn new(width: u32, height: u32) -> (r: Rectangle)
        ensures
            r.spec_width() == width,
            r.spec_height() == height,
    {
        Rectangle { width, height }
    }

    /// Whether `other` fits strictly inside this rectangle.
    pub fn can_hold(&self, other: &Rectangle) -> (r: bool)
        ensures
            r == (self.spec_width() > other.spec_width() && self.spec_height()
                > other.spec_height()),
    {
        self.width > other.width && self.height > other.height
    }

    /// The rectangle's area.
    pub fn area(&self) -> (a: u32)
        requires
            self.spec_width() * self.spec_height() <= u32::MAX,
        ensures
            a == self.spec_width() * self.spec_height(),
    {
        self.width * self.height
    }

    /// A square of the given side.
    pub fn square(size: u32) -> (r: Rectangle)
        ensures
            r.spec_width() == size,
            r.spec_height() == size,
    {
        Rectangle { width: size, height: size }
    }
}

} // verus!
