//! A two-dimensional point with a generic coordinate type, with arithmetic
//! on integer points.

use vstd::prelude::*;
use vstd::std_specs::ops::{
    AddSpecImpl, DivSpecImpl, MulSpecImpl, NegSpecImpl, SubSpecImpl,
};

verus! {

/// Two dimensional point with a generic coordinate type.
#[derive(Copy, Clone, PartialEq, Eq, Default, Debug)]
pub struct Point<T> {
    /// X coordinate.
    pub x: T,
    /// Y coordinate.
    pub y: T,
}

impl<T> Point<T> {
    /// Creates a new point with the given x and y coordinates.
    pub fn new(x: T, y: T) -> (r: Point<T>)
        ensures
            r.x == x,
            r.y == y,
    {
        Point { x, y }
    }

    /// Creates a new point from a single value assigned to both coordinates.
    pub fn broadcast(xy: T) -> (r: Point<T>) where T: Copy
        ensures
            r.x == xy,
            r.y == xy,
    {
        Point { x: xy, y: xy }
    }

    /// Maps `Point<T>` to `Point<U>` by applying a function to each
    /// coordinate.
    pub fn map<U, F: Fn(T) -> U>(self, f: F) -> (r: Point<U>)
        requires
            f.requires((self.x,)),
            f.requires((self.y,)),
        ensures
            f.ensures((self.x,), r.x),
            f.ensures((self.y,), r.y),
    {
        Point { x: f(self.x), y: f(self.y) }
    }
}

impl core::ops::Add for Point<i32> {
    type Output = Point<i32>;

    fn add(self, rhs: Point<i32>) -> (r: Point<i32>) {
        Point { x: self.x + rhs.x, y: self.y + rhs.y }
    }
}

impl AddSpecImpl for Point<i32> {
    open spec fn obeys_add_spec() -> bool {
        true
    }

    open spec fn add_req(self, rhs: Point<i32>) -> bool {
        &&& i32::MIN <= self.x + rhs.x <= i32::MAX
        &&& i32::MIN <= self.y + rhs.y <= i32::MAX
    }

    open spec fn add_spec(self, rhs: Point<i32>) -> Point<i32> {
        Point { x: (self.x + rhs.x) as i32, y: (self.y + rhs.y) as i32 }
    }
}

impl core::ops::Sub for Point<i32> {
    type Output = Point<i32>;

    fn sub(self, rhs: Point<i32>) -> (r: Point<i32>) {
        Point { x: self.x - rhs.x, y: self.y - rhs.y }
    }
}

impl SubSpecImpl for Point<i32> {
    open spec fn obeys_sub_spec() -> bool {
        true
    }

    open spec fn sub_req(self, rhs: Point<i32>) -> bool {
        &&& i32::MIN <= self.x - rhs.x <= i32::MAX
        &&& i32::MIN <= self.y - rhs.y <= i32::MAX
    }

    open spec fn sub_spec(self, rhs: Point<i32>) -> Point<i32> {
        Point { x: (self.x - rhs.x) as i32, y: (self.y - rhs.y) as i32 }
    }
}

impl core::ops::Mul for Point<i32> {
    type Output = Point<i32>;

    fn mul(self, rhs: Point<i32>) -> (r: Point<i32>) {
        Point { x: self.x * rhs.x, y: self.y * rhs.y }
    }
}

impl MulSpecImpl for Point<i32> {
    open spec fn obeys_mul_spec() -> bool {
        true
    }

    open spec fn mul_req(self, rhs: Point<i32>) -> bool {
        &&& i32::MIN <= self.x * rhs.x <= i32::MAX
        &&& i32::MIN <= self.y * rhs.y <= i32::MAX
    }

    open spec fn mul_spec(self, rhs: Point<i32>) -> Point<i32> {
        Point { x: (self.x * rhs.x) as i32, y: (self.y * rhs.y) as i32 }
    }
}

impl core::ops::Mul<i32> for Point<i32> {
    type Output = Point<i32>;

    fn mul(self, rhs: i32) -> (r: Point<i32>) {
        Point { x: self.x * rhs, y: self.y * rhs }
    }
}

impl MulSpecImpl<i32> for Point<i32> {
    open spec fn obeys_mul_spec() -> bool {
        true
    }

    open spec fn mul_req(self, rhs: i32) -> bool {
        &&& i32::MIN <= self.x * rhs <= i32::MAX
        &&& i32::MIN <= self.y * rhs <= i32::MAX
    }

    open spec fn mul_spec(self, rhs: i32) -> Point<i32> {
        Point { x: (self.x * rhs) as i32, y: (self.y * rhs) as i32 }
    }
}

impl core::ops::Div for Point<i32> {
    type Output = Point<i32>;

    fn div(self, rhs: Point<i32>) -> (r: Point<i32>) {
        Point { x: crate::fixed::div_i32(self.x, rhs.x), y: crate::fixed::div_i32(self.y, rhs.y) }
    }
}

impl DivSpecImpl for Point<i32> {
    open spec fn obeys_div_spec() -> bool {
        true
    }

    open spec fn div_req(self, rhs: Point<i32>) -> bool {
        &&& rhs.x != 0
        &&& rhs.y != 0
        &&& !(self.x == i32::MIN && rhs.x == -1)
        &&& !(self.y == i32::MIN && rhs.y == -1)
    }

    open spec fn div_spec(self, rhs: Point<i32>) -> Point<i32> {
        Point {
            x: crate::fixed::trunc_div(self.x as int, rhs.x as int) as i32,
            y: crate::fixed::trunc_div(self.y as int, rhs.y as int) as i32,
        }
    }
}

impl core::ops::Div<i32> for Point<i32> {
    type Output = Point<i32>;

    fn div(self, rhs: i32) -> (r: Point<i32>) {
        Point { x: crate::fixed::div_i32(self.x, rhs), y: crate::fixed::div_i32(self.y, rhs) }
    }
}

impl DivSpecImpl<i32> for Point<i32> {
    open spec fn obeys_div_spec() -> bool {
        true
    }

    open spec fn div_req(self, rhs: i32) -> bool {
        &&& rhs != 0
        &&& !(self.x == i32::MIN && rhs == -1)
        &&& !(self.y == i32::MIN && rhs == -1)
    }

    open spec fn div_spec(self, rhs: i32) -> Point<i32> {
        Point {
            x: crate::fixed::trunc_div(self.x as int, rhs as int) as i32,
            y: crate::fixed::trunc_div(self.y as int, rhs as int) as i32,
        }
    }
}

impl core::ops::Neg for Point<i32> {
    type Output = Point<i32>;

    fn neg(self) -> (r: Point<i32>) {
        Point { x: -self.x, y: -self.y }
    }
}

impl NegSpecImpl for Point<i32> {
    open spec fn obeys_neg_spec() -> bool {
        true
    }

    open spec fn neg_req(self) -> bool {
        &&& self.x != i32::MIN
        &&& self.y != i32::MIN
    }

    open spec fn neg_spec(self) -> Point<i32> {
        Point { x: (-self.x) as i32, y: (-self.y) as i32 }
    }
}

} // verus!
