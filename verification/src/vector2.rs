//! A two-component vector over any scalar type.
//!
//! The arithmetic is componentwise and never changes the scalar type behind
//! the caller's back: two vectors combine only when their scalars do, and the
//! result has whatever type the scalar operation yields.

use std::ops::Add;
use std::ops::Div;
use std::ops::Mul;
use std::ops::Sub;
use vstd::prelude::*;
use vstd::std_specs::convert::FromSpecImpl;
use vstd::std_specs::ops::AddSpec;
use vstd::std_specs::ops::AddSpecImpl;
use vstd::std_specs::ops::DivSpec;
use vstd::std_specs::ops::DivSpecImpl;
use vstd::std_specs::ops::MulSpec;
use vstd::std_specs::ops::MulSpecImpl;
use vstd::std_specs::ops::SubSpec;
use vstd::std_specs::ops::SubSpecImpl;

verus! {

/// A pair of coordinates of one scalar type.
#[derive(Debug, Copy, Clone)]
pub struct Vector2<T: Clone> {
    pub x: T,
    pub y: T,
}

/// Whole-number vectors, such as pixel counts.
pub type Vector2i = Vector2<i32>;

/// A pair of switches, one per axis.
pub type Vector2b = Vector2<bool>;

impl<T: Clone> Vector2<T> {
    /// The vector with the given components.
    pub fn new(x: T, y: T) -> (v: Self)
        ensures
            v.x == x,
            v.y == y,
    {
        Self { x, y }
    }
}

impl<T, Rhs, W> AddSpecImpl<Vector2<Rhs>> for Vector2<T> where
    T: Clone + Add<Rhs, Output = W>,
    Rhs: Clone,
    W: Clone,
 {
    open spec fn obeys_add_spec() -> bool {
        T::obeys_add_spec()
    }

    open spec fn add_req(self, rhs: Vector2<Rhs>) -> bool {
        self.x.add_req(rhs.x) && self.y.add_req(rhs.y)
    }

    open spec fn add_spec(self, rhs: Vector2<Rhs>) -> Vector2<W> {
        Vector2 { x: self.x.add_spec(rhs.x), y: self.y.add_spec(rhs.y) }
    }
}

impl<T, Rhs, W> Add<Vector2<Rhs>> for Vector2<T> where
    T: Clone + Add<Rhs, Output = W>,
    Rhs: Clone,
    W: Clone,
 {
    type Output = Vector2<W>;

    /// Componentwise sum.
    fn add(self, rhs: Vector2<Rhs>) -> (ret: Vector2<W>) {
        Vector2::new(self.x + rhs.x, self.y + rhs.y)
    }
}

impl<T, Rhs, W> SubSpecImpl<Vector2<Rhs>> for Vector2<T> where
    T: Clone + Sub<Rhs, Output = W>,
    Rhs: Clone,
    W: Clone,
 {
    open spec fn obeys_sub_spec() -> bool {
        T::obeys_sub_spec()
    }

    open spec fn sub_req(self, rhs: Vector2<Rhs>) -> bool {
        self.x.sub_req(rhs.x) && self.y.sub_req(rhs.y)
    }

    open spec fn sub_spec(self, rhs: Vector2<Rhs>) -> Vector2<W> {
        Vector2 { x: self.x.sub_spec(rhs.x), y: self.y.sub_spec(rhs.y) }
    }
}

impl<T, Rhs, W> Sub<Vector2<Rhs>> for Vector2<T> where
    T: Clone + Sub<Rhs, Output = W>,
    Rhs: Clone,
    W: Clone,
 {
    type Output = Vector2<W>;

    /// Componentwise difference.
    fn sub(self, rhs: Vector2<Rhs>) -> (ret: Vector2<W>) {
        Vector2::new(self.x - rhs.x, self.y - rhs.y)
    }
}

impl<T, Rhs, W> MulSpecImpl<Rhs> for Vector2<T> where
    T: Clone + Mul<Rhs, Output = W>,
    Rhs: Copy,
    W: Clone,
 {
    open spec fn obeys_mul_spec() -> bool {
        T::obeys_mul_spec()
    }

    open spec fn mul_req(self, rhs: Rhs) -> bool {
        self.x.mul_req(rhs) && self.y.mul_req(rhs)
    }

    open spec fn mul_spec(self, rhs: Rhs) -> Vector2<W> {
        Vector2 { x: self.x.mul_spec(rhs), y: self.y.mul_spec(rhs) }
    }
}

impl<T, Rhs, W> Mul<Rhs> for Vector2<T> where
    T: Clone + Mul<Rhs, Output = W>,
    Rhs: Copy,
    W: Clone,
 {
    type Output = Vector2<W>;

    /// Both components times one scalar.
    fn mul(self, rhs: Rhs) -> (ret: Vector2<W>) {
        Vector2::new(self.x * rhs, self.y * rhs)
    }
}

impl<T, Rhs, W> DivSpecImpl<Rhs> for Vector2<T> where
    T: Clone + Div<Rhs, Output = W>,
    Rhs: Copy,
    W: Clone,
 {
    open spec fn obeys_div_spec() -> bool {
        T::obeys_div_spec()
    }

    open spec fn div_req(self, rhs: Rhs) -> bool {
        self.x.div_req(rhs) && self.y.div_req(rhs)
    }

    open spec fn div_spec(self, rhs: Rhs) -> Vector2<W> {
        Vector2 { x: self.x.div_spec(rhs), y: self.y.div_spec(rhs) }
    }
}

impl<T, Rhs, W> Div<Rhs> for Vector2<T> where
    T: Clone + Div<Rhs, Output = W>,
    Rhs: Copy,
    W: Clone,
 {
    type Output = Vector2<W>;

    /// Both components divided by one scalar.
    fn div(self, rhs: Rhs) -> (ret: Vector2<W>) {
        Vector2::new(self.x / rhs, self.y / rhs)
    }
}

impl<T: Copy> Vector2<T> {
    /// Adds `rhs` to this vector in place.
    pub fn add_assign<Rhs: Clone>(&mut self, rhs: Vector2<Rhs>) where T: Add<Rhs, Output = T>
        requires
            old(self).x.add_req(rhs.x),
            old(self).y.add_req(rhs.y),
        ensures
            T::obeys_add_spec() ==> final(self).x == old(self).x.add_spec(rhs.x),
            T::obeys_add_spec() ==> final(self).y == old(self).y.add_spec(rhs.y),
    {
        self.x = self.x + rhs.x;
        self.y = self.y + rhs.y;
    }

    /// Subtracts `rhs` from this vector in place.
    pub fn sub_assign<Rhs: Clone>(&mut self, rhs: Vector2<Rhs>) where T: Sub<Rhs, Output = T>
        requires
            old(self).x.sub_req(rhs.x),
            old(self).y.sub_req(rhs.y),
        ensures
            T::obeys_sub_spec() ==> final(self).x == old(self).x.sub_spec(rhs.x),
            T::obeys_sub_spec() ==> final(self).y == old(self).y.sub_spec(rhs.y),
    {
        self.x = self.x - rhs.x;
        self.y = self.y - rhs.y;
    }

    /// Scales this vector by `rhs` in place.
    pub fn mul_assign<Rhs: Copy>(&mut self, rhs: Rhs) where T: Mul<Rhs, Output = T>
        requires
            old(self).x.mul_req(rhs),
            old(self).y.mul_req(rhs),
        ensures
            T::obeys_mul_spec() ==> final(self).x == old(self).x.mul_spec(rhs),
            T::obeys_mul_spec() ==> final(self).y == old(self).y.mul_spec(rhs),
    {
        self.x = self.x * rhs;
        self.y = self.y * rhs;
    }

    /// Divides this vector by `rhs` in place.
    pub fn div_assign<Rhs: Copy>(&mut self, rhs: Rhs) where T: Div<Rhs, Output = T>
        requires
            old(self).x.div_req(rhs),
            old(self).y.div_req(rhs),
        ensures
            T::obeys_div_spec() ==> final(self).x == old(self).x.div_spec(rhs),
            T::obeys_div_spec() ==> final(self).y == old(self).y.div_spec(rhs),
    {
        self.x = self.x / rhs;
        self.y = self.y / rhs;
    }
}

impl<T: Clone + Default> Default for Vector2<T> {
    /// Both components are the scalar's own default.
    fn default() -> (v: Self)
        ensures
            call_ensures(T::default, (), v.x),
            call_ensures(T::default, (), v.y),
    {
        Self::new(T::default(), T::default())
    }
}

impl<T: Clone> FromSpecImpl<Vector2<T>> for (T, T) {
    open spec fn obeys_from_spec() -> bool {
        true
    }

    open spec fn from_spec(val: Vector2<T>) -> (T, T) {
        (val.x, val.y)
    }
}

impl<T: Clone> From<Vector2<T>> for (T, T) {
    fn from(val: Vector2<T>) -> (pair: (T, T)) {
        (val.x, val.y)
    }
}

impl<T: Clone> FromSpecImpl<Vector2<T>> for [T; 2] {
    open spec fn obeys_from_spec() -> bool {
        true
    }

    open spec fn from_spec(val: Vector2<T>) -> [T; 2] {
        [val.x, val.y]
    }
}

impl<T: Clone> From<Vector2<T>> for [T; 2] {
    fn from(val: Vector2<T>) -> (pair: [T; 2]) {
        [val.x, val.y]
    }
}

impl<T: Clone> FromSpecImpl<(T, T)> for Vector2<T> {
    open spec fn obeys_from_spec() -> bool {
        true
    }

    open spec fn from_spec(val: (T, T)) -> Vector2<T> {
        Vector2 { x: val.0, y: val.1 }
    }
}

impl<T: Clone> From<(T, T)> for Vector2<T> {
    fn from(val: (T, T)) -> (v: Vector2<T>) {
        Vector2::new(val.0, val.1)
    }
}

impl<T: Copy> FromSpecImpl<[T; 2]> for Vector2<T> {
    open spec fn obeys_from_spec() -> bool {
        true
    }

    open spec fn from_spec(val: [T; 2]) -> Vector2<T> {
        Vector2 { x: val[0], y: val[1] }
    }
}

impl<T: Copy> From<[T; 2]> for Vector2<T> {
    fn from(val: [T; 2]) -> (v: Vector2<T>) {
        Vector2::new(val[0], val[1])
    }
}

} // verus!
