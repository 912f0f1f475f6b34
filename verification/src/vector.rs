use std::ops::{Add, AddAssign, Div, DivAssign, Mul, MulAssign, Sub, SubAssign};
use vstd::prelude::*;
use vstd::std_specs::ops::{AddSpec, DivSpec, MulSpec, SubSpec};

verus! {

/// A pair of coordinates.
#[derive(Debug, Default, Copy, Clone)]
pub struct Vector2<T> {
    pub x: T,
    pub y: T,
}

impl<T: Copy + Clone> Vector2<T> {
    pub fn new(x: T, y: T) -> (v: Vector2<T>)
        ensures
            v == (Vector2 { x, y }),
    {
        Vector2 { x, y }
    }

    /// The vector whose coordinates all equal `s`.
    pub fn from_scalar(s: T) -> (v: Vector2<T>)
        ensures
            v == (Vector2 { x: s, y: s }),
    {
        Vector2 { x: s, y: s }
    }
}

/// Coordinate by coordinate: the sum is defined where it is defined for
/// each pair of coordinates, and holds their sums.
impl<T: Add<Output = T>> vstd::std_specs::ops::AddSpecImpl<Vector2<T>> for Vector2<T> {
    open spec fn obeys_add_spec() -> bool {
        T::obeys_add_spec()
    }

    open spec fn add_req(self, rhs: Vector2<T>) -> bool {
        self.x.add_req(rhs.x) && self.y.add_req(rhs.y)
    }

    open spec fn add_spec(self, rhs: Vector2<T>) -> Vector2<T> {
        Vector2 { x: self.x.add_spec(rhs.x), y: self.y.add_spec(rhs.y) }
    }
}

impl<T: Add<Output = T>> Add<Vector2<T>> for Vector2<T> {
    type Output = Vector2<T>;

    fn add(self, rhs: Vector2<T>) -> Vector2<T> {
        Vector2 { x: self.x + rhs.x, y: self.y + rhs.y }
    }
}

/// Coordinate by coordinate: the difference is defined where it is defined for
/// each pair of coordinates, and holds their differences.
impl<T: Sub<Output = T>> vstd::std_specs::ops::SubSpecImpl<Vector2<T>> for Vector2<T> {
    open spec fn obeys_sub_spec() -> bool {
        T::obeys_sub_spec()
    }

    open spec fn sub_req(self, rhs: Vector2<T>) -> bool {
        self.x.sub_req(rhs.x) && self.y.sub_req(rhs.y)
    }

    open spec fn sub_spec(self, rhs: Vector2<T>) -> Vector2<T> {
        Vector2 { x: self.x.sub_spec(rhs.x), y: self.y.sub_spec(rhs.y) }
    }
}

impl<T: Sub<Output = T>> Sub<Vector2<T>> for Vector2<T> {
    type Output = Vector2<T>;

    fn sub(self, rhs: Vector2<T>) -> Vector2<T> {
        Vector2 { x: self.x - rhs.x, y: self.y - rhs.y }
    }
}

/// Coordinate by coordinate: the product is defined where it is defined for
/// each pair of coordinates, and holds their products.
impl<T: Mul<Output = T>> vstd::std_specs::ops::MulSpecImpl<Vector2<T>> for Vector2<T> {
    open spec fn obeys_mul_spec() -> bool {
        T::obeys_mul_spec()
    }

    open spec fn mul_req(self, rhs: Vector2<T>) -> bool {
        self.x.mul_req(rhs.x) && self.y.mul_req(rhs.y)
    }

    open spec fn mul_spec(self, rhs: Vector2<T>) -> Vector2<T> {
        Vector2 { x: self.x.mul_spec(rhs.x), y: self.y.mul_spec(rhs.y) }
    }
}

impl<T: Mul<Output = T>> Mul<Vector2<T>> for Vector2<T> {
    type Output = Vector2<T>;

    fn mul(self, rhs: Vector2<T>) -> Vector2<T> {
        Vector2 { x: self.x * rhs.x, y: self.y * rhs.y }
    }
}

/// Coordinate by coordinate: the quotient is defined where it is defined for
/// each pair of coordinates, and holds their quotients.
impl<T: Div<Output = T>> vstd::std_specs::ops::DivSpecImpl<Vector2<T>> for Vector2<T> {
    open spec fn obeys_div_spec() -> bool {
        T::obeys_div_spec()
    }

    open spec fn div_req(self, rhs: Vector2<T>) -> bool {
        self.x.div_req(rhs.x) && self.y.div_req(rhs.y)
    }

    open spec fn div_spec(self, rhs: Vector2<T>) -> Vector2<T> {
        Vector2 { x: self.x.div_spec(rhs.x), y: self.y.div_spec(rhs.y) }
    }
}

impl<T: Div<Output = T>> Div<Vector2<T>> for Vector2<T> {
    type Output = Vector2<T>;

    fn div(self, rhs: Vector2<T>) -> Vector2<T> {
        Vector2 { x: self.x / rhs.x, y: self.y / rhs.y }
    }
}

impl<T: Add<Output = T> + Copy> AddAssign<Vector2<T>> for Vector2<T> {
    fn add_assign(&mut self, rhs: Vector2<T>)
        requires
            old(self).add_req(rhs),
        ensures
            Vector2::<T>::obeys_add_spec() ==> *final(self) == old(self).add_spec(rhs),
    {
        *self = *self + rhs;
    }
}

impl<T: Sub<Output = T> + Copy> SubAssign<Vector2<T>> for Vector2<T> {
    fn sub_assign(&mut self, rhs: Vector2<T>)
        requires
            old(self).sub_req(rhs),
        ensures
            Vector2::<T>::obeys_sub_spec() ==> *final(self) == old(self).sub_spec(rhs),
    {
        *self = *self - rhs;
    }
}

impl<T: Mul<Output = T> + Copy> MulAssign<Vector2<T>> for Vector2<T> {
    fn mul_assign(&mut self, rhs: Vector2<T>)
        requires
            old(self).mul_req(rhs),
        ensures
            Vector2::<T>::obeys_mul_spec() ==> *final(self) == old(self).mul_spec(rhs),
    {
        *self = *self * rhs;
    }
}

impl<T: Div<Output = T> + Copy> DivAssign<Vector2<T>> for Vector2<T> {
    fn div_assign(&mut self, rhs: Vector2<T>)
        requires
            old(self).div_req(rhs),
        ensures
            Vector2::<T>::obeys_div_spec() ==> *final(self) == old(self).div_spec(rhs),
    {
        *self = *self / rhs;
    }
}

/// Four coordinates, as a colour has them.
#[derive(Debug, Default, Copy, Clone)]
pub struct Vector4<T> {
    pub x: T,
    pub y: T,
    pub z: T,
    pub w: T,
}

impl<T: Copy + Clone> Vector4<T> {
    pub fn new(x: T, y: T, z: T, w: T) -> (v: Vector4<T>)
        ensures
            v == (Vector4 { x, y, z, w }),
    {
        Vector4 { x, y, z, w }
    }

    /// The vector whose coordinates all equal `s`.
    pub fn from_scalar(s: T) -> (v: Vector4<T>)
        ensures
            v == (Vector4 { x: s, y: s, z: s, w: s }),
    {
        Vector4 { x: s, y: s, z: s, w: s }
    }
}

/// Coordinate by coordinate: the sum is defined where it is defined for
/// each pair of coordinates, and holds their sums.
impl<T: Add<Output = T>> vstd::std_specs::ops::AddSpecImpl<Vector4<T>> for Vector4<T> {
    open spec fn obeys_add_spec() -> bool {
        T::obeys_add_spec()
    }

    open spec fn add_req(self, rhs: Vector4<T>) -> bool {
        self.x.add_req(rhs.x)
            && self.y.add_req(rhs.y)
            && self.z.add_req(rhs.z)
            && self.w.add_req(rhs.w)
    }

    open spec fn add_spec(self, rhs: Vector4<T>) -> Vector4<T> {
        Vector4 {
            x: self.x.add_spec(rhs.x),
            y: self.y.add_spec(rhs.y),
            z: self.z.add_spec(rhs.z),
            w: self.w.add_spec(rhs.w),
        }
    }
}

impl<T: Add<Output = T>> Add<Vector4<T>> for Vector4<T> {
    type Output = Vector4<T>;

    fn add(self, rhs: Vector4<T>) -> Vector4<T> {
        Vector4 { x: self.x + rhs.x, y: self.y + rhs.y, z: self.z + rhs.z, w: self.w + rhs.w }
    }
}

/// Coordinate by coordinate: the difference is defined where it is defined for
/// each pair of coordinates, and holds their differences.
impl<T: Sub<Output = T>> vstd::std_specs::ops::SubSpecImpl<Vector4<T>> for Vector4<T> {
    open spec fn obeys_sub_spec() -> bool {
        T::obeys_sub_spec()
    }

    open spec fn sub_req(self, rhs: Vector4<T>) -> bool {
        self.x.sub_req(rhs.x)
            && self.y.sub_req(rhs.y)
            && self.z.sub_req(rhs.z)
            && self.w.sub_req(rhs.w)
    }

    open spec fn sub_spec(self, rhs: Vector4<T>) -> Vector4<T> {
        Vector4 {
            x: self.x.sub_spec(rhs.x),
            y: self.y.sub_spec(rhs.y),
            z: self.z.sub_spec(rhs.z),
            w: self.w.sub_spec(rhs.w),
        }
    }
}

impl<T: Sub<Output = T>> Sub<Vector4<T>> for Vector4<T> {
    type Output = Vector4<T>;

    fn sub(self, rhs: Vector4<T>) -> Vector4<T> {
        Vector4 { x: self.x - rhs.x, y: self.y - rhs.y, z: self.z - rhs.z, w: self.w - rhs.w }
    }
}

/// Coordinate by coordinate: the product is defined where it is defined for
/// each pair of coordinates, and holds their products.
impl<T: Mul<Output = T>> vstd::std_specs::ops::MulSpecImpl<Vector4<T>> for Vector4<T> {
    open spec fn obeys_mul_spec() -> bool {
        T::obeys_mul_spec()
    }

    open spec fn mul_req(self, rhs: Vector4<T>) -> bool {
        self.x.mul_req(rhs.x)
            && self.y.mul_req(rhs.y)
            && self.z.mul_req(rhs.z)
            && self.w.mul_req(rhs.w)
    }

    open spec fn mul_spec(self, rhs: Vector4<T>) -> Vector4<T> {
        Vector4 {
            x: self.x.mul_spec(rhs.x),
            y: self.y.mul_spec(rhs.y),
            z: self.z.mul_spec(rhs.z),
            w: self.w.mul_spec(rhs.w),
        }
    }
}

impl<T: Mul<Output = T>> Mul<Vector4<T>> for Vector4<T> {
    type Output = Vector4<T>;

    fn mul(self, rhs: Vector4<T>) -> Vector4<T> {
        Vector4 { x: self.x * rhs.x, y: self.y * rhs.y, z: self.z * rhs.z, w: self.w * rhs.w }
    }
}

/// Coordinate by coordinate: the quotient is defined where it is defined for
/// each pair of coordinates, and holds their quotients.
impl<T: Div<Output = T>> vstd::std_specs::ops::DivSpecImpl<Vector4<T>> for Vector4<T> {
    open spec fn obeys_div_spec() -> bool {
        T::obeys_div_spec()
    }

    open spec fn div_req(self, rhs: Vector4<T>) -> bool {
        self.x.div_req(rhs.x)
            && self.y.div_req(rhs.y)
            && self.z.div_req(rhs.z)
            && self.w.div_req(rhs.w)
    }

    open spec fn div_spec(self, rhs: Vector4<T>) -> Vector4<T> {
        Vector4 {
            x: self.x.div_spec(rhs.x),
            y: self.y.div_spec(rhs.y),
            z: self.z.div_spec(rhs.z),
            w: self.w.div_spec(rhs.w),
        }
    }
}

impl<T: Div<Output = T>> Div<Vector4<T>> for Vector4<T> {
    type Output = Vector4<T>;

    fn div(self, rhs: Vector4<T>) -> Vector4<T> {
        Vector4 { x: self.x / rhs.x, y: self.y / rhs.y, z: self.z / rhs.z, w: self.w / rhs.w }
    }
}

impl<T: Add<Output = T> + Copy> AddAssign<Vector4<T>> for Vector4<T> {
    fn add_assign(&mut self, rhs: Vector4<T>)
        requires
            old(self).add_req(rhs),
        ensures
            Vector4::<T>::obeys_add_spec() ==> *final(self) == old(self).add_spec(rhs),
    {
        *self = *self + rhs;
    }
}

impl<T: Sub<Output = T> + Copy> SubAssign<Vector4<T>> for Vector4<T> {
    fn sub_assign(&mut self, rhs: Vector4<T>)
        requires
            old(self).sub_req(rhs),
        ensures
            Vector4::<T>::obeys_sub_spec() ==> *final(self) == old(self).sub_spec(rhs),
    {
        *self = *self - rhs;
    }
}

impl<T: Mul<Output = T> + Copy> MulAssign<Vector4<T>> for Vector4<T> {
    fn mul_assign(&mut self, rhs: Vector4<T>)
        requires
            old(self).mul_req(rhs),
        ensures
            Vector4::<T>::obeys_mul_spec() ==> *final(self) == old(self).mul_spec(rhs),
    {
        *self = *self * rhs;
    }
}

impl<T: Div<Output = T> + Copy> DivAssign<Vector4<T>> for Vector4<T> {
    fn div_assign(&mut self, rhs: Vector4<T>)
        requires
            old(self).div_req(rhs),
        ensures
            Vector4::<T>::obeys_div_spec() ==> *final(self) == old(self).div_spec(rhs),
    {
        *self = *self / rhs;
    }
}

} // verus!
