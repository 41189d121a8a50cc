//! Rays: a tail point plus a direction vector, generic over the vector kind.

use vstd::prelude::*;

use crate::pos::{Pos2, Pos3};

verus! {

/// Vector operations shared by the plane and space position types.
pub trait Vector: Copy + Sized {
    /// Operands on which the operations are defined.
    spec fn v_wf(self) -> bool;

    /// Component-wise sum, as a specification value.
    spec fn v_add(self, o: Self) -> Self;

    /// Component-wise difference, as a specification value.
    spec fn v_sub(self, o: Self) -> Self;

    /// Component-wise negation, as a specification value.
    spec fn v_neg(self) -> Self;

    fn v_plus(self, o: Self) -> (r: Self)
        requires
            self.v_wf(),
            o.v_wf(),
        ensures
            r == self.v_add(o),
    ;

    fn v_minus(self, o: Self) -> (r: Self)
        requires
            self.v_wf(),
            o.v_wf(),
        ensures
            r == self.v_sub(o),
    ;

    fn v_negate(self) -> (r: Self)
        requires
            self.v_wf(),
        ensures
            r == self.v_neg(),
    ;
}

impl Vector for Pos2 {
    open spec fn v_wf(self) -> bool {
        self.bounded()
    }

    open spec fn v_add(self, o: Self) -> Self {
        self.add_v(o)
    }

    open spec fn v_sub(self, o: Self) -> Self {
        self.sub_v(o)
    }

    open spec fn v_neg(self) -> Self {
        self.neg_v()
    }

    fn v_plus(self, o: Self) -> (r: Self) {
        self.plus(o)
    }

    fn v_minus(self, o: Self) -> (r: Self) {
        self.minus(o)
    }

    fn v_negate(self) -> (r: Self) {
        self.negate()
    }
}

impl Vector for Pos3 {
    open spec fn v_wf(self) -> bool {
        self.bounded()
    }

    open spec fn v_add(self, o: Self) -> Self {
        Pos3 { x: (self.x + o.x) as i64, y: (self.y + o.y) as i64, z: (self.z + o.z) as i64 }
    }

    open spec fn v_sub(self, o: Self) -> Self {
        Pos3 { x: (self.x - o.x) as i64, y: (self.y - o.y) as i64, z: (self.z - o.z) as i64 }
    }

    open spec fn v_neg(self) -> Self {
        Pos3 { x: (-self.x) as i64, y: (-self.y) as i64, z: (-self.z) as i64 }
    }

    fn v_plus(self, o: Self) -> (r: Self) {
        Pos3 { x: self.x + o.x, y: self.y + o.y, z: self.z + o.z }
    }

    fn v_minus(self, o: Self) -> (r: Self) {
        Pos3 { x: self.x - o.x, y: self.y - o.y, z: self.z - o.z }
    }

    fn v_negate(self) -> (r: Self) {
        Pos3 { x: -self.x, y: -self.y, z: -self.z }
    }
}

/// A tail point together with the vector to the head.
#[derive(Clone, Copy, Debug)]
pub struct Ray<T: Vector> {
    pub tail: T,
    pub vec: T,
}

impl<T: Vector> Ray<T> {
    /// Builds the ray from its two endpoints.
    pub fn new(tail: T, head: T) -> (r: Ray<T>)
        requires
            tail.v_wf(),
            head.v_wf(),
        ensures
            r.tail == tail,
            r.vec == head.v_sub(tail),
    {
        Ray { tail, vec: head.v_minus(tail) }
    }

    /// The head point of the ray.
    pub fn head(&self) -> (r: T)
        requires
            self.tail.v_wf(),
            self.vec.v_wf(),
        ensures
            r == self.tail.v_add(self.vec),
    {
        self.tail.v_plus(self.vec)
    }

    /// The same segment traversed the opposite way.
    pub fn rev(self) -> (r: Ray<T>)
        requires
            self.tail.v_wf(),
            self.vec.v_wf(),
        ensures
            r.tail == self.tail.v_add(self.vec),
            r.vec == self.vec.v_neg(),
    {
        Ray { tail: self.head(), vec: self.vec.v_negate() }
    }
}

} // verus!
