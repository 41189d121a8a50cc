//! Relative-direction classification: left/middle/right, front/middle/back,
//! and rotation senses, for vectors and poses.

use vstd::prelude::*;

use crate::pos::{Pos2, Pos2Angle, Pos3, Pos3Angle};

verus! {

/// Whether a target lies to the left of, along, or to the right of a heading.
#[derive(Copy, Clone, PartialEq, Eq, Structural, Debug)]
pub enum LMR {
    Left,
    Middle,
    Right,
}

impl LMR {
    /// Mirrored left and right, as a specification value.
    pub open spec fn rev_v(self) -> LMR {
        match self {
            LMR::Left => LMR::Right,
            LMR::Right => LMR::Left,
            LMR::Middle => LMR::Middle,
        }
    }

    /// Mirrors left and right.
    pub fn rev(&self) -> (r: LMR)
        ensures
            r == (match self {
                LMR::Left => LMR::Right,
                LMR::Right => LMR::Left,
                LMR::Middle => LMR::Middle,
            }),
    {
        match self {
            LMR::Left => LMR::Right,
            LMR::Right => LMR::Left,
            LMR::Middle => LMR::Middle,
        }
    }
}

/// Whether a target lies ahead of, abeam, or behind a heading.
#[derive(Copy, Clone, PartialEq, Eq, Structural, Debug)]
pub enum FMB {
    Front,
    Middle,
    Back,
}

impl FMB {
    /// Mirrors front and back.
    pub fn rev(&self) -> (r: FMB)
        ensures
            r == (match self {
                FMB::Front => FMB::Back,
                FMB::Back => FMB::Front,
                FMB::Middle => FMB::Middle,
            }),
    {
        match self {
            FMB::Front => FMB::Back,
            FMB::Back => FMB::Front,
            FMB::Middle => FMB::Middle,
        }
    }
}

/// A sense of rotation in the plane.
#[derive(Copy, Clone, PartialEq, Eq, Structural, Debug)]
pub enum Rotation {
    Clockwise,
    Anticlockwise,
}

impl Rotation {
    /// The opposite sense.
    pub fn rev(&self) -> (r: Rotation)
        ensures
            r == (match self {
                Rotation::Clockwise => Rotation::Anticlockwise,
                Rotation::Anticlockwise => Rotation::Clockwise,
            }),
    {
        match self {
            Rotation::Clockwise => Rotation::Anticlockwise,
            Rotation::Anticlockwise => Rotation::Clockwise,
        }
    }

    /// The opposite sense.
    pub fn opp(&self) -> (r: Rotation)
        ensures
            r == (match self {
                Rotation::Clockwise => Rotation::Anticlockwise,
                Rotation::Anticlockwise => Rotation::Clockwise,
            }),
    {
        self.rev()
    }
}

/// Classifies another value of the same kind relative to this one.
pub trait Direction: Sized {
    /// Operands on which the classification is defined.
    spec fn dir_wf(&self) -> bool;

    /// Left/middle/right classification, as a specification value.
    spec fn lmr_spec(&self, other: Self) -> LMR;

    /// Front/middle/back classification, as a specification value.
    spec fn fmb_spec(&self, other: Self) -> FMB;

    fn lmr(&self, other: Self) -> (r: LMR)
        requires
            self.dir_wf(),
            other.dir_wf(),
        ensures
            r == self.lmr_spec(other),
    ;

    fn fmb(&self, other: Self) -> (r: FMB)
        requires
            self.dir_wf(),
            other.dir_wf(),
        ensures
            r == self.fmb_spec(other),
    ;

    fn turning_rot(&self, other: Self) -> (r: Option<Rotation>)
        requires
            self.dir_wf(),
            other.dir_wf(),
        ensures
            r == (match self.lmr_spec(other) {
                LMR::Left => Some(Rotation::Anticlockwise),
                LMR::Right => Some(Rotation::Clockwise),
                LMR::Middle => None::<Rotation>,
            }),
    ;
}

/// Sign-based left/middle/right classification of the perpendicular dot
/// product of two vectors.
pub open spec fn lmr_of(a: Pos2, b: Pos2) -> LMR {
    let pd = a.x * b.y - a.y * b.x;
    if pd > 0 {
        LMR::Left
    } else if pd < 0 {
        LMR::Right
    } else {
        LMR::Middle
    }
}

/// Sign-based front/middle/back classification of the dot product of two
/// vectors.
pub open spec fn fmb_of(a: Pos2, b: Pos2) -> FMB {
    let d = a.x * b.x + a.y * b.y;
    if d > 0 {
        FMB::Front
    } else if d < 0 {
        FMB::Back
    } else {
        FMB::Middle
    }
}

impl Direction for Pos2 {
    open spec fn dir_wf(&self) -> bool {
        self.bounded()
    }

    open spec fn lmr_spec(&self, other: Self) -> LMR {
        lmr_of(*self, other)
    }

    open spec fn fmb_spec(&self, other: Self) -> FMB {
        fmb_of(*self, other)
    }

    fn lmr(&self, other: Self) -> (r: LMR) {
        let pd = self.perp_dot(other);
        if pd > 0 {
            LMR::Left
        } else if pd < 0 {
            LMR::Right
        } else {
            LMR::Middle
        }
    }

    fn fmb(&self, other: Self) -> (r: FMB) {
        let d = self.dot(other);
        if d > 0 {
            FMB::Front
        } else if d < 0 {
            FMB::Back
        } else {
            FMB::Middle
        }
    }

    fn turning_rot(&self, other: Self) -> (r: Option<Rotation>) {
        match self.lmr(other) {
            LMR::Left => Some(Rotation::Anticlockwise),
            LMR::Right => Some(Rotation::Clockwise),
            LMR::Middle => None,
        }
    }
}

impl Direction for Pos3 {
    open spec fn dir_wf(&self) -> bool {
        self.bounded()
    }

    open spec fn lmr_spec(&self, other: Self) -> LMR {
        lmr_of(Pos2 { x: self.x, y: self.y }, Pos2 { x: other.x, y: other.y })
    }

    open spec fn fmb_spec(&self, other: Self) -> FMB {
        fmb_of(Pos2 { x: self.x, y: self.y }, Pos2 { x: other.x, y: other.y })
    }

    fn lmr(&self, other: Self) -> (r: LMR) {
        self.xy().lmr(other.xy())
    }

    fn fmb(&self, other: Self) -> (r: FMB) {
        self.xy().fmb(other.xy())
    }

    fn turning_rot(&self, other: Self) -> (r: Option<Rotation>) {
        self.xy().turning_rot(other.xy())
    }
}

impl Direction for Pos2Angle {
    open spec fn dir_wf(&self) -> bool {
        self.0.bounded()
    }

    open spec fn lmr_spec(&self, other: Self) -> LMR {
        lmr_of(self.0, other.0)
    }

    open spec fn fmb_spec(&self, other: Self) -> FMB {
        fmb_of(self.0, other.0)
    }

    fn lmr(&self, other: Self) -> (r: LMR) {
        self.0.lmr(other.0)
    }

    fn fmb(&self, other: Self) -> (r: FMB) {
        self.0.fmb(other.0)
    }

    fn turning_rot(&self, other: Self) -> (r: Option<Rotation>) {
        self.0.turning_rot(other.0)
    }
}

impl Direction for Pos3Angle {
    open spec fn dir_wf(&self) -> bool {
        self.0.bounded()
    }

    open spec fn lmr_spec(&self, other: Self) -> LMR {
        lmr_of(Pos2 { x: self.0.x, y: self.0.y }, Pos2 { x: other.0.x, y: other.0.y })
    }

    open spec fn fmb_spec(&self, other: Self) -> FMB {
        fmb_of(Pos2 { x: self.0.x, y: self.0.y }, Pos2 { x: other.0.x, y: other.0.y })
    }

    fn lmr(&self, other: Self) -> (r: LMR) {
        self.0.lmr(other.0)
    }

    fn fmb(&self, other: Self) -> (r: FMB) {
        self.0.fmb(other.0)
    }

    fn turning_rot(&self, other: Self) -> (r: Option<Rotation>) {
        self.0.turning_rot(other.0)
    }
}

/// Quarter-turn rotation toward a given side.
pub trait PerpRot: Copy + Sized {
    /// Operands on which the rotation is defined.
    spec fn pr_wf(self) -> bool;

    /// The rotated value, as a specification value.
    spec fn perp_rot_spec(self, rot: Rotation) -> Self;

    fn perp_rot(self, rot: Rotation) -> (r: Self)
        requires
            self.pr_wf(),
        ensures
            r == self.perp_rot_spec(rot),
    ;

    fn perp_lmr(self, lmr: LMR) -> (r: Self)
        requires
            self.pr_wf(),
            lmr != LMR::Middle,
        ensures
            lmr == LMR::Left ==> r == self.perp_rot_spec(Rotation::Anticlockwise),
            lmr == LMR::Right ==> r == self.perp_rot_spec(Rotation::Clockwise),
    ;
}

impl PerpRot for Pos2 {
    open spec fn pr_wf(self) -> bool {
        self.bounded()
    }

    open spec fn perp_rot_spec(self, rot: Rotation) -> Self {
        match rot {
            Rotation::Anticlockwise => Pos2 { x: (-self.y) as i64, y: self.x },
            Rotation::Clockwise => Pos2 { x: self.y, y: (-self.x) as i64 },
        }
    }

    fn perp_rot(self, rot: Rotation) -> (r: Self) {
        match rot {
            Rotation::Anticlockwise => self.perp(),
            Rotation::Clockwise => self.perp().negate(),
        }
    }

    fn perp_lmr(self, lmr: LMR) -> (r: Self) {
        match lmr {
            LMR::Right => self.perp_rot(Rotation::Clockwise),
            _ => self.perp_rot(Rotation::Anticlockwise),
        }
    }
}

} // verus!
