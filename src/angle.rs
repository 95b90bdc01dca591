//! Facing directions: the eight compass octants, clockwise from "up" (negative y).
use vstd::prelude::*;
use crate::field::abs;
use crate::geometry::{bounded, lemma_square_bound, Vec2};

verus! {

/// One of the eight compass octants, 0 being "up" and counting clockwise.
#[derive(Clone, Copy, Debug, PartialEq, Eq, Structural)]
pub struct Angle(pub i32);

/// Sine of the octant, in thousandths.
pub open spec fn spec_sin(a: int) -> int {
    if a == 0 || a == 4 {
        0
    } else if a == 1 || a == 3 {
        707
    } else if a == 2 {
        1000
    } else if a == 6 {
        -1000
    } else {
        -707
    }
}

/// Cosine of the octant, in thousandths.
pub open spec fn spec_cos(a: int) -> int {
    spec_sin((a + 2) % 8)
}

/// Unit vector of the octant, in thousandths: `(sin, -cos)`.
pub open spec fn spec_to_vec(a: int) -> Vec2 {
    Vec2 { x: spec_sin(a) as i64, y: -spec_cos(a) as i64 }
}

/// The octant nearest to the direction of `(x, y)`. Sector borders lie at odd multiples of
/// 22.5 degrees; a direction within 22.5 degrees of an axis satisfies
/// `(|off| + |along|)^2 < 2 * |along|^2`, since `tan(22.5) = sqrt(2) - 1`. The zero vector
/// faces down.
pub open spec fn octant_of(x: int, y: int) -> int {
    let u = -y;
    let ax = abs(x);
    let au = abs(u);
    if x == 0 && y == 0 {
        4
    } else if (ax + au) * (ax + au) < 2 * (au * au) {
        if u > 0 {
            0
        } else {
            4
        }
    } else if (ax + au) * (ax + au) < 2 * (ax * ax) {
        if x > 0 {
            2
        } else {
            6
        }
    } else if x > 0 {
        if u > 0 {
            1
        } else {
            3
        }
    } else {
        if u < 0 {
            5
        } else {
            7
        }
    }
}

/// Octants to turn by when facing `d` octants away from the wanted direction: at most one,
/// along the shorter way round.
pub open spec fn turn_step(d: int) -> int {
    if d == 0 {
        0
    } else if 1 <= d <= 4 {
        1
    } else {
        7
    }
}

/// One tick of turning from `cur` toward `want`.
pub open spec fn spec_turn_toward(cur: int, want: int) -> int {
    (cur + turn_step((want - cur) % 8)) % 8
}

impl Angle {
    pub open spec fn wf(self) -> bool {
        0 <= self.0 < 8
    }

    /// Sine in thousandths.
    pub fn sin(&self) -> (r: i64)
        requires
            self.wf(),
        ensures
            r == spec_sin(self.0 as int),
            -1000 <= r <= 1000,
    {
        let a = self.0;
        if a == 0 || a == 4 {
            0
        } else if a == 1 || a == 3 {
            707
        } else if a == 2 {
            1000
        } else if a == 6 {
            -1000
        } else {
            -707
        }
    }

    /// Cosine in thousandths.
    pub fn cos(&self) -> (r: i64)
        requires
            self.wf(),
        ensures
            r == spec_cos(self.0 as int),
            -1000 <= r <= 1000,
    {
        let quarter = Angle((self.0 + 2) % 8);
        quarter.sin()
    }

    /// The octant nearest to the direction of `v`.
    pub fn from_vec(v: Vec2) -> (r: Angle)
        requires
            bounded(v, 0x2000_0000),
        ensures
            r.wf(),
            r.0 == octant_of(v.x as int, v.y as int),
    {
        let u = -v.y;
        let ax: i64 = if v.x < 0 {
            -v.x
        } else {
            v.x
        };
        let au: i64 = if u < 0 {
            -u
        } else {
            u
        };
        proof {
            lemma_square_bound(ax + au, 0x4000_0000);
            lemma_square_bound(ax as int, 0x2000_0000);
            lemma_square_bound(au as int, 0x2000_0000);
        }
        let s = (ax + au) * (ax + au);
        if v.x == 0 && v.y == 0 {
            Angle(4)
        } else if s < 2 * (au * au) {
            if u > 0 {
                Angle(0)
            } else {
                Angle(4)
            }
        } else if s < 2 * (ax * ax) {
            if v.x > 0 {
                Angle(2)
            } else {
                Angle(6)
            }
        } else if v.x > 0 {
            if u > 0 {
                Angle(1)
            } else {
                Angle(3)
            }
        } else {
            if u < 0 {
                Angle(5)
            } else {
                Angle(7)
            }
        }
    }

    /// Unit vector of the octant, in thousandths: `(sin, -cos)`.
    pub fn to_vec(a: Angle) -> (r: Vec2)
        requires
            a.wf(),
        ensures
            r == spec_to_vec(a.0 as int),
            bounded(r, 1000),
    {
        Vec2 { x: a.sin(), y: -a.cos() }
    }

    /// Turns at most one octant from `self` toward `want`, the shorter way round.
    pub fn turn_toward(self, want: Angle) -> (r: Angle)
        requires
            self.wf(),
            want.wf(),
        ensures
            r.wf(),
            r.0 == spec_turn_toward(self.0 as int, want.0 as int),
    {
        let d = (want.0 - self.0 + 8) % 8;
        assert(d == (want.0 - self.0) % 8);
        let step: i32 = if d == 0 {
            0
        } else if d <= 4 {
            1
        } else {
            7
        };
        Angle((self.0 + step) % 8)
    }
}

} // verus!
