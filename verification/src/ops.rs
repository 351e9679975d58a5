//! The arithmetic operators on numbers and vectors.
//!
//! `a + b`, `a - b`, `a * b`, `a / b` and `-a` are the saturating
//! operations of the same names. A vector times a vector is the product of
//! their components; a vector times or over a number, and a number times a
//! vector, scale the vector.

use crate::fixed::Fp;
use crate::vecmath::Vec3;
use std::ops::{Add, Div, Mul, Neg, Sub};
use vstd::prelude::*;
use vstd::std_specs::ops::{AddSpecImpl, DivSpecImpl, MulSpecImpl, NegSpecImpl, SubSpecImpl};

verus! {

impl Add for Fp {
    type Output = Fp;

    fn add(self, rhs: Fp) -> (r: Fp) {
        Fp::add(self, rhs)
    }
}

impl AddSpecImpl for Fp {
    open spec fn obeys_add_spec() -> bool {
        true
    }

    open spec fn add_req(self, rhs: Fp) -> bool {
        true
    }

    open spec fn add_spec(self, rhs: Fp) -> Fp {
        self.spec_add(rhs)
    }
}

impl Sub for Fp {
    type Output = Fp;

    fn sub(self, rhs: Fp) -> (r: Fp) {
        Fp::sub(self, rhs)
    }
}

impl SubSpecImpl for Fp {
    open spec fn obeys_sub_spec() -> bool {
        true
    }

    open spec fn sub_req(self, rhs: Fp) -> bool {
        true
    }

    open spec fn sub_spec(self, rhs: Fp) -> Fp {
        self.spec_sub(rhs)
    }
}

impl Mul for Fp {
    type Output = Fp;

    fn mul(self, rhs: Fp) -> (r: Fp) {
        Fp::mul(self, rhs)
    }
}

impl MulSpecImpl for Fp {
    open spec fn obeys_mul_spec() -> bool {
        true
    }

    open spec fn mul_req(self, rhs: Fp) -> bool {
        true
    }

    open spec fn mul_spec(self, rhs: Fp) -> Fp {
        self.spec_mul(rhs)
    }
}

impl Div for Fp {
    type Output = Fp;

    fn div(self, rhs: Fp) -> (r: Fp) {
        Fp::div(self, rhs)
    }
}

impl DivSpecImpl for Fp {
    open spec fn obeys_div_spec() -> bool {
        true
    }

    open spec fn div_req(self, rhs: Fp) -> bool {
        true
    }

    open spec fn div_spec(self, rhs: Fp) -> Fp {
        self.spec_div(rhs)
    }
}

impl Neg for Fp {
    type Output = Fp;

    fn neg(self) -> (r: Fp) {
        Fp::neg(self)
    }
}

impl NegSpecImpl for Fp {
    open spec fn obeys_neg_spec() -> bool {
        true
    }

    open spec fn neg_req(self) -> bool {
        true
    }

    open spec fn neg_spec(self) -> Fp {
        self.spec_neg()
    }
}

impl Add for Vec3<Fp> {
    type Output = Vec3<Fp>;

    fn add(self, rhs: Vec3<Fp>) -> (r: Vec3<Fp>) {
        Vec3::<Fp>::add(self, rhs)
    }
}

impl AddSpecImpl for Vec3<Fp> {
    open spec fn obeys_add_spec() -> bool {
        true
    }

    open spec fn add_req(self, rhs: Vec3<Fp>) -> bool {
        true
    }

    open spec fn add_spec(self, rhs: Vec3<Fp>) -> Vec3<Fp> {
        self.spec_add(rhs)
    }
}

impl Sub for Vec3<Fp> {
    type Output = Vec3<Fp>;

    fn sub(self, rhs: Vec3<Fp>) -> (r: Vec3<Fp>) {
        Vec3::<Fp>::sub(self, rhs)
    }
}

impl SubSpecImpl for Vec3<Fp> {
    open spec fn obeys_sub_spec() -> bool {
        true
    }

    open spec fn sub_req(self, rhs: Vec3<Fp>) -> bool {
        true
    }

    open spec fn sub_spec(self, rhs: Vec3<Fp>) -> Vec3<Fp> {
        self.spec_sub(rhs)
    }
}

impl Mul for Vec3<Fp> {
    type Output = Vec3<Fp>;

    fn mul(self, rhs: Vec3<Fp>) -> (r: Vec3<Fp>) {
        Vec3::<Fp>::mul(self, rhs)
    }
}

impl MulSpecImpl for Vec3<Fp> {
    open spec fn obeys_mul_spec() -> bool {
        true
    }

    open spec fn mul_req(self, rhs: Vec3<Fp>) -> bool {
        true
    }

    open spec fn mul_spec(self, rhs: Vec3<Fp>) -> Vec3<Fp> {
        self.spec_mul(rhs)
    }
}

impl Mul<Fp> for Vec3<Fp> {
    type Output = Vec3<Fp>;

    fn mul(self, rhs: Fp) -> (r: Vec3<Fp>) {
        self.scale(rhs)
    }
}

impl MulSpecImpl<Fp> for Vec3<Fp> {
    open spec fn obeys_mul_spec() -> bool {
        true
    }

    open spec fn mul_req(self, rhs: Fp) -> bool {
        true
    }

    open spec fn mul_spec(self, rhs: Fp) -> Vec3<Fp> {
        self.spec_scale(rhs)
    }
}

impl Mul<Vec3<Fp>> for Fp {
    type Output = Vec3<Fp>;

    fn mul(self, rhs: Vec3<Fp>) -> (r: Vec3<Fp>) {
        rhs.scale(self)
    }
}

impl MulSpecImpl<Vec3<Fp>> for Fp {
    open spec fn obeys_mul_spec() -> bool {
        true
    }

    open spec fn mul_req(self, rhs: Vec3<Fp>) -> bool {
        true
    }

    open spec fn mul_spec(self, rhs: Vec3<Fp>) -> Vec3<Fp> {
        rhs.spec_scale(self)
    }
}

impl Div<Fp> for Vec3<Fp> {
    type Output = Vec3<Fp>;

    fn div(self, rhs: Fp) -> (r: Vec3<Fp>) {
        Vec3::<Fp>::div(self, rhs)
    }
}

impl DivSpecImpl<Fp> for Vec3<Fp> {
    open spec fn obeys_div_spec() -> bool {
        true
    }

    open spec fn div_req(self, rhs: Fp) -> bool {
        true
    }

    open spec fn div_spec(self, rhs: Fp) -> Vec3<Fp> {
        self.spec_div(rhs)
    }
}

impl Neg for Vec3<Fp> {
    type Output = Vec3<Fp>;

    fn neg(self) -> (r: Vec3<Fp>) {
        Vec3::<Fp>::neg(self)
    }
}

impl NegSpecImpl for Vec3<Fp> {
    open spec fn obeys_neg_spec() -> bool {
        true
    }

    open spec fn neg_req(self) -> bool {
        true
    }

    open spec fn neg_spec(self) -> Vec3<Fp> {
        self.spec_neg()
    }
}

} // verus!
