use vstd::prelude::*;
use vstd::arithmetic::div_mod::lemma_div_is_ordered;
use crate::fixed::{ONE, Overflow, fits, fmul, fdiv, floor_sqrt, fx_mul, fx_div, fx_sub, fx_add, isqrt, lemma_fmul_shrinks};

verus! {

/// Outer radius of the tank, 0.087 m.
pub const R1: i64 = 87_000_000_000;

/// Inner radius of the tank, 0.057 m.
pub const R2: i64 = 57_000_000_000;

/// Outflow coefficient, 3.22e-5 m^2/s (valve height 0.076 m).
pub const K: i64 = 32_200_000;

/// Pi, to twelve decimals.
pub const PI: i64 = 3_141_592_653_590;

/// Cross-section of the tank with outer radius `r1` and inner radius `r2`:
/// `r1^2 pi + r2^2 pi`.
pub open spec fn cross_section(r1: int, r2: int) -> int {
    fmul(fmul(r1, r1), PI as int) + fmul(fmul(r2, r2), PI as int)
}

/// The square root of a fixed-point height, with negative heights taken as
/// zero.
pub open spec fn sqrt_height(height: int) -> int {
    floor_sqrt((if height < 0 { 0 } else { height }) * ONE)
}

/// One Euler step of the tank with inflow `q`:
/// `height + (q - k sqrt(height)) / f`; `None` when a value on the way leaves
/// the fixed-point range.
pub open spec fn process_step(height: int, k: int, f: int, q: int) -> Option<i64> {
    let out = fmul(k, sqrt_height(height));
    let net = q - out;
    let dh = fdiv(net, f);
    let next = height + dh;
    if fits(out) && fits(net) && fits(dh) && fits(next) {
        Some(next as i64)
    } else {
        None
    }
}

/// The tank's cross-section is 0.033985749326 m^2.
pub proof fn lemma_cross_section_value()
    ensures
        cross_section(R1 as int, R2 as int) == 33_985_749_326,
{
    assert(R1 as int * R1 as int == 7_569_000_000_000_000_000_000);
    assert(R2 as int * R2 as int == 3_249_000_000_000_000_000_000);
}

/// A tank whose outflow `k sqrt(height)` equals the inflow `q` keeps its
/// height: such a height is the equilibrium for inflow `q`.
pub proof fn lemma_equilibrium(height: i64, q: i64)
    requires
        fmul(K as int, sqrt_height(height as int)) == q,
    ensures
        process_step(height as int, K as int, cross_section(R1 as int, R2 as int), q as int) == Some(height),
{
    lemma_cross_section_value();
    assert(fdiv(0, cross_section(R1 as int, R2 as int)) == 0);
}

/// The height moves toward the equilibrium: it does not fall while the
/// inflow `q` is at least the outflow `k sqrt(height)`, and does not rise
/// while it is at most the outflow.
pub proof fn lemma_height_moves_toward_equilibrium(height: i64, q: i64)
    requires
        process_step(height as int, K as int, cross_section(R1 as int, R2 as int), q as int) is Some,
    ensures
        ({
            let next = process_step(height as int, K as int, cross_section(R1 as int, R2 as int), q as int).unwrap();
            let out = fmul(K as int, sqrt_height(height as int));
            &&& q >= out ==> next >= height
            &&& q <= out ==> next <= height
        }),
{
    lemma_cross_section_value();
    let f = cross_section(R1 as int, R2 as int);
    let net = q - fmul(K as int, sqrt_height(height as int));
    if net >= 0 {
        assert(net * ONE >= 0) by (nonlinear_arith)
            requires
                net >= 0,
        ;
        lemma_div_is_ordered(0, net * ONE, f);
    } else {
        assert(net * ONE <= 0) by (nonlinear_arith)
            requires
                net < 0,
        ;
        lemma_div_is_ordered(net * ONE, 0, f);
    }
}

/// A water tank drained through a valve at its bottom (Torricelli's law).
pub struct WaterTank {
    height: i64,
    ext_radius: i64,
    int_radius: i64,
    f: i64,
    k: i64,
}

impl WaterTank {
    pub closed spec fn spec_height(&self) -> int {
        self.height as int
    }

    pub closed spec fn spec_f(&self) -> int {
        self.f as int
    }

    pub closed spec fn spec_k(&self) -> int {
        self.k as int
    }

    pub closed spec fn spec_radii(&self) -> (int, int) {
        (self.ext_radius as int, self.int_radius as int)
    }

    /// The geometry and the valve are the tank's fixed constants.
    pub open spec fn wf(&self) -> bool {
        &&& self.spec_radii() == (R1 as int, R2 as int)
        &&& self.spec_f() == cross_section(R1 as int, R2 as int)
        &&& self.spec_k() == K
    }

    /// An empty tank.
    pub fn new() -> (r: WaterTank)
        ensures
            r.wf(),
            r.spec_height() == 0,
    {
        assert(R1 as int * R1 as int == 7_569_000_000_000_000_000_000);
        assert(R2 as int * R2 as int == 3_249_000_000_000_000_000_000);
        assert(fmul(R1 as int, R1 as int) == 7_569_000_000);
        assert(fmul(R2 as int, R2 as int) == 3_249_000_000);
        assert(cross_section(R1 as int, R2 as int) == 33_985_749_326);
        let mut tank = WaterTank { height: 0, ext_radius: R1, int_radius: R2, f: 0, k: K };
        let a1 = tank.ext_radius as i128 * tank.ext_radius as i128 / (ONE as i128);
        let a2 = tank.int_radius as i128 * tank.int_radius as i128 / (ONE as i128);
        let f1 = a1 * (PI as i128) / (ONE as i128);
        let f2 = a2 * (PI as i128) / (ONE as i128);
        assert(f1 + f2 == 33_985_749_326);
        tank.f = (f1 + f2) as i64;
        tank
    }

    /// Advances the height by one step with inflow `q_in`. Negative heights
    /// are taken as zero under the square root. On overflow nothing changes.
    pub fn update_process(&mut self, q_in: i64) -> (r: Result<(), Overflow>)
        requires
            old(self).wf(),
        ensures
            final(self).wf(),
            match process_step(old(self).spec_height(), old(self).spec_k(), old(self).spec_f(), q_in as int) {
                Some(h) => r is Ok && final(self).spec_height() == h,
                None => r is Err && final(self).spec_height() == old(self).spec_height(),
            },
    {
        let hc: i64 = if self.height < 0 { 0 } else { self.height };
        assert(hc * ONE < 0x100_0000_0000_0000_0000_0000_0000) by (nonlinear_arith)
            requires
                0 <= hc <= 0x7fff_ffff_ffff_ffff,
        ;
        let root = isqrt(hc as u128 * ONE as u128);
        assert(root < 0x10_0000_0000_0000) by (nonlinear_arith)
            requires
                root * root <= hc * ONE,
                root * root >= 0,
                hc * ONE < 0x100_0000_0000_0000_0000_0000_0000,
                root >= 0,
        ;
        let out = match fx_mul(self.k, root as i64) {
            Some(x) => x,
            None => return Err(Overflow),
        };
        let net = match fx_sub(q_in, out) {
            Some(x) => x,
            None => return Err(Overflow),
        };
        let dh = match fx_div(net, self.f) {
            Some(x) => x,
            None => return Err(Overflow),
        };
        match fx_add(self.height, dh) {
            Some(x) => {
                self.height = x;
                Ok(())
            },
            None => Err(Overflow),
        }
    }

    /// The water height.
    pub fn get_water_height(&self) -> (r: i64)
        ensures
            r == self.spec_height(),
    {
        self.height
    }

    /// The water volume, `height f`.
    pub fn get_water_volume(&self) -> (r: i64)
        requires
            self.wf(),
        ensures
            r == fmul(self.spec_height(), self.spec_f()),
    {
        proof {
            lemma_fmul_shrinks(self.height as int, self.f as int);
        }
        match fx_mul(self.height, self.f) {
            Some(v) => v,
            None => vstd::pervasive::unreached(),
        }
    }
}

} // verus!
