use vstd::prelude::*;
use vstd::arithmetic::div_mod::{lemma_div_is_ordered, lemma_div_multiples_vanish, lemma_fundamental_div_mod};
use crate::fixed::{ONE, Overflow, fits, fmul, fdiv, clamp, fx_mul, fx_div, fx_add, fx_sub, lemma_fmul_shrinks};

verus! {

/// Tunable parameters of the controller, all in fixed point.
#[derive(Clone, Copy, Debug, PartialEq, Eq)]
pub struct Parameters {
    /// Proportional gain.
    pub k: i64,
    /// Integral time.
    pub t_i: i64,
    /// Derivative time.
    pub t_d: i64,
    /// Tracking (reset) time of the anti-windup.
    pub t_t: i64,
    /// Largest gain of the derivative part.
    pub n: i64,
    /// Fraction of the set point in the proportional part.
    pub b: i64,
    /// Lower output limit.
    pub u_low: i64,
    /// Upper output limit.
    pub u_high: i64,
    /// Sampling period.
    pub h: i64,
}

/// Coefficients derived once from the parameters.
#[derive(Clone, Copy, Debug, PartialEq, Eq)]
pub struct Coefficients {
    /// Integral increment gain `k h / t_i`.
    pub bi: i64,
    /// Anti-windup gain `h / t_t`.
    pub ar: i64,
    /// Derivative filter pole `t_d / (t_d + n h)`.
    pub ad: i64,
    /// Derivative filter gain `k n ad`.
    pub bd: i64,
}

/// Controller state carried from one sample to the next.
#[derive(Clone, Copy, Debug, PartialEq, Eq)]
pub struct States {
    /// Integral part.
    pub i: i64,
    /// Filtered derivative part.
    pub d: i64,
    /// Measurement of the previous sample.
    pub y_old: i64,
}

/// Signals of the last sample.
#[derive(Clone, Copy, Debug, PartialEq, Eq)]
pub struct Signals {
    /// Set point.
    pub uc: i64,
    /// Measurement.
    pub y: i64,
    /// Unsaturated output.
    pub v: i64,
    /// Saturated output.
    pub u: i64,
}

/// Why a set of parameters is refused.
#[derive(Clone, Copy, Debug, PartialEq, Eq)]
pub enum ConfigError {
    /// The integral time is not positive.
    IntegralTime,
    /// The tracking time is not positive.
    TrackingTime,
    /// The lower output limit lies above the upper one.
    OutputBounds,
    /// `t_d + n h` is not positive.
    DerivativeFilter,
    /// A derived coefficient does not fit in the fixed-point range.
    Overflow,
}

/// Default proportional gain, 4.4.
pub const DEFAULT_K: i64 = 4_400_000_000_000;
/// Default integral time, 0.4.
pub const DEFAULT_T_I: i64 = 400_000_000_000;
/// Default derivative time, 0.2.
pub const DEFAULT_T_D: i64 = 200_000_000_000;
/// Default tracking time, 10.
pub const DEFAULT_T_T: i64 = 10_000_000_000_000;
/// Default derivative gain limit, 10.
pub const DEFAULT_N: i64 = 10_000_000_000_000;
/// Default set-point weight, 1.
pub const DEFAULT_B: i64 = ONE;
/// Default lower output limit, 8.86e-6.
pub const DEFAULT_U_LOW: i64 = 8_860_000;
/// Default upper output limit, 1.98e-5.
pub const DEFAULT_U_HIGH: i64 = 19_800_000;
/// Default sampling period, 5.
pub const DEFAULT_H: i64 = 5_000_000_000_000;

/// The default parameters: k = 4.4, t_i = 0.4, t_d = 0.2, t_t = 10, n = 10,
/// b = 1, u_low = 8.86e-6, u_high = 1.98e-5, h = 5.
pub open spec fn default_parameters() -> Parameters {
    Parameters {
        k: DEFAULT_K,
        t_i: DEFAULT_T_I,
        t_d: DEFAULT_T_D,
        t_t: DEFAULT_T_T,
        n: DEFAULT_N,
        b: DEFAULT_B,
        u_low: DEFAULT_U_LOW,
        u_high: DEFAULT_U_HIGH,
        h: DEFAULT_H,
    }
}

/// `t_d + n h`, the denominator of the derivative filter pole.
pub open spec fn filter_denominator(p: Parameters) -> int {
    p.t_d + fmul(p.n as int, p.h as int)
}

pub open spec fn bi_of(p: Parameters) -> int {
    fdiv(fmul(p.k as int, p.h as int), p.t_i as int)
}

pub open spec fn ar_of(p: Parameters) -> int {
    fdiv(p.h as int, p.t_t as int)
}

pub open spec fn ad_of(p: Parameters) -> int {
    fdiv(p.t_d as int, filter_denominator(p))
}

pub open spec fn bd_of(p: Parameters) -> int {
    fmul(fmul(p.k as int, p.n as int), ad_of(p))
}

/// Every derived coefficient, and every value on the way to it, fits.
pub open spec fn coefficients_fit(p: Parameters) -> bool {
    &&& fits(fmul(p.k as int, p.h as int))
    &&& fits(bi_of(p))
    &&& fits(ar_of(p))
    &&& fits(ad_of(p))
    &&& fits(fmul(p.k as int, p.n as int))
    &&& fits(bd_of(p))
}

/// The coefficients that belong to `p`.
pub open spec fn coefficients_of(p: Parameters) -> Coefficients {
    Coefficients {
        bi: bi_of(p) as i64,
        ar: ar_of(p) as i64,
        ad: ad_of(p) as i64,
        bd: bd_of(p) as i64,
    }
}

/// The error with which `p` is refused, checked in this order; `None` when
/// `p` is accepted.
pub open spec fn config_error(p: Parameters) -> Option<ConfigError> {
    let nh = fmul(p.n as int, p.h as int);
    if p.t_i <= 0 {
        Some(ConfigError::IntegralTime)
    } else if p.t_t <= 0 {
        Some(ConfigError::TrackingTime)
    } else if p.u_low > p.u_high {
        Some(ConfigError::OutputBounds)
    } else if !fits(nh) || !fits(filter_denominator(p)) {
        Some(ConfigError::Overflow)
    } else if filter_denominator(p) <= 0 {
        Some(ConfigError::DerivativeFilter)
    } else if !coefficients_fit(p) {
        Some(ConfigError::Overflow)
    } else {
        None
    }
}

pub open spec fn zero_states() -> States {
    States { i: 0, d: 0, y_old: 0 }
}

pub open spec fn zero_signals() -> Signals {
    Signals { uc: 0, y: 0, v: 0, u: 0 }
}

/// The compute phase: the new derivative part `d`, the unsaturated output
/// `v` and the saturated output `u`; `None` when a value on the way leaves the
/// fixed-point range.
pub open spec fn output_phase(p: Parameters, c: Coefficients, s: States, uc: int, y: int) -> Option<(i64, i64, i64)> {
    let weighted = fmul(p.b as int, uc);
    let e = weighted - y;
    let prop = fmul(p.k as int, e);
    let decayed = fmul(c.ad as int, s.d as int);
    let dy = y - s.y_old;
    let kick = fmul(c.bd as int, dy);
    let d = decayed - kick;
    let pi = prop + s.i;
    let v = pi + d;
    let u = clamp(v, p.u_low as int, p.u_high as int);
    if fits(weighted) && fits(e) && fits(prop) && fits(decayed) && fits(dy) && fits(kick)
        && fits(d) && fits(pi) && fits(v) {
        Some((d as i64, v as i64, u as i64))
    } else {
        None
    }
}

/// The update phase: the new integral part, advanced by `bi (uc - y)` and
/// pulled back by `ar (u - v)`; `None` when a value on the way leaves the
/// fixed-point range.
pub open spec fn update_phase(c: Coefficients, s: States, uc: int, y: int, v: int, u: int) -> Option<i64> {
    let e = uc - y;
    let inc = fmul(c.bi as int, e);
    let w = u - v;
    let back = fmul(c.ar as int, w);
    let i1 = s.i + inc;
    let i2 = i1 + back;
    if fits(e) && fits(inc) && fits(w) && fits(back) && fits(i1) && fits(i2) {
        Some(i2 as i64)
    } else {
        None
    }
}

/// One sample of the control law: the new state and signals, or `None` on
/// overflow.
pub open spec fn control_step(p: Parameters, c: Coefficients, s: States, uc: i64, y: i64) -> Option<(States, Signals)> {
    match output_phase(p, c, s, uc as int, y as int) {
        None => None,
        Some((d, v, u)) => match update_phase(c, s, uc as int, y as int, v as int, u as int) {
            None => None,
            Some(i) => Some((States { i, d, y_old: y }, Signals { uc, y, v, u })),
        },
    }
}

/// With zero state, zero set point and zero measurement, and output limits
/// that admit zero, a sample outputs zero and leaves the state at zero; so
/// the output stays zero on every later such sample.
pub proof fn lemma_zero_steady_state(p: Parameters)
    requires
        config_error(p) is None,
        p.u_low <= 0 <= p.u_high,
    ensures
        control_step(p, coefficients_of(p), zero_states(), 0, 0) == Some((zero_states(), zero_signals())),
{
    let c = coefficients_of(p);
    assert(fmul(p.b as int, 0) == 0);
    assert(fmul(p.k as int, 0) == 0);
    assert(fmul(c.ad as int, 0) == 0);
    assert(fmul(c.bd as int, 0) == 0);
    assert(fmul(c.bi as int, 0) == 0);
    assert(fmul(c.ar as int, 0) == 0);
}

/// Back-calculation never drives the integral further into saturation:
/// above the upper limit the integral grows by at most `bi (uc - y)`, below
/// the lower limit it grows by at least that much (for a positive sampling
/// period).
pub proof fn lemma_anti_windup_pulls_back(p: Parameters, s: States, uc: i64, y: i64)
    requires
        config_error(p) is None,
        p.h > 0,
        control_step(p, coefficients_of(p), s, uc, y) is Some,
    ensures
        ({
            let (st, sg) = control_step(p, coefficients_of(p), s, uc, y).unwrap();
            let inc = fmul(bi_of(p), uc - y);
            &&& sg.v > p.u_high ==> st.i <= s.i + inc
            &&& sg.v < p.u_low ==> st.i >= s.i + inc
        }),
{
    let c = coefficients_of(p);
    let (d, v, u) = output_phase(p, c, s, uc as int, y as int).unwrap();
    assert(ar_of(p) >= 0) by {
        assert(p.h as int * ONE >= 0) by (nonlinear_arith)
            requires
                p.h > 0,
        ;
        lemma_div_is_ordered(0, p.h as int * ONE, p.t_t as int);
    }
    if v > p.u_high {
        assert(c.ar as int * (u - v) <= 0) by (nonlinear_arith)
            requires
                c.ar >= 0,
                u - v < 0,
        ;
        lemma_div_is_ordered(c.ar as int * (u - v), 0, ONE as int);
    }
    if v < p.u_low {
        assert(c.ar as int * (u - v) >= 0) by (nonlinear_arith)
            requires
                c.ar >= 0,
                u - v > 0,
        ;
        lemma_div_is_ordered(0, c.ar as int * (u - v), ONE as int);
    }
}

/// With the measurement held where it was, the derivative part is the
/// previous one times the filter pole `ad`. With non-negative `t_d`, `n` and
/// `h` the pole lies in `[0, 1]`, so the part keeps its sign and does not grow.
pub proof fn lemma_derivative_decay(p: Parameters, s: States, uc: i64, y: i64)
    requires
        config_error(p) is None,
        y == s.y_old,
        control_step(p, coefficients_of(p), s, uc, y) is Some,
    ensures
        ({
            let (st, sg) = control_step(p, coefficients_of(p), s, uc, y).unwrap();
            &&& st.d == fmul(ad_of(p), s.d as int)
            &&& p.t_d >= 0 && p.n >= 0 && p.h >= 0 ==> {
                &&& 0 <= ad_of(p) <= ONE
                &&& s.d >= 0 ==> 0 <= st.d <= s.d
                &&& s.d < 0 ==> s.d <= st.d <= 0
            }
        }),
{
    let c = coefficients_of(p);
    assert(fmul(c.bd as int, 0) == 0);
    if p.t_d >= 0 && p.n >= 0 && p.h >= 0 {
        let den = filter_denominator(p);
        let one = ONE as int;
        assert(p.n as int * p.h as int >= 0) by (nonlinear_arith)
            requires
                p.n >= 0,
                p.h >= 0,
        ;
        lemma_div_is_ordered(0, p.n as int * p.h as int, one);
        assert(0 <= p.t_d as int * one <= den * one) by (nonlinear_arith)
            requires
                0 <= p.t_d <= den,
                one > 0,
        ;
        lemma_div_is_ordered(0, p.t_d as int * one, den);
        lemma_div_is_ordered(p.t_d as int * one, den * one, den);
        assert(den * one == one * den) by (nonlinear_arith);
        lemma_div_multiples_vanish(one, den);
        lemma_fmul_shrinks(s.d as int, ad_of(p));
        assert(s.d as int * ad_of(p) == ad_of(p) * s.d as int) by (nonlinear_arith);
    }
}

/// The integral cannot wind up while the output is held at its upper limit.
/// Let `e = uc - y`, let `prop = k (b uc - y)` be the proportional part and
/// `bi e` the integral increment, let `-dmax` bound the new derivative part
/// from below, and let `0 <= ar <= 1`. Then any level `W` with
/// `ar (W + prop - dmax - u_high) >= bi e` that bounds the integral before a
/// saturated sample bounds it after: held in saturation, the integral stays
/// below `W` however many samples pass, where an unconstrained integral would
/// grow by `bi e` each time.
pub proof fn lemma_anti_windup_bounded(p: Parameters, s: States, uc: i64, y: i64, w: int, dmax: int)
    requires
        config_error(p) is None,
        0 <= ar_of(p) <= ONE,
        control_step(p, coefficients_of(p), s, uc, y) is Some,
        control_step(p, coefficients_of(p), s, uc, y).unwrap().1.v > p.u_high,
        control_step(p, coefficients_of(p), s, uc, y).unwrap().0.d >= -dmax,
        s.i <= w,
        ar_of(p) * (w + fmul(p.k as int, fmul(p.b as int, uc as int) - y) - dmax - p.u_high)
            >= ONE * fmul(bi_of(p), uc - y),
    ensures
        control_step(p, coefficients_of(p), s, uc, y).unwrap().0.i <= w,
{
    let c = coefficients_of(p);
    let (st, sg) = control_step(p, c, s, uc, y).unwrap();
    let a = ar_of(p);
    let o = ONE as int;
    let hi = p.u_high as int;
    let v = sg.v as int;
    let prop = fmul(p.k as int, fmul(p.b as int, uc as int) - y);
    let inc = fmul(bi_of(p), uc - y);
    let x = a * (hi - v);
    let corr = x / o;
    assert(st.i == s.i + inc + corr);
    assert(v == prop + s.i + st.d);
    assert(corr * o <= x) by {
        lemma_fundamental_div_mod(x, o);
    }
    assert(x <= a * (hi - prop - s.i + dmax)) by (nonlinear_arith)
        requires
            a >= 0,
            hi - v <= hi - prop - s.i + dmax,
            x == a * (hi - v),
    ;
    assert((o - a) * s.i <= (o - a) * w) by (nonlinear_arith)
        requires
            o - a >= 0,
            s.i <= w,
    ;
    assert(o * st.i <= o * w) by (nonlinear_arith)
        requires
            st.i == s.i + inc + corr,
            corr * o <= x,
            x <= a * (hi - prop - s.i + dmax),
            (o - a) * s.i <= (o - a) * w,
            a * (w + prop - dmax - hi) >= o * inc,
    ;
    assert(st.i <= w) by (nonlinear_arith)
        requires
            o * st.i <= o * w,
            o > 0,
    ;
}

/// A discrete PID controller with set-point weighting, a filtered derivative,
/// output saturation and back-calculation anti-windup.
pub struct PID {
    signals: Signals,
    states: States,
    params: Parameters,
    coefs: Coefficients,
}

impl PID {
    pub closed spec fn spec_params(&self) -> Parameters {
        self.params
    }

    pub closed spec fn spec_coefs(&self) -> Coefficients {
        self.coefs
    }

    pub closed spec fn spec_states(&self) -> States {
        self.states
    }

    pub closed spec fn spec_signals(&self) -> Signals {
        self.signals
    }

    /// The parameters are accepted and the coefficients belong to them.
    pub open spec fn wf(&self) -> bool {
        &&& config_error(self.spec_params()) is None
        &&& self.spec_coefs() == coefficients_of(self.spec_params())
    }

    /// A controller with parameters `p`, zero state and zero signals, or the
    /// first reason to refuse `p`.
    pub fn with_parameters(p: Parameters) -> (r: Result<PID, ConfigError>)
        ensures
            match r {
                Ok(c) => {
                    &&& config_error(p) is None
                    &&& c.wf()
                    &&& c.spec_params() == p
                    &&& c.spec_states() == zero_states()
                    &&& c.spec_signals() == zero_signals()
                },
                Err(e) => config_error(p) == Some(e),
            },
    {
        if p.t_i <= 0 {
            return Err(ConfigError::IntegralTime);
        }
        if p.t_t <= 0 {
            return Err(ConfigError::TrackingTime);
        }
        if p.u_low > p.u_high {
            return Err(ConfigError::OutputBounds);
        }
        let den = match fx_mul(p.n, p.h) {
            Some(nh) => match fx_add(p.t_d, nh) {
                Some(den) => den,
                None => return Err(ConfigError::Overflow),
            },
            None => return Err(ConfigError::Overflow),
        };
        if den <= 0 {
            return Err(ConfigError::DerivativeFilter);
        }
        let kh = match fx_mul(p.k, p.h) {
            Some(x) => x,
            None => return Err(ConfigError::Overflow),
        };
        let bi = match fx_div(kh, p.t_i) {
            Some(x) => x,
            None => return Err(ConfigError::Overflow),
        };
        let ar = match fx_div(p.h, p.t_t) {
            Some(x) => x,
            None => return Err(ConfigError::Overflow),
        };
        let ad = match fx_div(p.t_d, den) {
            Some(x) => x,
            None => return Err(ConfigError::Overflow),
        };
        let kn = match fx_mul(p.k, p.n) {
            Some(x) => x,
            None => return Err(ConfigError::Overflow),
        };
        let bd = match fx_mul(kn, ad) {
            Some(x) => x,
            None => return Err(ConfigError::Overflow),
        };
        Ok(PID {
            signals: Signals { uc: 0, y: 0, v: 0, u: 0 },
            states: States { i: 0, d: 0, y_old: 0 },
            params: p,
            coefs: Coefficients { bi, ar, ad, bd },
        })
    }

    /// A controller with the default parameters.
    pub fn new() -> (r: PID)
        ensures
            r.wf(),
            r.spec_params() == default_parameters(),
            r.spec_coefs() == coefficients_of(default_parameters()),
            r.spec_coefs() == (Coefficients {
                bi: 55_000_000_000_000,
                ar: 500_000_000_000,
                ad: 3_984_063_745,
                bd: 175_298_804_780,
            }),
            r.spec_states() == zero_states(),
            r.spec_signals() == zero_signals(),
    {
        let p = Parameters {
            k: DEFAULT_K,
            t_i: DEFAULT_T_I,
            t_d: DEFAULT_T_D,
            t_t: DEFAULT_T_T,
            n: DEFAULT_N,
            b: DEFAULT_B,
            u_low: DEFAULT_U_LOW,
            u_high: DEFAULT_U_HIGH,
            h: DEFAULT_H,
        };
        proof {
            assert(fmul(p.n as int, p.h as int) == 50_000_000_000_000);
            assert(fmul(p.k as int, p.h as int) == 22_000_000_000_000);
            assert(fmul(p.k as int, p.n as int) == 44_000_000_000_000);
            assert(bi_of(p) == 55_000_000_000_000);
            assert(ar_of(p) == 500_000_000_000);
            assert(ad_of(p) == 3_984_063_745);
            assert(bd_of(p) == 175_298_804_780);
        }
        match PID::with_parameters(p) {
            Ok(c) => c,
            Err(_) => vstd::pervasive::unreached(),
        }
    }

    /// The compute phase of one sample, from the current state: the new
    /// derivative part, the unsaturated and the saturated output.
    fn calculate_output(&self, uc: i64, y: i64) -> (r: Option<(i64, i64, i64)>)
        ensures
            r == output_phase(self.params, self.coefs, self.states, uc as int, y as int),
    {
        let weighted = match fx_mul(self.params.b, uc) {
            Some(x) => x,
            None => return None,
        };
        let e = match fx_sub(weighted, y) {
            Some(x) => x,
            None => return None,
        };
        let prop = match fx_mul(self.params.k, e) {
            Some(x) => x,
            None => return None,
        };
        let decayed = match fx_mul(self.coefs.ad, self.states.d) {
            Some(x) => x,
            None => return None,
        };
        let dy = match fx_sub(y, self.states.y_old) {
            Some(x) => x,
            None => return None,
        };
        let kick = match fx_mul(self.coefs.bd, dy) {
            Some(x) => x,
            None => return None,
        };
        let d = match fx_sub(decayed, kick) {
            Some(x) => x,
            None => return None,
        };
        let pi = match fx_add(prop, self.states.i) {
            Some(x) => x,
            None => return None,
        };
        let v = match fx_add(pi, d) {
            Some(x) => x,
            None => return None,
        };
        let u = if v < self.params.u_low {
            self.params.u_low
        } else if v > self.params.u_high {
            self.params.u_high
        } else {
            v
        };
        Some((d, v, u))
    }

    /// The update phase of one sample: the new integral part, from the
    /// outputs `v` and `u` of the same sample.
    fn update_state(&self, uc: i64, y: i64, v: i64, u: i64) -> (r: Option<i64>)
        ensures
            r == update_phase(self.coefs, self.states, uc as int, y as int, v as int, u as int),
    {
        let e = match fx_sub(uc, y) {
            Some(x) => x,
            None => return None,
        };
        let inc = match fx_mul(self.coefs.bi, e) {
            Some(x) => x,
            None => return None,
        };
        let w = match fx_sub(u, v) {
            Some(x) => x,
            None => return None,
        };
        let back = match fx_mul(self.coefs.ar, w) {
            Some(x) => x,
            None => return None,
        };
        let i1 = match fx_add(self.states.i, inc) {
            Some(x) => x,
            None => return None,
        };
        fx_add(i1, back)
    }

    /// Runs one sample with set point `uc` and measurement `y` and returns the
    /// saturated output. On overflow nothing changes.
    pub fn control(&mut self, uc: i64, y: i64) -> (r: Result<i64, Overflow>)
        requires
            old(self).wf(),
        ensures
            final(self).wf(),
            final(self).spec_params() == old(self).spec_params(),
            final(self).spec_coefs() == old(self).spec_coefs(),
            match control_step(old(self).spec_params(), old(self).spec_coefs(), old(self).spec_states(), uc, y) {
                Some((st, sg)) => {
                    &&& r == Ok::<i64, Overflow>(sg.u)
                    &&& final(self).spec_states() == st
                    &&& final(self).spec_signals() == sg
                },
                None => {
                    &&& r == Err::<i64, Overflow>(Overflow)
                    &&& final(self).spec_states() == old(self).spec_states()
                    &&& final(self).spec_signals() == old(self).spec_signals()
                },
            },
            r is Ok ==> final(self).spec_signals().u == clamp(
                final(self).spec_signals().v as int,
                old(self).spec_params().u_low as int,
                old(self).spec_params().u_high as int,
            ),
            r is Ok && final(self).spec_signals().v > old(self).spec_params().u_high ==> r == Ok::<i64, Overflow>(old(self).spec_params().u_high),
            r is Ok && final(self).spec_signals().v < old(self).spec_params().u_low ==> r == Ok::<i64, Overflow>(old(self).spec_params().u_low),
    {
        let (d, v, u) = match self.calculate_output(uc, y) {
            Some(x) => x,
            None => return Err(Overflow),
        };
        let i = match self.update_state(uc, y, v, u) {
            Some(x) => x,
            None => return Err(Overflow),
        };
        self.states = States { i, d, y_old: y };
        self.signals = Signals { uc, y, v, u };
        Ok(u)
    }

    /// The saturated output of the last sample.
    pub fn get_control_signal(&self) -> (r: i64)
        ensures
            r == self.spec_signals().u,
    {
        self.signals.u
    }

    /// The parameters.
    pub fn parameters(&self) -> (r: Parameters)
        ensures
            r == self.spec_params(),
    {
        self.params
    }

    /// The derived coefficients.
    pub fn coefficients(&self) -> (r: Coefficients)
        ensures
            r == self.spec_coefs(),
    {
        self.coefs
    }

    /// The state carried to the next sample.
    pub fn states(&self) -> (r: States)
        ensures
            r == self.spec_states(),
    {
        self.states
    }

    /// The signals of the last sample.
    pub fn signals(&self) -> (r: Signals)
        ensures
            r == self.spec_signals(),
    {
        self.signals
    }
}

} // verus!
