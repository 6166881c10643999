use pyg_control_system::{ConfigError, Coefficients, Overflow, Parameters, States, ONE, PID};

fn defaults() -> Parameters {
    PID::new().parameters()
}

fn wide_bounds() -> Parameters {
    let mut p = defaults();
    p.u_low = -ONE;
    p.u_high = ONE;
    p
}

#[test]
fn default_parameters_are_documented_values() {
    let p = defaults();
    assert_eq!(p.k, 4_400_000_000_000);
    assert_eq!(p.t_i, 400_000_000_000);
    assert_eq!(p.t_d, 200_000_000_000);
    assert_eq!(p.t_t, 10 * ONE);
    assert_eq!(p.n, 10 * ONE);
    assert_eq!(p.b, ONE);
    assert_eq!(p.u_low, 8_860_000);
    assert_eq!(p.u_high, 19_800_000);
    assert_eq!(p.h, 5 * ONE);
}

#[test]
fn default_coefficients() {
    let c = PID::new().coefficients();
    // bi = 4.4 * 5 / 0.4 = 55 and ar = 5 / 10 = 0.5
    assert_eq!(c.bi, 55 * ONE);
    assert_eq!(c.ar, ONE / 2);
    // ad = 0.2 / (0.2 + 10 * 5) = 0.003984063745..., bd = 4.4 * 10 * ad
    assert_eq!(c.ad, 3_984_063_745);
    assert_eq!(c.bd, 175_298_804_780);
    assert_eq!(
        c,
        Coefficients { bi: 55 * ONE, ar: ONE / 2, ad: 3_984_063_745, bd: 175_298_804_780 }
    );
}

#[test]
fn with_parameters_matches_new() {
    let a = PID::with_parameters(defaults()).unwrap();
    let b = PID::new();
    assert_eq!(a.coefficients(), b.coefficients());
    assert_eq!(a.states(), States { i: 0, d: 0, y_old: 0 });
    assert_eq!(a.get_control_signal(), 0);
}

#[test]
fn zero_input_steady_state() {
    let mut c = PID::with_parameters(wide_bounds()).unwrap();
    for _ in 0..10 {
        assert_eq!(c.control(0, 0), Ok(0));
        assert_eq!(c.get_control_signal(), 0);
        assert_eq!(c.states(), States { i: 0, d: 0, y_old: 0 });
    }
}

#[test]
fn zero_input_with_default_bounds_gives_lower_limit() {
    let mut c = PID::new();
    assert_eq!(c.control(0, 0), Ok(8_860_000));
    assert_eq!(c.signals().v, 0);
}

#[test]
fn saturation_at_upper_limit() {
    let mut c = PID::new();
    assert_eq!(c.control(ONE, 0), Ok(19_800_000));
    assert!(c.signals().v > 19_800_000);
    assert_eq!(c.signals().v, 4_400_000_000_000);
    assert_eq!(c.get_control_signal(), 19_800_000);
}

#[test]
fn saturation_at_lower_limit() {
    let mut c = PID::new();
    assert_eq!(c.control(0, ONE), Ok(8_860_000));
    assert!(c.signals().v < 8_860_000);
    assert_eq!(c.get_control_signal(), 8_860_000);
}

#[test]
fn unsaturated_output_passes_through() {
    let mut c = PID::with_parameters(wide_bounds()).unwrap();
    // p = 4.4 * 0.1 = 0.44, within [-1, 1]
    assert_eq!(c.control(ONE / 10, 0), Ok(440_000_000_000));
    // i = 55 * 0.1 + 0.5 * 0 = 5.5
    assert_eq!(c.states().i, 5_500_000_000_000);
}

#[test]
fn anti_windup_keeps_integral_bounded() {
    let mut c = PID::new();
    let expected = [52_800_009_900_000i64, 79_200_014_850_000, 92_400_017_325_000];
    for e in expected.iter() {
        assert_eq!(c.control(ONE, 0), Ok(19_800_000));
        assert_eq!(c.states().i, *e);
    }
    for _ in 3..200 {
        assert_eq!(c.control(ONE, 0), Ok(19_800_000));
        // an unconstrained integral would grow by 55 each sample
        assert!(c.states().i <= 105_600_019_800_000);
    }
    assert_eq!(c.states().i, 105_600_019_799_999);
    let before = c.states().i;
    c.control(ONE, 0).unwrap();
    assert_eq!(c.states().i, before);
}

#[test]
fn derivative_decays_with_pole() {
    let mut c = PID::new();
    assert_eq!(c.control(0, ONE), Ok(8_860_000));
    assert_eq!(c.states().d, -175_298_804_780);
    c.control(0, ONE).unwrap();
    assert_eq!(c.states().d, -698_401_613);
    c.control(0, ONE).unwrap();
    assert_eq!(c.states().d, -2_782_477);
    let ad = c.coefficients().ad as i128;
    let d = c.states().d as i128;
    c.control(0, ONE).unwrap();
    assert_eq!(c.states().d as i128, (ad * d).div_euclid(ONE as i128));
}

#[test]
fn overflow_leaves_controller_unchanged() {
    let mut c = PID::new();
    c.control(ONE, 0).unwrap();
    let states = c.states();
    let signals = c.signals();
    assert_eq!(c.control(i64::MAX, i64::MIN), Err(Overflow));
    assert_eq!(c.states(), states);
    assert_eq!(c.signals(), signals);
}

#[test]
fn zero_integral_time_is_refused() {
    let mut p = defaults();
    p.t_i = 0;
    assert_eq!(PID::with_parameters(p).err(), Some(ConfigError::IntegralTime));
}

#[test]
fn zero_tracking_time_is_refused() {
    let mut p = defaults();
    p.t_t = 0;
    assert_eq!(PID::with_parameters(p).err(), Some(ConfigError::TrackingTime));
}

#[test]
fn inverted_bounds_are_refused() {
    let mut p = defaults();
    p.u_low = p.u_high + 1;
    assert_eq!(PID::with_parameters(p).err(), Some(ConfigError::OutputBounds));
}

#[test]
fn zero_filter_denominator_is_refused() {
    let mut p = defaults();
    p.t_d = 0;
    p.n = 0;
    assert_eq!(PID::with_parameters(p).err(), Some(ConfigError::DerivativeFilter));
}

#[test]
fn oversized_coefficient_is_refused() {
    let mut p = defaults();
    p.t_i = 1;
    assert_eq!(PID::with_parameters(p).err(), Some(ConfigError::Overflow));
}
