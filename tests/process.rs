use pyg_control_system::WaterTank;

#[test]
fn new_tank_is_empty() {
    let t = WaterTank::new();
    assert_eq!(t.get_water_height(), 0);
    assert_eq!(t.get_water_volume(), 0);
}

#[test]
fn one_step_from_empty() {
    let mut t = WaterTank::new();
    // q = 1e-5 over f = pi (0.087^2 + 0.057^2) = 0.033985749326
    t.update_process(10_000_000).unwrap();
    assert_eq!(t.get_water_height(), 294_240_974);
    assert_eq!(t.get_water_volume(), 9_999_999);
    t.update_process(10_000_000).unwrap();
    assert_eq!(t.get_water_height(), 572_229_813);
}

#[test]
fn equilibrium_under_constant_inflow() {
    let mut t = WaterTank::new();
    for _ in 0..30_000 {
        t.update_process(10_000_000).unwrap();
    }
    // k sqrt(h) = q gives h = (1e-5 / 3.22e-5)^2 = 0.0964468963...
    let h = t.get_water_height();
    assert_eq!(h, 96_446_896_345);
    assert!((h - 96_446_896_339).abs() < 100);
    t.update_process(10_000_000).unwrap();
    assert_eq!(t.get_water_height(), h);
}

#[test]
fn negative_height_drains_nothing() {
    let mut t = WaterTank::new();
    t.update_process(-10_000_000).unwrap();
    assert_eq!(t.get_water_height(), -294_240_975);
    t.update_process(0).unwrap();
    assert_eq!(t.get_water_height(), -294_240_975);
}

#[test]
fn tank_overflow_is_reported() {
    let mut t = WaterTank::new();
    assert!(t.update_process(i64::MAX).is_err());
    assert_eq!(t.get_water_height(), 0);
}

#[test]
fn height_falls_without_inflow() {
    let mut t = WaterTank::new();
    for _ in 0..100 {
        t.update_process(10_000_000).unwrap();
    }
    let mut h = t.get_water_height();
    assert!(h > 0);
    for _ in 0..10 {
        t.update_process(0).unwrap();
        assert!(t.get_water_height() < h);
        h = t.get_water_height();
    }
}
