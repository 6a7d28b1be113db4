use wifi_connect::nl80211::quality::dbm_level_to_quality;

fn floating_point_quality(signal: i32) -> u8 {
    let mut val = f64::from(signal) / 100.;
    val = val.clamp(-100., -40.);
    val = (val + 40.).abs();
    val = (100. - (100. * val) / 60.).round();
    val = val.clamp(0., 100.);
    val as u8
}

#[test]
fn quality_at_minus_forty_dbm_is_full() {
    assert_eq!(dbm_level_to_quality(-4000), 100);
}

#[test]
fn quality_at_minus_hundred_dbm_is_zero() {
    assert_eq!(dbm_level_to_quality(-10000), 0);
}

#[test]
fn quality_is_linear_in_between() {
    assert_eq!(dbm_level_to_quality(-7000), 50);
    assert_eq!(dbm_level_to_quality(-5500), 75);
    assert_eq!(dbm_level_to_quality(-8500), 25);
    assert_eq!(dbm_level_to_quality(-4060), 99);
    assert_eq!(dbm_level_to_quality(-9940), 1);
}

#[test]
fn quality_rounds_to_the_nearest_integer() {
    // -40.29 dBm is 99.52 percent, -40.31 dBm is 99.48 percent.
    assert_eq!(dbm_level_to_quality(-4029), 100);
    assert_eq!(dbm_level_to_quality(-4031), 99);
    // -99.71 dBm is 0.48 percent, -99.69 dBm is 0.52 percent.
    assert_eq!(dbm_level_to_quality(-9971), 0);
    assert_eq!(dbm_level_to_quality(-9969), 1);
}

#[test]
fn quality_rounds_halves_up() {
    assert_eq!(dbm_level_to_quality(-4030), 100);
    assert_eq!(dbm_level_to_quality(-9970), 1);
    assert_eq!(dbm_level_to_quality(-9790), 4);
    assert_eq!(dbm_level_to_quality(-7870), 36);
}

#[test]
fn quality_saturates_at_the_extremes() {
    assert_eq!(dbm_level_to_quality(i32::MIN), 0);
    assert_eq!(dbm_level_to_quality(i32::MAX), 100);
    assert_eq!(dbm_level_to_quality(0), 100);
    assert_eq!(dbm_level_to_quality(-3999), 100);
    assert_eq!(dbm_level_to_quality(-10001), 0);
    assert_eq!(dbm_level_to_quality(-1_000_000), 0);
}

#[test]
fn quality_never_rises_as_the_signal_falls() {
    let mut previous = dbm_level_to_quality(-3000);
    let mut signal = -3000;
    while signal >= -11000 {
        let quality = dbm_level_to_quality(signal);
        assert!(quality <= previous);
        assert!(quality <= 100);
        previous = quality;
        signal -= 1;
    }
}

#[test]
fn quality_agrees_with_floating_point_off_the_halves() {
    for signal in -11000..=-3000 {
        let clamped = signal.clamp(-10000, -4000);
        let on_a_half = (clamped + 10030) % 60 == 0;
        if !on_a_half {
            assert_eq!(dbm_level_to_quality(signal), floating_point_quality(signal));
        }
    }
}

#[test]
fn quality_on_a_half_is_the_floating_point_value_or_one_more() {
    for signal in -10000..=-4000 {
        if (signal + 10030) % 60 == 0 {
            let exact = dbm_level_to_quality(signal);
            let float = floating_point_quality(signal);
            assert!(exact == float || exact == float + 1);
        }
    }
}
