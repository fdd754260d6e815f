use common_amm::amp_coef::AmpCoef;
use common_amm::constants::stable_pool::MIN_RAMP_DURATION;
use common_amm::errors::{MathError, StablePoolError};

fn coef(init_amp_coef: u128, future_amp_coef: u128, init_time: u64, future_time: u64) -> AmpCoef {
    AmpCoef {
        init_amp_coef,
        future_amp_coef,
        init_time,
        future_time,
    }
}

#[test]
fn amp_coef_up() {
    let amp_coef = coef(100, 1000, 100, 1600);
    assert_eq!(amp_coef.compute_amp_coef(100), Ok(100));
    assert_eq!(amp_coef.compute_amp_coef(850), Ok(550));
    assert_eq!(amp_coef.compute_amp_coef(1600), Ok(1000));
}

#[test]
fn amp_coef_down() {
    let amp_coef = coef(1000, 100, 100, 1600);
    assert_eq!(amp_coef.compute_amp_coef(100), Ok(1000));
    assert_eq!(amp_coef.compute_amp_coef(850), Ok(550));
    assert_eq!(amp_coef.compute_amp_coef(1600), Ok(100));
}

#[test]
fn amp_coef_change_duration() {
    let now = 1000;
    let mut amp_coef = coef(1000, 100, 100, 1600);
    assert_eq!(
        amp_coef.ramp_amp_coef(1000, 999, now),
        Err(StablePoolError::AmpCoefRampDurationTooShort)
    );
    assert_eq!(
        amp_coef.ramp_amp_coef(1000, 1000 + MIN_RAMP_DURATION - 1, now),
        Err(StablePoolError::AmpCoefRampDurationTooShort)
    );
    assert_eq!(
        amp_coef.ramp_amp_coef(1000, 1000 + MIN_RAMP_DURATION, now),
        Ok(())
    );
}

#[test]
fn amp_coef_change_too_large() {
    let now = 100;
    let mut amp_coef = coef(100, 100, 100, 1600);
    assert_eq!(
        amp_coef.ramp_amp_coef(1001, 100 + MIN_RAMP_DURATION, now),
        Err(StablePoolError::AmpCoefChangeTooLarge)
    );
    assert_eq!(
        amp_coef.ramp_amp_coef(1000, 100 + MIN_RAMP_DURATION, now),
        Ok(())
    );
}

#[test]
fn amp_coef_stop_ramp() {
    let mut amp_coef = coef(100, 100, 100, 1600);
    assert_eq!(amp_coef.compute_amp_coef(100), Ok(100));
    assert_eq!(
        amp_coef.ramp_amp_coef(1000, 100 + MIN_RAMP_DURATION, 100),
        Ok(())
    );
    let now = 100 + MIN_RAMP_DURATION / 2;
    assert!(amp_coef.stop_ramp_amp_coef(now).is_ok());
    assert_eq!(amp_coef.compute_amp_coef(now), Ok(550));
}

#[test]
fn amp_coef_stop_ramp_no_change() {
    let mut amp_coef = coef(100, 100, 100, 1600);
    assert_eq!(amp_coef.compute_amp_coef(100), Ok(100));
    assert_eq!(
        amp_coef.ramp_amp_coef(1000, 100 + MIN_RAMP_DURATION, 100),
        Ok(())
    );
    assert_eq!(amp_coef.compute_amp_coef(100 + MIN_RAMP_DURATION), Ok(1000));
    let now = 100 + MIN_RAMP_DURATION * 2;
    assert!(amp_coef.stop_ramp_amp_coef(now).is_ok());
    assert_eq!(amp_coef.compute_amp_coef(now), Ok(1000));
}

#[test]
fn amp_coef_new_checks_bounds() {
    assert_eq!(AmpCoef::new(0), Err(StablePoolError::AmpCoefTooLow));
    assert_eq!(AmpCoef::new(1_000_001), Err(StablePoolError::AmpCoefTooHigh));
    let a = AmpCoef::new(85).unwrap();
    assert_eq!(a, coef(85, 85, 0, 0));
    assert_eq!(a.compute_amp_coef(12345), Ok(85));
    assert_eq!(a.future_amp_coef(12345), None);
}

#[test]
fn amp_coef_ramp_bounds_and_future() {
    let mut a = coef(100, 100, 0, 0);
    assert_eq!(
        a.ramp_amp_coef(0, MIN_RAMP_DURATION, 0),
        Err(StablePoolError::AmpCoefTooLow)
    );
    assert_eq!(
        a.ramp_amp_coef(1_000_001, MIN_RAMP_DURATION, 0),
        Err(StablePoolError::AmpCoefTooHigh)
    );
    // a tenfold drop is allowed, more is not
    assert_eq!(
        a.ramp_amp_coef(9, MIN_RAMP_DURATION, 0),
        Err(StablePoolError::AmpCoefChangeTooLarge)
    );
    assert_eq!(a, coef(100, 100, 0, 0));
    assert_eq!(a.ramp_amp_coef(10, MIN_RAMP_DURATION, 0), Ok(()));
    assert_eq!(a, coef(100, 10, 0, MIN_RAMP_DURATION));
    assert_eq!(a.future_amp_coef(5), Some((10, MIN_RAMP_DURATION)));
    assert_eq!(a.future_amp_coef(MIN_RAMP_DURATION), None);
}

#[test]
fn amp_coef_before_start_underflows() {
    let a = coef(100, 1000, 500, 1600);
    assert_eq!(a.compute_amp_coef(400), Err(MathError::SubUnderflow(52)));
    let mut b = a;
    assert_eq!(
        b.stop_ramp_amp_coef(400),
        Err(StablePoolError::MathError(MathError::SubUnderflow(52)))
    );
    assert_eq!(b, a);
}
