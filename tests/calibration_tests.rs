use viewfinder::calibration::{
    convert_touch_coords, parse_calibration, parse_field, CalibrationError, CalibrationMatrix,
    Coord,
};

fn matrix(v: [i32; 7]) -> CalibrationMatrix {
    CalibrationMatrix::from_values(&v.to_vec()).unwrap()
}

#[test]
fn calibrate_offsets() {
    let m = matrix([2, 0, 10, 0, 2, 20, 1]);
    assert_eq!(m.apply(&Coord { x: 5, y: 5 }), Some(Coord { x: 20, y: 30 }));
}

#[test]
fn calibrate_truncates_coefficients_first() {
    let m = matrix([4, 0, 0, 0, 4, 0, 2]);
    assert_eq!(m.apply(&Coord { x: 3, y: 3 }), Some(Coord { x: 6, y: 6 }));
    // 5 / 2 truncates to 2 before multiplying: 3 * 2 = 6, not 15 / 2 = 7
    let m = matrix([5, 0, 0, 0, 5, 0, 2]);
    assert_eq!(m.apply(&Coord { x: 3, y: 3 }), Some(Coord { x: 6, y: 6 }));
    // truncation goes toward zero for negative coefficients
    let m = matrix([-5, 3, -7, 1, 5, 9, 2]);
    // x = 3*(-2) + 4*1 + (-3) = -5; y = 4*2 + 3*0 + 4 = 12
    assert_eq!(m.apply(&Coord { x: 3, y: 4 }), Some(Coord { x: -5, y: 12 }));
}

#[test]
fn calibrate_mixing_terms() {
    let m = matrix([1, 2, 3, 4, 5, 6, 1]);
    // x = 10*1 + 20*2 + 3 = 53; y = 20*5 + 10*4 + 6 = 146
    assert_eq!(m.apply(&Coord { x: 10, y: 20 }), Some(Coord { x: 53, y: 146 }));
}

#[test]
fn calibrate_overflow_is_none() {
    let m = matrix([i32::MAX, 0, 0, 0, 1, 0, 1]);
    assert_eq!(m.apply(&Coord { x: 2, y: 0 }), None);
    let m = matrix([i32::MIN, 0, 0, 0, 1, 0, -1]);
    assert_eq!(m.apply(&Coord { x: 1, y: 0 }), None);
    assert_eq!(m.apply(&Coord { x: -1, y: 0 }), Some(Coord { x: i32::MIN, y: 0 }));
}

#[test]
fn convert_touch_coords_writes_out() {
    let data: Vec<i32> = vec![2, 0, 10, 0, 2, 20, 1];
    let mut out = Coord { x: 0, y: 0 };
    convert_touch_coords(&data, &Coord { x: 5, y: 5 }, &mut out);
    assert_eq!(out, Coord { x: 20, y: 30 });
    let data: Vec<i32> = vec![4, 0, 0, 0, 4, 0, 2];
    convert_touch_coords(&data, &Coord { x: 3, y: 3 }, &mut out);
    assert_eq!(out, Coord { x: 6, y: 6 });
}

#[test]
fn from_values_checks_shape() {
    assert!(CalibrationMatrix::from_values(&vec![1, 0, 0, 0, 1, 0, 0]).is_none());
    assert!(CalibrationMatrix::from_values(&vec![1, 0, 0, 0, 1, 0]).is_none());
    assert!(CalibrationMatrix::from_values(&vec![1, 0, 0, 0, 1, 0, 1, 1]).is_none());
}

#[test]
fn boot_with_identity_calibration() {
    let m = parse_calibration("1 0 0 0 1 0 1".as_bytes()).unwrap();
    assert_eq!(m.values_vec(), vec![1, 0, 0, 0, 1, 0, 1]);
    assert_eq!(m.apply(&Coord { x: 100, y: 50 }), Some(Coord { x: 100, y: 50 }));
}

#[test]
fn parse_calibration_whitespace_and_signs() {
    let m = parse_calibration(" -12\t+3  65536\n7 -8 9 65536\r\n".as_bytes()).unwrap();
    assert_eq!(m.values_vec(), vec![-12, 3, 65536, 7, -8, 9, 65536]);
    let m = parse_calibration("2147483647 -2147483648 0 0 0 0 1".as_bytes()).unwrap();
    assert_eq!(m.xscale, i32::MAX);
    assert_eq!(m.xymix, i32::MIN);
}

#[test]
fn parse_calibration_errors() {
    assert_eq!(
        parse_calibration("1 0 0 0 1 0".as_bytes()),
        Err(CalibrationError::WrongCount { count: 6 })
    );
    assert_eq!(parse_calibration("".as_bytes()), Err(CalibrationError::WrongCount { count: 0 }));
    assert_eq!(
        parse_calibration("1 0 0 0 1 0 1 1".as_bytes()),
        Err(CalibrationError::WrongCount { count: 8 })
    );
    assert_eq!(parse_calibration("1 0 0 0 1 0 0".as_bytes()), Err(CalibrationError::ZeroScaler));
    assert_eq!(parse_calibration("1 0 x 0 1 0 1".as_bytes()), Err(CalibrationError::InvalidNumber));
    assert_eq!(parse_calibration("1 0 - 0 1 0 1".as_bytes()), Err(CalibrationError::InvalidNumber));
    assert_eq!(
        parse_calibration("2147483648 0 0 0 1 0 1".as_bytes()),
        Err(CalibrationError::InvalidNumber)
    );
    assert_eq!(parse_calibration("1 2 3x".as_bytes()), Err(CalibrationError::InvalidNumber));
}

#[test]
fn parse_field_cases() {
    assert_eq!(parse_field(&b"0".to_vec()), Some(0));
    assert_eq!(parse_field(&b"-0".to_vec()), Some(0));
    assert_eq!(parse_field(&b"+42".to_vec()), Some(42));
    assert_eq!(parse_field(&b"-2147483648".to_vec()), Some(i32::MIN));
    assert_eq!(parse_field(&b"-2147483649".to_vec()), None);
    assert_eq!(parse_field(&b"99999999999999999999".to_vec()), None);
    assert_eq!(parse_field(&b"".to_vec()), None);
    assert_eq!(parse_field(&b"+".to_vec()), None);
    assert_eq!(parse_field(&b"1-".to_vec()), None);
}
