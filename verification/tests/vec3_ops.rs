use ray_tracing_in_one_weekend::fixed::Fx;
use ray_tracing_in_one_weekend::vec3::Vec3;
use std::cmp::Ordering;

fn fxi(n: i64) -> Fx {
    Fx::from_int(n)
}

fn v(x: i64, y: i64, z: i64) -> Vec3 {
    Vec3::new(fxi(x), fxi(y), fxi(z))
}

/// A vector whose components are the given numbers of halves.
fn vh(hx: i64, hy: i64, hz: i64) -> Vec3 {
    Vec3::new(Fx::from_raw(hx * 32768), Fx::from_raw(hy * 32768), Fx::from_raw(hz * 32768))
}

#[test]
fn test_length_squared() {
    let test_cases = vec![(v(1, 2, 3), fxi(14)), (v(-1, -2, -3), fxi(14))];
    for (val, expected) in test_cases {
        let result = val.length_squared();
        assert_eq!(result, expected, "Failed for input: '{:?}", val);
    }
}

#[test]
fn test_length() {
    let test_cases = vec![(v(2, 0, 0), fxi(2)), (v(0, -2, 0), fxi(2))];
    for (val, expected) in test_cases {
        let result = val.length();
        assert_eq!(result, expected, "Failed for input: '{:?}", val);
    }
}

#[test]
fn test_cross() {
    let test_cases = vec![
        (v(1, 0, 0), v(0, 1, 0), v(0, 0, 1)),
        (v(1, 0, 0), v(0, 0, 1), v(0, -1, 0)),
        (v(0, 1, 0), v(0, 0, 1), v(1, 0, 0)),
    ];
    for (val, other, expected) in test_cases {
        let result = val.cross(other);
        assert_eq!(result, expected, "Failed for input: '{:?}", (val, other));
    }
}

#[test]
fn test_unit() {
    // Axis vectors normalize exactly on the fixed-point grid.
    let exact_cases = vec![
        (v(1, 0, 0), fxi(1)),
        (v(0, 1, 0), fxi(1)),
        (v(0, 0, 1), fxi(1)),
    ];
    for (val, expected) in exact_cases {
        let result = val.unit().length();
        assert_eq!(result, expected, "Failed for input: '{:?}", val);
    }
    // Diagonal vectors normalize to unit length up to grid truncation.
    let near_cases = vec![v(1, 1, 1), v(100, 100, 100)];
    for val in near_cases {
        let result = val.unit().length();
        let len = result.raw as f64 / 65536.0;
        assert!((len - 1.0).abs() < 1e-3, "Failed for input: '{:?} ({})", val, len);
    }
}

#[test]
fn test_neg_vec3() {
    let test_cases = vec![(v(1, 2, 3), v(-1, -2, -3)), (v(-1, -2, -3), v(1, 2, 3))];
    for (val, expected) in test_cases {
        let result = val.neg();
        assert_eq!(result, expected, "Failed for input: '{:?}", val);
    }
}

#[test]
fn test_add_vec3_vec3() {
    let test_cases = vec![
        (v(1, 2, 3), v(4, 5, 6), v(5, 7, 9)),
        (v(-1, -2, -3), v(1, 2, 3), v(0, 0, 0)),
    ];
    for (lhs, rhs, expected) in test_cases {
        let result = lhs.add(rhs);
        assert_eq!(result, expected, "Failed for input: '{:?}", (lhs, rhs));
    }
}

#[test]
fn test_add_vec3_f64() {
    let test_cases = vec![
        (v(1, 2, 3), fxi(1), v(2, 3, 4)),
        (v(-1, -2, -3), fxi(1), v(0, -1, -2)),
    ];
    for (lhs, rhs, expected) in test_cases {
        let result = lhs.add_fx(rhs);
        assert_eq!(result, expected, "Failed for input: '{:?}", (lhs, rhs));
    }
}

#[test]
fn test_add_f64_vec3() {
    let test_cases = vec![
        (fxi(1), v(1, 2, 3), v(2, 3, 4)),
        (fxi(1), v(-1, -2, -3), v(0, -1, -2)),
    ];
    for (lhs, rhs, expected) in test_cases {
        let result = rhs.add_fx(lhs);
        assert_eq!(result, expected, "Failed for input: '{:?}", (lhs, rhs));
    }
}

#[test]
fn test_sub_vec3_vec3() {
    let test_cases = vec![
        (v(1, 2, 3), v(4, 5, 6), v(-3, -3, -3)),
        (v(-1, -2, -3), v(1, 2, 3), v(-2, -4, -6)),
    ];
    for (lhs, rhs, expected) in test_cases {
        let result = lhs.sub(rhs);
        assert_eq!(result, expected, "Failed for input: '{:?}", (lhs, rhs));
    }
}

#[test]
fn test_sub_vec3_f64() {
    let test_cases = vec![
        (v(1, 2, 3), fxi(1), v(0, 1, 2)),
        (v(-1, -2, -3), fxi(1), v(-2, -3, -4)),
    ];
    for (lhs, rhs, expected) in test_cases {
        let result = lhs.sub_fx(rhs);
        assert_eq!(result, expected, "Failed for input: '{:?}", (lhs, rhs));
    }
}

#[test]
fn test_sub_f64_vec3() {
    let test_cases = vec![
        (fxi(1), v(1, 2, 3), v(0, -1, -2)),
        (fxi(1), v(-1, -2, -3), v(2, 3, 4)),
    ];
    for (lhs, rhs, expected) in test_cases {
        let result = Vec3::new(lhs, lhs, lhs).sub(rhs);
        assert_eq!(result, expected, "Failed for input: '{:?}", (lhs, rhs));
    }
}

#[test]
fn test_mul_vec3_f64() {
    let test_cases = vec![
        (v(1, 2, 3), fxi(2), v(2, 4, 6)),
        (v(-1, -2, -3), fxi(2), v(-2, -4, -6)),
    ];
    for (lhs, rhs, expected) in test_cases {
        let result = lhs.scale(rhs);
        assert_eq!(result, expected, "Failed for input: '{:?}", (lhs, rhs));
    }
}

#[test]
fn test_mul_f64_vec3() {
    let test_cases = vec![
        (fxi(2), v(1, 2, 3), v(2, 4, 6)),
        (fxi(2), v(-1, -2, -3), v(-2, -4, -6)),
    ];
    for (lhs, rhs, expected) in test_cases {
        let result = rhs.scale(lhs);
        assert_eq!(result, expected, "Failed for input: '{:?}", (lhs, rhs));
    }
}

#[test]
fn test_mul_vec3_vec3() {
    let test_cases = vec![
        (v(1, 2, 3), v(4, 5, 6), v(4, 10, 18)),
        (v(-1, -2, -3), v(1, 2, 3), v(-1, -4, -9)),
    ];
    for (lhs, rhs, expected) in test_cases {
        let result = lhs.mul(rhs);
        assert_eq!(result, expected, "Failed for input: '{:?}", (lhs, rhs));
    }
}

#[test]
fn test_div_vec3_f64() {
    let test_cases = vec![
        (v(1, 2, 3), fxi(2), vh(1, 2, 3)),
        (v(-1, -2, -3), fxi(2), vh(-1, -2, -3)),
    ];
    for (lhs, rhs, expected) in test_cases {
        let result = lhs.div_fx(rhs);
        assert_eq!(result, expected, "Failed for input: '{:?}", (lhs, rhs));
    }
}

#[test]
fn test_add_assign_vec3_vec3() {
    let test_cases = vec![
        (v(1, 2, 3), v(4, 5, 6), v(5, 7, 9)),
        (v(-1, -2, -3), v(1, 2, 3), v(0, 0, 0)),
    ];
    for (mut lhs, rhs, expected) in test_cases {
        let original_lhs = lhs.clone();
        lhs.add_assign(rhs);
        assert_eq!(lhs, expected, "Failed for input: '{:?}", (original_lhs, rhs));
    }
}

#[test]
fn test_add_assign_vec3_f64() {
    let test_cases = vec![
        (v(1, 2, 3), fxi(1), v(2, 3, 4)),
        (v(-1, -2, -3), fxi(1), v(0, -1, -2)),
    ];
    for (mut lhs, rhs, expected) in test_cases {
        let original_lhs = lhs.clone();
        lhs.add_assign_fx(rhs);
        assert_eq!(lhs, expected, "Failed for input: '{:?}", (original_lhs, rhs));
    }
}

#[test]
fn test_sub_assign_vec3_vec3() {
    let test_cases = vec![
        (v(1, 2, 3), v(4, 5, 6), v(-3, -3, -3)),
        (v(-1, -2, -3), v(1, 2, 3), v(-2, -4, -6)),
    ];
    for (mut lhs, rhs, expected) in test_cases {
        let original_lhs = lhs.clone();
        lhs.sub_assign(rhs);
        assert_eq!(lhs, expected, "Failed for input: '{:?}", (original_lhs, rhs));
    }
}

#[test]
fn test_sub_assign_vec3_f64() {
    let test_cases = vec![
        (v(1, 2, 3), fxi(1), v(0, 1, 2)),
        (v(-1, -2, -3), fxi(1), v(-2, -3, -4)),
    ];
    for (mut lhs, rhs, expected) in test_cases {
        let original_lhs = lhs.clone();
        lhs.sub_assign_fx(rhs);
        assert_eq!(lhs, expected, "Failed for input: '{:?}", (original_lhs, rhs));
    }
}

#[test]
fn test_mul_assign_vec3_f64() {
    let test_cases = vec![
        (v(1, 2, 3), fxi(2), v(2, 4, 6)),
        (v(-1, -2, -3), fxi(2), v(-2, -4, -6)),
    ];
    for (mut lhs, rhs, expected) in test_cases {
        let original_lhs = lhs.clone();
        lhs.mul_assign_fx(rhs);
        assert_eq!(lhs, expected, "Failed for input: '{:?}", (original_lhs, rhs));
    }
}

#[test]
fn test_div_assing_vec3_f64() {
    let test_cases = vec![
        (v(1, 2, 3), fxi(2), vh(1, 2, 3)),
        (v(-1, -2, -3), fxi(2), vh(-1, -2, -3)),
    ];
    for (mut lhs, rhs, expected) in test_cases {
        let original_lhs = lhs.clone();
        lhs.div_assign_fx(rhs);
        assert_eq!(lhs, expected, "Failed for input: '{:?}", (original_lhs, rhs));
    }
}

#[test]
fn test_partial_eq() {
    let test_cases = vec![
        (v(1, 2, 3), v(1, 2, 3), true),
        (v(1, 2, 3), v(1, 2, 4), false),
    ];
    for (lhs, rhs, expected) in test_cases {
        let result = lhs == rhs;
        assert_eq!(result, expected, "Failed for input: '{:?}", (lhs, rhs));
    }
}

#[test]
fn test_partial_cmp() {
    let test_cases = vec![
        (v(1, 2, 3), v(2, 3, 4), Some(Ordering::Less)),
        (v(1, 2, 3), v(0, 1, 2), Some(Ordering::Greater)),
        (v(1, 2, 3), v(1, 2, 3), Some(Ordering::Equal)),
        (v(1, 2, 3), v(1, 3, 2), None),
    ];
    for (lhs, rhs, expected) in test_cases {
        let result = lhs.partial_cmp(&rhs);
        assert_eq!(result, expected, "Failed for input: '{:?}", (lhs, rhs));
    }
}

#[test]
fn test_less_than() {
    let test_cases = vec![
        (v(1, 2, 3), v(2, 3, 4), true),
        (v(1, 2, 3), v(0, 1, 2), false),
        (v(1, 2, 3), v(1, 2, 3), false),
        (v(1, 2, 3), v(1, 3, 2), false),
    ];
    for (lhs, rhs, expected) in test_cases {
        let result = lhs < rhs;
        assert_eq!(result, expected, "Failed for input: '{:?}", (lhs, rhs));
    }
}

#[test]
fn test_less_eq() {
    let test_cases = vec![
        (v(1, 2, 3), v(2, 3, 4), true),
        (v(1, 2, 3), v(0, 1, 2), false),
        (v(1, 2, 3), v(1, 2, 3), true),
        (v(1, 2, 3), v(1, 3, 2), false),
    ];
    for (lhs, rhs, expected) in test_cases {
        let result = lhs <= rhs;
        assert_eq!(result, expected, "Failed for input: '{:?}", (lhs, rhs));
    }
}

#[test]
fn test_greater_than() {
    let test_cases = vec![
        (v(2, 3, 4), v(1, 2, 3), true),
        (v(0, 1, 2), v(1, 2, 3), false),
        (v(1, 2, 3), v(1, 2, 3), false),
        (v(1, 3, 2), v(1, 2, 3), false),
    ];
    for (lhs, rhs, expected) in test_cases {
        let result = lhs > rhs;
        assert_eq!(result, expected, "Failed for input: '{:?}", (lhs, rhs));
    }
}

#[test]
fn test_greater_eq() {
    let test_cases = vec![
        (v(2, 3, 4), v(1, 2, 3), true),
        (v(0, 1, 2), v(1, 2, 3), false),
        (v(1, 2, 3), v(1, 2, 3), true),
        (v(1, 3, 2), v(1, 2, 3), false),
    ];
    for (lhs, rhs, expected) in test_cases {
        let result = lhs >= rhs;
        assert_eq!(result, expected, "Failed for input: '{:?}", (lhs, rhs));
    }
}
