use raytracer::{hit_before, is_nan_bits, less_bits, nearest_hit, INFINITY};

fn b(v: f64) -> u64 {
    v.to_bits()
}

#[test]
fn infinity_pattern() {
    assert_eq!(INFINITY, f64::INFINITY.to_bits());
}

#[test]
fn order_matches_floats() {
    let values = [
        f64::NEG_INFINITY,
        -3.5,
        -1.0,
        -0.0,
        0.0,
        1e-300,
        0.5,
        1.0,
        2.0,
        1e300,
        f64::INFINITY,
        f64::NAN,
    ];
    for &a in values.iter() {
        for &c in values.iter() {
            assert_eq!(less_bits(b(a), b(c)), a < c, "{} < {}", a, c);
        }
    }
}

#[test]
fn nan_patterns() {
    assert!(is_nan_bits(b(f64::NAN)));
    assert!(is_nan_bits(b(-f64::NAN)));
    assert!(!is_nan_bits(b(f64::INFINITY)));
    assert!(!is_nan_bits(b(f64::NEG_INFINITY)));
    assert!(!is_nan_bits(b(-0.0)));
}

#[test]
fn nearest_of_none() {
    assert_eq!(nearest_hit(&vec![]), None);
    assert_eq!(nearest_hit(&vec![None, None]), None);
    assert_eq!(nearest_hit(&vec![Some(b(f64::INFINITY)), Some(b(f64::NAN))]), None);
}

#[test]
fn nearest_picks_smallest() {
    let hits = vec![Some(b(4.0)), None, Some(b(2.5)), Some(b(3.0))];
    assert_eq!(nearest_hit(&hits), Some(2));
}

#[test]
fn nearest_keeps_first_of_ties() {
    let hits = vec![Some(b(5.0)), Some(b(2.0)), Some(b(2.0)), Some(b(1.0)), Some(b(1.0))];
    assert_eq!(nearest_hit(&hits), Some(3));
    let zeros = vec![Some(b(0.0)), Some(b(-0.0))];
    assert_eq!(nearest_hit(&zeros), Some(0));
}

#[test]
fn nearest_skips_nan_and_infinity() {
    let hits = vec![Some(b(f64::NAN)), Some(b(f64::INFINITY)), Some(b(7.0)), Some(b(f64::NAN))];
    assert_eq!(nearest_hit(&hits), Some(2));
}

#[test]
fn nearest_skips_negative_distances() {
    let hits = vec![Some(b(1.0)), Some(b(-2.0))];
    assert_eq!(nearest_hit(&hits), Some(0));
    assert_eq!(nearest_hit(&vec![Some(b(-1.0))]), None);
    assert_eq!(nearest_hit(&vec![Some(b(f64::NEG_INFINITY)), Some(b(3.0))]), Some(1));
    assert_eq!(nearest_hit(&vec![Some(b(3.0)), Some(b(-0.0))]), Some(1));
}

#[test]
fn hits_behind_do_not_shadow() {
    assert!(!hit_before(&vec![Some(b(-1.0))], b(3.0)));
    assert!(!hit_before(&vec![Some(b(f64::NEG_INFINITY))], b(3.0)));
}

fn dot(a: [f64; 3], c: [f64; 3]) -> f64 {
    a[0] * c[0] + a[1] * c[1] + a[2] * c[2]
}

#[test]
fn sphere_in_front_of_plane_is_nearest() {
    let start = [3.0, 2.0, 4.0];
    let to = [-1.0 - 3.0, 0.5 - 2.0, 0.0 - 4.0];
    let len = dot(to, to).sqrt();
    let dir = [to[0] / len, to[1] / len, to[2] / len];
    // plane y = 0
    let denom = dir[1];
    let plane = (start[1] + 0.0) / -denom;
    // sphere at (0, 1, -0.25), radius 1
    let eo = [0.0 - start[0], 1.0 - start[1], -0.25 - start[2]];
    let v = dot(eo, dir);
    let disc = 1.0 - (dot(eo, eo) - v * v);
    assert!(v >= 0.0 && disc >= 0.0);
    let sphere = v - disc.sqrt();
    assert!(sphere > 0.0);
    let hits = vec![Some(b(plane)), Some(b(sphere))];
    assert_eq!(nearest_hit(&hits), Some(1));
}

#[test]
fn shadow_when_blocker_before_light() {
    let hits = vec![None, Some(b(1.5)), None];
    assert!(hit_before(&hits, b(3.0)));
}

#[test]
fn lit_without_blocker() {
    let hits: Vec<Option<u64>> = vec![None, None];
    assert!(!hit_before(&hits, b(3.0)));
    assert!(!hit_before(&vec![], b(3.0)));
}

#[test]
fn lit_when_hit_beyond_or_at_light() {
    assert!(!hit_before(&vec![Some(b(4.0))], b(3.0)));
    assert!(!hit_before(&vec![Some(b(3.0))], b(3.0)));
    assert!(hit_before(&vec![Some(b(4.0)), Some(b(2.9))], b(3.0)));
}
