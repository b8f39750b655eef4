use cosmic_comp::blur::params::{blur_params, extended_radius, parameters, MAX_STEPS};
use cosmic_comp::blur::offset::BlurOffset;

/// The passes, the offset and the radius of each strength, computed in
/// floating point.
fn float_table() -> Vec<(usize, f64, i32)> {
    let mut table = Vec::new();
    let mut remaining: isize = MAX_STEPS as isize;
    let offsets = [(1.0, 2.0, 10), (2.0, 3.0, 20), (2.0, 5.0, 50), (3.0, 8.0, 150)];
    let sum: f64 = offsets.iter().map(|(min, max, _)| *max - *min).sum();
    for (i, (min, max, radius)) in offsets.into_iter().enumerate() {
        let mut steps = f64::ceil((max - min) / sum * (MAX_STEPS as f64)) as usize;
        remaining -= steps as isize;
        if remaining < 0 {
            steps = steps.saturating_add_signed(remaining);
        }
        let diff: f64 = max - min;
        for j in 1..=steps {
            table.push((i + 1, min + (diff / steps as f64) * j as f64, radius));
        }
    }
    table
}

#[test]
fn table_agrees_with_floating_point() {
    let expected = float_table();
    let params = blur_params();
    assert_eq!(params.len(), 15);
    assert_eq!(params.len(), expected.len());
    for (param, (passes, offset, radius)) in params.iter().zip(expected) {
        assert_eq!(param.passes, passes);
        assert_eq!(param.extended_radius, radius);
        let exact = param.offset.num as f64 / param.offset.den as f64;
        assert!((exact - offset).abs() < 1e-12);
    }
}

#[test]
fn table_exact_values() {
    let params = blur_params();
    let rows: Vec<(usize, u32, u32, i32)> = params
        .iter()
        .map(|p| (p.passes, p.offset.num, p.offset.den, p.extended_radius))
        .collect();
    assert_eq!(
        rows,
        vec![
            (1, 3, 2, 10),
            (1, 4, 2, 10),
            (2, 5, 2, 20),
            (2, 6, 2, 20),
            (3, 13, 5, 50),
            (3, 16, 5, 50),
            (3, 19, 5, 50),
            (3, 22, 5, 50),
            (3, 25, 5, 50),
            (4, 23, 6, 150),
            (4, 28, 6, 150),
            (4, 33, 6, 150),
            (4, 38, 6, 150),
            (4, 43, 6, 150),
            (4, 48, 6, 150),
        ]
    );
}

#[test]
fn strengths_beyond_the_last_are_the_last() {
    let last = parameters(14);
    assert_eq!(last.passes, 4);
    assert!(last.offset.equals(&BlurOffset { num: 8, den: 1 }));
    for strength in [15, 100, usize::MAX] {
        let params = parameters(strength);
        assert_eq!(params.passes, last.passes);
        assert!(params.offset.equals(&last.offset));
        assert_eq!(params.extended_radius, last.extended_radius);
    }
}

#[test]
fn radius_is_that_of_two_strengths_further() {
    assert_eq!(extended_radius(0), 20);
    assert_eq!(extended_radius(1), 20);
    assert_eq!(extended_radius(2), 50);
    assert_eq!(extended_radius(6), 50);
    assert_eq!(extended_radius(7), 150);
    assert_eq!(extended_radius(1000), 150);
}

#[test]
fn stronger_blurs_more() {
    let params = blur_params();
    for i in 1..params.len() {
        let (a, b) = (params[i - 1], params[i]);
        assert!(a.extended_radius <= b.extended_radius);
        assert!(
            a.passes < b.passes
                || (a.passes == b.passes
                    && a.offset.num * b.offset.den < b.offset.num * a.offset.den)
        );
    }
}

#[test]
fn offsets_compare_as_fractions() {
    let third = BlurOffset { num: 2, den: 6 };
    assert!(third.equals(&BlurOffset { num: 1, den: 3 }));
    assert!(!third.equals(&BlurOffset { num: 1, den: 2 }));
    let large = BlurOffset { num: u32::MAX, den: u32::MAX };
    assert!(large.equals(&BlurOffset { num: 1, den: 1 }));
    let none = BlurOffset { num: 0, den: 0 };
    assert!(!none.equals(&third) && !third.equals(&none) && !none.equals(&none));
}
