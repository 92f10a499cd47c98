use hopf::binary_search::{binary_search, Bracket};
use hopf::lut::LookupTable;

#[test]
fn test_binary_search_found() {
    let arr = [1, 2, 3, 4, 5];
    assert_eq!(binary_search(&arr, &3), Bracket::Exact(2));
    assert_eq!(binary_search(&arr, &1), Bracket::Exact(0));
    assert_eq!(binary_search(&arr, &5), Bracket::Exact(4));
}

#[test]
fn test_binary_search_not_found() {
    let arr = [1, 2, 3, 5];
    assert_eq!(binary_search(&arr, &6), Bracket::OutOfBounds);
    assert_eq!(binary_search(&arr, &0), Bracket::OutOfBounds);
}

#[test]
fn test_binary_search_bracketing() {
    let arr = [1, 3, 5, 7, 9];
    assert_eq!(binary_search(&arr, &4), Bracket::Between(1, 2)); // 4 is between 3 and 5
    assert_eq!(binary_search(&arr, &8), Bracket::Between(3, 4)); // 8 is between 7 and 9
}

#[test]
fn binary_search_single_entry() {
    let arr = [7];
    assert_eq!(binary_search(&arr, &7), Bracket::Exact(0));
    assert_eq!(binary_search(&arr, &8), Bracket::OutOfBounds);
    assert_eq!(binary_search(&arr, &6), Bracket::OutOfBounds);
}

/// Point on the unit circle, as the curve under test.
fn circle(alpha: f32) -> (f32, f32) {
    (alpha.cos(), alpha.sin())
}

/// Samples a curve at `n` equal parameter steps over `[start, end]` and
/// accumulates chord lengths: `(parameter, distance)` as bit patterns.
fn sampled_table(f: fn(f32) -> (f32, f32), start: f32, end: f32, n: usize) -> Vec<(u32, u32)> {
    let step = (end - start) / n as f32;
    let mut last = f(start);
    let mut d = 0_f32;
    let mut entries = Vec::with_capacity(n);
    for i in 0..n {
        let alpha = (i as f32).mul_add(step, start);
        let p = f(alpha);
        d += ((p.0 - last.0).powi(2) + (p.1 - last.1).powi(2)).sqrt();
        last = p;
        entries.push((alpha.to_bits(), d.to_bits()));
    }
    entries
}

// Use a unit circle to confirm points are searchable.
#[test]
fn searchable() {
    let n: usize = 24 * 1024;
    let table = sampled_table(circle, 0_f32, core::f32::consts::TAU, n);
    let path_store = LookupTable::new(table).unwrap();

    // Search for a point a quarter of the way around the circle.
    let alpha = match path_store.first_at_least(core::f32::consts::FRAC_PI_2.to_bits()) {
        Some(i) => f32::from_bits(path_store.entry(i).0),
        None => f32::NAN,
    };
    let rel_error = (core::f32::consts::FRAC_PI_2 - alpha).abs() / core::f32::consts::FRAC_PI_2;
    println!("error {}", rel_error);
    assert!(rel_error < 1e-3);

    // Search for a point half way around the circle.
    let alpha = match path_store.first_at_least(core::f32::consts::PI.to_bits()) {
        Some(i) => f32::from_bits(path_store.entry(i).0),
        None => f32::NAN,
    };
    let rel_error = (core::f32::consts::PI - alpha).abs() / core::f32::consts::PI;
    assert!(rel_error < 1e-4, "error {}", rel_error);

    // Final value is as expected.
    let max = f32::from_bits(path_store.entry(path_store.len() - 1).1);
    let rel_error = (core::f32::consts::TAU - max).abs() / core::f32::consts::TAU;
    assert!(rel_error < 1e-4, "error {}", rel_error);
}

#[test]
fn table_must_not_decrease() {
    assert!(LookupTable::new(vec![]).is_none());
    assert!(LookupTable::new(vec![(0, 0), (2, 5), (1, 6)]).is_none());
    assert!(LookupTable::new(vec![(0, 0), (2, 5), (3, 4)]).is_none());
    let t = LookupTable::new(vec![(0, 0), (2, 5), (2, 5), (3, 9)]).unwrap();
    assert_eq!(t.len(), 4);
    assert_eq!(t.entry(3), (3, 9));
}

#[test]
fn table_entries_are_monotone_when_sampled() {
    let table = sampled_table(circle, 0_f32, core::f32::consts::TAU, 4096);
    for w in table.windows(2) {
        assert!(f32::from_bits(w[0].0) <= f32::from_bits(w[1].0));
        assert!(f32::from_bits(w[0].1) <= f32::from_bits(w[1].1));
    }
    assert!(LookupTable::new(table).is_some());
}

#[test]
fn resample_picks_first_reaching_entry() {
    let t = LookupTable::new(vec![(10, 0), (11, 4), (12, 4), (13, 8), (14, 12)]).unwrap();
    let r = t.resample(&vec![0, 3, 4, 5, 12, 13, 20], 15);
    assert_eq!(r, vec![Some(0), Some(1), Some(1), Some(3), Some(4), Some(4), None]);
}

#[test]
fn resample_restarts_on_a_lower_target() {
    let t = LookupTable::new(vec![(0, 0), (1, 4), (2, 8), (3, 12)]).unwrap();
    let r = t.resample(&vec![9, 1, 12], 12);
    assert_eq!(r, vec![Some(3), Some(1), Some(3)]);
    assert_eq!(t.first_at_least(13), None);
    assert_eq!(t.first_at_least(5), Some(2));
}

#[test]
fn resample_flags_unresolved_endpoint() {
    let t = LookupTable::new(vec![(0, 0), (1, 4), (2, 8)]).unwrap();
    // Just past the end, within the allowance: the last entry.
    assert_eq!(t.resample(&vec![9], 10), vec![Some(2)]);
    // Past the allowance: unresolved.
    assert_eq!(t.resample(&vec![10], 10), vec![None]);
    assert_eq!(t.resample(&vec![], 10), vec![]);
}

#[test]
fn uniform_spacing_on_circle() {
    // A unit circle sampled finely; 1000 samples at equal arc length.
    let n_out = 1000_usize;
    let table = sampled_table(circle, 0_f32, core::f32::consts::TAU, 4096 * 16);
    let t = LookupTable::new(table).unwrap();
    let total = f32::from_bits(t.entry(t.len() - 1).1);
    let step = total / (n_out - 1) as f32;
    let targets: Vec<u32> = (0..n_out).map(|i| (i as f32 * step).to_bits()).collect();
    let end_limit = (total + 1e-3).to_bits();
    let slots = t.resample(&targets, end_limit);
    assert_eq!(slots.len(), n_out);
    let points: Vec<(f32, f32)> = slots
        .iter()
        .map(|s| circle(f32::from_bits(t.entry(s.unwrap()).0)))
        .collect();
    let expected = core::f32::consts::TAU / (n_out - 1) as f32;
    for w in points.windows(2) {
        let chord = ((w[1].0 - w[0].0).powi(2) + (w[1].1 - w[0].1).powi(2)).sqrt();
        assert!(((chord - expected) / expected).abs() < 1e-2, "chord {chord} expected {expected}");
    }
}
