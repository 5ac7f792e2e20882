use chartistry::bounds::Bounds;
use chartistry::projection::{PositionRange, Projection};
use chartistry::series::{extent, position_range};
use chartistry::ticks::{generate_ticks, generate_ticks_y, label_len, nice_step, ticks, ticks_y};

fn proj(inner: Bounds, x_min: i64, x_max: i64, y_min: i64, y_max: i64) -> Projection {
    Projection::new(inner, PositionRange { x_min, x_max, y_min, y_max })
}

#[test]
fn projects_to_pixels() {
    let p = proj(Bounds::from_points(10, 20, 210, 120), 0, 100, -50, 50);
    assert_eq!(p.to_pixel_x(0), 10);
    assert_eq!(p.to_pixel_x(50), 110);
    assert_eq!(p.to_pixel_x(100), 210);
    assert_eq!(p.to_pixel_y(-50), 120);
    assert_eq!(p.to_pixel_y(0), 70);
    assert_eq!(p.to_pixel_y(50), 20);
    // Outside the range the mapping carries on.
    assert_eq!(p.to_pixel_x(-1), 8);
    assert_eq!(p.to_pixel_x(150), 310);
}

#[test]
fn projection_round_trip() {
    let p = proj(Bounds::new(300, 200), -1000, 1000, 0, 7);
    for v in [-1000i64, -999, -3, 0, 1, 333, 999, 1000] {
        let px = p.to_pixel_x(v) as u32;
        let back = p.to_data_x(px);
        assert!(back <= v as i128);
        // Within one pixel's worth of data, 2000 / 300, plus one.
        assert!((v as i128 - back) * 300 < 2000 + 300);
    }
    let q = proj(Bounds::new(100, 100), 0, 10, 0, 10);
    for v in 0i64..=10 {
        assert_eq!(q.to_data_x(q.to_pixel_x(v) as u32), v as i128);
        assert_eq!(q.to_data_y(q.to_pixel_y(v) as u32), v as i128);
    }
    for v in 0i64..=7 {
        let py = p.to_pixel_y(v) as u32;
        let back = p.to_data_y(py);
        assert!(back <= v as i128);
        assert!((v as i128 - back) * 200 < 7 + 200);
    }
}

#[test]
fn degenerate_range_maps_to_centre() {
    let p = proj(Bounds::new(100, 100), 5, 5, 5, 5);
    for v in [-10i64, 0, 5, 6, 1000] {
        assert_eq!(p.to_pixel_x(v), 50);
        assert_eq!(p.to_pixel_y(v), 50);
    }
    assert_eq!(p.to_data_x(17), 5);
}

#[test]
fn zero_width_span() {
    let p = proj(Bounds::from_points(40, 0, 40, 10), 0, 10, 0, 10);
    assert_eq!(p.to_pixel_x(7), 40);
    assert_eq!(p.to_data_x(40), 0);
}

#[test]
fn label_lengths() {
    assert_eq!(label_len(0), 1);
    assert_eq!(label_len(9), 1);
    assert_eq!(label_len(10), 2);
    assert_eq!(label_len(-10), 3);
    assert_eq!(label_len(i64::MIN), 20);
    assert_eq!(label_len(i64::MAX), 19);
}

fn check_spaced(ts: &[chartistry::ticks::TickMark]) {
    for w in ts.windows(2) {
        assert!(w[0].position < w[1].position);
        assert!(w[0].label_end <= w[1].label_start);
    }
}

#[test]
fn ticks_are_spaced() {
    let p = proj(Bounds::new(400, 100), 0, 1000, 0, 1);
    let ts = ticks(&p, 10);
    assert!(ts.len() >= 2);
    check_spaced(&ts);
    for t in &ts {
        assert!(t.value >= 0 && t.value <= 1000);
        assert_eq!(t.position, p.to_pixel_x(t.value));
        assert_eq!(t.value % 100, 0);
    }
}

#[test]
fn dense_ticks_are_thinned() {
    let p = proj(Bounds::new(50, 10), 0, 1000, 0, 1);
    let ts = generate_ticks(&p, 1, 10);
    // Only 300 has a label that fits inside the span with nothing overlapping it.
    let values: Vec<i64> = ts.iter().map(|t| t.value).collect();
    assert_eq!(values, vec![300]);
    assert_eq!((ts[0].label_start, ts[0].label_end), (0, 30));
}

#[test]
fn degenerate_ticks() {
    let p = proj(Bounds::new(0, 10), 0, 1000, 0, 1);
    assert!(ticks(&p, 10).len() <= 1);
    let p = proj(Bounds::new(100, 10), 5, 5, 0, 1);
    let ts = ticks(&p, 10);
    assert_eq!(ts.len(), 1);
    assert_eq!(ts[0].value, 5);
    assert_eq!(ts[0].position, 50);
}

#[test]
fn nice_steps() {
    assert_eq!(nice_step(1000, 400, 40), 200);
    assert_eq!(nice_step(10, 1000, 10), 1);
    assert_eq!(nice_step(0, 0, 10), 1);
    // 1, 2, 5 and 10 leave no room; 20 gives 51 labels of 10 pixels in 600.
    assert_eq!(nice_step(1000, 600, 10), 20);
    // Nothing fits before one step covers the range.
    assert_eq!(nice_step(60, 5, 10), 100);
}

#[test]
fn ticks_on_negative_range() {
    let p = proj(Bounds::new(600, 10), -35, 35, 0, 1);
    let ts = ticks(&p, 8);
    check_spaced(&ts);
    assert!(ts.iter().all(|t| t.value >= -35 && t.value <= 35));
    assert!(ts.iter().any(|t| t.value == 0));
}

#[test]
fn extent_of_values() {
    assert_eq!(extent(&vec![]), None);
    assert_eq!(extent(&vec![3, -2, 9, 4]), Some((-2, 9)));
}

#[test]
fn position_range_over_visible_lines() {
    let xs = vec![1, 5, 3];
    let lines = vec![vec![10, 20, 30], vec![-100, 0, 500], vec![]];
    let r = position_range(&xs, &lines, &vec![true, false, true]).unwrap();
    assert_eq!(r, PositionRange { x_min: 1, x_max: 5, y_min: 10, y_max: 30 });
    let r = position_range(&xs, &lines, &vec![true, true, true]).unwrap();
    assert_eq!((r.y_min, r.y_max), (-100, 500));
    assert_eq!(position_range(&xs, &lines, &vec![false, false, true]), None);
    assert_eq!(position_range(&vec![], &lines, &vec![true, true, true]), None);
}

#[test]
fn vertical_ticks_run_downwards() {
    let p = proj(Bounds::new(10, 200), 0, 1, -20, 100);
    let ts = ticks_y(&p, 16);
    assert!(ts.len() >= 2);
    check_spaced(&ts);
    // The label of 100 would stick out above the plot area.
    assert!(ts[0].value < 100);
    for w in ts.windows(2) {
        assert!(w[0].value > w[1].value);
    }
    for t in &ts {
        assert_eq!(t.position, p.to_pixel_y(t.value));
        assert_eq!(t.label_end - t.label_start, 16);
        assert!(t.label_start >= 0 && t.label_end <= 200);
    }
}

#[test]
fn vertical_ticks_thinned_and_degenerate() {
    let p = proj(Bounds::new(10, 40), 0, 1, 0, 100);
    let ts = generate_ticks_y(&p, 1, 16);
    let values: Vec<i64> = ts.iter().map(|t| t.value).collect();
    assert_eq!(values, vec![82, 42]);
    check_spaced(&ts);
    let flat = proj(Bounds::new(10, 0), 0, 1, 0, 100);
    assert!(ticks_y(&flat, 16).len() <= 1);
}

#[test]
fn tick_labels_stay_inside_span() {
    let p = proj(Bounds::from_points(100, 0, 500, 10), -1000, 1000, 0, 1);
    let ts = ticks(&p, 10);
    assert!(!ts.is_empty());
    for t in &ts {
        assert!(t.label_start >= 100 && t.label_end <= 500);
    }
    assert!(ts.iter().all(|t| t.value != -1000 && t.value != 1000));
}

#[test]
fn ticks_start_at_first_multiple() {
    let p = proj(Bounds::new(1000, 10), 7, 95, 0, 1);
    let ts = generate_ticks(&p, 20, 5);
    let values: Vec<i64> = ts.iter().map(|t| t.value).collect();
    assert_eq!(values, vec![20, 40, 60, 80]);
    let none = generate_ticks(&proj(Bounds::new(1000, 10), 1, 9, 0, 1), 10, 5);
    assert!(none.is_empty());
}
