use chartistry::aspect_ratio::{AspectRatio, KnownAspectRatio};
use chartistry::bounds::Bounds;
use chartistry::edge::Edge;
use chartistry::inner::{inset_bounds, InsetLegend};
use chartistry::layout::compose;
use chartistry::rotated_label::Anchor;

fn edges(b: &Bounds) -> (u32, u32, u32, u32) {
    (b.top_y(), b.left_x(), b.right_x(), b.bottom_y())
}

#[test]
fn shrink_subtracts_margins() {
    let b = Bounds::from_points(10, 20, 110, 220);
    let s = b.shrink(5, 7, 11, 13);
    assert_eq!(s.width(), 100 - 13 - 7);
    assert_eq!(s.height(), 200 - 5 - 11);
    assert_eq!(edges(&s), (25, 23, 103, 209));
}

#[test]
fn shrink_clamps_at_zero() {
    let b = Bounds::new(30, 40);
    let s = b.shrink(25, 20, 25, 20);
    assert_eq!(s.width(), 0);
    assert_eq!(s.height(), 0);
    let t = b.shrink(0, 0, 0, 100);
    assert_eq!(t.width(), 0);
    assert_eq!(t.height(), 40);
    assert!(t.left_x() <= 30);
}

#[test]
fn from_points_orders_edges() {
    let b = Bounds::from_points(50, 60, 10, 20);
    assert_eq!(b.width(), 0);
    assert_eq!(b.height(), 0);
    assert_eq!(edges(&b), (60, 50, 50, 60));
}

#[test]
fn centres_round_down() {
    let b = Bounds::from_points(1, 2, 6, 9);
    assert_eq!(b.centre_x(), 3);
    assert_eq!(b.centre_y(), 5);
}

#[test]
fn compose_two_top_components() {
    let outer = Bounds::new(800, 400);
    let layout = compose(outer, &vec![20, 30], &vec![], &vec![], &vec![]);
    assert_eq!(edges(&layout.inner), (50, 0, 800, 400));
    assert_eq!(edges(&layout.top[0]), (0, 0, 800, 20));
    assert_eq!(edges(&layout.top[1]), (20, 0, 800, 50));
}

#[test]
fn compose_empty_sides_leave_outer() {
    let outer = Bounds::from_points(5, 6, 300, 200);
    let layout = compose(outer, &vec![], &vec![], &vec![], &vec![]);
    assert_eq!(layout.inner, outer);
    let layout = compose(outer, &vec![], &vec![40], &vec![], &vec![]);
    assert_eq!(layout.inner.top_y(), 6);
    assert_eq!(layout.inner.left_x(), 5);
    assert_eq!(layout.inner.bottom_y(), 200);
    assert_eq!(layout.inner.right_x(), 260);
}

#[test]
fn compose_all_sides() {
    let outer = Bounds::new(500, 300);
    let layout = compose(outer, &vec![10], &vec![20, 5], &vec![30, 15], &vec![40, 8]);
    assert_eq!(edges(&layout.inner), (10, 48, 475, 255));
    // Every list is outermost first.
    assert_eq!(edges(&layout.bottom[0]), (270, 48, 475, 300));
    assert_eq!(edges(&layout.bottom[1]), (255, 48, 475, 270));
    assert_eq!(edges(&layout.left[0]), (10, 0, 40, 255));
    assert_eq!(edges(&layout.left[1]), (10, 40, 48, 255));
    assert_eq!(edges(&layout.right[0]), (10, 480, 500, 255));
    assert_eq!(edges(&layout.right[1]), (10, 475, 480, 255));
}

#[test]
fn compose_zero_thickness_component() {
    let outer = Bounds::new(100, 100);
    let layout = compose(outer, &vec![0, 10], &vec![], &vec![], &vec![]);
    assert_eq!(edges(&layout.top[0]), (0, 0, 100, 0));
    assert_eq!(edges(&layout.top[1]), (0, 0, 100, 10));
    assert_eq!(layout.inner.top_y(), 10);
}

#[test]
fn compose_overfull_side_collapses() {
    let outer = Bounds::new(100, 50);
    let layout = compose(outer, &vec![30, 30], &vec![], &vec![10], &vec![]);
    assert_eq!(layout.inner.height(), 0);
    assert_eq!(edges(&layout.top[0]), (0, 0, 100, 30));
    assert_eq!(edges(&layout.top[1]), (30, 0, 100, 50));
    assert_eq!(edges(&layout.bottom[0]), (50, 0, 100, 50));
}

#[test]
fn aspect_ratio_from_width() {
    let known = AspectRatio::EnvWidth { ratio_width: 2, ratio_height: 1 }.into_known(Some((600, 123)));
    assert_eq!(known, Some(KnownAspectRatio { width: 600, height: 300 }));
    let b = known.unwrap().bounds();
    assert_eq!((b.width(), b.height()), (600, 300));
}

#[test]
fn aspect_ratio_from_height() {
    let known = AspectRatio::EnvHeight { ratio_width: 3, ratio_height: 2 }.into_known(Some((1, 200)));
    assert_eq!(known, Some(KnownAspectRatio { width: 300, height: 200 }));
}

#[test]
fn aspect_ratio_env_and_outer() {
    assert_eq!(
        AspectRatio::Env.into_known(Some((640, 480))),
        Some(KnownAspectRatio { width: 640, height: 480 })
    );
    assert_eq!(
        AspectRatio::Outer { width: 10, height: 20 }.into_known(None),
        Some(KnownAspectRatio { width: 10, height: 20 })
    );
    assert_eq!(AspectRatio::Env.into_known(None), None);
    assert_eq!(AspectRatio::EnvWidth { ratio_width: 2, ratio_height: 1 }.into_known(None), None);
}

#[test]
fn aspect_ratio_zero_term() {
    let known = AspectRatio::EnvWidth { ratio_width: 0, ratio_height: 1 }.into_known(Some((600, 1)));
    assert_eq!(known, Some(KnownAspectRatio { width: 600, height: 0 }));
}

#[test]
fn inset_legend_top_right() {
    let inner = Bounds::new(700, 350);
    let legend = InsetLegend::top_right().into_use(120, 40);
    let b = legend.bounds(inner);
    assert_eq!(edges(&b), (0, 580, 700, 40));
}

#[test]
fn inset_legend_positions() {
    let inner = Bounds::new(700, 350);
    assert_eq!(edges(&InsetLegend::top_left().into_use(120, 40).bounds(inner)), (0, 0, 120, 40));
    assert_eq!(edges(&InsetLegend::top().into_use(120, 40).bounds(inner)), (0, 290, 410, 40));
    assert_eq!(edges(&InsetLegend::bottom_left().into_use(120, 40).bounds(inner)), (310, 0, 120, 350));
    assert_eq!(edges(&InsetLegend::bottom().into_use(120, 40).bounds(inner)), (310, 290, 410, 350));
    assert_eq!(edges(&InsetLegend::bottom_right().into_use(120, 40).bounds(inner)), (310, 580, 700, 350));
    assert_eq!(edges(&InsetLegend::left().into_use(120, 40).bounds(inner)), (155, 0, 120, 195));
    assert_eq!(edges(&InsetLegend::right().into_use(120, 40).bounds(inner)), (155, 580, 700, 195));
}

#[test]
fn inset_larger_than_inner_is_cut() {
    let inner = Bounds::from_points(10, 10, 60, 30);
    let b = inset_bounds(inner, Edge::Bottom, Anchor::Middle, 100, 100);
    assert_eq!(edges(&b), (10, 10, 60, 30));
}

#[test]
fn compose_bottom_outermost_first() {
    let outer = Bounds::new(100, 1000);
    let layout = compose(outer, &vec![], &vec![], &vec![10, 20], &vec![]);
    assert_eq!(edges(&layout.bottom[0]), (990, 0, 100, 1000));
    assert_eq!(edges(&layout.bottom[1]), (970, 0, 100, 990));
    assert_eq!(layout.inner.bottom_y(), 970);
}

#[test]
fn split_at_offsets() {
    let b = Bounds::from_points(10, 20, 110, 220);
    let (upper, lower) = b.split_at_y(50);
    assert_eq!(edges(&upper), (20, 10, 110, 70));
    assert_eq!(edges(&lower), (70, 10, 110, 220));
    let (l, r) = b.split_at_x(30);
    assert_eq!(edges(&l), (20, 10, 40, 220));
    assert_eq!(edges(&r), (20, 40, 110, 220));
    let (all, none) = b.split_at_y(1000);
    assert_eq!(all, b);
    assert_eq!(none.height(), 0);
}

#[test]
fn compose_right_outermost_first() {
    let outer = Bounds::new(1000, 100);
    let layout = compose(outer, &vec![], &vec![10, 20], &vec![], &vec![]);
    assert_eq!(edges(&layout.right[0]), (0, 990, 1000, 100));
    assert_eq!(edges(&layout.right[1]), (0, 970, 990, 100));
    assert_eq!(layout.inner.right_x(), 970);
}
