use chartistry::aspect_ratio::AspectRatio;
use chartistry::chart::{layout_chart, ChartAction, ChartEvent, ChartState};
use chartistry::edge::Edge;
use chartistry::projection::PositionRange;
use chartistry::rotated_label::{Anchor, Attr, Font, Padding, RotatedLabel};
use chartistry::tick::{Tick, Timestamp};
use chartistry::bounds::Bounds;

fn range() -> PositionRange {
    PositionRange { x_min: 0, x_max: 10, y_min: 0, y_max: 10 }
}

#[test]
fn chart_waits_for_measurement() {
    let r = layout_chart(AspectRatio::Env, None, &vec![], &vec![], &vec![], &vec![], range());
    assert!(r.is_none());
}

#[test]
fn chart_pipeline() {
    let ratio = AspectRatio::EnvWidth { ratio_width: 2, ratio_height: 1 };
    let c = layout_chart(ratio, Some((600, 1)), &vec![20, 30], &vec![], &vec![25], &vec![40], range()).unwrap();
    assert_eq!((c.layout.outer.width(), c.layout.outer.height()), (600, 300));
    let i = c.layout.inner;
    assert_eq!((i.top_y(), i.left_x(), i.right_x(), i.bottom_y()), (50, 40, 600, 275));
    assert_eq!(c.projection.inner, i);
    assert_eq!(c.projection.to_pixel_x(10), 600);
    assert_eq!(c.projection.to_pixel_y(10), 50);
}

fn run(events: &[ChartEvent]) -> (ChartState, usize) {
    let mut state = ChartState::Unmeasured;
    let mut renders = 0usize;
    for e in events {
        let (next, action) = state.step(*e);
        if let ChartAction::Render { .. } = action {
            renders += 1;
        }
        state = next;
    }
    (state, renders)
}

#[test]
fn unmount_stops_render_callbacks() {
    let (state, renders) = run(&[
        ChartEvent::Changed,
        ChartEvent::Resized { size: Some((100, 50)) },
        ChartEvent::Changed,
        ChartEvent::Unmount,
        ChartEvent::Changed,
        ChartEvent::Resized { size: Some((200, 80)) },
        ChartEvent::Changed,
    ]);
    assert_eq!(state, ChartState::Unmounted);
    assert_eq!(renders, 2);
}

#[test]
fn lifecycle_transitions() {
    assert_eq!(ChartState::Unmeasured.step(ChartEvent::Changed), (ChartState::Unmeasured, ChartAction::Placeholder));
    assert_eq!(
        ChartState::Measured { width: 3, height: 4 }.step(ChartEvent::Resized { size: None }),
        (ChartState::Measured { width: 3, height: 4 }, ChartAction::Idle)
    );
    assert_eq!(
        ChartState::Measured { width: 3, height: 4 }.step(ChartEvent::Changed),
        (ChartState::Measured { width: 3, height: 4 }, ChartAction::Render { width: 3, height: 4 })
    );
}

fn attr() -> Attr {
    Attr { font: Font { height: 16, width: 10 }, padding: Padding::from(10), debug: false }
}

#[test]
fn rotated_label_size() {
    let l = RotatedLabel::middle("Title".to_string()).apply_attr(&attr());
    assert_eq!(l.size(), 36);
    assert_eq!(l.height(), 36);
    assert_eq!(l.width(), 36);
    let empty = RotatedLabel::start(String::new()).apply_attr(&attr());
    assert_eq!(empty.size(), 0);
}

#[test]
fn rotated_label_settings_override_chart() {
    let l = RotatedLabel::end("x".to_string())
        .set_font(Font { height: 20, width: 12 })
        .set_padding(Padding { top: 1, right: 2, bottom: 3, left: 4 })
        .set_debug(true)
        .apply_attr(&attr());
    assert_eq!(l.font, Font { height: 20, width: 12 });
    assert!(l.debug);
    assert_eq!(l.size(), 24);
    assert_eq!(l.anchor, Anchor::End);
}

#[test]
fn rotated_label_positions() {
    let l = RotatedLabel::new(Anchor::Start, "y".to_string()).set_padding(Padding::from(0)).apply_attr(&attr());
    let b = Bounds::from_points(0, 0, 40, 200);
    assert_eq!(l.position(Edge::Left, b), (270, 20, 200));
    assert_eq!(l.position(Edge::Right, b), (90, 20, 0));
    let b = Bounds::from_points(0, 0, 200, 40);
    assert_eq!(l.position(Edge::Top, b), (0, 0, 20));
    let l = RotatedLabel::end("y".to_string()).apply_attr(&attr());
    assert_eq!(l.position(Edge::Bottom, b), (0, 190, 20));
}

#[test]
fn anchor_attributes() {
    assert_eq!(Anchor::Start.as_svg_attr(), "start");
    assert_eq!(Anchor::Middle.as_svg_attr(), "middle");
    assert_eq!(Anchor::End.as_svg_attr(), "end");
    assert_eq!(Anchor::Start.css_justify_content(), "flex-start");
    assert_eq!(Anchor::Middle.css_justify_content(), "center");
    assert_eq!(Anchor::End.css_justify_content(), "flex-end");
    assert_eq!(Anchor::Middle.map_points(1, 2, 3), 2);
}

#[test]
fn tick_positions() {
    assert_eq!(42i64.position(), 42);
    assert_eq!(Timestamp { millis: -5 }.position(), -5);
}

#[test]
fn edge_orientation() {
    assert!(Edge::Top.is_horizontal());
    assert!(Edge::Bottom.is_horizontal());
    assert!(!Edge::Left.is_horizontal());
}
