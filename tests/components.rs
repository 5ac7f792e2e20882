use chartistry::aspect_ratio::AspectRatio;
use chartistry::chart::layout_chart;
use chartistry::edge::Edge;
use chartistry::edge_layout::{edge_thicknesses, EdgeLayout};
use chartistry::projection::PositionRange;
use chartistry::rotated_label::{Attr, Font, Padding, RotatedLabel};

fn attr() -> Attr {
    Attr { font: Font { height: 16, width: 10 }, padding: Padding::from(10), debug: false }
}

fn range() -> PositionRange {
    PositionRange { x_min: 0, x_max: 1000, y_min: -100, y_max: 50 }
}

#[test]
fn component_thicknesses() {
    let label = EdgeLayout::RotatedLabel(RotatedLabel::middle("Title".to_string()).apply_attr(&attr()));
    let axis = EdgeLayout::TickLabels { font: Font { height: 16, width: 10 }, padding: Padding::from(10) };
    let fixed = EdgeLayout::Fixed(42);
    assert_eq!(label.thickness(Edge::Top, range()), 36);
    assert_eq!(label.thickness(Edge::Left, range()), 36);
    assert_eq!(axis.thickness(Edge::Bottom, range()), 36);
    // "-100" is the widest label of the y range: 4 characters.
    assert_eq!(axis.thickness(Edge::Left, range()), 60);
    assert_eq!(fixed.thickness(Edge::Right, range()), 42);
    let empty = EdgeLayout::RotatedLabel(RotatedLabel::start(String::new()).apply_attr(&attr()));
    assert_eq!(empty.thickness(Edge::Top, range()), 0);
}

#[test]
fn components_compose_into_chart() {
    let title = RotatedLabel::middle("Title".to_string())
        .set_font(Font { height: 20, width: 10 })
        .set_padding(Padding::from(0))
        .apply_attr(&attr());
    let top = edge_thicknesses(&vec![EdgeLayout::RotatedLabel(title), EdgeLayout::Fixed(30)], Edge::Top, range());
    assert_eq!(top, vec![20, 30]);
    let c = layout_chart(AspectRatio::Outer { width: 800, height: 400 }, Some((1, 1)), &top, &vec![], &vec![], &vec![], range())
        .unwrap();
    let i = c.layout.inner;
    assert_eq!((i.top_y(), i.left_x(), i.right_x(), i.bottom_y()), (50, 0, 800, 400));
}
