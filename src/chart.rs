use crate::aspect_ratio::{resolved, AspectRatio};
use crate::bounds::Rect;
use crate::layout::{
    column_slice, column_slice_left, compose, composed_inner, row_slice, row_slice_up, Layout,
};
use crate::projection::{PositionRange, Projection};
use vstd::prelude::*;

verus! {

/// Default font height in pixels.
pub const FONT_HEIGHT: u32 = 16;

/// Default font character width in pixels.
pub const FONT_WIDTH: u32 = 10;

/// Everything a chart draws from: the composed rectangles and the projection
/// onto the plot area.
#[derive(Clone, Debug, PartialEq, Eq)]
pub struct ChartLayout {
    pub layout: Layout,
    pub projection: Projection,
}

/// Runs the layout pipeline: resolves the outer size, composes the edge
/// components around it and projects `range` onto the plot area. Nothing is
/// laid out until the container has been measured.
pub fn layout_chart(
    aspect_ratio: AspectRatio,
    observed: Option<(u32, u32)>,
    top: &Vec<u32>,
    right: &Vec<u32>,
    bottom: &Vec<u32>,
    left: &Vec<u32>,
    range: PositionRange,
) -> (r: Option<ChartLayout>)
    ensures
        r.is_some() <==> observed.is_some(),
        r.is_some() ==> ({
            let c = r.unwrap();
            let (w, h) = resolved(aspect_ratio, observed).unwrap();
            let outer = Rect { top: 0, left: 0, right: w, bottom: h };
            let inner = c.layout.inner@;
            &&& c.layout.outer@ == outer
            &&& inner == composed_inner(outer, top@, right@, bottom@, left@)
            &&& c.layout.top.len() == top.len()
            &&& c.layout.right.len() == right.len()
            &&& c.layout.bottom.len() == bottom.len()
            &&& c.layout.left.len() == left.len()
            &&& forall|i: int|
                0 <= i < top.len() ==> #[trigger] c.layout.top[i]@ == row_slice(
                    inner,
                    0,
                    inner.top,
                    top@,
                    i,
                )
            &&& forall|i: int|
                0 <= i < bottom.len() ==> #[trigger] c.layout.bottom[i]@ == row_slice_up(
                    inner,
                    h,
                    inner.bottom,
                    bottom@,
                    i,
                )
            &&& forall|i: int|
                0 <= i < left.len() ==> #[trigger] c.layout.left[i]@ == column_slice(
                    inner,
                    0,
                    inner.left,
                    left@,
                    i,
                )
            &&& forall|i: int|
                0 <= i < right.len() ==> #[trigger] c.layout.right[i]@ == column_slice_left(
                    inner,
                    w,
                    inner.right,
                    right@,
                    i,
                )
            &&& c.projection.inner == c.layout.inner
            &&& c.projection.range == range
        }),
{
    if observed.is_none() {
        return None;
    }
    match aspect_ratio.into_known(observed) {
        Some(known) => {
            let outer = known.bounds();
            let layout = compose(outer, top, right, bottom, left);
            let projection = Projection::new(layout.inner, range);
            Some(ChartLayout { layout, projection })
        },
        None => None,
    }
}

/// Where a chart instance is in its life.
#[derive(Clone, Copy, Debug, PartialEq, Eq, Structural)]
pub enum ChartState {
    /// Mounted, container size not known yet.
    Unmeasured,
    /// Mounted and measured.
    Measured { width: u32, height: u32 },
    /// Torn down; nothing more is drawn.
    Unmounted,
}

/// What happens to a chart instance.
#[derive(Clone, Copy, Debug, PartialEq, Eq)]
pub enum ChartEvent {
    /// The container was observed, with its size if it has one.
    Resized { size: Option<(u32, u32)> },
    /// The data or a setting changed.
    Changed,
    /// The chart was removed.
    Unmount,
}

/// What the host should do after an event.
#[derive(Clone, Copy, Debug, PartialEq, Eq, Structural)]
pub enum ChartAction {
    /// Show the placeholder shown until the container is measured.
    Placeholder,
    /// Run the layout pipeline for this size and draw.
    Render { width: u32, height: u32 },
    /// Do nothing.
    Idle,
}

pub open spec fn next(s: ChartState, e: ChartEvent) -> (ChartState, ChartAction) {
    match (s, e) {
        (ChartState::Unmounted, _) => (ChartState::Unmounted, ChartAction::Idle),
        (_, ChartEvent::Unmount) => (ChartState::Unmounted, ChartAction::Idle),
        (_, ChartEvent::Resized { size: Some((width, height)) }) => (
            ChartState::Measured { width, height },
            ChartAction::Render { width, height },
        ),
        (ChartState::Measured { width, height }, ChartEvent::Resized { size: None }) => (
            ChartState::Measured { width, height },
            ChartAction::Idle,
        ),
        (ChartState::Measured { width, height }, ChartEvent::Changed) => (
            ChartState::Measured { width, height },
            ChartAction::Render { width, height },
        ),
        (ChartState::Unmeasured, _) => (ChartState::Unmeasured, ChartAction::Placeholder),
    }
}

/// The actions that a run of events gives from state `s`, in order.
pub open spec fn actions(s: ChartState, events: Seq<ChartEvent>) -> Seq<ChartAction>
    decreases events.len(),
{
    if events.len() == 0 {
        Seq::empty()
    } else {
        let (t, a) = next(s, events[0]);
        seq![a].add(actions(t, events.drop_first()))
    }
}

impl ChartState {
    /// The transition for one event: a measurement (re)renders at that size,
    /// a change re-renders a measured chart, an unmeasured chart shows its
    /// placeholder, and after unmounting every event is ignored.
    pub fn step(self, e: ChartEvent) -> (r: (ChartState, ChartAction))
        ensures
            r == next(self, e),
    {
        match (self, e) {
            (ChartState::Unmounted, _) => (ChartState::Unmounted, ChartAction::Idle),
            (_, ChartEvent::Unmount) => (ChartState::Unmounted, ChartAction::Idle),
            (_, ChartEvent::Resized { size: Some((width, height)) }) => (
                ChartState::Measured { width, height },
                ChartAction::Render { width, height },
            ),
            (ChartState::Measured { width, height }, ChartEvent::Resized { size: None }) => (
                ChartState::Measured { width, height },
                ChartAction::Idle,
            ),
            (ChartState::Measured { width, height }, ChartEvent::Changed) => (
                ChartState::Measured { width, height },
                ChartAction::Render { width, height },
            ),
            (ChartState::Unmeasured, _) => (ChartState::Unmeasured, ChartAction::Placeholder),
        }
    }
}

/// Once a chart is unmounted, no later event of any kind makes it render.
pub proof fn lemma_no_render_after_unmount(events: Seq<ChartEvent>)
    ensures
        forall|i: int|
            0 <= i < events.len() ==> !(#[trigger] actions(ChartState::Unmounted, events)[i] is Render),
        actions(ChartState::Unmounted, events).len() == events.len(),
    decreases events.len(),
{
    if events.len() > 0 {
        lemma_no_render_after_unmount(events.drop_first());
        let rest = actions(ChartState::Unmounted, events.drop_first());
        assert(actions(ChartState::Unmounted, events) == seq![ChartAction::Idle].add(rest));
    }
}

/// An unmount event ends rendering: whatever state the chart was in and
/// whatever follows, nothing after it renders.
pub proof fn lemma_unmount_stops_rendering(s: ChartState, later: Seq<ChartEvent>)
    ensures
        forall|i: int|
            0 <= i < later.len() + 1 ==> !(#[trigger] actions(
                s,
                seq![ChartEvent::Unmount].add(later),
            )[i] is Render),
{
    let evs = seq![ChartEvent::Unmount].add(later);
    assert(evs.drop_first() == later);
    lemma_no_render_after_unmount(later);
    assert(actions(s, evs) == seq![ChartAction::Idle].add(actions(ChartState::Unmounted, later)));
}

} // verus!
