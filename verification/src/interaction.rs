use vstd::prelude::*;

verus! {

/// How the pointer relates to the bar.
#[derive(Clone, Copy, PartialEq, Eq, Structural, Debug)]
pub enum Pressure {
    /// The pointer is outside the bar.
    Outside,
    /// The pointer hovers over the bar.
    Hovering,
    /// A button is held over the bar.
    Held,
}

/// A button event that a widget may still claim this frame.
#[derive(Clone, Copy, PartialEq, Eq, Structural, Debug)]
pub enum PointerEvent {
    Press,
    Release,
}

/// How the pointer interacts with a widget this frame.
#[derive(Clone, Copy, PartialEq, Eq, Structural, Debug)]
pub struct Response {
    pub hovered: bool,
    pub pressed: bool,
    pub clicked: bool,
}

/// The pointer state that widgets query while the frame is drawn. `P` is a
/// pointer position and `R` a widget's rectangle; the geometry (whether a
/// rectangle holds the pointer, how far it moved) is measured by the caller.
pub struct InteractionState<P, R> {
    pub pressure: Pressure,
    pub dragging: bool,
    pub drag_enabled: bool,
    pub press_origin: P,
    pub pointer: P,
    pub event: Option<PointerEvent>,
    pub scroll: i32,
    pub hover_claimed: bool,
    pub pulse: Option<P>,
    /// The rectangles that take pointer input this frame.
    pub regions: Vec<R>,
}

/// How a widget that holds the pointer when `inside` responds, given the
/// pointer state `(pressure, hover_claimed, event, dragging)`.
pub open spec fn respond(
    pressure: Pressure,
    hover_claimed: bool,
    event: Option<PointerEvent>,
    dragging: bool,
    inside: bool,
    near_origin: bool,
) -> Response {
    Response {
        hovered: pressure != Pressure::Outside && !hover_claimed && inside,
        pressed: inside && event == Some(PointerEvent::Press),
        clicked: inside && !dragging && near_origin && event == Some(PointerEvent::Release),
    }
}

/// The button event left for later widgets once a widget responded.
pub open spec fn event_after(event: Option<PointerEvent>, response: Response) -> Option<PointerEvent> {
    if response.pressed || response.clicked {
        None
    } else {
        event
    }
}

/// Widgets claim the pointer once per frame: after a widget is hovered no
/// later widget is, and after a widget is pressed or clicked no later widget
/// is pressed or clicked by the same event.
pub proof fn widgets_claim_once(
    pressure: Pressure,
    hover_claimed: bool,
    event: Option<PointerEvent>,
    dragging: bool,
    first: (bool, bool),
    second: (bool, bool),
)
    ensures
        ({
            let r1 = respond(pressure, hover_claimed, event, dragging, first.0, first.1);
            let r2 = respond(
                pressure,
                hover_claimed || r1.hovered,
                event_after(event, r1),
                dragging,
                second.0,
                second.1,
            );
            &&& r1.hovered ==> !r2.hovered
            &&& (r1.pressed || r1.clicked) ==> !r2.pressed && !r2.clicked
        }),
{
}

/// One `surface` call: the widget at `rect` responds as `respond` says, its
/// rectangle joins the input regions, a hover claims the pointer, a press or
/// click takes the event, a click leaves a pulse; nothing else changes.
pub open spec fn surfaced<P, R>(
    before: InteractionState<P, R>,
    after: InteractionState<P, R>,
    rect: R,
    inside: bool,
    near_origin: bool,
    response: Response,
) -> bool {
    &&& response == respond(before.pressure, before.hover_claimed, before.event, before.dragging, inside, near_origin)
    &&& after.regions@ == before.regions@.push(rect)
    &&& after.hover_claimed == (before.hover_claimed || response.hovered)
    &&& after.event == event_after(before.event, response)
    &&& after.pulse == if response.clicked { Some(before.pointer) } else { before.pulse }
    &&& after.pressure == before.pressure
    &&& after.dragging == before.dragging
    &&& after.drag_enabled == before.drag_enabled
    &&& after.press_origin == before.press_origin
    &&& after.pointer == before.pointer
    &&& after.scroll == before.scroll
}

proof fn lemma_surface_calls_keep_claims<P, R>(
    states: Seq<InteractionState<P, R>>,
    rects: Seq<R>,
    hits: Seq<(bool, bool)>,
    responses: Seq<Response>,
    i: int,
    k: int,
)
    requires
        states.len() == responses.len() + 1,
        rects.len() == responses.len(),
        hits.len() == responses.len(),
        forall|n: int|
            0 <= n < responses.len() ==> #[trigger] surfaced(
                states[n],
                states[n + 1],
                rects[n],
                hits[n].0,
                hits[n].1,
                responses[n],
            ),
        0 <= i < k <= responses.len(),
    ensures
        responses[i].hovered ==> states[k].hover_claimed,
        (responses[i].pressed || responses[i].clicked) ==> states[k].event is None,
        states[k].regions@.len() == states[i].regions@.len() + (k - i),
        states[k].pressure == states[i].pressure,
        states[k].pointer == states[i].pointer,
    decreases k - i,
{
    let n = k - 1;
    assert(surfaced(states[n], states[n + 1], rects[n], hits[n].0, hits[n].1, responses[n]));
    if k - 1 > i {
        lemma_surface_calls_keep_claims(states, rects, hits, responses, i, k - 1);
    } else {
        assert(surfaced(states[i], states[i + 1], rects[i], hits[i].0, hits[i].1, responses[i]));
    }
}

/// Widgets claim the pointer once per frame, over any number of `surface`
/// calls on the state: after `begin_frame` (no hover claimed yet), of the
/// calls made since then at most one returns `hovered` and at most one
/// returns `pressed` or `clicked`; each call adds its rectangle to the input
/// regions; and a hovered widget holds the pointer while it is over the bar.
pub proof fn surface_calls_claim_once<P, R>(
    states: Seq<InteractionState<P, R>>,
    rects: Seq<R>,
    hits: Seq<(bool, bool)>,
    responses: Seq<Response>,
    i: int,
    j: int,
)
    requires
        states.len() == responses.len() + 1,
        rects.len() == responses.len(),
        hits.len() == responses.len(),
        !states[0].hover_claimed,
        forall|n: int|
            0 <= n < responses.len() ==> #[trigger] surfaced(
                states[n],
                states[n + 1],
                rects[n],
                hits[n].0,
                hits[n].1,
                responses[n],
            ),
        0 <= i < j < responses.len(),
    ensures
        !(responses[i].hovered && responses[j].hovered),
        !((responses[i].pressed || responses[i].clicked) && (responses[j].pressed || responses[j].clicked)),
        responses[i].hovered ==> states[0].pressure != Pressure::Outside && hits[i].0,
        states[j + 1].regions@ == states[j].regions@.push(rects[j]),
        states[responses.len() as int].regions@.len() == states[0].regions@.len() + responses.len(),
{
    lemma_surface_calls_keep_claims(states, rects, hits, responses, i, j);
    assert(surfaced(states[j], states[j + 1], rects[j], hits[j].0, hits[j].1, responses[j]));
    assert(surfaced(states[i], states[i + 1], rects[i], hits[i].0, hits[i].1, responses[i]));
    if i > 0 {
        lemma_surface_calls_keep_claims(states, rects, hits, responses, 0, i);
    }
    lemma_surface_calls_keep_claims(states, rects, hits, responses, 0, responses.len() as int);
}

/// The responses of the widgets that a frame surfaces, in order, each
/// given whether it holds the pointer and whether the pointer is near where
/// the button went down, from the pointer state `(pressure, hover_claimed,
/// event, dragging)` that the frame starts with.
pub open spec fn frame_responses(
    pressure: Pressure,
    hover_claimed: bool,
    event: Option<PointerEvent>,
    dragging: bool,
    hits: Seq<(bool, bool)>,
) -> Seq<Response>
    decreases hits.len(),
{
    if hits.len() == 0 {
        Seq::empty()
    } else {
        let r = respond(pressure, hover_claimed, event, dragging, hits[0].0, hits[0].1);
        seq![r] + frame_responses(
            pressure,
            hover_claimed || r.hovered,
            event_after(event, r),
            dragging,
            hits.drop_first(),
        )
    }
}

proof fn lemma_frame_claimed(
    pressure: Pressure,
    hover_claimed: bool,
    event: Option<PointerEvent>,
    dragging: bool,
    hits: Seq<(bool, bool)>,
)
    ensures
        frame_responses(pressure, hover_claimed, event, dragging, hits).len() == hits.len(),
        forall|i: int|
            0 <= i < hits.len() ==> {
                let r = #[trigger] frame_responses(pressure, hover_claimed, event, dragging, hits)[i];
                &&& hover_claimed ==> !r.hovered
                &&& event is None ==> !r.pressed && !r.clicked
                &&& r.hovered ==> pressure != Pressure::Outside && hits[i].0
                &&& (r.pressed || r.clicked) ==> hits[i].0
            },
    decreases hits.len(),
{
    if hits.len() > 0 {
        let r = respond(pressure, hover_claimed, event, dragging, hits[0].0, hits[0].1);
        let rest = hits.drop_first();
        lemma_frame_claimed(pressure, hover_claimed || r.hovered, event_after(event, r), dragging, rest);
        let all = frame_responses(pressure, hover_claimed, event, dragging, hits);
        assert forall|i: int| 1 <= i < hits.len() implies #[trigger] all[i] == frame_responses(
            pressure,
            hover_claimed || r.hovered,
            event_after(event, r),
            dragging,
            rest,
        )[i - 1] && hits[i] == rest[i - 1] by {}
    }
}

/// Within a frame, any number of widgets claim the pointer at most once:
/// at most one of them is hovered and at most one is pressed or clicked
/// (the first hit takes the event), and a hovered widget holds the pointer
/// while it is over the bar.
pub proof fn frame_claims_once(
    pressure: Pressure,
    event: Option<PointerEvent>,
    dragging: bool,
    hits: Seq<(bool, bool)>,
    i: int,
    j: int,
)
    requires
        0 <= i < j < hits.len(),
    ensures
        ({
            let rs = frame_responses(pressure, false, event, dragging, hits);
            &&& !(rs[i].hovered && rs[j].hovered)
            &&& !((rs[i].pressed || rs[i].clicked) && (rs[j].pressed || rs[j].clicked))
            &&& rs[i].hovered ==> pressure != Pressure::Outside && hits[i].0
        }),
    decreases i,
{
    let r = respond(pressure, false, event, dragging, hits[0].0, hits[0].1);
    let rest = hits.drop_first();
    let all = frame_responses(pressure, false, event, dragging, hits);
    let later = frame_responses(pressure, r.hovered, event_after(event, r), dragging, rest);
    lemma_frame_claimed(pressure, false, event, dragging, hits);
    lemma_frame_claimed(pressure, r.hovered, event_after(event, r), dragging, rest);
    assert(all[j] == later[j - 1]);
    if i == 0 {
        assert(all[0] == r);
        assert(r.hovered ==> !later[j - 1].hovered);
        assert((r.pressed || r.clicked) ==> event_after(event, r) is None);
    } else {
        assert(all[i] == later[i - 1]);
        if r.hovered {
            assert(!later[i - 1].hovered);
        } else {
            frame_claims_once(pressure, event_after(event, r), dragging, rest, i - 1, j - 1);
        }
        if r.pressed || r.clicked {
            assert(!later[i - 1].pressed && !later[i - 1].clicked);
        } else if r.hovered {
            frame_claims_once_events(pressure, event, dragging, rest, i - 1, j - 1);
        }
    }
}

proof fn frame_claims_once_events(
    pressure: Pressure,
    event: Option<PointerEvent>,
    dragging: bool,
    hits: Seq<(bool, bool)>,
    i: int,
    j: int,
)
    requires
        0 <= i < j < hits.len(),
    ensures
        ({
            let rs = frame_responses(pressure, true, event, dragging, hits);
            !((rs[i].pressed || rs[i].clicked) && (rs[j].pressed || rs[j].clicked))
        }),
    decreases i,
{
    let r = respond(pressure, true, event, dragging, hits[0].0, hits[0].1);
    let rest = hits.drop_first();
    let all = frame_responses(pressure, true, event, dragging, hits);
    let later = frame_responses(pressure, true, event_after(event, r), dragging, rest);
    lemma_frame_claimed(pressure, true, event, dragging, hits);
    lemma_frame_claimed(pressure, true, event_after(event, r), dragging, rest);
    assert(all[j] == later[j - 1]);
    if i == 0 {
        assert(all[0] == r);
        assert((r.pressed || r.clicked) ==> event_after(event, r) is None);
    } else {
        assert(all[i] == later[i - 1]);
        if !(r.pressed || r.clicked) {
            frame_claims_once_events(pressure, event, dragging, rest, i - 1, j - 1);
        }
    }
}

impl<P: Copy, R> InteractionState<P, R> {
    /// A widget at `rect`, which holds the pointer when `inside`: it is
    /// hovered when the pointer is over the bar and no earlier widget claimed
    /// the hover; it is pressed by a pending press, and clicked by a pending
    /// release that ends a press which did not drag and moved less than two
    /// pixels (`near_origin`). Pressing or clicking claims the event; a click
    /// leaves a pulse where the pointer is.
    pub fn surface(&mut self, rect: R, inside: bool, near_origin: bool) -> (response: Response)
        ensures
            surfaced(*old(self), *final(self), rect, inside, near_origin, response),
            final(self).regions@ == old(self).regions@.push(rect),
            response == respond(
                old(self).pressure,
                old(self).hover_claimed,
                old(self).event,
                old(self).dragging,
                inside,
                near_origin,
            ),
            final(self).hover_claimed == (old(self).hover_claimed || response.hovered),
            final(self).event == event_after(old(self).event, response),
            final(self).pulse == if response.clicked {
                Some(old(self).pointer)
            } else {
                old(self).pulse
            },
            final(self).pressure == old(self).pressure,
            final(self).dragging == old(self).dragging,
            final(self).drag_enabled == old(self).drag_enabled,
            final(self).press_origin == old(self).press_origin,
            final(self).pointer == old(self).pointer,
            final(self).scroll == old(self).scroll,
    {
        self.regions.push(rect);
        let hovered = !matches!(self.pressure, Pressure::Outside) && !self.hover_claimed && inside;
        self.hover_claimed = self.hover_claimed || hovered;
        let pressed = inside && matches!(self.event, Some(PointerEvent::Press));
        let clicked = inside && !self.dragging && near_origin && matches!(self.event, Some(PointerEvent::Release));
        if pressed || clicked {
            self.event = None;
        }
        if clicked {
            self.pulse = Some(self.pointer);
        }
        Response { hovered, pressed, clicked }
    }

    /// A scrollable widget at `rect`: it takes the frame's scroll when it
    /// holds the pointer.
    pub fn scroll(&mut self, rect: R, inside: bool) -> (amount: i32)
        ensures
            final(self).regions@ == old(self).regions@.push(rect),
            amount == if inside { old(self).scroll } else { 0 },
            final(self).scroll == if inside { 0 } else { old(self).scroll },
            final(self).pressure == old(self).pressure,
            final(self).event == old(self).event,
            final(self).hover_claimed == old(self).hover_claimed,
            final(self).pulse == old(self).pulse,
            final(self).dragging == old(self).dragging,
            final(self).drag_enabled == old(self).drag_enabled,
            final(self).press_origin == old(self).press_origin,
            final(self).pointer == old(self).pointer,
    {
        self.regions.push(rect);
        if inside {
            let amount = self.scroll;
            self.scroll = 0;
            amount
        } else {
            0
        }
    }

    /// Whether the pointer is over the bar and inside a rectangle.
    pub fn contains(&self, inside: bool) -> (over: bool)
        ensures
            over == (self.pressure != Pressure::Outside && inside),
    {
        !matches!(self.pressure, Pressure::Outside) && inside
    }

    /// Whether a button is held.
    pub fn down(&self) -> (held: bool)
        ensures
            held == (self.pressure == Pressure::Held),
    {
        matches!(self.pressure, Pressure::Held)
    }

    /// Whether a release is pending this frame.
    pub fn released(&self) -> (pending: bool)
        ensures
            pending == (self.event == Some(PointerEvent::Release)),
    {
        matches!(self.event, Some(PointerEvent::Release))
    }

    /// Starts a frame with the pointer at `pointer`: no widget claimed the
    /// hover yet.
    pub fn begin_frame(&mut self, pointer: P)
        ensures
            *final(self) == (InteractionState { pointer, hover_claimed: false, ..*old(self) }),
    {
        self.pointer = pointer;
        self.hover_claimed = false;
    }

    /// Ends a frame: events and scrolling that no widget took are dropped,
    /// and the click pulse, if any, is handed out.
    pub fn end_frame(&mut self) -> (pulse: Option<P>)
        ensures
            pulse == old(self).pulse,
            *final(self) == (InteractionState { pulse: None, event: None, scroll: 0, ..*old(self) }),
    {
        let pulse = self.pulse;
        self.pulse = None;
        self.event = None;
        self.scroll = 0;
        pulse
    }

    /// A button goes down at `position`.
    pub fn press(&mut self, position: P)
        ensures
            *final(self) == (InteractionState {
                pressure: Pressure::Held,
                press_origin: position,
                event: Some(PointerEvent::Press),
                dragging: false,
                ..*old(self)
            }),
    {
        self.pressure = Pressure::Held;
        self.press_origin = position;
        self.event = Some(PointerEvent::Press);
        self.dragging = false;
    }

    /// The button comes up: a release is pending when it was held.
    pub fn release(&mut self)
        ensures
            final(self).event == if old(self).pressure == Pressure::Held {
                Some(PointerEvent::Release)
            } else {
                None
            },
            *final(self) == (InteractionState {
                event: final(self).event,
                pressure: Pressure::Hovering,
                ..*old(self)
            }),
    {
        self.event = if matches!(self.pressure, Pressure::Held) {
            Some(PointerEvent::Release)
        } else {
            None
        };
        self.pressure = Pressure::Hovering;
    }

    /// The pointer moved; `moved_far` says whether it is now two pixels or
    /// more from where the button went down on either axis. Dragging starts
    /// once it moved that far while dragging is enabled.
    pub fn motion(&mut self, moved_far: bool)
        ensures
            *final(self) == (InteractionState {
                dragging: old(self).dragging || (old(self).drag_enabled && moved_far),
                ..*old(self)
            }),
    {
        if self.drag_enabled {
            self.dragging = self.dragging || moved_far;
        }
    }

    /// Stops any drag.
    pub fn cancel_drag(&mut self)
        ensures
            *final(self) == (InteractionState { drag_enabled: false, dragging: false, ..*old(self) }),
    {
        self.drag_enabled = false;
        self.dragging = false;
    }
}

} // verus!
