//! The per-session tracker and the enrichment of captured interactions.

use vstd::prelude::*;
use vstd::string::*;
use crate::text::{decimal_digits, decimal_string, lowercase, opt_text, text_snippet, to_lowercase, truncate_text};
use crate::types::{
    EventType, ExtraFields, ExtraFieldsView, LastEvent, Motion, MouseEvent, MouseEventView,
    RawInput, RawTarget, TargetInfo, TargetInfoView, Viewport,
};

verus! {

/// The session identifier made at a page load that happened at `now_ms`.
pub open spec fn session_id_text(now_ms: nat) -> Seq<char> {
    "session_"@ + decimal_digits(now_ms)
}

/// The identifier of the event with number `n` of a session.
pub open spec fn event_id_text(session: Seq<char>, n: nat) -> Seq<char> {
    "event_"@ + session + "_"@ + decimal_digits(n)
}

/// What the tracker holds for one page load.
pub struct TrackingState {
    /// Stable for the whole session.
    pub session_id: String,
    /// The number of identifiers generated so far.
    pub event_counter: u64,
    /// Position and time of the record enriched last.
    pub last_event: Option<LastEvent>,
    /// The identifier of the drag start whose drag has not ended yet.
    pub drag_state: Option<String>,
}

pub struct TrackingStateView {
    pub session_id: Seq<char>,
    pub event_counter: nat,
    pub last_event: Option<LastEvent>,
    pub drag_state: Option<Seq<char>>,
}

impl TrackingStateView {
    /// The open drag, where there is one, is the identifier of a record made
    /// earlier in the same session.
    pub open spec fn wf(self) -> bool {
        match self.drag_state {
            Some(id) => exists|k: nat|
                k < self.event_counter && id == #[trigger] event_id_text(self.session_id, k),
            None => true,
        }
    }
}

/// A well-formed tracker stays so while its session and open drag stay and
/// its counter does not fall.
pub proof fn lemma_wf_kept(s: TrackingStateView, t: TrackingStateView)
    requires
        s.wf(),
        t.session_id == s.session_id,
        t.drag_state == s.drag_state,
        t.event_counter >= s.event_counter,
    ensures
        t.wf(),
{
    if s.drag_state is Some {
        let k = choose|k: nat|
            k < s.event_counter && s.drag_state->0 == #[trigger] event_id_text(s.session_id, k);
        assert(k < t.event_counter && t.drag_state->0 == event_id_text(t.session_id, k));
    }
}

impl View for TrackingState {
    type V = TrackingStateView;

    open spec fn view(&self) -> TrackingStateView {
        TrackingStateView {
            session_id: self.session_id@,
            event_counter: self.event_counter as nat,
            last_event: self.last_event,
            drag_state: opt_text(self.drag_state),
        }
    }
}

impl TrackingState {
    /// The tracker of a session that starts at `now_ms`, milliseconds since
    /// the epoch: no identifier generated, no record enriched, no drag open.
    pub fn new(now_ms: u64) -> (s: TrackingState)
        ensures
            s@ == (TrackingStateView {
                session_id: session_id_text(now_ms as nat),
                event_counter: 0,
                last_event: None,
                drag_state: None,
            }),
            s@.wf(),
    {
        let stamp = decimal_string(now_ms);
        let session_id = String::from_str("session_").concat(stamp.as_str());
        TrackingState { session_id, event_counter: 0, last_event: None, drag_state: None }
    }

    /// Hands out the next event identifier of the session and counts it.
    pub fn generate_event_id(&mut self) -> (id: String)
        requires
            old(self).event_counter < u64::MAX,
        ensures
            id@ == event_id_text(old(self)@.session_id, old(self)@.event_counter),
            final(self)@ == (TrackingStateView {
                event_counter: old(self)@.event_counter + 1,
                ..old(self)@
            }),
            old(self)@.wf() ==> final(self)@.wf(),
    {
        let count = self.event_counter;
        self.event_counter = count + 1;
        let number = decimal_string(count);
        let mut id = String::from_str("event_");
        id.append(self.session_id.as_str());
        id.append("_");
        id.append(number.as_str());
        proof {
            if old(self)@.wf() {
                lemma_wf_kept(old(self)@, self@);
            }
        }
        id
    }
}

/// The descriptor of a target: absent throughout where the event has no
/// element target; else the tag in lower case, the two attributes as they
/// are, and the snippet of the rendered text.
pub open spec fn target_descriptor(target: Option<RawTarget>) -> TargetInfoView {
    match target {
        Some(t) => TargetInfoView {
            tag: Some(lowercase(t.tag_name@)),
            id: opt_text(t.id),
            class_name: opt_text(t.class_name),
            text: match t.inner_text {
                Some(txt) => text_snippet(txt@),
                None => None,
            },
        },
        None => TargetInfoView { tag: None, id: None, class_name: None, text: None },
    }
}

/// Describes the element an event was aimed at.
pub fn get_target_info(target: Option<RawTarget>) -> (info: TargetInfo)
    ensures
        info@ == target_descriptor(target),
{
    match target {
        Some(t) => {
            let tag = to_lowercase(t.tag_name.as_str());
            let text = match &t.inner_text {
                Some(txt) => truncate_text(txt.as_str()),
                None => None,
            };
            TargetInfo { tag: Some(tag), id: t.id, class_name: t.class_name, text }
        },
        None => TargetInfo { tag: None, id: None, class_name: None, text: None },
    }
}

/// Displacement and elapsed time since the preceding record: present exactly
/// when there is a preceding record and time has passed since it.
pub open spec fn motion_since(last: Option<LastEvent>, x: i32, y: i32, now: u64) -> Option<Motion> {
    match last {
        Some(l) => if now > l.time {
            Some(Motion { dx: (x - l.x) as i64, dy: (y - l.y) as i64, dt_ms: (now - l.time) as u64 })
        } else {
            None
        },
        None => None,
    }
}

/// Derives the motion of a record at `(x, y)` captured at `now`.
pub fn calculate_motion(last: &Option<LastEvent>, x: i32, y: i32, now: u64) -> (m: Option<Motion>)
    ensures
        m == motion_since(*last, x, y, now),
        m matches Some(v) ==> v.dt_ms > 0,
{
    match last {
        Some(l) => {
            if now > l.time {
                let dx: i64 = x as i64 - l.x as i64;
                let dy: i64 = y as i64 - l.y as i64;
                Some(Motion { dx, dy, dt_ms: now - l.time })
            } else {
                None
            }
        },
        None => None,
    }
}

/// Whether records of a kind carry the identifier of the open drag: only
/// those of a drag under way and of its end do.
pub open spec fn carries_parent(kind: EventType) -> bool {
    kind == EventType::Drag || kind == EventType::DragEnd
}

/// The record that enrichment makes in tracker state `s`.
pub open spec fn enriched(
    s: TrackingStateView,
    event_type: EventType,
    x: i32,
    y: i32,
    extra: Option<ExtraFieldsView>,
    target: TargetInfoView,
    viewport: Viewport,
    now: u64,
) -> MouseEventView {
    let e = match extra {
        Some(e) => e,
        None => ExtraFieldsView::none(),
    };
    MouseEventView {
        event_type,
        timestamp: now,
        x,
        y,
        screen_x: Some(x),
        screen_y: Some(y),
        page_x: Some(x),
        page_y: Some(y),
        button: e.button,
        buttons: e.buttons,
        scroll_y: e.scroll_y,
        scroll_x: e.scroll_x,
        target: None,
        target_tag: target.tag,
        target_id: target.id,
        target_class: target.class_name,
        target_text: target.text,
        session_id: s.session_id,
        event_id: event_id_text(s.session_id, s.event_counter),
        parent_event_id: if carries_parent(event_type) {
            s.drag_state
        } else {
            None
        },
        motion: motion_since(s.last_event, x, y, now),
        key: e.key,
        code: e.code,
        ctrl_key: e.ctrl_key,
        shift_key: e.shift_key,
        alt_key: e.alt_key,
        meta_key: e.meta_key,
        viewport_width: Some(viewport.width),
        viewport_height: Some(viewport.height),
        metadata: None,
    }
}

/// The views of an optional mapping of extra fields.
pub open spec fn opt_extra(extra: Option<ExtraFields>) -> Option<ExtraFieldsView> {
    match extra {
        Some(e) => Some(e@),
        None => None,
    }
}

/// Builds the record of one interaction: takes the next identifier, derives
/// the motion from the record before, reads the open drag for a record of a
/// drag or of its end, folds in the extra fields, and remembers this record's
/// position and time as the last.
pub fn create_mouse_event(
    event_type: EventType,
    x: i32,
    y: i32,
    tracking_state: &mut TrackingState,
    extra: Option<ExtraFields>,
    target: TargetInfo,
    viewport: Viewport,
    now: u64,
) -> (event: MouseEvent)
    requires
        old(tracking_state).event_counter < u64::MAX,
    ensures
        event@ == enriched(old(tracking_state)@, event_type, x, y, opt_extra(extra), target@, viewport, now),
        final(tracking_state)@ == (TrackingStateView {
            event_counter: old(tracking_state)@.event_counter + 1,
            last_event: Some(LastEvent { x, y, time: now }),
            ..old(tracking_state)@
        }),
        old(tracking_state)@.wf() ==> final(tracking_state)@.wf(),
{
    let event_id = tracking_state.generate_event_id();
    let motion = calculate_motion(&tracking_state.last_event, x, y, now);
    let parent_event_id = match event_type {
        EventType::Drag | EventType::DragEnd => match &tracking_state.drag_state {
            Some(id) => Some(id.clone()),
            None => None,
        },
        _ => None,
    };
    let e = match extra {
        Some(e) => e,
        None => ExtraFields::empty(),
    };
    let event = MouseEvent {
        event_type,
        timestamp: now,
        x,
        y,
        screen_x: Some(x),
        screen_y: Some(y),
        page_x: Some(x),
        page_y: Some(y),
        button: e.button,
        buttons: e.buttons,
        scroll_y: e.scroll_y,
        scroll_x: e.scroll_x,
        target: None,
        target_tag: target.tag,
        target_id: target.id,
        target_class: target.class_name,
        target_text: target.text,
        session_id: tracking_state.session_id.clone(),
        event_id,
        parent_event_id,
        motion,
        key: e.key,
        code: e.code,
        ctrl_key: e.ctrl_key,
        shift_key: e.shift_key,
        alt_key: e.alt_key,
        meta_key: e.meta_key,
        viewport_width: Some(viewport.width),
        viewport_height: Some(viewport.height),
        metadata: None,
    };
    tracking_state.last_event = Some(LastEvent { x, y, time: now });
    proof {
        if old(tracking_state)@.wf() {
            lemma_wf_kept(old(tracking_state)@, tracking_state@);
        }
    }
    event
}

/// One capture as the tracker sees it: the kind, and where and when.
pub struct CaptureStep {
    pub kind: EventType,
    pub x: i32,
    pub y: i32,
    pub now: u64,
}

/// The position recorded for a capture: keyboard events have none and are
/// recorded at the origin.
pub open spec fn recorded_position(kind: EventType, x: i32, y: i32) -> (i32, i32) {
    if kind.is_key() {
        (0i32, 0i32)
    } else {
        (x, y)
    }
}

/// The tracker after one capture: one more identifier is used, the capture is
/// the last event, a drag start opens a drag under its own identifier, and a
/// drag end closes the open drag.
pub open spec fn after_capture(s: TrackingStateView, step: CaptureStep) -> TrackingStateView {
    let p = recorded_position(step.kind, step.x, step.y);
    TrackingStateView {
        session_id: s.session_id,
        event_counter: s.event_counter + 1,
        last_event: Some(LastEvent { x: p.0, y: p.1, time: step.now }),
        drag_state: match step.kind {
            EventType::DragStart => Some(event_id_text(s.session_id, s.event_counter)),
            EventType::DragEnd => None,
            _ => s.drag_state,
        },
    }
}

/// Handles one interaction: builds its record with the fields its kind
/// supplies, and opens or closes the drag where the kind says so.
pub fn capture(
    tracking_state: &mut TrackingState,
    raw: RawInput,
    x: i32,
    y: i32,
    target: TargetInfo,
    viewport: Viewport,
    now: u64,
) -> (event: MouseEvent)
    requires
        old(tracking_state).event_counter < u64::MAX,
    ensures
        event@ == enriched(
            old(tracking_state)@,
            raw.kind(),
            recorded_position(raw.kind(), x, y).0,
            recorded_position(raw.kind(), x, y).1,
            ExtraFieldsView::of_input(raw),
            target@,
            viewport,
            now,
        ),
        final(tracking_state)@ == after_capture(
            old(tracking_state)@,
            CaptureStep { kind: raw.kind(), x, y, now },
        ),
        old(tracking_state)@.wf() ==> final(tracking_state)@.wf(),
{
    let kind = raw.event_type();
    let (px, py) = match kind {
        EventType::KeyDown => (0i32, 0i32),
        EventType::KeyUp => (0i32, 0i32),
        _ => (x, y),
    };
    let extra = ExtraFields::from_input(raw);
    let event = create_mouse_event(kind, px, py, tracking_state, extra, target, viewport, now);
    match kind {
        EventType::DragStart => {
            tracking_state.drag_state = Some(event.event_id.clone());
        },
        EventType::DragEnd => {
            tracking_state.drag_state = None;
        },
        _ => {},
    }
    proof {
        let before = old(tracking_state)@;
        if kind == EventType::DragStart {
            assert(tracking_state@.drag_state->0 == event_id_text(
                tracking_state@.session_id,
                before.event_counter,
            ));
        }
    }
    event
}

/// The tracker after the captures of `trace`, in order, from state `s0`.
pub open spec fn state_after(s0: TrackingStateView, trace: Seq<CaptureStep>) -> TrackingStateView
    decreases trace.len(),
{
    if trace.len() == 0 {
        s0
    } else {
        after_capture(state_after(s0, trace.drop_last()), trace.last())
    }
}

/// The number of the identifier that the capture at place `i` of `trace`
/// gets.
pub open spec fn event_number_at(s0: TrackingStateView, trace: Seq<CaptureStep>, i: int) -> nat {
    state_after(s0, trace.take(i)).event_counter
}

/// The identifier of the record of the capture at place `i` of `trace`.
pub open spec fn event_id_at(s0: TrackingStateView, trace: Seq<CaptureStep>, i: int) -> Seq<char> {
    event_id_text(s0.session_id, event_number_at(s0, trace, i))
}

/// The drag that is open when the capture at place `i` of `trace` is made.
pub open spec fn open_drag_at(s0: TrackingStateView, trace: Seq<CaptureStep>, i: int) -> Option<
    Seq<char>,
> {
    state_after(s0, trace.take(i)).drag_state
}

/// The parent identifier of the record of the capture at place `i` of
/// `trace`: the open drag for a record of a drag or of its end, none for a
/// record of any other kind.
pub open spec fn parent_id_at(s0: TrackingStateView, trace: Seq<CaptureStep>, i: int) -> Option<
    Seq<char>,
> {
    if carries_parent(trace[i].kind) {
        open_drag_at(s0, trace, i)
    } else {
        None
    }
}

/// Whether a drag that started at place `j` has ended before place `i`.
pub open spec fn drag_ended_between(trace: Seq<CaptureStep>, j: int, i: int) -> bool {
    exists|k: int| j < k < i && (#[trigger] trace[k]).kind == EventType::DragEnd
}

/// The event identifiers of one session differ whenever their numbers do.
pub proof fn lemma_event_ids_distinct(session: Seq<char>, a: nat, b: nat)
    requires
        a != b,
    ensures
        event_id_text(session, a) != event_id_text(session, b),
{
    let prefix = "event_"@ + session + "_"@;
    let ia = event_id_text(session, a);
    let ib = event_id_text(session, b);
    if ia == ib {
        assert(ia.subrange(prefix.len() as int, ia.len() as int) =~= decimal_digits(a));
        assert(ib.subrange(prefix.len() as int, ib.len() as int) =~= decimal_digits(b));
        crate::text::lemma_decimal_digits_injective(a, b);
    }
}

/// Captures keep the session and use one identifier each.
pub proof fn lemma_state_after_counts(s0: TrackingStateView, trace: Seq<CaptureStep>)
    ensures
        state_after(s0, trace).session_id == s0.session_id,
        state_after(s0, trace).event_counter == s0.event_counter + trace.len(),
    decreases trace.len(),
{
    if trace.len() > 0 {
        lemma_state_after_counts(s0, trace.drop_last());
    }
}

/// Within one session the record of every capture is the one that
/// enrichment makes in the state the captures before it left, so the laws
/// below speak of the records that `capture` returns.
pub proof fn lemma_record_ids(
    s0: TrackingStateView,
    trace: Seq<CaptureStep>,
    i: int,
    extra: Option<ExtraFieldsView>,
    target: TargetInfoView,
    viewport: Viewport,
)
    requires
        0 <= i < trace.len(),
    ensures
        ({
            let before = state_after(s0, trace.take(i));
            let p = recorded_position(trace[i].kind, trace[i].x, trace[i].y);
            let record = enriched(before, trace[i].kind, p.0, p.1, extra, target, viewport, trace[i].now);
            &&& record.event_id == event_id_at(s0, trace, i)
            &&& record.parent_event_id == parent_id_at(s0, trace, i)
            &&& record.session_id == s0.session_id
            &&& after_capture(before, trace[i]) == state_after(s0, trace.take(i + 1))
        }),
{
    lemma_state_after_counts(s0, trace.take(i));
    assert(trace.take(i + 1).drop_last() =~= trace.take(i));
    assert(trace.take(i + 1).last() == trace[i]);
}

/// Event identifiers are numbered in the order of capture and are pairwise
/// distinct within a session.
pub proof fn lemma_event_ids_increasing(s0: TrackingStateView, trace: Seq<CaptureStep>, i: int, j: int)
    requires
        0 <= i < j <= trace.len(),
    ensures
        event_number_at(s0, trace, i) < event_number_at(s0, trace, j),
        event_id_at(s0, trace, i) != event_id_at(s0, trace, j),
{
    lemma_state_after_counts(s0, trace.take(i));
    lemma_state_after_counts(s0, trace.take(j));
    lemma_event_ids_distinct(
        s0.session_id,
        event_number_at(s0, trace, i),
        event_number_at(s0, trace, j),
    );
}

/// After a drag start, with no other drag start and no drag end since, the
/// open drag is that drag start's identifier.
pub proof fn lemma_open_drag_is_nearest_drag_start(
    s0: TrackingStateView,
    trace: Seq<CaptureStep>,
    j: int,
    i: int,
)
    requires
        0 <= j < i <= trace.len(),
        trace[j].kind == EventType::DragStart,
        forall|k: int|
            j < k < i ==> (#[trigger] trace[k]).kind != EventType::DragStart && trace[k].kind
                != EventType::DragEnd,
    ensures
        open_drag_at(s0, trace, i) == Some(event_id_at(s0, trace, j)),
    decreases i - j,
{
    assert(trace.take(i).drop_last() =~= trace.take(i - 1));
    assert(trace.take(i).last() == trace[i - 1]);
    if i - 1 == j {
        lemma_state_after_counts(s0, trace.take(j));
    } else {
        lemma_open_drag_is_nearest_drag_start(s0, trace, j, i - 1);
    }
}

/// A record of a drag or of its end, captured after a drag start with no
/// other drag start and no drag end in between, has that drag start's
/// identifier as its parent.
pub proof fn lemma_parent_is_nearest_drag_start(
    s0: TrackingStateView,
    trace: Seq<CaptureStep>,
    j: int,
    i: int,
)
    requires
        0 <= j < i < trace.len(),
        carries_parent(trace[i].kind),
        trace[j].kind == EventType::DragStart,
        forall|k: int|
            j < k < i ==> (#[trigger] trace[k]).kind != EventType::DragStart && trace[k].kind
                != EventType::DragEnd,
    ensures
        parent_id_at(s0, trace, i) == Some(event_id_at(s0, trace, j)),
{
    lemma_open_drag_is_nearest_drag_start(s0, trace, j, i);
}

/// A record of any kind but a drag and its end has no parent, whether a
/// drag is open or not.
pub proof fn lemma_parent_only_on_drag_records(
    s0: TrackingStateView,
    trace: Seq<CaptureStep>,
    i: int,
)
    requires
        0 <= i < trace.len(),
        !carries_parent(trace[i].kind),
    ensures
        parent_id_at(s0, trace, i) is None,
{
}

/// No drag is open where, in a session that starts without one, every drag
/// start so far was followed by a drag end.
pub proof fn lemma_no_open_drag_outside_drag(s0: TrackingStateView, trace: Seq<CaptureStep>, i: int)
    requires
        s0.drag_state is None,
        0 <= i <= trace.len(),
        forall|j: int|
            0 <= j < i && (#[trigger] trace[j]).kind == EventType::DragStart ==> drag_ended_between(
                trace,
                j,
                i,
            ),
    ensures
        open_drag_at(s0, trace, i) is None,
    decreases i,
{
    if i == 0 {
        assert(trace.take(0) =~= Seq::<CaptureStep>::empty());
    } else {
        assert(trace.take(i).drop_last() =~= trace.take(i - 1));
        assert(trace.take(i).last() == trace[i - 1]);
        let last = trace[i - 1];
        if last.kind == EventType::DragStart {
            assert(drag_ended_between(trace, i - 1, i));
        } else if last.kind != EventType::DragEnd {
            assert forall|j: int|
                0 <= j < i - 1 && (#[trigger] trace[j]).kind
                    == EventType::DragStart implies drag_ended_between(trace, j, i - 1) by {
                assert(drag_ended_between(trace, j, i));
                let k = choose|k: int| j < k < i && (#[trigger] trace[k]).kind == EventType::DragEnd;
                assert(j < k < i - 1 && trace[k].kind == EventType::DragEnd);
            }
            lemma_no_open_drag_outside_drag(s0, trace, i - 1);
        }
    }
}

/// A record has no parent where it is of another kind than a drag and its
/// end, or where it is captured outside a drag: in a session that starts
/// without a drag, every drag start before it was followed by a drag end
/// before it.
pub proof fn lemma_parent_absent_outside_drag(s0: TrackingStateView, trace: Seq<CaptureStep>, i: int)
    requires
        0 <= i < trace.len(),
        !carries_parent(trace[i].kind) || (s0.drag_state is None && forall|j: int|
            0 <= j < i && (#[trigger] trace[j]).kind == EventType::DragStart ==> drag_ended_between(
                trace,
                j,
                i,
            )),
    ensures
        parent_id_at(s0, trace, i) is None,
{
    if carries_parent(trace[i].kind) {
        lemma_no_open_drag_outside_drag(s0, trace, i);
    }
}

/// Between two records captured one after the other, motion is present
/// exactly when time has passed, and then the square of the distance is the
/// sum of the squares of the two displacements.
pub proof fn lemma_motion_between_consecutive(
    s: TrackingStateView,
    first: CaptureStep,
    x: i32,
    y: i32,
    now: u64,
)
    ensures
        ({
            let p = recorded_position(first.kind, first.x, first.y);
            let m = motion_since(after_capture(s, first).last_event, x, y, now);
            &&& now <= first.now ==> m is None
            &&& now > first.now ==> m is Some && m->0.dt_ms == now - first.now && m->0.dx == x - p.0
                && m->0.dy == y - p.1 && m->0.spec_distance_squared() == (x - p.0) * (x - p.0) + (y
                - p.1) * (y - p.1)
        }),
{
}

/// Captures keep the tracker well formed.
pub proof fn lemma_state_after_wf(s0: TrackingStateView, trace: Seq<CaptureStep>)
    requires
        s0.wf(),
    ensures
        state_after(s0, trace).wf(),
    decreases trace.len(),
{
    if trace.len() > 0 {
        let before = state_after(s0, trace.drop_last());
        lemma_state_after_wf(s0, trace.drop_last());
        let after = after_capture(before, trace.last());
        match trace.last().kind {
            EventType::DragStart => {
                assert(after.drag_state == Some(
                    event_id_text(after.session_id, before.event_counter),
                ));
            },
            EventType::DragEnd => {},
            _ => {
                lemma_wf_kept(before, after);
            },
        }
    }
}

/// The parent identifier of a record, where it has one, is the identifier of
/// a record captured earlier in the same session.
pub proof fn lemma_parent_is_an_earlier_record(
    s0: TrackingStateView,
    trace: Seq<CaptureStep>,
    i: int,
)
    requires
        s0.wf(),
        0 <= i < trace.len(),
    ensures
        match parent_id_at(s0, trace, i) {
            Some(p) => exists|k: nat|
                k < event_number_at(s0, trace, i) && p == #[trigger] event_id_text(s0.session_id, k),
            None => true,
        },
{
    lemma_state_after_wf(s0, trace.take(i));
    lemma_state_after_counts(s0, trace.take(i));
}

} // verus!
