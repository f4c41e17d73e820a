//! The event record and the plain values it is built from.

use vstd::prelude::*;
use crate::text::opt_text;

verus! {

/// The kind of a captured interaction.
#[derive(Clone, Copy, Debug, PartialEq, Eq, Structural)]
pub enum EventType {
    MouseMove,
    MouseDown,
    MouseUp,
    Wheel,
    DragStart,
    Drag,
    DragEnd,
    KeyDown,
    KeyUp,
}

impl EventType {
    /// The tag under which the kind is written in a record.
    pub open spec fn tag(self) -> Seq<char> {
        match self {
            EventType::MouseMove => "mousemove"@,
            EventType::MouseDown => "mousedown"@,
            EventType::MouseUp => "mouseup"@,
            EventType::Wheel => "wheel"@,
            EventType::DragStart => "dragstart"@,
            EventType::Drag => "drag"@,
            EventType::DragEnd => "dragend"@,
            EventType::KeyDown => "keydown"@,
            EventType::KeyUp => "keyup"@,
        }
    }

    /// Whether the kind is a keyboard event, which carries no position.
    pub open spec fn is_key(self) -> bool {
        self == EventType::KeyDown || self == EventType::KeyUp
    }

    pub fn as_str(&self) -> (s: &'static str)
        ensures
            s@ == self.tag(),
    {
        match self {
            EventType::MouseMove => "mousemove",
            EventType::MouseDown => "mousedown",
            EventType::MouseUp => "mouseup",
            EventType::Wheel => "wheel",
            EventType::DragStart => "dragstart",
            EventType::Drag => "drag",
            EventType::DragEnd => "dragend",
            EventType::KeyDown => "keydown",
            EventType::KeyUp => "keyup",
        }
    }
}

/// The mouse button that produced a button event.
#[derive(Clone, Copy, Debug, PartialEq, Eq, Structural)]
pub enum Button {
    Left,
    Middle,
    Right,
    Unknown,
}

impl Button {
    /// The button that a browser's button code stands for.
    pub open spec fn of_code(code: i16) -> Button {
        if code == 0 {
            Button::Left
        } else if code == 1 {
            Button::Middle
        } else if code == 2 {
            Button::Right
        } else {
            Button::Unknown
        }
    }

    /// The name under which the button is written in a record.
    pub open spec fn name(self) -> Seq<char> {
        match self {
            Button::Left => "left"@,
            Button::Middle => "middle"@,
            Button::Right => "right"@,
            Button::Unknown => "unknown"@,
        }
    }

    pub fn from_code(code: i16) -> (b: Button)
        ensures
            b == Button::of_code(code),
    {
        if code == 0 {
            Button::Left
        } else if code == 1 {
            Button::Middle
        } else if code == 2 {
            Button::Right
        } else {
            Button::Unknown
        }
    }

    pub fn as_str(&self) -> (s: &'static str)
        ensures
            s@ == self.name(),
    {
        match self {
            Button::Left => "left",
            Button::Middle => "middle",
            Button::Right => "right",
            Button::Unknown => "unknown",
        }
    }
}

/// Displacement from the preceding record and the time that passed since it,
/// in milliseconds. Distance and velocity are functions of these three.
#[derive(Clone, Copy, Debug, PartialEq, Eq, Structural)]
pub struct Motion {
    pub dx: i64,
    pub dy: i64,
    pub dt_ms: u64,
}

impl Motion {
    /// The square of the Euclidean distance covered.
    pub open spec fn spec_distance_squared(self) -> int {
        self.dx * self.dx + self.dy * self.dy
    }

    /// The square of the Euclidean distance covered, exactly.
    pub fn distance_squared(&self) -> (r: u128)
        ensures
            r == self.spec_distance_squared(),
    {
        let ax: u128 = if self.dx >= 0 {
            self.dx as u128
        } else {
            (-(self.dx as i128)) as u128
        };
        let ay: u128 = if self.dy >= 0 {
            self.dy as u128
        } else {
            (-(self.dy as i128)) as u128
        };
        assert(ax * ax == self.dx * self.dx && ax * ax <= 0x4000_0000_0000_0000_0000_0000_0000_0000)
            by (nonlinear_arith)
            requires
                ax <= 0x8000_0000_0000_0000,
                ax == self.dx || ax == -self.dx,
        ;
        assert(ay * ay == self.dy * self.dy && ay * ay <= 0x4000_0000_0000_0000_0000_0000_0000_0000)
            by (nonlinear_arith)
            requires
                ay <= 0x8000_0000_0000_0000,
                ay == self.dy || ay == -self.dy,
        ;
        ax * ax + ay * ay
    }

    /// Whether nothing moved between the two records.
    pub fn is_still(&self) -> (r: bool)
        ensures
            r == (self.spec_distance_squared() == 0),
    {
        assert(self.dx * self.dx >= 0 && (self.dx != 0 ==> self.dx * self.dx > 0)) by (nonlinear_arith);
        assert(self.dy * self.dy >= 0 && (self.dy != 0 ==> self.dy * self.dy > 0)) by (nonlinear_arith);
        self.dx == 0 && self.dy == 0
    }
}

/// Position and capture time of the record that was enriched last.
#[derive(Clone, Copy, Debug, PartialEq, Eq, Structural)]
pub struct LastEvent {
    pub x: i32,
    pub y: i32,
    pub time: u64,
}

/// The size of the viewport at capture time.
#[derive(Clone, Copy, Debug, PartialEq, Eq, Structural)]
pub struct Viewport {
    pub width: u32,
    pub height: u32,
}

/// What the page reports of the element an event was aimed at.
#[derive(Clone, Debug, PartialEq, Eq)]
pub struct RawTarget {
    /// The tag name as the page gives it, in any case.
    pub tag_name: String,
    pub id: Option<String>,
    pub class_name: Option<String>,
    /// The rendered text, where the element has one.
    pub inner_text: Option<String>,
}

/// The target descriptor of a record.
#[derive(Clone, Debug, PartialEq, Eq)]
pub struct TargetInfo {
    pub tag: Option<String>,
    pub id: Option<String>,
    pub class_name: Option<String>,
    pub text: Option<String>,
}

pub struct TargetInfoView {
    pub tag: Option<Seq<char>>,
    pub id: Option<Seq<char>>,
    pub class_name: Option<Seq<char>>,
    pub text: Option<Seq<char>>,
}

impl View for TargetInfo {
    type V = TargetInfoView;

    open spec fn view(&self) -> TargetInfoView {
        TargetInfoView {
            tag: opt_text(self.tag),
            id: opt_text(self.id),
            class_name: opt_text(self.class_name),
            text: opt_text(self.text),
        }
    }
}

/// Key and modifier state of a keyboard event.
#[derive(Clone, Debug, PartialEq, Eq)]
pub struct KeyState {
    pub key: String,
    pub code: String,
    pub ctrl_key: bool,
    pub shift_key: bool,
    pub alt_key: bool,
    pub meta_key: bool,
}

/// What the page reports of one interaction, by kind. Wheel deltas are held
/// as the bit patterns of their binary64 values.
#[derive(Clone, Debug, PartialEq, Eq)]
pub enum RawInput {
    MouseMove { buttons: u16 },
    MouseDown { button: i16, buttons: u16 },
    MouseUp { button: i16, buttons: u16 },
    Wheel { delta_x: u64, delta_y: u64 },
    DragStart,
    Drag,
    DragEnd,
    KeyDown(KeyState),
    KeyUp(KeyState),
}

impl RawInput {
    /// The kind of the interaction.
    pub open spec fn kind(self) -> EventType {
        match self {
            RawInput::MouseMove { .. } => EventType::MouseMove,
            RawInput::MouseDown { .. } => EventType::MouseDown,
            RawInput::MouseUp { .. } => EventType::MouseUp,
            RawInput::Wheel { .. } => EventType::Wheel,
            RawInput::DragStart => EventType::DragStart,
            RawInput::Drag => EventType::Drag,
            RawInput::DragEnd => EventType::DragEnd,
            RawInput::KeyDown(_) => EventType::KeyDown,
            RawInput::KeyUp(_) => EventType::KeyUp,
        }
    }

    pub fn event_type(&self) -> (k: EventType)
        ensures
            k == self.kind(),
    {
        match self {
            RawInput::MouseMove { .. } => EventType::MouseMove,
            RawInput::MouseDown { .. } => EventType::MouseDown,
            RawInput::MouseUp { .. } => EventType::MouseUp,
            RawInput::Wheel { .. } => EventType::Wheel,
            RawInput::DragStart => EventType::DragStart,
            RawInput::Drag => EventType::Drag,
            RawInput::DragEnd => EventType::DragEnd,
            RawInput::KeyDown(_) => EventType::KeyDown,
            RawInput::KeyUp(_) => EventType::KeyUp,
        }
    }
}

/// The fields of a record that depend on the kind of event; each is absent
/// unless the kind supplies it.
#[derive(Clone, Debug, PartialEq, Eq)]
pub struct ExtraFields {
    pub button: Option<Button>,
    pub buttons: Option<u16>,
    pub scroll_y: Option<u64>,
    pub scroll_x: Option<u64>,
    pub key: Option<String>,
    pub code: Option<String>,
    pub ctrl_key: Option<bool>,
    pub shift_key: Option<bool>,
    pub alt_key: Option<bool>,
    pub meta_key: Option<bool>,
}

pub struct ExtraFieldsView {
    pub button: Option<Button>,
    pub buttons: Option<u16>,
    pub scroll_y: Option<u64>,
    pub scroll_x: Option<u64>,
    pub key: Option<Seq<char>>,
    pub code: Option<Seq<char>>,
    pub ctrl_key: Option<bool>,
    pub shift_key: Option<bool>,
    pub alt_key: Option<bool>,
    pub meta_key: Option<bool>,
}

impl View for ExtraFields {
    type V = ExtraFieldsView;

    open spec fn view(&self) -> ExtraFieldsView {
        ExtraFieldsView {
            button: self.button,
            buttons: self.buttons,
            scroll_y: self.scroll_y,
            scroll_x: self.scroll_x,
            key: opt_text(self.key),
            code: opt_text(self.code),
            ctrl_key: self.ctrl_key,
            shift_key: self.shift_key,
            alt_key: self.alt_key,
            meta_key: self.meta_key,
        }
    }
}

impl ExtraFieldsView {
    /// No field present.
    pub open spec fn none() -> ExtraFieldsView {
        ExtraFieldsView {
            button: None,
            buttons: None,
            scroll_y: None,
            scroll_x: None,
            key: None,
            code: None,
            ctrl_key: None,
            shift_key: None,
            alt_key: None,
            meta_key: None,
        }
    }

    /// The fields that a keyboard event supplies.
    pub open spec fn of_key(k: KeyState) -> ExtraFieldsView {
        ExtraFieldsView {
            key: Some(k.key@),
            code: Some(k.code@),
            ctrl_key: Some(k.ctrl_key),
            shift_key: Some(k.shift_key),
            alt_key: Some(k.alt_key),
            meta_key: Some(k.meta_key),
            ..ExtraFieldsView::none()
        }
    }

    /// The fields that each kind of interaction supplies.
    pub open spec fn of_input(raw: RawInput) -> Option<ExtraFieldsView> {
        match raw {
            RawInput::MouseMove { buttons } => Some(
                ExtraFieldsView { buttons: Some(buttons), ..ExtraFieldsView::none() },
            ),
            RawInput::MouseDown { button, buttons } => Some(
                ExtraFieldsView {
                    button: Some(Button::of_code(button)),
                    buttons: Some(buttons),
                    ..ExtraFieldsView::none()
                },
            ),
            RawInput::MouseUp { button, buttons } => Some(
                ExtraFieldsView {
                    button: Some(Button::of_code(button)),
                    buttons: Some(buttons),
                    ..ExtraFieldsView::none()
                },
            ),
            RawInput::Wheel { delta_x, delta_y } => Some(
                ExtraFieldsView {
                    scroll_y: Some(delta_y),
                    scroll_x: Some(delta_x),
                    ..ExtraFieldsView::none()
                },
            ),
            RawInput::DragStart => None,
            RawInput::Drag => None,
            RawInput::DragEnd => None,
            RawInput::KeyDown(k) => Some(ExtraFieldsView::of_key(k)),
            RawInput::KeyUp(k) => Some(ExtraFieldsView::of_key(k)),
        }
    }
}

impl ExtraFields {
    /// A mapping with no field present.
    pub fn empty() -> (e: ExtraFields)
        ensures
            e@ == ExtraFieldsView::none(),
    {
        ExtraFields {
            button: None,
            buttons: None,
            scroll_y: None,
            scroll_x: None,
            key: None,
            code: None,
            ctrl_key: None,
            shift_key: None,
            alt_key: None,
            meta_key: None,
        }
    }

    fn of_key(k: KeyState) -> (e: ExtraFields)
        ensures
            e@ == ExtraFieldsView::of_key(k),
    {
        ExtraFields {
            button: None,
            buttons: None,
            scroll_y: None,
            scroll_x: None,
            key: Some(k.key),
            code: Some(k.code),
            ctrl_key: Some(k.ctrl_key),
            shift_key: Some(k.shift_key),
            alt_key: Some(k.alt_key),
            meta_key: Some(k.meta_key),
        }
    }

    /// Builds the mapping that an interaction supplies: buttons for moves,
    /// button and buttons for presses and releases, both deltas for the wheel,
    /// key, code and the four modifiers for keys, and none at all for drags.
    pub fn from_input(raw: RawInput) -> (e: Option<ExtraFields>)
        ensures
            match e {
                Some(x) => ExtraFieldsView::of_input(raw) == Some(x@),
                None => ExtraFieldsView::of_input(raw) is None,
            },
    {
        match raw {
            RawInput::MouseMove { buttons } => {
                let mut e = ExtraFields::empty();
                e.buttons = Some(buttons);
                Some(e)
            },
            RawInput::MouseDown { button, buttons } => {
                let mut e = ExtraFields::empty();
                e.button = Some(Button::from_code(button));
                e.buttons = Some(buttons);
                Some(e)
            },
            RawInput::MouseUp { button, buttons } => {
                let mut e = ExtraFields::empty();
                e.button = Some(Button::from_code(button));
                e.buttons = Some(buttons);
                Some(e)
            },
            RawInput::Wheel { delta_x, delta_y } => {
                let mut e = ExtraFields::empty();
                e.scroll_y = Some(delta_y);
                e.scroll_x = Some(delta_x);
                Some(e)
            },
            RawInput::DragStart => None,
            RawInput::Drag => None,
            RawInput::DragEnd => None,
            RawInput::KeyDown(k) => Some(ExtraFields::of_key(k)),
            RawInput::KeyUp(k) => Some(ExtraFields::of_key(k)),
        }
    }
}

/// Which fields each kind of interaction populates: the button for presses
/// and releases; the buttons for moves, presses and releases; both deltas
/// for the wheel; key, code and the four modifiers for keys; nothing else.
pub proof fn lemma_population_by_kind(raw: RawInput)
    ensures
        ({
            let k = raw.kind();
            let e = match ExtraFieldsView::of_input(raw) {
                Some(e) => e,
                None => ExtraFieldsView::none(),
            };
            &&& e.button is Some <==> k == EventType::MouseDown || k == EventType::MouseUp
            &&& e.buttons is Some <==> k == EventType::MouseMove || k == EventType::MouseDown || k
                == EventType::MouseUp
            &&& e.scroll_x is Some <==> k == EventType::Wheel
            &&& e.scroll_y is Some <==> k == EventType::Wheel
            &&& e.key is Some <==> k.is_key()
            &&& e.code is Some <==> k.is_key()
            &&& e.ctrl_key is Some <==> k.is_key()
            &&& e.shift_key is Some <==> k.is_key()
            &&& e.alt_key is Some <==> k.is_key()
            &&& e.meta_key is Some <==> k.is_key()
        }),
{
}

/// One captured interaction, enriched; never changed once made.
#[derive(Clone, Debug, PartialEq, Eq)]
pub struct MouseEvent {
    pub event_type: EventType,
    /// Milliseconds since the epoch at capture time.
    pub timestamp: u64,
    pub x: i32,
    pub y: i32,
    pub screen_x: Option<i32>,
    pub screen_y: Option<i32>,
    pub page_x: Option<i32>,
    pub page_y: Option<i32>,
    pub button: Option<Button>,
    /// Bit mask of the buttons held: 1 left, 2 right, 4 middle.
    pub buttons: Option<u16>,
    pub scroll_y: Option<u64>,
    pub scroll_x: Option<u64>,
    pub target: Option<String>,
    pub target_tag: Option<String>,
    pub target_id: Option<String>,
    pub target_class: Option<String>,
    pub target_text: Option<String>,
    pub session_id: String,
    pub event_id: String,
    /// On a record of a drag or of its end, the identifier of the drag start
    /// it belongs to; absent on records of every other kind.
    pub parent_event_id: Option<String>,
    /// Displacement and elapsed time since the preceding record; velocity and
    /// distance are present exactly when this is.
    pub motion: Option<Motion>,
    pub key: Option<String>,
    pub code: Option<String>,
    pub ctrl_key: Option<bool>,
    pub shift_key: Option<bool>,
    pub alt_key: Option<bool>,
    pub meta_key: Option<bool>,
    pub viewport_width: Option<u32>,
    pub viewport_height: Option<u32>,
    pub metadata: Option<String>,
}

pub struct MouseEventView {
    pub event_type: EventType,
    pub timestamp: u64,
    pub x: i32,
    pub y: i32,
    pub screen_x: Option<i32>,
    pub screen_y: Option<i32>,
    pub page_x: Option<i32>,
    pub page_y: Option<i32>,
    pub button: Option<Button>,
    pub buttons: Option<u16>,
    pub scroll_y: Option<u64>,
    pub scroll_x: Option<u64>,
    pub target: Option<Seq<char>>,
    pub target_tag: Option<Seq<char>>,
    pub target_id: Option<Seq<char>>,
    pub target_class: Option<Seq<char>>,
    pub target_text: Option<Seq<char>>,
    pub session_id: Seq<char>,
    pub event_id: Seq<char>,
    pub parent_event_id: Option<Seq<char>>,
    pub motion: Option<Motion>,
    pub key: Option<Seq<char>>,
    pub code: Option<Seq<char>>,
    pub ctrl_key: Option<bool>,
    pub shift_key: Option<bool>,
    pub alt_key: Option<bool>,
    pub meta_key: Option<bool>,
    pub viewport_width: Option<u32>,
    pub viewport_height: Option<u32>,
    pub metadata: Option<Seq<char>>,
}

impl View for MouseEvent {
    type V = MouseEventView;

    open spec fn view(&self) -> MouseEventView {
        MouseEventView {
            event_type: self.event_type,
            timestamp: self.timestamp,
            x: self.x,
            y: self.y,
            screen_x: self.screen_x,
            screen_y: self.screen_y,
            page_x: self.page_x,
            page_y: self.page_y,
            button: self.button,
            buttons: self.buttons,
            scroll_y: self.scroll_y,
            scroll_x: self.scroll_x,
            target: opt_text(self.target),
            target_tag: opt_text(self.target_tag),
            target_id: opt_text(self.target_id),
            target_class: opt_text(self.target_class),
            target_text: opt_text(self.target_text),
            session_id: self.session_id@,
            event_id: self.event_id@,
            parent_event_id: opt_text(self.parent_event_id),
            motion: self.motion,
            key: opt_text(self.key),
            code: opt_text(self.code),
            ctrl_key: self.ctrl_key,
            shift_key: self.shift_key,
            alt_key: self.alt_key,
            meta_key: self.meta_key,
            viewport_width: self.viewport_width,
            viewport_height: self.viewport_height,
            metadata: opt_text(self.metadata),
        }
    }
}

} // verus!
