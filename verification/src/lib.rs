//! Capture, enrichment, batching and line framing of pointer, drag, wheel and
//! keyboard interaction events.
//!
//! The library holds the rules of the pipeline: how an event record is built
//! from what the browser reports, how event ids and drag correlation are kept
//! per session, how records are coalesced into batches by a restartable timer,
//! and how a batch becomes lines of an append-only log.

pub mod buffer;
pub mod event_log;
pub mod text;
pub mod tracker;
pub mod transport;
pub mod types;

pub use buffer::{EventBuffer, TimerCommand, DEBOUNCE_DELAY_MS};
pub use event_log::{batch_payload, frame_line, handle_mouse_event, handle_single_mouse_event, StatusCode};
pub use text::{decimal_string, truncate_text, MAX_TEXT_CHARS};
pub use tracker::{calculate_motion, capture, create_mouse_event, get_target_info, TrackingState};
pub use types::{
    Button, EventType, ExtraFields, KeyState, LastEvent, Motion, MouseEvent, RawInput, RawTarget,
    TargetInfo, Viewport,
};
pub use transport::{
    delivery_outcome, TransportError, CONTENT_TYPE_HEADER, CONTENT_TYPE_JSON, ENDPOINT_PATH,
    REQUEST_METHOD,
};
