//! A preroll valve: a stream stage that sits between an upstream producer
//! and a downstream consumer of timestamped data frames.
//!
//! While the valve is closed, arriving frames are buffered in a
//! time-windowed backlog instead of being forwarded. When the valve is
//! opened, the first frame to arrive triggers a flush: the backlog is
//! drained downstream starting from its first keyframe (or from the start
//! if it holds none), then the live frame follows, and the valve behaves
//! as a pass-through for as long as it stays open.

pub mod backlog;
pub mod frame;
pub mod settings;
pub mod sink;
pub mod valve;

pub use frame::{ControlEvent, FlowError, Frame, FrameView};
pub use settings::Settings;
pub use sink::{Downstream, RecordingSink};
pub use valve::PrerollValve;
