//! Descriptor passing over a plain byte channel.
//!
//! Where a descriptor cannot travel, a stream travels for it: the side that delegates the
//! descriptor announces a stream, the other side makes a local stand-in, and from then on
//! frames on the channel carry the bytes that go through the two.

pub mod frame;
pub mod laws;
pub mod streams;

pub use frame::{decode_fds, encode_fds, FrameHeader, OutFrame, OutFrameView, RawFrame, RawFrameView};
pub use streams::{
    control_frame, plan_send, receive_control, receive_fds, Route, RouteView, SendAction,
    SendActionView, Side, StreamIds, StreamTable, TableView,
};
