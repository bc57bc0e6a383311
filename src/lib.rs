pub mod can;
pub mod captor;
pub mod filter_ids;
pub mod frame;
pub mod frame_filter;
pub mod table_nav;

pub use can::{CanFrame, CanId, MAX_PAYLOAD};
pub use captor::CaptureLoop;
pub use filter_ids::{parse_filter_ids, FilterIdError};
pub use frame::{CaptureView, CapturedFrameState, CountedFrame, TimestampedFrame};
pub use frame_filter::{filter_frame_on_ids, FrameIdFilter};
pub use table_nav::{next_selection, prev_selection, FrameView};
