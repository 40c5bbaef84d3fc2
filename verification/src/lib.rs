//! Decoders for two operating-system profiling event streams: Linux `perf`
//! ring-buffer records and Windows ETW `TRACE_EVENT_INFO` schema buffers.
//!
//! Both decoders consume plain byte buffers and emit typed events; all offset
//! arithmetic and conditional layouts are driven by the session parameters
//! (`sample_type`, `read_format`) or by offsets stored inside the buffer.

pub mod byteread;
pub mod raw_data;
pub mod perf_event_raw;
pub mod dso_key;
pub mod perf_event;
pub mod etw;
pub mod markers;
pub mod hexfmt;
