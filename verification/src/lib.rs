//! A granular loop and scrub engine for live sample streams.

pub mod countdown_trigger;
pub mod delay_line;
pub mod fixed;
pub mod grain;
pub mod grain_looper;
pub mod grain_player;
pub mod loop_scheduler;
pub mod looper;
pub mod ramped_value;
pub mod scheduler;
pub mod stereo_pair;
