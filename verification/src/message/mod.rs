//! The message families.

pub mod helpers;
pub mod midi1_channel_voice;
pub mod midi2_channel_voice;
pub mod sysex_bytes;
pub mod system_common;
pub mod system_exclusive_7bit;
pub mod utility;
