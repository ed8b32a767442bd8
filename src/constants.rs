//! Fixed names, colours and sizes.

use vstd::prelude::*;

verus! {

/// The launch agent's label.
pub const LAUNCH_AGENT_LABEL: &'static str = "com.user.llama-swap";

/// Default port of the service's API.
pub const DEFAULT_API_PORT: u16 = 45786;

/// Chart line colours (RGB): generation speed, prompt speed, memory, queue depth.
pub const COLOR_TPS_LINE: (u8, u8, u8) = (0, 255, 127);
pub const COLOR_PROMPT_LINE: (u8, u8, u8) = (255, 215, 0);
pub const COLOR_MEM_LINE: (u8, u8, u8) = (0, 191, 255);
pub const COLOR_QUEUE_LINE: (u8, u8, u8) = (255, 99, 71);
pub const COLOR_KV_CACHE_LINE: (u8, u8, u8) = (255, 99, 71);

/// Status colours (RGB).
pub const COLOR_BLUE: (u8, u8, u8) = (0, 122, 255);
pub const COLOR_GREEN: (u8, u8, u8) = (52, 199, 89);
pub const COLOR_YELLOW: (u8, u8, u8) = (255, 255, 0);
pub const COLOR_GREY: (u8, u8, u8) = (142, 142, 147);
pub const COLOR_RED: (u8, u8, u8) = (255, 59, 48);

/// Size of the status dot on the icon, and its offset from the bottom-right corner.
pub const STATUS_DOT_SIZE: u32 = 10;
pub const STATUS_DOT_OFFSET: u32 = 1;

} // verus!
