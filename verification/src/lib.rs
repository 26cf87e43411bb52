//! Verified game-server logic: challenges, drops, gadget mappings, gacha rolls,
//! group loading, group variables and hit handling.

mod assoc;
pub mod challenge;
pub mod challenge_manager;
pub mod combined_drop;
pub mod events;
pub mod gacha;
pub mod gadget_mapping;
pub mod group_loading;
pub mod hit;
mod keys;
pub mod script_text;
pub mod variables;
