//! Layout and text decisions of the terminal client's views.

pub mod composer;
pub mod cursor;
pub mod dock;
pub mod layout;
pub mod overlay;
pub mod panel;
pub mod tool_card;
pub mod transcript;
pub mod width;

pub use composer::{leading_skill_name, queue_display_height};
pub use dock::{dock_height, DOCK_MAX_ROWS};
pub use overlay::{
    active_overlay_text_input, connect_provider_key_text, cursor_to_row, format_model_row,
    format_session_row, truncate_with_ellipsis,
};
pub use panel::scroll_start_for_cursor;
pub use transcript::window_bounds;
