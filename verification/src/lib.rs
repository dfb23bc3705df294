//! Presentation policy for web-link destinations in rendered Markdown, and the
//! tmux capability probe that it relies on.

pub mod text;
pub mod tmux_hyperlinks;
pub mod web_links;
