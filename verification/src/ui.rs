pub mod element;
pub mod handler;
pub mod tui;

pub use handler::UIHandler;
pub use handler::UIRect;
