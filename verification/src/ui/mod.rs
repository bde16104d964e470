//! Operator-console logic: the text command language, the chat console
//! state, and the selectors of the interactive views.

pub mod app;
pub mod chat_command;
pub mod renderer_3d;

pub use app::AppTab;
pub use chat_command::{
    classify_chat_command, parse_chat_command, ChatCommand, ChatCommandConsole, ChatMessage,
    ChatSender,
};
pub use renderer_3d::GizmoDragAxis;
