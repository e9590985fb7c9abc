//! Protocol extensions: what each request changes and what it is answered.

pub mod activation;
pub mod color_management;
pub mod idle;
pub mod input_method;
pub mod input_methods;
pub mod input_popup;
pub mod keyboard_shortcuts;
pub mod output;
pub mod pointer_constraints;
pub mod pointer_gestures;
pub mod session_lock;
pub mod tablet;
pub mod text_input;
pub mod toplevel_drag;
