pub mod iconbutton;
pub mod power;
pub mod razer_mouse;
pub mod time;
pub mod volume;
pub mod workspaces;
