pub mod hyprland;
pub mod openrazer;
pub mod pulseaudio;
