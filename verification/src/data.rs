pub mod wayland_compositor;
