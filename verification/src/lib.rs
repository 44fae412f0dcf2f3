//! Renderer-neutral SOL Shell models.
//!
//! The native shell owns layer surfaces and service connections; the modules
//! here hold the policy those adapters apply, so it can be validated without a
//! compositor, a system bus, or an audio server.

pub mod accessibility;
pub mod bluez;
pub mod catalog;
pub mod keys;
pub mod consent;
pub mod desktop;
pub mod desktop_surface;
pub mod dock_surface;
pub mod launcher;
pub mod launcher_surface;
pub mod networkmanager;
pub mod notification_center;
pub mod notification_surface;
pub mod overlay;
pub mod overview;
pub mod overview_surface;
pub mod paint;
pub mod pipewire_audio;
pub mod quick_settings;
pub mod scp_host;
pub mod seqs;
pub mod sort;
pub mod system;
pub mod system_status;
pub mod text;
pub mod tokens;
pub mod topbar;
pub mod topbar_surface;
pub mod upower;
