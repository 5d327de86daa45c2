//! Actuation task scheduling for remote-controlled vibration, rotation and
//! linear actuators: intensities, patterns, device selection and a
//! cancellable task table, each stated and proved with Verus.
pub mod bridge;
pub mod events;
pub mod names;
pub mod params;
pub mod pattern;
pub mod registry;
pub mod scheduler;
pub mod settings;
pub mod speed;
pub mod task;
pub mod telekinesis;

pub use bridge::{
    tk_close,
    tk_connect_with_settings,
    tk_get,
    tk_get_device_capabilities,
    tk_get_device_connected,
    tk_get_devices,
    tk_process_events,
    tk_scan_for_devices,
    tk_settings_get_enabled,
    tk_settings_get_events,
    tk_settings_set,
    tk_settings_set_enabled,
    tk_settings_set_events,
    tk_stop,
    tk_stop_all,
    tk_stop_scan,
    tk_vibrate,
    tk_vibrate_pattern,
};
pub use events::{EventQueue, TkConnectionEvent, TkConnectionStatus};
pub use names::{parse_list_string, read_input_string, sanitize_name_list};
pub use params::{Actuator, Capability, TkDeviceSettings, TkParams};
pub use pattern::{Pattern, PatternError, PatternPoint};
pub use registry::Registry;
pub use scheduler::{ActuatorWrite, Scheduler, SchedulerError, TaskEnd, TickOutput, ERROR_HANDLE};
pub use settings::TkSettings;
pub use speed::Speed;
pub use task::{Task, TkDuration, TkPattern};
pub use telekinesis::{Telekinesis, TkAction};
