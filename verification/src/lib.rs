//! What a small LED screen on a router shows, and when.
pub mod args;
pub mod button;
pub mod bytes;
pub mod char_dict;
pub mod clock;
pub mod clock_laws;
pub mod control;
pub mod fetch;
pub mod fetch_laws;
pub mod gpio;
pub mod gpio_laws;
pub mod key_laws;
pub mod led_screen;
pub mod module_laws;
pub mod modules;
pub mod monitor;
pub mod monitor_laws;
pub mod net_agent;
pub mod net_laws;
pub mod number;
pub mod schedule_laws;
pub mod scheduler;
pub mod screen_laws;
pub mod text;
pub mod text_laws;
pub mod timezone;
pub mod timezone_laws;
pub mod weather;
pub mod weather_laws;
