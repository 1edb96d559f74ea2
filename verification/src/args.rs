//! The settings of the program.
use vstd::prelude::*;

verus! {

#[derive(Clone, Debug)]
pub struct Args {
    /// For how many seconds each module is shown.
    pub seconds: u64,
    /// The brightness, from 0 to 7.
    pub light_level: u8,
    /// The modules to show, with blanks between them.
    pub display_order: String,
    /// Lists of modules whose data are fetched from the net.
    pub profile: Vec<String>,
    pub net_interface: String,
    pub ip_url: String,
    pub custom_text: String,
    pub custom_http_url: String,
    /// How many characters of a fetched text are shown.
    pub http_length: usize,
    pub weather_city: String,
    pub weather_source: String,
    pub seniverse_key: String,
    pub stock_url: String,
    pub temp_flag: String,
    pub sleep_start: String,
    pub sleep_end: String,
    pub weather_format: String,
    /// How many seconds fetched data stay fresh.
    pub http_cache_secs: u64,
    pub gpio_backend: String,
    pub button_gpio: String,
    pub gpio_base: String,
    pub enable_mesh_button: u8,
    pub mesh_button_gpio: String,
    pub mesh_short_action: String,
    pub mesh_long_action: String,
    pub disable_led_clock: bool,
    pub disable_led_medal: bool,
    pub disable_led_up: bool,
    pub disable_led_down: bool,
}

} // verus!
