use athena_led::monitor::{
    get_load_string, get_online_devices, get_temps_by_ids, get_uptime_string, read_cpu_stats,
    read_mem_fields, read_uptime_field, short_label, temp_entry, thermal_ids, thermal_label,
    thermal_temp_path, thermal_type_path, CpuReading, SpeedReading, SystemMonitor,
};

const SEC: u64 = 1_000_000_000;

const NET_DEV: &str = "Inter-|   Receive                                                |  Transmit
 face |bytes    packets errs drop fifo frame compressed multicast|bytes    packets errs drop fifo colls carrier compressed
    lo:    1000      10    0    0    0     0          0         0     1000      10    0    0    0     0       0          0
br-lan: 123456     100    0    0    0     0          0         0   654321      90    0    0    0     0       0          0
";

fn monitor(interface: &str) -> SystemMonitor {
    SystemMonitor::new(interface.to_string(), 0)
}

#[test]
fn traffic_of_the_interface_is_read() {
    assert_eq!(monitor("br-lan").read_net_bytes(NET_DEV), (123_456, 654_321));
    assert_eq!(monitor("lo").read_net_bytes(NET_DEV), (1000, 1000));
    assert_eq!(monitor("eth9").read_net_bytes(NET_DEV), (0, 0));
    assert_eq!(monitor("br-lan").read_net_bytes(""), (0, 0));
}

#[test]
fn traffic_is_read_from_the_first_full_line() {
    let m = monitor("eth0");
    assert_eq!(m.read_net_bytes("eth0: 1 2\neth0: 5 0 0 0 0 0 0 0 7"), (5, 7));
    assert_eq!(m.read_net_bytes("eth0 : 5 0 0 0 0 0 0 0 7"), (5, 7));
    assert_eq!(m.read_net_bytes("eth0: x 0 0 0 0 0 0 0 7"), (0, 7));
    assert_eq!(m.read_net_bytes("eth0: 1 2 3"), (0, 0));
}

#[test]
fn other_interfaces_do_not_count() {
    let dev = "eth10: 5 0 0 0 0 0 0 0 6 0 0 0 0 0 0 0\n eth1: 7 0 0 0 0 0 0 0 8 0 0 0 0 0 0 0\n";
    assert_eq!(monitor("eth1").read_net_bytes(dev), (7, 8));
    assert_eq!(monitor("eth10").read_net_bytes(dev), (5, 6));
    assert_eq!(monitor("eth").read_net_bytes(dev), (0, 0));
    assert_eq!(monitor("th1").read_net_bytes(dev), (0, 0));
    assert_eq!(monitor("").read_net_bytes("\n\n"), (0, 0));
}

#[test]
fn processor_line_is_summed_up() {
    assert_eq!(read_cpu_stats("cpu  1 2 3 4 5 6 7 8 9\ncpu0 1 1 1 1\n"), Some((28, 4)));
    assert_eq!(read_cpu_stats("cpu  1 2 3 4\n"), Some((10, 4)));
    assert_eq!(read_cpu_stats("cpu  1 x 3 4\n"), Some((8, 4)));
    assert_eq!(read_cpu_stats("cpu  1 2 3\n"), Some((0, 0)));
    assert_eq!(read_cpu_stats("cpu0 1 2 3 4 5\n"), Some((0, 0)));
    assert_eq!(read_cpu_stats(""), Some((0, 0)));
    assert_eq!(read_cpu_stats("cpu  18446744073709551615 1 0 0"), None);
}

#[test]
fn processor_is_taken_since_the_last_look() {
    let mut m = monitor("br-lan");
    m.init((1, 2), (100, 40));
    assert_eq!((m.last_rx_bytes, m.last_tx_bytes, m.last_net_check), (1, 2, 0));
    assert_eq!(m.get_cpu_usage_string((200, 65)), CpuReading::Usage(25, 100));
    assert_eq!(m.get_cpu_usage_string((200, 65)), CpuReading::Still);
    assert_eq!(m.get_cpu_usage_string((210, 60)), CpuReading::Usage(0, 10));
    assert_eq!(m.get_cpu_usage_string((5, 5)), CpuReading::Still);
}

#[test]
fn speed_is_taken_since_the_last_look() {
    let mut m = monitor("br-lan");
    assert_eq!(m.get_speed_string(0, (10, 20), SEC / 10 - 1), SpeedReading::TooSoon);
    assert_eq!(m.get_speed_string(0, (10, 20), SEC), SpeedReading::Baseline);
    assert_eq!(m.get_speed_string(0, (1034, 20), 3 * SEC), SpeedReading::Rate(1024, 2 * SEC));
    assert_eq!(m.get_speed_string(1, (1034, 520), 4 * SEC), SpeedReading::Rate(500, SEC));
    assert_eq!(m.get_speed_string(1, (5, 5), 5 * SEC), SpeedReading::Rate(0, SEC));
    assert_eq!(m.get_speed_string(0, (9, 9), 35 * SEC), SpeedReading::Rate(4, 30 * SEC));
    assert_eq!(m.get_speed_string(0, (99, 99), 65 * SEC + 1), SpeedReading::Baseline);
    assert_eq!((m.last_rx_bytes, m.last_net_check), (99, 65 * SEC + 1));
    assert_eq!(SpeedReading::TooSoon.text(), Some("..."));
    assert_eq!(SpeedReading::Baseline.text(), Some("0B"));
    assert_eq!(SpeedReading::Rate(0, SEC).text(), Some("0B"));
    assert_eq!(SpeedReading::Rate(1, 1).text(), None);
    assert_eq!(CpuReading::Still.text(), Some("CPU:-"));
    assert_eq!(CpuReading::Usage(1, 2).text(), None);
}

#[test]
fn totals_have_their_marks() {
    assert_eq!(SystemMonitor::get_total_rx_string((2048, 5)), "TD:2K");
    assert_eq!(SystemMonitor::get_total_tx_string((5, 3_145_728)), "TU:3.0M");
}

#[test]
fn memory_fields_are_found() {
    let s = "MemTotal:         1000 kB\nMemFree: 1 kB\nMemAvailable:      250 kB\n";
    assert_eq!(read_mem_fields(s), (Some("1000".to_string()), Some("250".to_string())));
    assert_eq!(read_mem_fields("MemTotal:\nMemTotal: 5\nMemTotal: 6"), (Some("6".to_string()), None));
    assert_eq!(read_mem_fields(""), (None, None));
}

#[test]
fn load_is_the_first_word() {
    assert_eq!(get_load_string("0.52 0.58 0.59 1/467 12345\n"), "L:0.52");
    assert_eq!(get_load_string("\n"), "L:Err");
}

#[test]
fn uptime_has_its_two_largest_units() {
    assert_eq!(read_uptime_field(Some("350735.47 234388.90\n")).as_deref(), Some("350735.47"));
    assert_eq!(read_uptime_field(Some(" ")), None);
    assert_eq!(read_uptime_field(None), None);
    assert_eq!(get_uptime_string(Some(350_735)), "Up:4d1h");
    assert_eq!(get_uptime_string(Some(86_400)), "Up:1d0h");
    assert_eq!(get_uptime_string(Some(86_399)), "Up:23h59m");
    assert_eq!(get_uptime_string(Some(3600)), "Up:1h0m");
    assert_eq!(get_uptime_string(Some(3599)), "Up:59m");
    assert_eq!(get_uptime_string(Some(0)), "Up:0m");
    assert_eq!(get_uptime_string(None), "Up:Err");
}

#[test]
fn sensors_have_their_files_and_labels() {
    assert_eq!(thermal_ids("4, 5,,6"), vec!["4", "5", "6"]);
    assert_eq!(thermal_type_path("4"), "/sys/class/thermal/thermal_zone4/type");
    assert_eq!(thermal_temp_path("4"), "/sys/class/thermal/thermal_zone4/temp");
    assert_eq!(thermal_label(" CPU0-Thermal\n"), "cpu0");
    assert_eq!(thermal_label("ÄÖ-THERMAL"), "äö");
    assert_eq!(short_label("a-thermal-thermalb"), "ab");
    assert_eq!(temp_entry("cpu", "51"), "cpu:51℃");
    assert_eq!(get_temps_by_ids(&vec!["a:1℃".to_string(), "b:2℃".to_string()]), "a:1℃ b:2℃");
    assert_eq!(get_temps_by_ids(&vec!["a:1℃".to_string()]), "a:1℃");
    assert_eq!(get_temps_by_ids(&Vec::new()), "Temp:--");
}

#[test]
fn devices_are_counted() {
    assert_eq!(get_online_devices(Some("IP address HW\n1.2.3.4 x\n1.2.3.5 y\n")), "Dev:2");
    assert_eq!(get_online_devices(Some("IP address HW\n")), "Dev:0");
    assert_eq!(get_online_devices(Some("")), "Dev:0");
    assert_eq!(get_online_devices(None), "Dev:0");
}

#[test]
fn icons_have_two_shapes() {
    let m = monitor("");
    for (one, two) in [("☀", "☼"), ("☂", "☔"), ("☁", "🌥"), ("❄", "❅"), ("⚡", "☇"), ("🌫", "🌫")] {
        assert_eq!(m.get_animated_icon(one, true), one);
        assert_eq!(m.get_animated_icon(one, false), two);
    }
}
