use whoamifuck::commands::special::{Special, SpecialTask};

fn strings(items: &[&str]) -> Vec<String> {
    items.iter().map(|s| s.to_string()).collect()
}

#[test]
fn special_run_follows_switches() {
    let s = Special { proc_serv: true, port: false, os_status: true };
    assert_eq!(s.run(), vec![SpecialTask::ProcessesAndServices, SpecialTask::SystemStatus]);
    let s = Special { proc_serv: false, port: true, os_status: false };
    assert_eq!(s.run(), vec![SpecialTask::PortScan]);
    let s = Special { proc_serv: false, port: false, os_status: false };
    assert!(s.run().is_empty());
}

#[test]
fn service_rows() {
    let line = "nginx.service loaded active running A high performance web server";
    assert_eq!(
        Special::service_row(line),
        Some(format!("{:<40} {:<40}", "nginx", "running A high performance web server"))
    );
    assert_eq!(Special::service_row("a.service loaded active"), None);
    let row = Special::service_row("x.service.service  l a  d").unwrap();
    assert!(row.starts_with("x "));
    let listing = Special::service_listing("cron.service loaded active running Regular jobs\nshort line\n");
    assert_eq!(
        listing,
        vec![
            format!("{:<40} {:<40}", "Service Name", "Description"),
            "=".repeat(80),
            format!("{:<40} {:<40}", "cron", "running Regular jobs"),
        ]
    );
    assert_eq!(
        Special::systemctl_args(),
        strings(&["list-units", "--type=service", "--state=running", "--no-pager", "--no-legend"])
    );
}

#[test]
fn ports_one_to_65534() {
    let ports = Special::probe_ports();
    assert_eq!(ports.len(), 65534);
    assert_eq!(ports[0], 1);
    assert_eq!(ports[65533], 65534);
    assert!(ports.windows(2).all(|w| w[1] == w[0] + 1));
    assert_eq!(Special::open_port_line(22), "Port 22 is open");
}

#[test]
fn sizes_in_decimal_units() {
    let lines = Special::memory_lines(10000, 1_555_000, 0, 1_000_000_000);
    assert_eq!(
        lines,
        strings(&[
            "Memory Information:",
            "  Total memory: 10 KB",
            "  Used memory: 1.555 MB",
            "  Total swap: 0 B",
            "  Used swap: 1 GB",
        ])
    );
    assert_eq!(
        Special::disk_lines("sda1", 2_000_000, 500, true),
        strings(&["  sda1: ", "    Total: 2 MB", "    Available: 500 B", "    Is removable: true"])
    );
}

#[test]
fn mac_address_lines() {
    assert_eq!(Special::mac_address_line(Ok(Some("AA:BB:CC:DD:EE:FF".to_string()))), "  MAC Address: AA:BB:CC:DD:EE:FF");
    assert_eq!(Special::mac_address_line(Ok(None)), "  MAC Address: No MAC address found");
    assert_eq!(Special::mac_address_line(Err("E".to_string())), "  MAC Address: Error getting MAC address: E");
}

#[test]
fn system_names_print_as_debug() {
    assert_eq!(
        Special::system_info_lines(Some("Linux".to_string()), None, Some("a\"b".to_string()), Some("h\n".to_string())),
        vec![
            "\nSystem Information:".to_string(),
            format!("  System name: {:?}", Some("Linux")),
            format!("  System kernel version: {:?}", None::<String>),
            format!("  System OS version: {:?}", Some("a\"b".to_string())),
            format!("  System host name: {:?}", Some("h\n".to_string())),
        ]
    );
}
