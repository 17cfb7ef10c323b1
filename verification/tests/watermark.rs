use wallpaper_tool::network::{NetAdapter, NetworkInfo};
use wallpaper_tool::watermark::{build_watermark_lines, WatermarkOptions};

fn adapter(name: &str, mac: &str, ips: &[&str], selected: bool) -> NetAdapter {
    NetAdapter {
        name: name.to_string(),
        mac: mac.to_string(),
        ips: ips.iter().map(|ip| ip.to_string()).collect(),
        selected,
    }
}

fn info() -> NetworkInfo {
    NetworkInfo {
        hostname: "HOST".to_string(),
        adapters: vec![
            adapter("Ethernet", "00:11:22:33:44:55", &["10.0.0.1", "10.0.0.2"], true),
            adapter("Wi-Fi", "66:77:88:99:AA:BB", &["192.168.1.7"], true),
            adapter("VPN", "CC:DD:EE:FF:00:11", &["172.16.0.9"], false),
        ],
        user_path: r"C:\Users\me".to_string(),
    }
}

fn options(ip: bool, mac: bool, hostname: bool, remark: &str) -> WatermarkOptions {
    WatermarkOptions {
        show_ip: ip,
        show_mac: mac,
        show_hostname: hostname,
        remark: remark.to_string(),
    }
}

#[test]
fn everything_is_shown() {
    assert_eq!(
        build_watermark_lines(&info(), &options(true, true, true, "first\nsecond\r\nthird")),
        vec![
            "计算机名：HOST",
            "IP 地址（Ethernet）：10.0.0.1  10.0.0.2",
            "          （Wi-Fi）：192.168.1.7",
            "MAC 地址（Ethernet）：00:11:22:33:44:55",
            "           （Wi-Fi）：66:77:88:99:AA:BB",
            "备注：    first",
            "          second",
            "          third",
        ],
    );
}

#[test]
fn options_show_everything_but_a_remark() {
    let all = WatermarkOptions::show_all();
    assert!(all.show_ip && all.show_mac && all.show_hostname);
    assert_eq!(all.remark, "");
    assert_eq!(build_watermark_lines(&info(), &all).len(), 5);
}

#[test]
fn single_kinds_of_lines() {
    assert_eq!(
        build_watermark_lines(&info(), &options(false, false, true, "")),
        vec!["计算机名：HOST"],
    );
    assert_eq!(
        build_watermark_lines(&info(), &options(true, false, false, "")),
        vec!["IP 地址（Ethernet）：10.0.0.1  10.0.0.2", "          （Wi-Fi）：192.168.1.7"],
    );
    assert_eq!(
        build_watermark_lines(&info(), &options(false, true, false, "")),
        vec![
            "MAC 地址（Ethernet）：00:11:22:33:44:55",
            "           （Wi-Fi）：66:77:88:99:AA:BB",
        ],
    );
    assert_eq!(
        build_watermark_lines(&info(), &options(false, false, false, "  kept  ")),
        vec!["备注：      kept  "],
    );
}

#[test]
fn nothing_to_show_gives_no_lines() {
    assert!(build_watermark_lines(&info(), &options(false, false, false, " \n\t")).is_empty());
    let mut unselected = info();
    for adapter in &mut unselected.adapters {
        adapter.selected = false;
    }
    assert!(build_watermark_lines(&unselected, &options(true, true, false, "")).is_empty());
}

#[test]
fn adapters_without_addresses_are_passed_over() {
    let mut known = info();
    known.adapters[0].ips.clear();
    known.adapters[1].mac = " ".to_string();
    assert_eq!(
        build_watermark_lines(&known, &options(true, true, false, "")),
        vec!["IP 地址（Wi-Fi）：192.168.1.7", "MAC 地址（Ethernet）：00:11:22:33:44:55"],
    );
}

#[test]
fn an_unselected_adapter_leaves_no_trace() {
    let mut without = info();
    without.adapters.remove(2);
    let all = options(true, true, true, "remark");
    assert_eq!(build_watermark_lines(&info(), &all), build_watermark_lines(&without, &all));
}

#[test]
fn only_selected_adapters_are_shown() {
    let mut known = info();
    known.adapters[0].selected = false;
    let mut chosen = known.clone();
    chosen.adapters.retain(|adapter| adapter.selected);
    let all = options(true, true, true, "remark");
    assert_eq!(build_watermark_lines(&known, &all), build_watermark_lines(&chosen, &all));
    assert_eq!(build_watermark_lines(&known, &all).len(), 4);
}

#[test]
fn empty_lines_of_a_remark_are_kept() {
    assert_eq!(
        build_watermark_lines(&info(), &options(false, false, false, "\n\nlast\n")),
        vec!["备注：    ", "          ", "          last"],
    );
}
