use wallpaper_tool::network::{
    adapter_from, collect_adapters, select_all, select_first, start_info, AdapterConfig,
    NetAdapter, NetworkInfo, NetworkQuery, QueryStep,
};

fn strings(list: &[&str]) -> Vec<String> {
    list.iter().map(|text| text.to_string()).collect()
}

fn config(name: &str, mac: &str, ips: &[&str]) -> AdapterConfig {
    AdapterConfig {
        mac_address: Some(mac.to_string()),
        ip_enabled: Some(true),
        ip_address: Some(strings(ips)),
        description: Some(name.to_string()),
    }
}

fn names(adapters: &[NetAdapter]) -> Vec<&str> {
    adapters.iter().map(|adapter| adapter.name.as_str()).collect()
}

fn selected(adapters: &[NetAdapter]) -> Vec<bool> {
    adapters.iter().map(|adapter| adapter.selected).collect()
}

fn some(text: &str) -> Option<String> {
    Some(text.to_string())
}

#[test]
fn addresses_in_one_line() {
    let adapter = NetAdapter {
        name: "Ethernet".to_string(),
        mac: "00:11:22:33:44:55".to_string(),
        ips: strings(&["10.0.0.1", "10.0.0.2"]),
        selected: false,
    };
    assert_eq!(adapter.ips_line(), "10.0.0.1  10.0.0.2");
}

#[test]
fn report_with_addresses_of_both_versions() {
    let report = config(
        "Wi-Fi",
        "00:11:22:33:44:55",
        &[" 192.168.1.7 ", "fe80::1", "10.0.0.3", "192.168.1.7", "not an address"],
    );
    let adapter = adapter_from(&report).unwrap();
    assert_eq!(adapter.name, "Wi-Fi");
    assert_eq!(adapter.mac, "00:11:22:33:44:55");
    assert_eq!(adapter.ips, strings(&["10.0.0.3", "192.168.1.7"]));
    assert!(!adapter.selected);
}

#[test]
fn report_without_a_description() {
    let mut report = config("", "00:11:22:33:44:55", &["10.0.0.1"]);
    report.description = None;
    assert_eq!(adapter_from(&report).unwrap().name, "未知网络接口");
}

#[test]
fn reports_that_describe_no_adapter() {
    let good = config("Ethernet", "00:11:22:33:44:55", &["10.0.0.1"]);
    assert!(adapter_from(&good).is_some());
    assert!(adapter_from(&AdapterConfig { ip_enabled: Some(false), ..good }).is_none());
    let good = config("Ethernet", "00:11:22:33:44:55", &["10.0.0.1"]);
    assert!(adapter_from(&AdapterConfig { ip_enabled: None, ..good }).is_none());
    let good = config("Ethernet", "00:11:22:33:44:55", &["10.0.0.1"]);
    assert!(adapter_from(&AdapterConfig { mac_address: None, ..good }).is_none());
    assert!(adapter_from(&config("Ethernet", " \t", &["10.0.0.1"])).is_none());
    assert!(adapter_from(&config("Ethernet", "00:11:22:33:44:55", &["fe80::1"])).is_none());
    assert!(adapter_from(&config("Ethernet", "00:11:22:33:44:55", &[])).is_none());
    let good = config("Ethernet", "00:11:22:33:44:55", &["10.0.0.1"]);
    assert!(adapter_from(&AdapterConfig { ip_address: None, ..good }).is_none());
}

#[test]
fn adapters_are_ordered_by_name_in_lower_case() {
    let adapters = collect_adapters(&vec![
        config("Zeta", "m1", &["10.0.0.1"]),
        config("beta", "m2", &["10.0.0.2"]),
        config("BETA", "m3", &["10.0.0.3"]),
        config("nothing", "m4", &["fe80::1"]),
        config("Éclair", "m5", &["10.0.0.5"]),
        config("alpha", "m6", &["10.0.0.6"]),
        config("éa", "m7", &["10.0.0.7"]),
    ]);
    assert_eq!(names(&adapters), vec!["alpha", "beta", "BETA", "Zeta", "éa", "Éclair"]);
    assert_eq!(selected(&adapters), vec![true, false, false, false, false, false]);
    assert_eq!(adapters[1].mac, "m2");
    assert_eq!(adapters[2].mac, "m3");
}

#[test]
fn order_of_reports_and_addresses_does_not_matter() {
    let one = collect_adapters(&vec![
        config("b", "m1", &["10.0.0.1", "10.0.0.2"]),
        config("A", "m2", &["10.0.0.3"]),
        config("c", "m3", &["10.0.0.4"]),
    ]);
    let other = collect_adapters(&vec![
        config("c", "m3", &["10.0.0.4", " 10.0.0.4", "10.0.0.4"]),
        config("b", "m1", &["10.0.0.2", "10.0.0.1", "10.0.0.2"]),
        config("A", "m2", &["10.0.0.3"]),
    ]);
    assert_eq!(names(&one), vec!["A", "b", "c"]);
    assert_eq!(names(&one), names(&other));
    assert_eq!(selected(&one), selected(&other));
    for (left, right) in one.iter().zip(&other) {
        assert_eq!(left.ips, right.ips);
        assert_eq!(left.mac, right.mac);
    }
}

#[test]
fn no_reports_give_no_adapters() {
    assert!(collect_adapters(&vec![]).is_empty());
}

#[test]
fn selecting_the_first_or_all() {
    let mut adapters = collect_adapters(&vec![
        config("a", "m1", &["10.0.0.1"]),
        config("b", "m2", &["10.0.0.2"]),
        config("c", "m3", &["10.0.0.3"]),
    ]);
    select_all(&mut adapters);
    assert_eq!(selected(&adapters), vec![true, true, true]);
    select_first(&mut adapters);
    assert_eq!(selected(&adapters), vec![true, false, false]);
    assert_eq!(names(&adapters), vec!["a", "b", "c"]);
    let mut none: Vec<NetAdapter> = Vec::new();
    select_first(&mut none);
    select_all(&mut none);
    assert!(none.is_empty());
}

#[test]
fn first_answer_is_taken() {
    let query = NetworkQuery::new(some(r"C:\Users\me"), some("HOST"));
    match query.answer(Ok(vec![config("a", "m1", &["10.0.0.1"])])) {
        QueryStep::Found(info) => {
            assert_eq!(info.hostname, "HOST");
            assert_eq!(info.user_path, r"C:\Users\me");
            assert_eq!(names(&info.adapters), vec!["a"]);
            assert_eq!(selected(&info.adapters), vec![true]);
        }
        _ => panic!("no answer was taken"),
    }
}

#[test]
fn defaults_where_the_environment_says_nothing() {
    match NetworkQuery::new(None, None).answer(Ok(vec![])) {
        QueryStep::Found(info) => {
            assert_eq!(info.hostname, "Unknown");
            assert_eq!(info.user_path, r"C:\");
            assert!(info.adapters.is_empty());
        }
        _ => panic!("no answer was taken"),
    }
}

fn retry(query: NetworkQuery, error: &str) -> NetworkQuery {
    match query.answer(Err(error.to_string())) {
        QueryStep::Retry { query, milliseconds } => {
            assert_eq!(milliseconds, 500);
            query
        }
        _ => panic!("no further attempt"),
    }
}

#[test]
fn third_failure_is_reported() {
    let query = retry(retry(NetworkQuery::new(None, None), "first"), "second");
    match query.answer(Err("third".to_string())) {
        QueryStep::Failed(message) => {
            assert_eq!(message, "WMI 查询网络接口失败，已重试 3 次：third");
        }
        _ => panic!("no failure was reported"),
    }
}

#[test]
fn third_attempt_may_succeed() {
    let query = retry(retry(NetworkQuery::new(some("u"), some("h")), "first"), "second");
    match query.answer(Ok(vec![])) {
        QueryStep::Found(info) => {
            assert_eq!(info.user_path, "u");
            assert_eq!(info.hostname, "h");
        }
        _ => panic!("no answer was taken"),
    }
}

#[test]
fn start_with_what_was_found() {
    let found = NetworkInfo {
        hostname: "HOST".to_string(),
        adapters: Vec::new(),
        user_path: r"D:\me".to_string(),
    };
    let info = start_info(Some(found), &some(r"C:\Users\me"), &some("OTHER"));
    assert_eq!(info.hostname, "HOST");
    assert_eq!(info.user_path, r"D:\me");
}

#[test]
fn start_with_the_environment() {
    let info = start_info(None, &some(r"C:\Users\me"), &some("HOST"));
    assert_eq!(info.hostname, "HOST");
    assert_eq!(info.user_path, r"C:\Users\me");
    assert!(info.adapters.is_empty());
}

#[test]
fn start_with_nothing_known() {
    let info = start_info(None, &None, &None);
    assert_eq!(info.hostname, "");
    assert_eq!(info.user_path, r"C:\");
}

#[test]
fn start_where_the_user_path_that_was_found_is_empty() {
    let found = NetworkInfo {
        hostname: "HOST".to_string(),
        adapters: Vec::new(),
        user_path: String::new(),
    };
    assert_eq!(start_info(Some(found.clone()), &some("u"), &None).user_path, "u");
    assert_eq!(start_info(Some(found.clone()), &None, &None).user_path, r"C:\");
    assert_eq!(start_info(Some(found), &some(""), &None).user_path, "");
}
