use wallpaper_tool::job::{Event, Screen, Stage, WatermarkError};
use wallpaper_tool::network::{NetAdapter, NetworkInfo};
use wallpaper_tool::session::{is_quiet, quiet_network, ApplyJob, Restore, WatermarkApp};
use wallpaper_tool::watermark::{build_watermark_lines, WatermarkOptions};

const SECOND: u64 = 1_000_000_000;

fn adapter(name: &str, ips: &[&str], selected: bool) -> NetAdapter {
    NetAdapter {
        name: name.to_string(),
        mac: "00:11:22:33:44:55".to_string(),
        ips: ips.iter().map(|ip| ip.to_string()).collect(),
        selected,
    }
}

fn found(adapters: Vec<NetAdapter>) -> NetworkInfo {
    NetworkInfo {
        hostname: "HOST".to_string(),
        adapters,
        user_path: r"C:\Users\me".to_string(),
    }
}

fn window() -> WatermarkApp {
    let info = found(vec![adapter("a", &["10.0.0.1"], true), adapter("b", &["10.0.0.2"], false)]);
    WatermarkApp::new(Some(info), &None, &None)
}

fn selected(app: &WatermarkApp) -> Vec<bool> {
    app.network_info.adapters.iter().map(|adapter| adapter.selected).collect()
}

#[test]
fn window_opens_ready() {
    let mut app = window();
    assert_eq!(app.status, "就绪");
    assert_eq!(app.exit_timer, None);
    assert!(app.options.show_ip && app.options.show_mac && app.options.show_hostname);
    assert_eq!(app.options.remark, "");
    assert_eq!(app.network_info.hostname, "HOST");
    let frame = app.begin_frame(7);
    assert_eq!(frame.message, "就绪");
    assert!(!frame.close);
    assert_eq!(frame.repaint, None);
    assert_eq!(app.exit_timer, None);
}

#[test]
fn window_opens_without_a_network() {
    let app = WatermarkApp::new(None, &Some("u".to_string()), &Some("h".to_string()));
    assert_eq!(app.network_info.hostname, "h");
    assert_eq!(app.network_info.user_path, "u");
    assert!(app.network_info.adapters.is_empty());
}

#[test]
fn success_is_counted_down() {
    let mut app = window();
    app.report_finished(&Ok(()));
    assert_eq!(app.status, "SUCCESS");
    let start = 100 * SECOND;
    let messages = [
        "应用成功！ 5 秒后自动退出...",
        "应用成功！ 4 秒后自动退出...",
        "应用成功！ 3 秒后自动退出...",
        "应用成功！ 2 秒后自动退出...",
        "应用成功！ 1 秒后自动退出...",
    ];
    for (seconds, message) in messages.iter().enumerate() {
        for part in [0, SECOND - 1] {
            let frame = app.begin_frame(start + seconds as u64 * SECOND + part);
            assert_eq!(&frame.message, message);
            assert!(!frame.close);
            assert_eq!(frame.repaint, Some(100));
            assert_eq!(app.exit_timer, Some(start));
        }
    }
    let frame = app.begin_frame(start + 5 * SECOND);
    assert!(frame.close);
    assert_eq!(frame.message, "SUCCESS");
    assert_eq!(frame.repaint, None);
}

#[test]
fn clock_that_goes_back_counts_as_no_time() {
    let mut app = window();
    app.report_finished(&Ok(()));
    app.begin_frame(10 * SECOND);
    assert_eq!(app.begin_frame(3 * SECOND).message, "应用成功！ 5 秒后自动退出...");
}

#[test]
fn timer_without_success_shows_the_status() {
    let mut app = window();
    app.exit_timer = Some(0);
    app.status = "网络接口已刷新".to_string();
    let frame = app.begin_frame(2 * SECOND);
    assert_eq!(frame.message, "网络接口已刷新");
    assert_eq!(frame.repaint, Some(100));
    assert!(app.begin_frame(6 * SECOND).close);
}

#[test]
fn restored_wallpaper_is_counted_down() {
    let mut app = window();
    app.press_restore(Restore::Done, 50 * SECOND);
    assert_eq!(app.status, "RESTORE_SUCCESS");
    assert_eq!(app.exit_timer, Some(50 * SECOND));
    assert_eq!(app.begin_frame(51 * SECOND).message, "还原成功！ 4 秒后自动退出...");
    assert!(app.begin_frame(55 * SECOND).close);
}

#[test]
fn restore_that_fails() {
    let mut app = window();
    app.press_restore(Restore::NoBackup, 1);
    assert_eq!(app.status, "未找到壁纸备份文件");
    app.press_restore(Restore::Failed("denied".to_string()), 1);
    assert_eq!(app.status, "还原失败：denied");
    assert_eq!(app.exit_timer, None);
}

#[test]
fn job_begins_with_what_the_window_shows() {
    let mut app = window();
    app.options.remark = "remark".to_string();
    app.exit_timer = Some(9);
    let job = app.press_apply().unwrap();
    assert_eq!(app.exit_timer, None);
    assert_eq!(app.status, "就绪");
    assert!(!job.refresh);
    assert_eq!(job.options.remark, "remark");
    assert_eq!(job.info.adapters.len(), 2);
    assert_eq!(
        build_watermark_lines(&job.info, &job.options),
        vec![
            "计算机名：HOST",
            "IP 地址（a）：10.0.0.1",
            "MAC 地址（a）：00:11:22:33:44:55",
            "备注：    remark",
        ],
    );
}

#[test]
fn nothing_is_applied_after_clear() {
    let mut app = window();
    app.exit_timer = Some(9);
    app.press_clear();
    assert_eq!(app.status, "配置已重置");
    assert_eq!(app.exit_timer, None);
    assert!(!app.options.show_ip && !app.options.show_mac && !app.options.show_hostname);
    assert!(app.press_apply().is_none());
    assert_eq!(app.status, "错误：请至少勾选一项信息或填写备注");
    app.options.remark = " \t".to_string();
    assert!(app.press_apply().is_none());
    app.options.remark = "x".to_string();
    assert!(app.press_apply().is_some());
}

#[test]
fn addresses_need_a_selected_adapter() {
    let mut app = window();
    for adapter in &mut app.network_info.adapters {
        adapter.selected = false;
    }
    app.exit_timer = Some(9);
    assert!(app.press_apply().is_none());
    assert_eq!(app.status, "错误：请至少选择一张网络接口");
    assert_eq!(app.exit_timer, None);
    app.options.show_ip = false;
    assert!(app.press_apply().is_none());
    app.options.show_mac = false;
    assert!(app.press_apply().is_some());
}

#[test]
fn empty_list_is_refreshed_by_the_job() {
    let mut app = WatermarkApp::new(Some(found(vec![])), &None, &None);
    assert!(app.press_apply().is_none());
    app.options.show_ip = false;
    app.options.show_mac = false;
    let mut job = app.press_apply().unwrap();
    assert!(job.refresh);
    app.report_working(true);
    assert_eq!(app.status, "正在刷新网络信息...");
    job.take_refreshed(None);
    assert!(job.info.adapters.is_empty());
    job.take_refreshed(Some(found(vec![adapter("new", &["10.0.0.9"], true)])));
    assert_eq!(job.info.adapters.len(), 1);
    app.report_working(false);
    assert_eq!(app.status, "正在处理...");
    assert_eq!(build_watermark_lines(&job.info, &job.options), vec!["计算机名：HOST"]);
}

#[test]
fn known_list_is_not_refreshed_by_the_job() {
    let mut job = ApplyJob {
        info: found(vec![adapter("a", &["10.0.0.1"], true)]),
        options: WatermarkOptions::show_all(),
        refresh: false,
    };
    job.take_refreshed(Some(found(vec![])));
    assert_eq!(job.info.adapters.len(), 1);
}

#[test]
fn adapters_without_addresses_are_refreshed() {
    let mut app = WatermarkApp::new(Some(found(vec![adapter("a", &[], true)])), &None, &None);
    assert!(app.press_apply().unwrap().refresh);
}

#[test]
fn job_that_began_has_something_to_show() {
    let mut app = window();
    app.options.show_hostname = false;
    app.options.show_mac = false;
    let job = app.press_apply().unwrap();
    let stage = Stage::ReadWallpaper { screen: Screen { width: 8, height: 6 } };
    let event = Event::Read(Ok(b"no picture".to_vec()));
    match stage.advance(&job.info, &job.options, event) {
        Stage::Decode { lines, .. } => {
            assert_eq!(lines, vec!["IP 地址（a）：10.0.0.1".to_string()]);
        }
        _ => panic!("nothing is decoded"),
    }
}

#[test]
fn failed_job_is_reported() {
    let mut app = window();
    app.report_finished(&Err(WatermarkError::NoScreen));
    assert_eq!(app.status, "失败：无法获取屏幕分辨率");
    let frame = app.begin_frame(1);
    assert_eq!(frame.message, "失败：无法获取屏幕分辨率");
    assert!(!frame.close);
    assert_eq!(app.exit_timer, None);
    app.report_finished(&Err(WatermarkError::Unreadable("x".to_string())));
    assert_eq!(app.status, "失败：无法读取壁纸：x，请稍后重试。");
}

#[test]
fn refresh_selects_the_first_adapter() {
    let mut app = window();
    app.options.remark = "kept".to_string();
    app.press_refresh(Ok(found(vec![
        adapter("c", &["10.0.0.3"], false),
        adapter("d", &["10.0.0.4"], true),
        adapter("e", &["10.0.0.5"], true),
    ])));
    assert_eq!(app.status, "网络接口已刷新");
    assert_eq!(selected(&app), vec![true, false, false]);
    assert_eq!(app.network_info.adapters[1].name, "d");
    assert_eq!(app.options.remark, "kept");
}

#[test]
fn refresh_that_fails_keeps_the_list() {
    let mut app = window();
    app.press_refresh(Err("no answer".to_string()));
    assert_eq!(app.status, "刷新失败：no answer");
    assert_eq!(selected(&app), vec![true, false]);
}

#[test]
fn arguments_for_a_quiet_run() {
    let arguments = |list: &[&str]| -> Vec<String> {
        list.iter().map(|text| text.to_string()).collect()
    };
    assert!(is_quiet(&arguments(&["tool.exe", "-q"])));
    assert!(is_quiet(&arguments(&["tool.exe", "x", "/q"])));
    assert!(is_quiet(&arguments(&["q"])));
    assert!(!is_quiet(&arguments(&["tool.exe", "-Q", "--q", "qq", ""])));
    assert!(!is_quiet(&arguments(&[])));
}

#[test]
fn quiet_run_shows_every_adapter() {
    let known = found(vec![
        adapter("a", &["10.0.0.1"], true),
        adapter("b", &["10.0.0.2", "10.0.0.3"], false),
    ]);
    let info = quiet_network(Some(known), &None, &None);
    assert_eq!(
        build_watermark_lines(&info, &WatermarkOptions::show_all()),
        vec![
            "计算机名：HOST",
            "IP 地址（a）：10.0.0.1",
            "          （b）：10.0.0.2  10.0.0.3",
            "MAC 地址（a）：00:11:22:33:44:55",
            "           （b）：00:11:22:33:44:55",
        ],
    );
}

#[test]
fn quiet_run_without_a_network() {
    let info = quiet_network(None, &Some("u".to_string()), &None);
    assert_eq!(info.user_path, "u");
    assert_eq!(
        build_watermark_lines(&info, &WatermarkOptions::show_all()),
        vec!["计算机名："],
    );
}
