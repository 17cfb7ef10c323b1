//! The tool's window: what its buttons do, what it reports and when it closes.

use vstd::prelude::*;

use crate::ipv4::decimal;
use crate::job::{
    failed, may_follow, message_of, outcome_of, ErrorView, EventView, StageView, WatermarkError,
};
use crate::network::{
    adapter_views, all_selected, first_selected, info_option, law_list_holds_described_adapters,
    listable, network_at_start, query_step, select_all, select_first, start_info, text_option,
    AdapterView, ConfigView, InfoView, NetAdapter, NetworkInfo, QueryView,
};
use crate::text::{blank, is_blank, same_text, texts};
use crate::watermark::{
    all_shown, ip_entries, law_when_nothing_is_written, mac_entries, nothing_shown,
    watermark_lines, OptionsView, WatermarkOptions,
};

verus! {

/// The tool's window.
pub struct WatermarkApp {
    pub options: WatermarkOptions,
    /// What is reported.
    pub status: String,
    /// The time, in nanoseconds, at which the window began to close.
    pub exit_timer: Option<u64>,
    pub network_info: NetworkInfo,
}

/// What a `WatermarkApp` says.
pub struct AppView {
    pub options: OptionsView,
    pub status: Seq<char>,
    pub exit_timer: Option<u64>,
    pub network_info: InfoView,
}

impl View for WatermarkApp {
    type V = AppView;

    open spec fn view(&self) -> AppView {
        AppView {
            options: self.options@,
            status: self.status@,
            exit_timer: self.exit_timer,
            network_info: self.network_info@,
        }
    }
}

/// What the window shows of its state for a moment.
pub struct Frame {
    /// The message in the status bar.
    pub message: String,
    /// Whether the window closes.
    pub close: bool,
    /// After how many milliseconds it is drawn again, if it is.
    pub repaint: Option<u64>,
}

/// What a `Frame` says.
pub struct FrameView {
    pub message: Seq<char>,
    pub close: bool,
    pub repaint: Option<u64>,
}

impl View for Frame {
    type V = FrameView;

    open spec fn view(&self) -> FrameView {
        FrameView { message: self.message@, close: self.close, repaint: self.repaint }
    }
}

/// The number of seconds after which the window closes.
pub const EXIT_SECONDS: u64 = 5;

/// The number of milliseconds between two drawings of the countdown.
pub const COUNTDOWN_MILLISECONDS: u64 = 100;

/// The number of nanoseconds in a second.
pub const SECOND: u64 = 1_000_000_000;

/// The status says that the tool has done what it was asked to, so that its window closes.
pub open spec fn done(status: Seq<char>) -> bool {
    status == "SUCCESS"@ || status == "RESTORE_SUCCESS"@
}

/// The timer at this time: it starts once the tool is done, and then goes on.
pub open spec fn timer_at(app: AppView, now: u64) -> Option<u64> {
    if done(app.status) && app.exit_timer is None {
        Some(now)
    } else {
        app.exit_timer
    }
}

/// The full seconds between two times; none if the second is the earlier.
pub open spec fn seconds_between(start: u64, now: u64) -> int {
    if start <= now {
        (now - start) / (SECOND as int)
    } else {
        0
    }
}

/// The message of the countdown.
pub open spec fn countdown(status: Seq<char>, seconds: int) -> Seq<char> {
    (if status == "SUCCESS"@ {
        "应用成功！"@
    } else {
        "还原成功！"@
    }) + " "@ + decimal(seconds as u8) + " 秒后自动退出..."@
}

/// What the window shows at this time.
pub open spec fn frame_at(app: AppView, now: u64) -> FrameView {
    match timer_at(app, now) {
        None => FrameView { message: app.status, close: false, repaint: None },
        Some(start) => {
            let elapsed = seconds_between(start, now);
            if elapsed >= EXIT_SECONDS {
                FrameView { message: app.status, close: true, repaint: None }
            } else {
                FrameView {
                    message: if done(app.status) {
                        countdown(app.status, EXIT_SECONDS - elapsed)
                    } else {
                        app.status
                    },
                    close: false,
                    repaint: Some(COUNTDOWN_MILLISECONDS),
                }
            }
        },
    }
}

/// What is to be made into a wallpaper.
pub struct ApplyJob {
    pub info: NetworkInfo,
    pub options: WatermarkOptions,
    /// Whether the network information has to be asked for again first.
    pub refresh: bool,
}

/// What an `ApplyJob` says.
pub struct JobView {
    pub info: InfoView,
    pub options: OptionsView,
    pub refresh: bool,
}

impl View for ApplyJob {
    type V = JobView;

    open spec fn view(&self) -> JobView {
        JobView { info: self.info@, options: self.options@, refresh: self.refresh }
    }
}

/// What the job says, if there is one.
pub open spec fn job_option(job: Option<ApplyJob>) -> Option<JobView> {
    match job {
        Some(job) => Some(job@),
        None => None,
    }
}

/// An adapter is selected.
pub open spec fn some_selected(adapters: Seq<AdapterView>) -> bool {
    exists|i: int| 0 <= i < adapters.len() && (#[trigger] adapters[i]).selected
}

/// An adapter has an address.
pub open spec fn some_address(adapters: Seq<AdapterView>) -> bool {
    exists|i: int| 0 <= i < adapters.len() && (#[trigger] adapters[i]).ips.len() > 0
}

/// Why a watermark is not made of these options and adapters, if it is not: nothing is to be
/// shown, or something of the adapters is and none is selected.
pub open spec fn objection(options: OptionsView, adapters: Seq<AdapterView>) -> Option<Seq<char>> {
    if !options.show_ip && !options.show_mac && !options.show_hostname && blank(options.remark) {
        Some("错误：请至少勾选一项信息或填写备注"@)
    } else if (options.show_ip || options.show_mac) && !some_selected(adapters) {
        Some("错误：请至少选择一张网络接口"@)
    } else {
        None
    }
}

/// The window after its button to apply was pressed.
pub open spec fn after_apply(app: AppView) -> AppView {
    let status = match objection(app.options, app.network_info.adapters) {
        Some(message) => message,
        None => app.status,
    };
    AppView { status, exit_timer: None, ..app }
}

/// The job that begins when the button to apply is pressed, if there is no objection.
pub open spec fn job_of(app: AppView) -> Option<JobView> {
    match objection(app.options, app.network_info.adapters) {
        Some(_) => None,
        None => Some(
            JobView {
                info: app.network_info,
                options: app.options,
                refresh: !some_address(app.network_info.adapters),
            },
        ),
    }
}

/// The status while a job is at work.
pub open spec fn working_status(refreshing: bool) -> Seq<char> {
    if refreshing {
        "正在刷新网络信息..."@
    } else {
        "正在处理..."@
    }
}

/// The status once a job is finished.
pub open spec fn finished_status(outcome: Result<(), ErrorView>) -> Seq<char> {
    match outcome {
        Ok(()) => "SUCCESS"@,
        Err(error) => "失败："@ + message_of(error),
    }
}

/// The window after the network was asked again: what was found replaces what was known, with
/// the first adapter selected.
pub open spec fn after_refresh(app: AppView, outcome: Result<InfoView, Seq<char>>) -> AppView {
    match outcome {
        Ok(info) => AppView {
            network_info: InfoView { adapters: first_selected(info.adapters), ..info },
            status: "网络接口已刷新"@,
            ..app
        },
        Err(text) => AppView { status: "刷新失败："@ + text, ..app },
    }
}

/// The window after its button to clear was pressed.
pub open spec fn after_clear(app: AppView) -> AppView {
    AppView {
        options: nothing_shown(),
        exit_timer: None,
        status: "配置已重置"@,
        ..app
    }
}

/// What became of setting the backup as the wallpaper again.
pub enum Restore {
    /// There is no backup.
    NoBackup,
    Done,
    /// It could not be set; the text says why.
    Failed(String),
}

/// What a `Restore` says.
pub enum RestoreView {
    NoBackup,
    Done,
    Failed(Seq<char>),
}

impl View for Restore {
    type V = RestoreView;

    open spec fn view(&self) -> RestoreView {
        match self {
            Restore::NoBackup => RestoreView::NoBackup,
            Restore::Done => RestoreView::Done,
            Restore::Failed(text) => RestoreView::Failed(text@),
        }
    }
}

/// The window after its button to restore was pressed, at this time.
pub open spec fn after_restore(app: AppView, outcome: RestoreView, now: u64) -> AppView {
    match outcome {
        RestoreView::NoBackup => AppView { status: "未找到壁纸备份文件"@, ..app },
        RestoreView::Done => AppView {
            status: "RESTORE_SUCCESS"@,
            exit_timer: Some(now),
            ..app
        },
        RestoreView::Failed(text) => AppView { status: "还原失败："@ + text, ..app },
    }
}

/// Writes the digits of a number of seconds.
fn write_seconds(seconds: u64) -> (text: String)
    requires
        1 <= seconds <= EXIT_SECONDS,
    ensures
        text@ == decimal(seconds as u8),
{
    proof {
        reveal_strlit("1");
        reveal_strlit("2");
        reveal_strlit("3");
        reveal_strlit("4");
        reveal_strlit("5");
    }
    let text = if seconds == 1 {
        "1"
    } else if seconds == 2 {
        "2"
    } else if seconds == 3 {
        "3"
    } else if seconds == 4 {
        "4"
    } else {
        "5"
    };
    assert(text@ == decimal(seconds as u8));
    text.to_owned()
}

/// Puts `start` before `text`.
fn with_start(start: &str, text: &str) -> (whole: String)
    ensures
        whole@ == start@ + text@,
{
    let mut whole = start.to_owned();
    whole.append(text);
    whole
}

/// Tells whether the tool has done what it was asked to.
fn is_done(status: &str) -> (yes: bool)
    ensures
        yes == done(status@),
{
    same_text(status, "SUCCESS") || same_text(status, "RESTORE_SUCCESS")
}

/// Tells whether an adapter is selected.
fn any_selected(adapters: &Vec<NetAdapter>) -> (yes: bool)
    ensures
        yes == some_selected(adapter_views(adapters@)),
{
    let ghost views = adapter_views(adapters@);
    for i in 0..adapters.len()
        invariant
            views == adapter_views(adapters@),
            forall|j: int| 0 <= j < i ==> !(#[trigger] views[j]).selected,
    {
        assert(views[i as int] == adapters@[i as int]@);
        if adapters[i].selected {
            return true;
        }
    }
    false
}

/// Tells whether an adapter has an address.
fn any_address(adapters: &Vec<NetAdapter>) -> (yes: bool)
    ensures
        yes == some_address(adapter_views(adapters@)),
{
    let ghost views = adapter_views(adapters@);
    for i in 0..adapters.len()
        invariant
            views == adapter_views(adapters@),
            forall|j: int| 0 <= j < i ==> (#[trigger] views[j]).ips.len() == 0,
    {
        assert(views[i as int] == adapters@[i as int]@);
        if adapters[i].ips.len() > 0 {
            return true;
        }
    }
    false
}

impl WatermarkApp {
    /// Opens the window, with what was found of the network and with the environment's user's
    /// profile and host's name.
    pub fn new(
        found: Option<NetworkInfo>,
        user_path: &Option<String>,
        hostname: &Option<String>,
    ) -> (app: Self)
        ensures
            app@ == (AppView {
                options: all_shown(),
                status: "就绪"@,
                exit_timer: None,
                network_info: network_at_start(
                    info_option(found),
                    text_option(*user_path),
                    text_option(*hostname),
                ),
            }),
    {
        WatermarkApp {
            options: WatermarkOptions::show_all(),
            status: "就绪".to_owned(),
            exit_timer: None,
            network_info: start_info(found, user_path, hostname),
        }
    }

    /// Begins to draw the window at this time.
    pub fn begin_frame(&mut self, now: u64) -> (frame: Frame)
        ensures
            frame@ == frame_at(old(self)@, now),
            final(self)@ == (AppView { exit_timer: timer_at(old(self)@, now), ..old(self)@ }),
    {
        let success = is_done(self.status.as_str());
        if success && self.exit_timer.is_none() {
            self.exit_timer = Some(now);
        }
        match self.exit_timer {
            None => Frame { message: self.status.clone(), close: false, repaint: None },
            Some(start) => {
                let elapsed: u64 = if start <= now {
                    (now - start) / SECOND
                } else {
                    0
                };
                if elapsed >= EXIT_SECONDS {
                    return Frame { message: self.status.clone(), close: true, repaint: None };
                }
                let message = if success {
                    let mut message = if same_text(self.status.as_str(), "SUCCESS") {
                        "应用成功！".to_owned()
                    } else {
                        "还原成功！".to_owned()
                    };
                    message.append(" ");
                    message.append(write_seconds(EXIT_SECONDS - elapsed).as_str());
                    message.append(" 秒后自动退出...");
                    message
                } else {
                    self.status.clone()
                };
                Frame { message, close: false, repaint: Some(COUNTDOWN_MILLISECONDS) }
            },
        }
    }

    /// The button to apply was pressed: a job begins, or the status says what is missing.
    pub fn press_apply(&mut self) -> (job: Option<ApplyJob>)
        ensures
            final(self)@ == after_apply(old(self)@),
            job_option(job) == job_of(old(self)@),
    {
        self.exit_timer = None;
        if !self.options.show_ip && !self.options.show_mac && !self.options.show_hostname
            && is_blank(self.options.remark.as_str()) {
            self.status = "错误：请至少勾选一项信息或填写备注".to_owned();
            return None;
        }
        if (self.options.show_ip || self.options.show_mac) && !any_selected(
            &self.network_info.adapters,
        ) {
            self.status = "错误：请至少选择一张网络接口".to_owned();
            return None;
        }
        let refresh = !any_address(&self.network_info.adapters);
        Some(
            ApplyJob {
                info: self.network_info.clone(),
                options: self.options.clone(),
                refresh,
            },
        )
    }

    /// A job is at work; it asks for the network information first, or it does not.
    pub fn report_working(&mut self, refreshing: bool)
        ensures
            final(self)@ == (AppView { status: working_status(refreshing), ..old(self)@ }),
    {
        self.status = if refreshing {
            "正在刷新网络信息...".to_owned()
        } else {
            "正在处理...".to_owned()
        };
    }

    /// A job is finished.
    pub fn report_finished(&mut self, outcome: &Result<(), WatermarkError>)
        ensures
            final(self)@ == (AppView {
                status: finished_status(outcome_of(*outcome)),
                ..old(self)@
            }),
    {
        self.status = match outcome {
            Ok(()) => "SUCCESS".to_owned(),
            Err(error) => with_start("失败：", error.message().as_str()),
        };
    }

    /// The button to refresh was pressed, and the network was asked.
    pub fn press_refresh(&mut self, outcome: Result<NetworkInfo, String>)
        ensures
            final(self)@ == after_refresh(
                old(self)@,
                match outcome {
                    Ok(info) => Ok(info@),
                    Err(text) => Err(text@),
                },
            ),
    {
        match outcome {
            Ok(info) => {
                let mut info = info;
                select_first(&mut info.adapters);
                self.network_info = info;
                self.status = "网络接口已刷新".to_owned();
            },
            Err(text) => {
                self.status = with_start("刷新失败：", text.as_str());
            },
        }
    }

    /// The button to clear was pressed.
    pub fn press_clear(&mut self)
        ensures
            final(self)@ == after_clear(old(self)@),
    {
        self.options.show_ip = false;
        self.options.show_mac = false;
        self.options.show_hostname = false;
        self.options.remark = String::new();
        self.exit_timer = None;
        self.status = "配置已重置".to_owned();
    }

    /// The button to restore was pressed, and the backup was set as the wallpaper if there is one.
    pub fn press_restore(&mut self, outcome: Restore, now: u64)
        ensures
            final(self)@ == after_restore(old(self)@, outcome@, now),
    {
        match outcome {
            Restore::NoBackup => {
                self.status = "未找到壁纸备份文件".to_owned();
            },
            Restore::Done => {
                self.status = "RESTORE_SUCCESS".to_owned();
                self.exit_timer = Some(now);
            },
            Restore::Failed(text) => {
                self.status = with_start("还原失败：", text.as_str());
            },
        }
    }
}

/// The network information that a job works with: what was found when it asked again, if it did
/// and if anything was; or else what it began with.
pub open spec fn job_info(job: JobView, refreshed: Option<InfoView>) -> InfoView {
    if job.refresh && refreshed is Some {
        refreshed->0
    } else {
        job.info
    }
}

impl ApplyJob {
    /// Takes what was found when the network was asked again, if anything was.
    pub fn take_refreshed(&mut self, refreshed: Option<NetworkInfo>)
        ensures
            final(self)@ == (JobView {
                info: job_info(old(self)@, info_option(refreshed)),
                ..old(self)@
            }),
    {
        if self.refresh {
            if let Some(info) = refreshed {
                self.info = info;
            }
        }
    }
}

/// The arguments ask for the tool to work without a window.
pub open spec fn quiet(arguments: Seq<Seq<char>>) -> bool {
    exists|i: int|
        0 <= i < arguments.len() && (#[trigger] arguments[i] == "-q"@ || arguments[i] == "/q"@
            || arguments[i] == "q"@)
}

/// Tells whether the arguments ask for the tool to work without a window.
pub fn is_quiet(arguments: &Vec<String>) -> (yes: bool)
    ensures
        yes == quiet(texts(arguments@)),
{
    let ghost all = texts(arguments@);
    for i in 0..arguments.len()
        invariant
            all == texts(arguments@),
            forall|j: int|
                0 <= j < i ==> #[trigger] all[j] != "-q"@ && all[j] != "/q"@ && all[j] != "q"@,
    {
        let argument = arguments[i].as_str();
        assert(all[i as int] == argument@);
        if same_text(argument, "-q") || same_text(argument, "/q") || same_text(argument, "q") {
            return true;
        }
    }
    false
}

/// What is watermarked without a window: what the tool starts with, with every adapter selected.
pub open spec fn quiet_network_of(
    found: Option<InfoView>,
    user_path: Option<Seq<char>>,
    hostname: Option<Seq<char>>,
) -> InfoView {
    let info = network_at_start(found, user_path, hostname);
    InfoView { adapters: all_selected(info.adapters), ..info }
}

/// Makes what is watermarked without a window, from what was found of the network and from the
/// environment's user's profile and host's name.
pub fn quiet_network(
    found: Option<NetworkInfo>,
    user_path: &Option<String>,
    hostname: &Option<String>,
) -> (info: NetworkInfo)
    ensures
        info@ == quiet_network_of(
            info_option(found),
            text_option(*user_path),
            text_option(*hostname),
        ),
{
    let mut info = start_info(found, user_path, hostname);
    select_all(&mut info.adapters);
    info
}

/// Every adapter can be listed.
pub open spec fn all_listable(adapters: Seq<AdapterView>) -> bool {
    forall|i: int| 0 <= i < adapters.len() ==> listable(#[trigger] adapters[i])
}

/// Every adapter that the system's answer leads to can be listed.
pub proof fn law_found_adapters_are_listable(query: QueryView, configs: Seq<ConfigView>)
    ensures
        ({
            let step = query_step(query, Ok(configs));
            step is Found && all_listable(step->Found_0.adapters)
        }),
{
    law_list_holds_described_adapters(configs);
}

/// Every adapter in the window can be listed: the window opens with such adapters, and no button
/// brings in others, if those that are found when the network is asked can be listed.
pub proof fn law_window_shows_listable_adapters(
    app: AppView,
    found: Option<InfoView>,
    user_path: Option<Seq<char>>,
    hostname: Option<Seq<char>>,
    refreshed: Result<InfoView, Seq<char>>,
    restored: RestoreView,
    now: u64,
)
    requires
        all_listable(app.network_info.adapters),
        found is Some ==> all_listable(found->0.adapters),
        refreshed is Ok ==> all_listable(refreshed->Ok_0.adapters),
    ensures
        all_listable(network_at_start(found, user_path, hostname).adapters),
        all_listable(after_apply(app).network_info.adapters),
        all_listable(after_refresh(app, refreshed).network_info.adapters),
        all_listable(after_clear(app).network_info.adapters),
        all_listable(after_restore(app, restored, now).network_info.adapters),
        job_of(app) is Some ==> all_listable(job_of(app)->0.info.adapters),
{
}

/// A job that begins has something to write, whether the network is asked again or not, and
/// whatever is found then.
pub proof fn law_job_has_something_to_write(app: AppView, refreshed: Option<InfoView>)
    requires
        all_listable(app.network_info.adapters),
        job_of(app) is Some,
    ensures
        ({
            let job = job_of(app)->0;
            watermark_lines(job_info(job, refreshed), job.options).len() > 0
        }),
{
    let adapters = app.network_info.adapters;
    let info = job_info(job_of(app)->0, refreshed);
    law_when_nothing_is_written(info, app.options);
    if app.options.show_ip || app.options.show_mac {
        let i = choose|i: int| 0 <= i < adapters.len() && (#[trigger] adapters[i]).selected;
        assert(listable(adapters[i]));
        assert(info == app.network_info);
    }
}

/// A job that begins never ends for want of something to show.
pub proof fn law_job_does_not_lack_lines(
    app: AppView,
    refreshed: Option<InfoView>,
    stage: StageView,
    event: EventView,
)
    requires
        all_listable(app.network_info.adapters),
        job_of(app) is Some,
        stage.awaits(event),
    ensures
        ({
            let job = job_of(app)->0;
            !may_follow(
                stage,
                job_info(job, refreshed),
                job.options,
                event,
                failed(ErrorView::NothingToShow),
            )
        }),
{
    law_job_has_something_to_write(app, refreshed);
}

/// The network is asked again exactly where no adapter is known.
pub proof fn law_job_refreshes_an_empty_list(app: AppView)
    requires
        all_listable(app.network_info.adapters),
        job_of(app) is Some,
    ensures
        job_of(app)->0.refresh <==> app.network_info.adapters.len() == 0,
{
    let adapters = app.network_info.adapters;
    if adapters.len() > 0 {
        assert(listable(adapters[0]));
    }
}

/// After everything was cleared, nothing is made until something is chosen again.
pub proof fn law_nothing_to_apply_after_clear(app: AppView)
    ensures
        job_of(after_clear(app)) is None,
        after_apply(after_clear(app)).status == "错误：请至少勾选一项信息或填写备注"@,
{
}

/// A refused button to apply leaves everything but the report as it is, and stops the countdown.
pub proof fn law_refused_apply_changes_nothing_else(app: AppView)
    requires
        job_of(app) is None,
    ensures
        after_apply(app) == (AppView {
            status: after_apply(app).status,
            exit_timer: None,
            ..app
        }),
        objection(app.options, app.network_info.adapters) == Some(after_apply(app).status),
{
}

/// After the network was asked again, exactly the first adapter is selected, and the adapters
/// are otherwise those found, in the same order.
pub proof fn law_refresh_selects_the_first(app: AppView, info: InfoView, i: int)
    requires
        0 <= i < info.adapters.len(),
    ensures
        ({
            let shown = after_refresh(app, Ok(info)).network_info.adapters;
            &&& shown.len() == info.adapters.len()
            &&& shown[i].selected == (i == 0)
            &&& shown[i].name == info.adapters[i].name
            &&& shown[i].mac == info.adapters[i].mac
            &&& shown[i].ips == info.adapters[i].ips
        }),
{
}

/// Only success is reported as such: neither a job at work, nor a failed one, nor any other
/// report begins the countdown.
pub proof fn law_only_success_closes_the_window(
    app: AppView,
    outcome: Result<(), ErrorView>,
    refreshing: bool,
    refreshed: Result<InfoView, Seq<char>>,
    restored: RestoreView,
    now: u64,
)
    ensures
        done(finished_status(outcome)) <==> outcome is Ok,
        !done(working_status(refreshing)),
        !done("就绪"@),
        job_of(app) is None ==> !done(after_apply(app).status),
        !done(after_refresh(app, refreshed).status),
        !done(after_clear(app).status),
        done(after_restore(app, restored, now).status) <==> restored is Done,
{
    reveal_strlit("SUCCESS");
    reveal_strlit("RESTORE_SUCCESS");
    reveal_strlit("就绪");
    reveal_strlit("失败：");
    reveal_strlit("正在刷新网络信息...");
    reveal_strlit("正在处理...");
    reveal_strlit("错误：请至少勾选一项信息或填写备注");
    reveal_strlit("错误：请至少选择一张网络接口");
    reveal_strlit("网络接口已刷新");
    reveal_strlit("刷新失败：");
    reveal_strlit("配置已重置");
    reveal_strlit("未找到壁纸备份文件");
    reveal_strlit("还原失败：");
    lemma_not_done_by_first_char(finished_status(outcome));
    lemma_not_done_by_first_char(working_status(refreshing));
    lemma_not_done_by_first_char("就绪"@);
    lemma_not_done_by_first_char(after_apply(app).status);
    lemma_not_done_by_first_char(after_refresh(app, refreshed).status);
    lemma_not_done_by_first_char(after_clear(app).status);
    lemma_not_done_by_first_char(after_restore(app, restored, now).status);
}

/// A report that begins otherwise than those of success is none.
proof fn lemma_not_done_by_first_char(status: Seq<char>)
    ensures
        status.len() > 0 && status[0] != 'S' && status[0] != 'R' ==> !done(status),
{
    reveal_strlit("SUCCESS");
    reveal_strlit("RESTORE_SUCCESS");
}

/// Once the tool is done, the window counts five seconds down and then closes. `start` is when
/// it is first drawn after that, and `now` is any later time at which it is drawn again.
pub proof fn law_window_closes_after_five_seconds(app: AppView, start: u64, now: u64)
    requires
        done(app.status),
        app.exit_timer is None,
        start <= now,
    ensures
        ({
            let counting = AppView { exit_timer: timer_at(app, start), ..app };
            let frame = frame_at(counting, now);
            let left = EXIT_SECONDS - (now - start) / (SECOND as int);
            &&& frame_at(app, start).message == countdown(app.status, 5)
            &&& timer_at(counting, now) == Some(start)
            &&& frame.close <==> now - start >= 5 * SECOND
            &&& !frame.close ==> 1 <= left <= 5 && frame.message == countdown(app.status, left)
                && frame.repaint == Some(COUNTDOWN_MILLISECONDS)
        }),
{
}

/// A window that is not about to close stays open and shows its status.
pub proof fn law_window_stays_open(app: AppView, now: u64)
    requires
        !done(app.status),
        app.exit_timer is None,
    ensures
        timer_at(app, now) is None,
        frame_at(app, now) == (FrameView { message: app.status, close: false, repaint: None }),
{
}

/// Without a window every adapter is shown: the host's name, then a line with the addresses of
/// each adapter, then a line with the hardware address of each.
pub proof fn law_quiet_run_shows_every_adapter(
    found: Option<InfoView>,
    user_path: Option<Seq<char>>,
    hostname: Option<Seq<char>>,
)
    requires
        found is Some ==> all_listable(found->0.adapters),
    ensures
        ({
            let info = quiet_network_of(found, user_path, hostname);
            watermark_lines(info, all_shown()) == seq!["计算机名："@ + info.hostname] + ip_entries(
                info.adapters,
            ) + mac_entries(info.adapters)
        }),
{
    let adapters = network_at_start(found, user_path, hostname).adapters;
    let all = all_selected(adapters);
    assert forall|i: int| 0 <= i < all.len() implies (#[trigger] all[i]).selected
        && all[i].ips.len() > 0 && !blank(all[i].mac) by {
        assert(listable(adapters[i]));
    }
    lemma_filter_keeps_all(
        all,
        |adapter: AdapterView| adapter.selected && adapter.ips.len() > 0,
    );
    lemma_filter_keeps_all(all, |adapter: AdapterView| adapter.selected && !blank(adapter.mac));
}

/// Where everything is wanted, everything is kept.
proof fn lemma_filter_keeps_all(adapters: Seq<AdapterView>, wanted: spec_fn(AdapterView) -> bool)
    requires
        forall|i: int| 0 <= i < adapters.len() ==> wanted(#[trigger] adapters[i]),
    ensures
        adapters.filter(wanted) == adapters,
    decreases adapters.len(),
{
    reveal(Seq::filter);
    if adapters.len() > 0 {
        let rest = adapters.drop_last();
        assert(forall|i: int| 0 <= i < rest.len() ==> rest[i] == adapters[i]);
        lemma_filter_keeps_all(rest, wanted);
        assert(wanted(adapters.last()));
        assert(rest.push(adapters.last()) == adapters);
    }
}

/// The window, what it shows and what it begins say what their fields say.
pub proof fn law_window_says_its_fields(
    app: WatermarkApp,
    frame: Frame,
    job: ApplyJob,
    text: String,
)
    ensures
        app@.options == app.options@,
        app@.status == app.status@,
        app@.exit_timer == app.exit_timer,
        app@.network_info == app.network_info@,
        frame@.message == frame.message@,
        frame@.close == frame.close,
        frame@.repaint == frame.repaint,
        job@.info == job.info@,
        job@.options == job.options@,
        job@.refresh == job.refresh,
        job_option(Some(job)) == Some(job@),
        job_option(None) is None,
        Restore::NoBackup@ == RestoreView::NoBackup,
        Restore::Done@ == RestoreView::Done,
        Restore::Failed(text)@ == RestoreView::Failed(text@),
{
}

/// The timer of a window starts when it is first drawn after a success, and no sooner; once it runs,
/// it keeps the time at which it started.
pub proof fn law_timer_starts_with_success(app: AppView, now: u64)
    ensures
        app.exit_timer is Some ==> timer_at(app, now) == app.exit_timer,
        app.exit_timer is None ==> timer_at(app, now) == if app.status == "SUCCESS"@ || app.status
            == "RESTORE_SUCCESS"@ {
            Some(now)
        } else {
            None
        },
        done(app.status) <==> app.status == "SUCCESS"@ || app.status == "RESTORE_SUCCESS"@,
{
}

/// A window whose timer runs closes once five seconds, of a billion nanoseconds each, have gone by
/// since it started. Until then it is drawn again after a tenth of a second, and after a success it
/// says which and how many seconds are left, a begun second counted whole. Without a timer it shows
/// its status and is left alone.
pub proof fn law_window_counts_five_seconds_down(app: AppView, now: u64)
    ensures
        ({
            let frame = frame_at(app, now);
            match timer_at(app, now) {
                None => frame.message == app.status && !frame.close && frame.repaint is None,
                Some(start) => {
                    let gone = if now >= start {
                        now - start
                    } else {
                        0
                    };
                    &&& frame.close <==> gone >= 5_000_000_000
                    &&& frame.close ==> frame.message == app.status && frame.repaint is None
                    &&& !frame.close ==> frame.repaint == Some(100u64)
                    &&& !frame.close && app.status != "SUCCESS"@ && app.status
                        != "RESTORE_SUCCESS"@ ==> frame.message == app.status
                    &&& forall|left: u8|
                        #![trigger decimal(left)]
                        1 <= left <= 5 && (5 - left) * 1_000_000_000 <= gone < (6 - left)
                            * 1_000_000_000 ==> {
                            &&& app.status == "SUCCESS"@ ==> frame.message == "应用成功！"@ + " "@
                                + decimal(left) + " 秒后自动退出..."@
                            &&& app.status == "RESTORE_SUCCESS"@ ==> frame.message
                                == "还原成功！"@ + " "@ + decimal(left) + " 秒后自动退出..."@
                        }
                },
            }
        }),
{
    reveal_strlit("SUCCESS");
    reveal_strlit("RESTORE_SUCCESS");
    assert("SUCCESS"@.len() != "RESTORE_SUCCESS"@.len());
}

/// The button to apply is refused exactly where nothing is ticked and the remark is blank, or where
/// addresses are ticked and no adapter is selected; the report says which. Otherwise a job begins
/// with all that the window holds, and it asks for the network again exactly where no adapter has an
/// address. Either way the countdown stops, and nothing else changes.
pub proof fn law_when_apply_begins_a_job(app: AppView)
    ensures
        ({
            let options = app.options;
            let adapters = app.network_info.adapters;
            let nothing = !(options.show_ip || options.show_mac || options.show_hostname || !blank(
                options.remark,
            ));
            let nobody = (options.show_ip || options.show_mac) && forall|i: int|
                0 <= i < adapters.len() ==> !(#[trigger] adapters[i]).selected;
            let after = after_apply(app);
            &&& job_of(app) is Some <==> !nothing && !nobody
            &&& job_of(app) is Some ==> {
                &&& job_of(app)->0.info == app.network_info
                &&& job_of(app)->0.options == app.options
                &&& job_of(app)->0.refresh <==> forall|i: int|
                    0 <= i < adapters.len() ==> (#[trigger] adapters[i]).ips.len() == 0
            }
            &&& after.status == if nothing {
                "错误：请至少勾选一项信息或填写备注"@
            } else if nobody {
                "错误：请至少选择一张网络接口"@
            } else {
                app.status
            }
            &&& after.exit_timer is None
            &&& after.options == app.options
            &&& after.network_info == app.network_info
        }),
{
    let adapters = app.network_info.adapters;
    if exists|i: int| 0 <= i < adapters.len() && (#[trigger] adapters[i]).selected {
        assert(some_selected(adapters));
    }
    if exists|i: int| 0 <= i < adapters.len() && (#[trigger] adapters[i]).ips.len() > 0 {
        assert(some_address(adapters));
    }
}

/// A job at work says whether it asks for the network; a finished one reports success, or failure
/// with the message of its error.
pub proof fn law_reports_of_a_job(refreshing: bool, error: ErrorView)
    ensures
        working_status(refreshing) == if refreshing {
            "正在刷新网络信息..."@
        } else {
            "正在处理..."@
        },
        finished_status(Ok(())) == "SUCCESS"@,
        finished_status(Err(error)) == "失败："@ + message_of(error),
{
}

/// A job works with what was found when the network was asked again, whole, if it had to be and
/// anything was; otherwise with what it began with.
pub proof fn law_job_takes_what_was_found_again(job: JobView, refreshed: InfoView)
    ensures
        job.refresh ==> job_info(job, Some(refreshed)) == refreshed,
        !job.refresh ==> job_info(job, Some(refreshed)) == job.info,
        job_info(job, None) == job.info,
{
}

/// The button to refresh brings in what was found, with its host's name and user's profile, or says
/// why nothing was and leaves the network as it is; it changes neither the options nor the timer.
pub proof fn law_refresh_brings_in_what_was_found(app: AppView, info: InfoView, text: Seq<char>)
    ensures
        ({
            let after = after_refresh(app, Ok(info));
            &&& after.network_info.hostname == info.hostname
            &&& after.network_info.user_path == info.user_path
            &&& after.network_info.adapters.len() == info.adapters.len()
            &&& after.status == "网络接口已刷新"@
            &&& after.options == app.options
            &&& after.exit_timer == app.exit_timer
        }),
        ({
            let after = after_refresh(app, Err(text));
            &&& after.network_info == app.network_info
            &&& after.status == "刷新失败："@ + text
            &&& after.options == app.options
            &&& after.exit_timer == app.exit_timer
        }),
{
}

/// The button to clear unticks every option, empties the remark and stops the countdown; the
/// network stays as it is.
pub proof fn law_clear_unticks_everything(app: AppView)
    ensures
        ({
            let after = after_clear(app);
            &&& !after.options.show_ip && !after.options.show_mac && !after.options.show_hostname
            &&& after.options.remark.len() == 0
            &&& after.exit_timer is None
            &&& after.status == "配置已重置"@
            &&& after.network_info == app.network_info
        }),
{
}

/// The button to restore starts the countdown exactly where the backup was set; otherwise it says
/// what is missing or what failed. It changes neither the options nor the network.
pub proof fn law_restore_reports_what_became_of_it(app: AppView, text: Seq<char>, now: u64)
    ensures
        ({
            let missing = after_restore(app, RestoreView::NoBackup, now);
            let set = after_restore(app, RestoreView::Done, now);
            let failing = after_restore(app, RestoreView::Failed(text), now);
            &&& missing.status == "未找到壁纸备份文件"@ && missing.exit_timer == app.exit_timer
            &&& set.status == "RESTORE_SUCCESS"@ && set.exit_timer == Some(now)
            &&& failing.status == "还原失败："@ + text && failing.exit_timer == app.exit_timer
            &&& missing.options == app.options && missing.network_info == app.network_info
            &&& set.options == app.options && set.network_info == app.network_info
            &&& failing.options == app.options && failing.network_info == app.network_info
        }),
{
}

/// The tool works without a window exactly where one of its arguments is one of three.
pub proof fn law_which_arguments_are_quiet(arguments: Seq<Seq<char>>)
    ensures
        quiet(arguments) <==> arguments.contains("-q"@) || arguments.contains("/q"@)
            || arguments.contains("q"@),
{
    if quiet(arguments) {
        let i = choose|i: int|
            0 <= i < arguments.len() && (#[trigger] arguments[i] == "-q"@ || arguments[i] == "/q"@
                || arguments[i] == "q"@);
        assert(arguments.contains(arguments[i]));
    }
}

/// What is watermarked without a window has as many adapters as were found, in the same order, each
/// with its name, its hardware address and all its addresses, and every one is selected; the host's
/// name is the one that was found, and so is the user's profile unless that is empty.
pub proof fn law_quiet_run_keeps_every_adapter(
    found: InfoView,
    user_path: Option<Seq<char>>,
    hostname: Option<Seq<char>>,
    i: int,
)
    ensures
        ({
            let info = quiet_network_of(Some(found), user_path, hostname);
            &&& info.adapters.len() == found.adapters.len()
            &&& 0 <= i < found.adapters.len() ==> {
                &&& info.adapters[i].name == found.adapters[i].name
                &&& info.adapters[i].mac == found.adapters[i].mac
                &&& info.adapters[i].ips == found.adapters[i].ips
                &&& info.adapters[i].selected
            }
            &&& info.hostname == found.hostname
            &&& info.user_path == if found.user_path.len() > 0 {
                found.user_path
            } else if user_path is Some {
                user_path->0
            } else {
                r"C:\"@
            }
        }),
{
}

/// Where nothing was found, what is watermarked without a window has no adapters, and the host's
/// name and the user's profile are the environment's.
pub proof fn law_quiet_run_without_a_network(
    user_path: Option<Seq<char>>,
    hostname: Option<Seq<char>>,
)
    ensures
        ({
            let info = quiet_network_of(None, user_path, hostname);
            &&& info.adapters.len() == 0
            &&& info.hostname == if hostname is Some {
                hostname->0
            } else {
                Seq::<char>::empty()
            }
            &&& info.user_path == if user_path is Some {
                user_path->0
            } else {
                r"C:\"@
            }
        }),
{
}

/// Without a window, each adapter that was found has two lines, after the one with the host's name:
/// as far down as it stands in the list a line with all its addresses, and below those of all the
/// adapters, as far down again, one with its hardware address. Only the first of each has a heading.
pub proof fn law_quiet_run_shows_what_was_found(
    found: InfoView,
    user_path: Option<Seq<char>>,
    hostname: Option<Seq<char>>,
    i: int,
)
    requires
        all_listable(found.adapters),
    ensures
        ({
            let lines = watermark_lines(
                quiet_network_of(Some(found), user_path, hostname),
                OptionsView { show_ip: true, show_mac: true, show_hostname: true, remark: seq![] },
            );
            let count = found.adapters.len();
            &&& lines.len() == 1 + 2 * count
            &&& lines[0] == "计算机名："@ + found.hostname
            &&& 0 <= i < count ==> {
                let adapter = found.adapters[i];
                &&& lines[1 + i] == (if i == 0 {
                    "IP 地址（"@
                } else {
                    "          （"@
                }) + adapter.name + "）："@ + crate::text::joined(adapter.ips, "  "@)
                &&& lines[1 + count + i] == (if i == 0 {
                    "MAC 地址（"@
                } else {
                    "           （"@
                }) + adapter.name + "）："@ + adapter.mac
            }
        }),
{
    let info = quiet_network_of(Some(found), user_path, hostname);
    law_quiet_run_shows_every_adapter(Some(found), user_path, hostname);
    assert(all_shown() == (OptionsView {
        show_ip: true,
        show_mac: true,
        show_hostname: true,
        remark: seq![],
    }));
    assert(ip_entries(info.adapters).len() == found.adapters.len());
    assert(mac_entries(info.adapters).len() == found.adapters.len());
}

} // verus!
