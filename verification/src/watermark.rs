//! The lines of the watermark.

use vstd::prelude::*;

use crate::network::{adapter_views, AdapterView, InfoView, NetAdapter, NetworkInfo};
use crate::text::{blank, is_blank, joined, law_some_text_has_a_line, lines, lines_of, texts};

verus! {

/// What the watermark shows.
pub struct WatermarkOptions {
    pub show_ip: bool,
    pub show_mac: bool,
    pub show_hostname: bool,
    /// A remark of the user's, of one or more lines.
    pub remark: String,
}

/// What `WatermarkOptions` say.
pub struct OptionsView {
    pub show_ip: bool,
    pub show_mac: bool,
    pub show_hostname: bool,
    pub remark: Seq<char>,
}

impl View for WatermarkOptions {
    type V = OptionsView;

    open spec fn view(&self) -> OptionsView {
        OptionsView {
            show_ip: self.show_ip,
            show_mac: self.show_mac,
            show_hostname: self.show_hostname,
            remark: self.remark@,
        }
    }
}

impl Clone for WatermarkOptions {
    fn clone(&self) -> (copy: Self)
        ensures
            copy@ == self@,
    {
        WatermarkOptions {
            show_ip: self.show_ip,
            show_mac: self.show_mac,
            show_hostname: self.show_hostname,
            remark: self.remark.clone(),
        }
    }
}

/// Everything but a remark is shown.
pub open spec fn all_shown() -> OptionsView {
    OptionsView { show_ip: true, show_mac: true, show_hostname: true, remark: seq![] }
}

/// Nothing is shown.
pub open spec fn nothing_shown() -> OptionsView {
    OptionsView { show_ip: false, show_mac: false, show_hostname: false, remark: seq![] }
}

impl WatermarkOptions {
    /// Shows everything, with no remark.
    pub fn show_all() -> (options: Self)
        ensures
            options@ == all_shown(),
    {
        WatermarkOptions {
            show_ip: true,
            show_mac: true,
            show_hostname: true,
            remark: String::new(),
        }
    }
}

/// The adapters whose addresses are shown: those selected that have any.
pub open spec fn with_ips(adapters: Seq<AdapterView>) -> Seq<AdapterView> {
    adapters.filter(|adapter: AdapterView| adapter.selected && adapter.ips.len() > 0)
}

/// The adapters whose hardware address is shown: those selected that have one.
pub open spec fn with_mac(adapters: Seq<AdapterView>) -> Seq<AdapterView> {
    adapters.filter(|adapter: AdapterView| adapter.selected && !blank(adapter.mac))
}

/// A line of an adapter: what begins it, the adapter's name and what is said of the adapter.
pub open spec fn adapter_line(start: Seq<char>, name: Seq<char>, said: Seq<char>) -> Seq<char> {
    start + name + "）："@ + said
}

/// The line with the host's name, if it is shown.
pub open spec fn hostname_lines(info: InfoView, options: OptionsView) -> Seq<Seq<char>> {
    if options.show_hostname {
        seq!["计算机名："@ + info.hostname]
    } else {
        seq![]
    }
}

/// The lines with the addresses of these adapters; the first has a heading.
pub open spec fn ip_entries(shown: Seq<AdapterView>) -> Seq<Seq<char>> {
    Seq::new(
        shown.len(),
        |i: int|
            adapter_line(
                if i == 0 {
                    "IP 地址（"@
                } else {
                    "          （"@
                },
                shown[i].name,
                joined(shown[i].ips, "  "@),
            ),
    )
}

/// The lines with the hardware addresses of these adapters; the first has a heading.
pub open spec fn mac_entries(shown: Seq<AdapterView>) -> Seq<Seq<char>> {
    Seq::new(
        shown.len(),
        |i: int|
            adapter_line(
                if i == 0 {
                    "MAC 地址（"@
                } else {
                    "           （"@
                },
                shown[i].name,
                shown[i].mac,
            ),
    )
}

/// The lines with the addresses, if they are shown.
pub open spec fn ip_lines(info: InfoView, options: OptionsView) -> Seq<Seq<char>> {
    if options.show_ip {
        ip_entries(with_ips(info.adapters))
    } else {
        seq![]
    }
}

/// The lines with the hardware addresses, if they are shown.
pub open spec fn mac_lines(info: InfoView, options: OptionsView) -> Seq<Seq<char>> {
    if options.show_mac {
        mac_entries(with_mac(info.adapters))
    } else {
        seq![]
    }
}

/// The lines of the remark, unless it is blank; the first of them with a heading.
pub open spec fn remark_lines(options: OptionsView) -> Seq<Seq<char>> {
    let all = lines_of(options.remark);
    if blank(options.remark) {
        seq![]
    } else {
        Seq::new(
            all.len(),
            |i: int|
                (if i == 0 {
                    "备注：    "@
                } else {
                    "          "@
                }) + all[i],
        )
    }
}

/// The lines of the watermark.
pub open spec fn watermark_lines(info: InfoView, options: OptionsView) -> Seq<Seq<char>> {
    hostname_lines(info, options) + ip_lines(info, options) + mac_lines(info, options)
        + remark_lines(options)
}

/// Writes a line of an adapter.
fn write_adapter_line(start: &str, name: &str, said: &str) -> (line: String)
    ensures
        line@ == adapter_line(start@, name@, said@),
{
    let mut line = start.to_owned();
    line.append(name);
    line.append("）：");
    line.append(said);
    line
}

/// Adds the lines with the addresses.
fn push_ip_lines(lines: &mut Vec<String>, adapters: &Vec<NetAdapter>)
    ensures
        texts(final(lines)@) == texts(old(lines)@) + ip_entries(with_ips(adapter_views(adapters@))),
{
    let ghost before = texts(lines@);
    let ghost views = adapter_views(adapters@);
    let ghost keep = |adapter: AdapterView| adapter.selected && adapter.ips.len() > 0;
    let mut first = true;
    proof {
        reveal(Seq::filter);
        assert(with_ips(views.take(0)).len() == 0);
        assert(before == before + ip_entries(with_ips(views.take(0))));
    }
    for i in 0..adapters.len()
        invariant
            views == adapter_views(adapters@),
            keep == (|adapter: AdapterView| adapter.selected && adapter.ips.len() > 0),
            first == (with_ips(views.take(i as int)).len() == 0),
            texts(lines@) == before + ip_entries(with_ips(views.take(i as int))),
    {
        let adapter = &adapters[i];
        let ghost held = with_ips(views.take(i as int));
        let ghost now = with_ips(views.take(i + 1));
        let ghost written = texts(lines@);
        proof {
            reveal(Seq::filter);
            assert(views.take(i + 1).drop_last() == views.take(i as int));
            assert(views.take(i + 1).last() == adapter@);
            assert(now == if keep(adapter@) {
                held.push(adapter@)
            } else {
                held
            });
        }
        if adapter.selected && adapter.ips.len() > 0 {
            let said = adapter.ips_line();
            let start = if first {
                "IP 地址（"
            } else {
                "          （"
            };
            let line = write_adapter_line(start, adapter.name.as_str(), said.as_str());
            first = false;
            lines.push(line);
            assert(texts(lines@) == written.push(line@));
            assert(ip_entries(now) == ip_entries(held).push(line@));
            assert(texts(lines@) == before + ip_entries(now));
        }
    }
    assert(views.take(adapters@.len() as int) == views);
}

/// Adds the lines with the hardware addresses.
fn push_mac_lines(lines: &mut Vec<String>, adapters: &Vec<NetAdapter>)
    ensures
        texts(final(lines)@) == texts(old(lines)@) + mac_entries(with_mac(adapter_views(adapters@))),
{
    let ghost before = texts(lines@);
    let ghost views = adapter_views(adapters@);
    let ghost keep = |adapter: AdapterView| adapter.selected && !blank(adapter.mac);
    let mut first = true;
    proof {
        reveal(Seq::filter);
        assert(with_mac(views.take(0)).len() == 0);
        assert(before == before + mac_entries(with_mac(views.take(0))));
    }
    for i in 0..adapters.len()
        invariant
            views == adapter_views(adapters@),
            keep == (|adapter: AdapterView| adapter.selected && !blank(adapter.mac)),
            first == (with_mac(views.take(i as int)).len() == 0),
            texts(lines@) == before + mac_entries(with_mac(views.take(i as int))),
    {
        let adapter = &adapters[i];
        let ghost held = with_mac(views.take(i as int));
        let ghost now = with_mac(views.take(i + 1));
        let ghost written = texts(lines@);
        proof {
            reveal(Seq::filter);
            assert(views.take(i + 1).drop_last() == views.take(i as int));
            assert(views.take(i + 1).last() == adapter@);
            assert(now == if keep(adapter@) {
                held.push(adapter@)
            } else {
                held
            });
        }
        if adapter.selected && !is_blank(adapter.mac.as_str()) {
            let start = if first {
                "MAC 地址（"
            } else {
                "           （"
            };
            let line = write_adapter_line(start, adapter.name.as_str(), adapter.mac.as_str());
            first = false;
            lines.push(line);
            assert(texts(lines@) == written.push(line@));
            assert(mac_entries(now) == mac_entries(held).push(line@));
            assert(texts(lines@) == before + mac_entries(now));
        }
    }
    assert(views.take(adapters@.len() as int) == views);
}

/// Adds the lines of the remark.
fn push_remark_lines(written: &mut Vec<String>, options: &WatermarkOptions)
    ensures
        texts(final(written)@) == texts(old(written)@) + remark_lines(options@),
{
    let ghost before = texts(written@);
    if is_blank(options.remark.as_str()) {
        assert(before + remark_lines(options@) == before);
        return;
    }
    let all = lines(options.remark.as_str());
    let ghost wanted = remark_lines(options@);
    assert(texts(written@) == before + wanted.take(0));
    for i in 0..all.len()
        invariant
            texts(all@) == lines_of(options@.remark),
            !blank(options@.remark),
            wanted == remark_lines(options@),
            texts(written@) == before + wanted.take(i as int),
    {
        let mut line = if i == 0 {
            "备注：    ".to_owned()
        } else {
            "          ".to_owned()
        };
        line.append(all[i].as_str());
        let ghost so_far = texts(written@);
        assert(texts(all@)[i as int] == all@[i as int]@);
        assert(line@ == wanted[i as int]);
        written.push(line);
        assert(texts(written@) == so_far.push(line@));
        assert(wanted.take(i + 1) == wanted.take(i as int).push(line@));
        assert(texts(written@) == before + wanted.take(i + 1));
    }
    assert(texts(all@).len() == all@.len());
    assert(wanted.take(all@.len() as int) == wanted);
}

/// Writes the lines of the watermark: the host's name, the addresses and the hardware addresses
/// of the adapters that are selected, and the remark, as far as the options show them.
pub fn build_watermark_lines(info: &NetworkInfo, options: &WatermarkOptions) -> (written: Vec<
    String,
>)
    ensures
        texts(written@) == watermark_lines(info@, options@),
{
    let mut written: Vec<String> = Vec::new();
    if options.show_hostname {
        let mut line = "计算机名：".to_owned();
        line.append(info.hostname.as_str());
        written.push(line);
    }
    assert(texts(written@) == hostname_lines(info@, options@));
    if options.show_ip {
        push_ip_lines(&mut written, &info.adapters);
    }
    assert(texts(written@) == hostname_lines(info@, options@) + ip_lines(info@, options@));
    if options.show_mac {
        push_mac_lines(&mut written, &info.adapters);
    }
    assert(texts(written@) == hostname_lines(info@, options@) + ip_lines(info@, options@)
        + mac_lines(info@, options@));
    push_remark_lines(&mut written, options);
    written
}

/// There is no line exactly where nothing is shown: neither the host's name, nor addresses or
/// hardware addresses that a selected adapter has, nor a remark that is not blank.
pub proof fn law_when_nothing_is_written(info: InfoView, options: OptionsView)
    ensures
        watermark_lines(info, options).len() == 0 <==> {
            &&& !options.show_hostname
            &&& options.show_ip ==> forall|i: int|
                0 <= i < info.adapters.len() && (#[trigger] info.adapters[i]).selected
                    ==> info.adapters[i].ips.len() == 0
            &&& options.show_mac ==> forall|i: int|
                0 <= i < info.adapters.len() && (#[trigger] info.adapters[i]).selected ==> blank(
                    info.adapters[i].mac,
                )
            &&& blank(options.remark)
        },
{
    lemma_filter_is_empty(
        info.adapters,
        |adapter: AdapterView| adapter.selected && adapter.ips.len() > 0,
    );
    lemma_filter_is_empty(
        info.adapters,
        |adapter: AdapterView| adapter.selected && !blank(adapter.mac),
    );
    law_some_text_has_a_line(options.remark);
}

/// Nothing is kept exactly where nothing is wanted.
proof fn lemma_filter_is_empty(adapters: Seq<AdapterView>, wanted: spec_fn(AdapterView) -> bool)
    ensures
        adapters.filter(wanted).len() == 0 <==> forall|i: int|
            0 <= i < adapters.len() ==> !wanted(#[trigger] adapters[i]),
    decreases adapters.len(),
{
    reveal(Seq::filter);
    if adapters.len() > 0 {
        let rest = adapters.drop_last();
        lemma_filter_is_empty(rest, wanted);
        assert(forall|i: int| 0 <= i < rest.len() ==> rest[i] == adapters[i]);
        if forall|i: int| 0 <= i < rest.len() ==> !wanted(#[trigger] rest[i]) {
            if !wanted(adapters.last()) {
                assert forall|i: int| 0 <= i < adapters.len() implies !wanted(
                    #[trigger] adapters[i],
                ) by {
                    if i < rest.len() {
                        assert(rest[i] == adapters[i]);
                    }
                }
            } else {
                assert(wanted(adapters[adapters.len() - 1]));
            }
        } else {
            let i = choose|i: int| 0 <= i < rest.len() && wanted(#[trigger] rest[i]);
            assert(wanted(adapters[i]));
        }
    }
}

/// An adapter that is not selected leaves no trace: without it the lines are the same.
pub proof fn law_unselected_adapters_are_not_shown(
    info: InfoView,
    options: OptionsView,
    before: Seq<AdapterView>,
    adapter: AdapterView,
    after: Seq<AdapterView>,
)
    requires
        info.adapters == before + seq![adapter] + after,
        !adapter.selected,
    ensures
        watermark_lines(info, options) == watermark_lines(
            InfoView { adapters: before + after, ..info },
            options,
        ),
{
    let wants_ips = |adapter: AdapterView| adapter.selected && adapter.ips.len() > 0;
    let wants_mac = |adapter: AdapterView| adapter.selected && !blank(adapter.mac);
    let one = seq![adapter];
    Seq::filter_distributes_over_add(before + one, after, wants_ips);
    Seq::filter_distributes_over_add(before, one, wants_ips);
    Seq::filter_distributes_over_add(before, after, wants_ips);
    Seq::filter_distributes_over_add(before + one, after, wants_mac);
    Seq::filter_distributes_over_add(before, one, wants_mac);
    Seq::filter_distributes_over_add(before, after, wants_mac);
    lemma_filter_is_empty(one, wants_ips);
    lemma_filter_is_empty(one, wants_mac);
    assert(before.filter(wants_ips) + one.filter(wants_ips) == before.filter(wants_ips));
    assert(before.filter(wants_mac) + one.filter(wants_mac) == before.filter(wants_mac));
}

/// What is kept of what was kept is what is kept at once, where the second choice is the stricter.
proof fn lemma_filter_twice(
    adapters: Seq<AdapterView>,
    first: spec_fn(AdapterView) -> bool,
    second: spec_fn(AdapterView) -> bool,
)
    requires
        forall|adapter: AdapterView| #[trigger] second(adapter) ==> first(adapter),
    ensures
        adapters.filter(first).filter(second) == adapters.filter(second),
    decreases adapters.len(),
{
    reveal(Seq::filter);
    if adapters.len() > 0 {
        let rest = adapters.drop_last();
        lemma_filter_twice(rest, first, second);
        if first(adapters.last()) {
            let kept = rest.filter(first).push(adapters.last());
            assert(kept.drop_last() == rest.filter(first));
            assert(kept.last() == adapters.last());
        }
    }
}

/// Only the selected adapters are shown: without all the others the lines are the same.
pub proof fn law_only_selected_adapters_are_shown(info: InfoView, options: OptionsView)
    ensures
        watermark_lines(info, options) == watermark_lines(
            InfoView {
                adapters: info.adapters.filter(|adapter: AdapterView| adapter.selected),
                ..info
            },
            options,
        ),
{
    let selected = |adapter: AdapterView| adapter.selected;
    lemma_filter_twice(
        info.adapters,
        selected,
        |adapter: AdapterView| adapter.selected && adapter.ips.len() > 0,
    );
    lemma_filter_twice(
        info.adapters,
        selected,
        |adapter: AdapterView| adapter.selected && !blank(adapter.mac),
    );
}

/// The options say what their fields say.
pub proof fn law_options_say_their_fields(options: WatermarkOptions)
    ensures
        options@.show_ip == options.show_ip,
        options@.show_mac == options.show_mac,
        options@.show_hostname == options.show_hostname,
        options@.remark == options.remark@,
{
}

/// Showing everything ticks each option, showing nothing ticks none, and neither has a remark.
pub proof fn law_everything_or_nothing_is_ticked()
    ensures
        all_shown().show_ip && all_shown().show_mac && all_shown().show_hostname,
        !nothing_shown().show_ip && !nothing_shown().show_mac && !nothing_shown().show_hostname,
        all_shown().remark.len() == 0 && nothing_shown().remark.len() == 0,
{
}

/// Each option governs its own lines and no others: the lines are those of the host's name alone,
/// of the addresses alone, of the hardware addresses alone and of the remark alone, in this order;
/// and without any there is none.
pub proof fn law_each_option_governs_its_own_lines(info: InfoView, options: OptionsView)
    ensures
        ({
            let none = OptionsView {
                show_ip: false,
                show_mac: false,
                show_hostname: false,
                remark: seq![],
            };
            let named = OptionsView { show_hostname: options.show_hostname, ..none };
            let addressed = OptionsView { show_ip: options.show_ip, ..none };
            let identified = OptionsView { show_mac: options.show_mac, ..none };
            let remarked = OptionsView { remark: options.remark, ..none };
            &&& watermark_lines(info, options) == watermark_lines(info, named) + watermark_lines(
                info,
                addressed,
            ) + watermark_lines(info, identified) + watermark_lines(info, remarked)
            &&& watermark_lines(info, none).len() == 0
        }),
{
    let none = OptionsView {
        show_ip: false,
        show_mac: false,
        show_hostname: false,
        remark: seq![],
    };
    let named = OptionsView { show_hostname: options.show_hostname, ..none };
    let addressed = OptionsView { show_ip: options.show_ip, ..none };
    let identified = OptionsView { show_mac: options.show_mac, ..none };
    let remarked = OptionsView { remark: options.remark, ..none };
    assert(blank(none.remark));
    assert(watermark_lines(info, named) == hostname_lines(info, options));
    assert(watermark_lines(info, addressed) == ip_lines(info, options));
    assert(watermark_lines(info, identified) == mac_lines(info, options));
    assert(watermark_lines(info, remarked) == remark_lines(options));
}

/// The host's name is one line, whatever is known of the adapters.
pub proof fn law_hostname_has_one_line(info: InfoView)
    ensures
        watermark_lines(
            info,
            OptionsView { show_ip: false, show_mac: false, show_hostname: true, remark: seq![] },
        ) == seq!["计算机名："@ + info.hostname],
{
    let options = OptionsView {
        show_ip: false,
        show_mac: false,
        show_hostname: true,
        remark: seq![],
    };
    assert(blank(options.remark));
    assert(watermark_lines(info, options) == hostname_lines(info, options));
}

/// One more adapter has one more line with its addresses, two spaces apart, if it is selected and
/// has any, and changes no other line; the first line has the heading. Without adapters there is
/// no line.
pub proof fn law_addresses_have_a_line_for_each_adapter(info: InfoView, adapter: AdapterView)
    ensures
        ({
            let options = OptionsView {
                show_ip: true,
                show_mac: false,
                show_hostname: false,
                remark: seq![],
            };
            let lines = watermark_lines(info, options);
            let more = InfoView { adapters: info.adapters.push(adapter), ..info };
            &&& watermark_lines(more, options) == if adapter.selected && adapter.ips.len() > 0 {
                lines.push(
                    (if lines.len() == 0 {
                        "IP 地址（"@
                    } else {
                        "          （"@
                    }) + adapter.name + "）："@ + joined(adapter.ips, "  "@),
                )
            } else {
                lines
            }
            &&& info.adapters.len() == 0 ==> lines.len() == 0
        }),
{
    let options = OptionsView {
        show_ip: true,
        show_mac: false,
        show_hostname: false,
        remark: seq![],
    };
    let more = InfoView { adapters: info.adapters.push(adapter), ..info };
    reveal(Seq::filter);
    assert(blank(options.remark));
    assert(watermark_lines(info, options) == ip_entries(with_ips(info.adapters)));
    assert(watermark_lines(more, options) == ip_entries(with_ips(more.adapters)));
    assert(more.adapters.drop_last() == info.adapters);
    assert(more.adapters.last() == adapter);
}

/// One more adapter has one more line with its hardware address, if it is selected and that is not
/// blank, and changes no other line; the first line has the heading. Without adapters there is no
/// line.
pub proof fn law_hardware_addresses_have_a_line_for_each_adapter(
    info: InfoView,
    adapter: AdapterView,
)
    ensures
        ({
            let options = OptionsView {
                show_ip: false,
                show_mac: true,
                show_hostname: false,
                remark: seq![],
            };
            let lines = watermark_lines(info, options);
            let more = InfoView { adapters: info.adapters.push(adapter), ..info };
            &&& watermark_lines(more, options) == if adapter.selected && !blank(adapter.mac) {
                lines.push(
                    (if lines.len() == 0 {
                        "MAC 地址（"@
                    } else {
                        "           （"@
                    }) + adapter.name + "）："@ + adapter.mac,
                )
            } else {
                lines
            }
            &&& info.adapters.len() == 0 ==> lines.len() == 0
        }),
{
    let options = OptionsView {
        show_ip: false,
        show_mac: true,
        show_hostname: false,
        remark: seq![],
    };
    let more = InfoView { adapters: info.adapters.push(adapter), ..info };
    reveal(Seq::filter);
    assert(blank(options.remark));
    assert(watermark_lines(info, options) == mac_entries(with_mac(info.adapters)));
    assert(watermark_lines(more, options) == mac_entries(with_mac(more.adapters)));
    assert(more.adapters.drop_last() == info.adapters);
    assert(more.adapters.last() == adapter);
}

/// A remark has a line for each of its own, the first with the heading and the others set in as
/// far; a blank remark has none.
pub proof fn law_remark_is_written_line_by_line(info: InfoView, remark: Seq<char>)
    ensures
        ({
            let lines = watermark_lines(
                info,
                OptionsView { show_ip: false, show_mac: false, show_hostname: false, remark },
            );
            if blank(remark) {
                lines.len() == 0
            } else {
                &&& lines.len() == lines_of(remark).len()
                &&& forall|i: int|
                    0 <= i < lines.len() ==> #[trigger] lines[i] == (if i == 0 {
                        "备注：    "@
                    } else {
                        "          "@
                    }) + lines_of(remark)[i]
            }
        }),
{
    let options = OptionsView { show_ip: false, show_mac: false, show_hostname: false, remark };
    assert(watermark_lines(info, options) == remark_lines(options));
}

/// Whatever else is shown, each selected adapter has the lines that are ticked: one with all its
/// addresses if it has any, and one with its hardware address if that is not blank.
pub proof fn law_every_selected_adapter_is_shown(info: InfoView, options: OptionsView, i: int)
    requires
        0 <= i < info.adapters.len(),
        info.adapters[i].selected,
    ensures
        ({
            let adapter = info.adapters[i];
            let lines = watermark_lines(info, options);
            let addresses = adapter.name + "）："@ + joined(adapter.ips, "  "@);
            let hardware = adapter.name + "）："@ + adapter.mac;
            &&& options.show_ip && adapter.ips.len() > 0 ==> lines.contains(
                "IP 地址（"@ + addresses,
            ) || lines.contains("          （"@ + addresses)
            &&& options.show_mac && !blank(adapter.mac) ==> lines.contains(
                "MAC 地址（"@ + hardware,
            ) || lines.contains("           （"@ + hardware)
            &&& options.show_hostname ==> lines.contains("计算机名："@ + info.hostname)
        }),
{
    broadcast use vstd::seq_lib::group_filter_ensures;

    let adapter = info.adapters[i];
    let lines = watermark_lines(info, options);
    let heads = hostname_lines(info, options);
    let middle = ip_lines(info, options);
    let addresses = adapter.name + "）："@ + joined(adapter.ips, "  "@);
    let hardware = adapter.name + "）："@ + adapter.mac;
    if options.show_hostname {
        assert(lines[0] == "计算机名："@ + info.hostname);
    }
    if options.show_ip && adapter.ips.len() > 0 {
        let shown = with_ips(info.adapters);
        let wanted = |adapter: AdapterView| adapter.selected && adapter.ips.len() > 0;
        assert(wanted(info.adapters[i]));
        assert(shown.contains(adapter));
        let j = choose|j: int| 0 <= j < shown.len() && shown[j] == adapter;
        let line = lines[heads.len() + j];
        assert(line == ip_entries(shown)[j]);
        assert(line == "IP 地址（"@ + addresses || line == "          （"@ + addresses);
        assert(lines.contains(line));
    }
    if options.show_mac && !blank(adapter.mac) {
        let shown = with_mac(info.adapters);
        let wanted = |adapter: AdapterView| adapter.selected && !blank(adapter.mac);
        assert(wanted(info.adapters[i]));
        assert(shown.contains(adapter));
        let j = choose|j: int| 0 <= j < shown.len() && shown[j] == adapter;
        let line = lines[heads.len() + middle.len() + j];
        assert(line == mac_entries(shown)[j]);
        assert(line == "MAC 地址（"@ + hardware || line == "           （"@ + hardware);
        assert(lines.contains(line));
    }
}

} // verus!
