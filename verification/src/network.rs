//! Network adapters: what the system reports of them, and what is kept for the watermark.

use vstd::prelude::*;

use crate::ipv4::{ipv4_text, is_ipv4};
use crate::order::{
    ascending, ascending_members, before, in_key_order, key_order, law_ascending_members,
    law_ascending_members_are_unique, law_key_order, lemma_antisymmetric, lemma_one_arrangement,
    order_of_keys, place_before, places_view, sort_unique,
};
use crate::text::{blank, is_blank, join, joined, lowercase, texts, to_lowercase, trim, trimmed};

verus! {

/// A network adapter, which may have several addresses.
pub struct NetAdapter {
    /// The name that is shown, such as "Ethernet", "Wi-Fi" or "VMware VMnet8".
    pub name: String,
    /// The hardware address.
    pub mac: String,
    /// The IPv4 addresses.
    pub ips: Vec<String>,
    /// Whether the watermark shows the adapter.
    pub selected: bool,
}

/// What a `NetAdapter` says.
pub struct AdapterView {
    pub name: Seq<char>,
    pub mac: Seq<char>,
    pub ips: Seq<Seq<char>>,
    pub selected: bool,
}

impl View for NetAdapter {
    type V = AdapterView;

    open spec fn view(&self) -> AdapterView {
        AdapterView {
            name: self.name@,
            mac: self.mac@,
            ips: texts(self.ips@),
            selected: self.selected,
        }
    }
}

/// What each of the adapters says.
pub open spec fn adapter_views(adapters: Seq<NetAdapter>) -> Seq<AdapterView> {
    Seq::new(adapters.len(), |i: int| adapters[i]@)
}

impl NetAdapter {
    /// The addresses in one line, two spaces apart.
    pub fn ips_line(&self) -> (line: String)
        ensures
            line@ == joined(self@.ips, "  "@),
    {
        join(&self.ips, "  ")
    }
}

impl Clone for NetAdapter {
    fn clone(&self) -> (copy: Self)
        ensures
            copy@ == self@,
    {
        let ips = copy_strings(&self.ips);
        NetAdapter {
            name: self.name.clone(),
            mac: self.mac.clone(),
            ips,
            selected: self.selected,
        }
    }
}

/// Copies the strings.
fn copy_strings(strings: &Vec<String>) -> (copy: Vec<String>)
    ensures
        texts(copy@) == texts(strings@),
{
    let mut copy: Vec<String> = Vec::new();
    for i in 0..strings.len()
        invariant
            copy@.len() == i,
            forall|j: int| 0 <= j < i ==> (#[trigger] copy@[j])@ == strings@[j]@,
    {
        copy.push(strings[i].clone());
    }
    assert(texts(copy@) == texts(strings@));
    copy
}

/// Copies the adapters.
fn copy_adapters(adapters: &Vec<NetAdapter>) -> (copy: Vec<NetAdapter>)
    ensures
        adapter_views(copy@) == adapter_views(adapters@),
{
    let mut copy: Vec<NetAdapter> = Vec::new();
    for i in 0..adapters.len()
        invariant
            copy@.len() == i,
            forall|j: int| 0 <= j < i ==> (#[trigger] copy@[j])@ == adapters@[j]@,
    {
        copy.push(adapters[i].clone());
    }
    assert(adapter_views(copy@) == adapter_views(adapters@));
    copy
}

/// The machine's network identity.
pub struct NetworkInfo {
    pub hostname: String,
    pub adapters: Vec<NetAdapter>,
    /// The directory of the user's profile.
    pub user_path: String,
}

/// What a `NetworkInfo` says.
pub struct InfoView {
    pub hostname: Seq<char>,
    pub adapters: Seq<AdapterView>,
    pub user_path: Seq<char>,
}

impl View for NetworkInfo {
    type V = InfoView;

    open spec fn view(&self) -> InfoView {
        InfoView {
            hostname: self.hostname@,
            adapters: adapter_views(self.adapters@),
            user_path: self.user_path@,
        }
    }
}

impl Clone for NetworkInfo {
    fn clone(&self) -> (copy: Self)
        ensures
            copy@ == self@,
    {
        let adapters = copy_adapters(&self.adapters);
        NetworkInfo {
            hostname: self.hostname.clone(),
            adapters,
            user_path: self.user_path.clone(),
        }
    }
}

/// What the system reports of one adapter; it may leave out any of it.
pub struct AdapterConfig {
    pub mac_address: Option<String>,
    pub ip_enabled: Option<bool>,
    pub ip_address: Option<Vec<String>>,
    pub description: Option<String>,
}

/// What an `AdapterConfig` says.
pub struct ConfigView {
    pub mac_address: Option<Seq<char>>,
    pub ip_enabled: Option<bool>,
    pub ip_address: Option<Seq<Seq<char>>>,
    pub description: Option<Seq<char>>,
}

/// What the string says, if there is one.
pub open spec fn text_option(text: Option<String>) -> Option<Seq<char>> {
    match text {
        Some(text) => Some(text@),
        None => None,
    }
}

impl View for AdapterConfig {
    type V = ConfigView;

    open spec fn view(&self) -> ConfigView {
        ConfigView {
            mac_address: text_option(self.mac_address),
            ip_enabled: self.ip_enabled,
            ip_address: match self.ip_address {
                Some(list) => Some(texts(list@)),
                None => None,
            },
            description: text_option(self.description),
        }
    }
}

/// What each of the reports says.
pub open spec fn config_views(configs: Seq<AdapterConfig>) -> Seq<ConfigView> {
    Seq::new(configs.len(), |i: int| configs[i]@)
}

/// The reported addresses that are IPv4 addresses once they are trimmed.
pub open spec fn ipv4_addresses(reported: Option<Seq<Seq<char>>>) -> Seq<Seq<char>> {
    match reported {
        Some(list) => list.map_values(|text: Seq<char>| trimmed(text)).filter(
            |text: Seq<char>| ipv4_text(text),
        ),
        None => seq![],
    }
}

/// The adapter that a report describes. There is none where IP is not enabled, where the
/// hardware address is missing or blank, and where there is no IPv4 address. The addresses are
/// listed once each, in ascending order.
pub open spec fn adapter_of(config: ConfigView) -> Option<AdapterView> {
    let ips = ipv4_addresses(config.ip_address);
    if config.ip_enabled == Some(true) && config.mac_address is Some && !blank(
        config.mac_address->0,
    ) && ips.len() > 0 {
        Some(
            AdapterView {
                name: match config.description {
                    Some(name) => name,
                    None => "未知网络接口"@,
                },
                mac: config.mac_address->0,
                ips: ascending_members(ips),
                selected: false,
            },
        )
    } else {
        None
    }
}

/// The keys by which adapters are ordered: their names in lower case.
pub open spec fn name_keys(adapters: Seq<AdapterView>) -> Seq<Seq<char>> {
    Seq::new(adapters.len(), |i: int| lowercase(adapters[i].name))
}

/// The adapters ordered by name, in lower case; adapters whose names agree keep their order.
pub open spec fn by_name(adapters: Seq<AdapterView>) -> Seq<AdapterView> {
    Seq::new(adapters.len(), |i: int| adapters[key_order(name_keys(adapters))[i]])
}

/// The adapters with the first one selected and no other.
pub open spec fn first_selected(adapters: Seq<AdapterView>) -> Seq<AdapterView> {
    Seq::new(adapters.len(), |i: int| AdapterView { selected: i == 0, ..adapters[i] })
}

/// The adapters with every one selected.
pub open spec fn all_selected(adapters: Seq<AdapterView>) -> Seq<AdapterView> {
    Seq::new(adapters.len(), |i: int| AdapterView { selected: true, ..adapters[i] })
}

/// The adapters that the reports describe, ordered by name, with the first one selected.
pub open spec fn adapters_of(configs: Seq<ConfigView>) -> Seq<AdapterView> {
    first_selected(by_name(configs.filter_map(|config: ConfigView| adapter_of(config))))
}

/// Keeps the IPv4 addresses of a reported list, trimmed.
fn keep_ipv4(list: &Vec<String>) -> (ips: Vec<String>)
    ensures
        texts(ips@) == ipv4_addresses(Some(texts(list@))),
{
    let mut ips: Vec<String> = Vec::new();
    let ghost reported = texts(list@);
    let ghost trimmed_list = reported.map_values(|text: Seq<char>| trimmed(text));
    let ghost wanted = |text: Seq<char>| ipv4_text(text);
    proof {
        reveal(Seq::filter);
        assert(texts(ips@) == trimmed_list.take(0).filter(wanted));
    }
    for i in 0..list.len()
        invariant
            reported == texts(list@),
            trimmed_list == reported.map_values(|text: Seq<char>| trimmed(text)),
            wanted == (|text: Seq<char>| ipv4_text(text)),
            texts(ips@) == trimmed_list.take(i as int).filter(wanted),
    {
        let ip = trim(list[i].as_str());
        let ghost kept = texts(ips@);
        proof {
            reveal(Seq::filter);
            assert(trimmed_list.take(i + 1).drop_last() == trimmed_list.take(i as int));
            assert(trimmed_list.take(i + 1).last() == ip@);
        }
        if is_ipv4(ip.as_str()) {
            ips.push(ip);
            assert(texts(ips@) == kept.push(ip@));
        }
    }
    assert(trimmed_list.take(list@.len() as int) == trimmed_list);
    ips
}

/// Makes the adapter that a report describes, if it describes one.
pub fn adapter_from(config: &AdapterConfig) -> (adapter: Option<NetAdapter>)
    ensures
        match adapter {
            Some(adapter) => adapter_of(config@) == Some(adapter@),
            None => adapter_of(config@) is None,
        },
{
    if !config.ip_enabled.unwrap_or(false) {
        return None;
    }
    let mac = match &config.mac_address {
        Some(mac) => mac.clone(),
        None => {
            return None;
        },
    };
    if is_blank(mac.as_str()) {
        return None;
    }
    let ips: Vec<String> = match &config.ip_address {
        Some(list) => keep_ipv4(list),
        None => Vec::new(),
    };
    assert(texts(ips@) == ipv4_addresses(config@.ip_address));
    if ips.len() == 0 {
        return None;
    }
    let name = match &config.description {
        Some(name) => name.clone(),
        None => "未知网络接口".to_owned(),
    };
    Some(NetAdapter { name, mac, ips: sort_unique(ips), selected: false })
}

/// Selects the first adapter and no other.
pub fn select_first(adapters: &mut Vec<NetAdapter>)
    ensures
        adapter_views(final(adapters)@) == first_selected(adapter_views(old(adapters)@)),
{
    let ghost before = adapters@;
    let mut i: usize = 0;
    while i < adapters.len()
        invariant
            i <= adapters@.len() == before.len(),
            forall|j: int|
                0 <= j < i ==> (#[trigger] adapters@[j])@ == (AdapterView {
                    selected: j == 0,
                    ..before[j]@
                }),
            forall|j: int| i <= j < before.len() ==> #[trigger] adapters@[j] == before[j],
        decreases adapters@.len() - i,
    {
        adapters[i].selected = i == 0;
        i += 1;
    }
    assert(adapter_views(adapters@) == first_selected(adapter_views(before)));
}

/// Selects every adapter.
pub fn select_all(adapters: &mut Vec<NetAdapter>)
    ensures
        adapter_views(final(adapters)@) == all_selected(adapter_views(old(adapters)@)),
{
    let ghost before = adapters@;
    let mut i: usize = 0;
    while i < adapters.len()
        invariant
            i <= adapters@.len() == before.len(),
            forall|j: int|
                0 <= j < i ==> (#[trigger] adapters@[j])@ == (AdapterView {
                    selected: true,
                    ..before[j]@
                }),
            forall|j: int| i <= j < before.len() ==> #[trigger] adapters@[j] == before[j],
        decreases adapters@.len() - i,
    {
        adapters[i].selected = true;
        i += 1;
    }
    assert(adapter_views(adapters@) == all_selected(adapter_views(before)));
}

/// Orders the adapters by their names in lower case.
fn sort_by_name(adapters: &Vec<NetAdapter>) -> (sorted: Vec<NetAdapter>)
    ensures
        adapter_views(sorted@) == by_name(adapter_views(adapters@)),
{
    let mut keys: Vec<String> = Vec::new();
    let ghost views = adapter_views(adapters@);
    for i in 0..adapters.len()
        invariant
            keys@.len() == i,
            views == adapter_views(adapters@),
            forall|j: int| 0 <= j < i ==> (#[trigger] keys@[j])@ == lowercase(views[j].name),
    {
        keys.push(to_lowercase(adapters[i].name.as_str()));
    }
    assert(texts(keys@) == name_keys(views));
    let places = order_of_keys(&keys);
    let ghost order = places_view(places@);
    let mut sorted: Vec<NetAdapter> = Vec::new();
    for i in 0..places.len()
        invariant
            sorted@.len() == i,
            views == adapter_views(adapters@),
            order == places_view(places@),
            order.len() == adapters@.len(),
            forall|p: int| #[trigger] order.contains(p) <==> 0 <= p < adapters@.len(),
            forall|j: int| 0 <= j < i ==> (#[trigger] sorted@[j])@ == views[order[j]],
    {
        assert(order.contains(order[i as int]));
        sorted.push(adapters[places[i]].clone());
    }
    assert(adapter_views(sorted@) == by_name(views));
    sorted
}

/// Makes the adapters that the reports describe, ordered by name, with the first one selected.
pub fn collect_adapters(configs: &Vec<AdapterConfig>) -> (adapters: Vec<NetAdapter>)
    ensures
        adapter_views(adapters@) == adapters_of(config_views(configs@)),
{
    let mut found: Vec<NetAdapter> = Vec::new();
    let ghost views = config_views(configs@);
    let ghost describe = |config: ConfigView| adapter_of(config);
    for i in 0..configs.len()
        invariant
            views == config_views(configs@),
            describe == (|config: ConfigView| adapter_of(config)),
            adapter_views(found@) == views.take(i as int).filter_map(describe),
    {
        let ghost kept = adapter_views(found@);
        proof {
            assert(views.take(i + 1).drop_last() == views.take(i as int));
            assert(views.take(i + 1).last() == configs@[i as int]@);
        }
        match adapter_from(&configs[i]) {
            Some(adapter) => {
                found.push(adapter);
                assert(adapter_views(found@) == kept + seq![adapter@]);
            },
            None => {},
        }
    }
    assert(views.take(configs@.len() as int) == views);
    let mut adapters = sort_by_name(&found);
    select_first(&mut adapters);
    adapters
}

/// The directory that stands in for a user's profile that is not known.
pub open spec fn default_user_path() -> Seq<char> {
    r"C:\"@
}

/// The text, or `other` where there is none.
pub open spec fn text_or(text: Option<Seq<char>>, other: Seq<char>) -> Seq<char> {
    match text {
        Some(text) => text,
        None => other,
    }
}

/// The number of times that the system is asked for its adapters before giving up.
pub const ATTEMPTS: u32 = 3;

/// How long to wait between two attempts.
pub const RETRY_MILLISECONDS: u64 = 500;

/// A query for the adapters that is under way: the system is asked again where it fails.
pub struct NetworkQuery {
    failures: u32,
    user_path: String,
    hostname: String,
}

/// What a `NetworkQuery` says.
pub struct QueryView {
    /// The number of attempts that failed.
    pub failures: nat,
    pub user_path: Seq<char>,
    pub hostname: Seq<char>,
}

impl View for NetworkQuery {
    type V = QueryView;

    closed spec fn view(&self) -> QueryView {
        QueryView {
            failures: self.failures as nat,
            user_path: self.user_path@,
            hostname: self.hostname@,
        }
    }
}

/// What to do after an attempt.
pub enum QueryStep {
    /// Wait so long, then ask again.
    Retry { query: NetworkQuery, milliseconds: u64 },
    /// The system answered.
    Found(NetworkInfo),
    /// No attempt is left; the message says why the last one failed.
    Failed(String),
}

/// What a `QueryStep` says.
pub enum QueryStepView {
    Retry { query: QueryView, milliseconds: u64 },
    Found(InfoView),
    Failed(Seq<char>),
}

impl View for QueryStep {
    type V = QueryStepView;

    open spec fn view(&self) -> QueryStepView {
        match self {
            QueryStep::Retry { query, milliseconds } => QueryStepView::Retry {
                query: query@,
                milliseconds: *milliseconds,
            },
            QueryStep::Found(info) => QueryStepView::Found(info@),
            QueryStep::Failed(message) => QueryStepView::Failed(message@),
        }
    }
}

/// What an attempt gave: the reports, or why there are none.
pub open spec fn outcome_view(outcome: Result<Vec<AdapterConfig>, String>) -> Result<
    Seq<ConfigView>,
    Seq<char>,
> {
    match outcome {
        Ok(configs) => Ok(config_views(configs@)),
        Err(error) => Err(error@),
    }
}

/// A query that was not asked yet. `user_path` and `hostname` are what the environment says.
pub open spec fn new_query(user_path: Option<Seq<char>>, hostname: Option<Seq<char>>) -> QueryView {
    QueryView {
        failures: 0,
        user_path: text_or(user_path, default_user_path()),
        hostname: text_or(hostname, "Unknown"@),
    }
}

/// What to do after an attempt: the first answer is taken, a failure is followed by another
/// attempt, and the failure of the last attempt is reported.
pub open spec fn query_step(
    query: QueryView,
    outcome: Result<Seq<ConfigView>, Seq<char>>,
) -> QueryStepView {
    match outcome {
        Ok(configs) => QueryStepView::Found(
            InfoView {
                hostname: query.hostname,
                adapters: adapters_of(configs),
                user_path: query.user_path,
            },
        ),
        Err(error) => if query.failures + 1 < ATTEMPTS {
            QueryStepView::Retry {
                query: QueryView { failures: query.failures + 1, ..query },
                milliseconds: RETRY_MILLISECONDS,
            }
        } else {
            QueryStepView::Failed("WMI 查询网络接口失败，已重试 3 次："@ + error)
        },
    }
}

impl NetworkQuery {
    #[verifier::type_invariant]
    spec fn attempts_left(self) -> bool {
        self.failures < ATTEMPTS
    }

    /// Starts a query, with what the environment says of the user's profile and the machine.
    pub fn new(user_path: Option<String>, hostname: Option<String>) -> (query: Self)
        ensures
            query@ == new_query(text_option(user_path), text_option(hostname)),
    {
        NetworkQuery {
            failures: 0,
            user_path: match user_path {
                Some(path) => path,
                None => r"C:\".to_owned(),
            },
            hostname: match hostname {
                Some(name) => name,
                None => "Unknown".to_owned(),
            },
        }
    }

    /// Takes what an attempt gave, and says what to do.
    pub fn answer(self, outcome: Result<Vec<AdapterConfig>, String>) -> (step: QueryStep)
        ensures
            step@ == query_step(self@, outcome_view(outcome)),
    {
        proof {
            use_type_invariant(&self);
        }
        match outcome {
            Ok(configs) => QueryStep::Found(
                NetworkInfo {
                    hostname: self.hostname,
                    adapters: collect_adapters(&configs),
                    user_path: self.user_path,
                },
            ),
            Err(error) => {
                if self.failures + 1 < ATTEMPTS {
                    QueryStep::Retry {
                        query: NetworkQuery {
                            failures: self.failures + 1,
                            user_path: self.user_path,
                            hostname: self.hostname,
                        },
                        milliseconds: RETRY_MILLISECONDS,
                    }
                } else {
                    let mut message = "WMI 查询网络接口失败，已重试 3 次：".to_owned();
                    message.append(error.as_str());
                    QueryStep::Failed(message)
                }
            },
        }
    }
}

/// What is known of the network where the system could not be asked: no adapters, and of the
/// rest what the environment says.
pub open spec fn unknown_network(
    user_path: Option<Seq<char>>,
    hostname: Option<Seq<char>>,
) -> InfoView {
    InfoView {
        hostname: text_or(hostname, seq![]),
        adapters: seq![],
        user_path: text_or(user_path, seq![]),
    }
}

/// What the tool starts with: what was found, or else what the environment says; and where that
/// names no user's profile, the environment's again or the default.
pub open spec fn network_at_start(
    found: Option<InfoView>,
    user_path: Option<Seq<char>>,
    hostname: Option<Seq<char>>,
) -> InfoView {
    let info = match found {
        Some(info) => info,
        None => unknown_network(user_path, hostname),
    };
    if info.user_path.len() == 0 {
        InfoView { user_path: text_or(user_path, default_user_path()), ..info }
    } else {
        info
    }
}

/// What the network information says, if there is any.
pub open spec fn info_option(info: Option<NetworkInfo>) -> Option<InfoView> {
    match info {
        Some(info) => Some(info@),
        None => None,
    }
}

/// Makes what the tool starts with, from what was found and from the environment.
pub fn start_info(
    found: Option<NetworkInfo>,
    user_path: &Option<String>,
    hostname: &Option<String>,
) -> (info: NetworkInfo)
    ensures
        info@ == network_at_start(
            info_option(found),
            text_option(*user_path),
            text_option(*hostname),
        ),
{
    let mut info = match found {
        Some(info) => info,
        None => {
            let adapters: Vec<NetAdapter> = Vec::new();
            assert(adapter_views(adapters@) == Seq::<AdapterView>::empty());
            NetworkInfo {
                hostname: match hostname {
                    Some(name) => name.clone(),
                    None => String::new(),
                },
                adapters,
                user_path: match user_path {
                    Some(path) => path.clone(),
                    None => String::new(),
                },
            }
        },
    };
    if info.user_path.as_str().is_empty() {
        info.user_path = match user_path {
            Some(path) => path.clone(),
            None => r"C:\".to_owned(),
        };
    }
    info
}

/// An adapter as it is listed: it has a hardware address and IPv4 addresses, each once and in
/// ascending order.
pub open spec fn listable(adapter: AdapterView) -> bool {
    &&& !blank(adapter.mac)
    &&& adapter.ips.len() > 0
    &&& ascending(adapter.ips)
    &&& forall|i: int| 0 <= i < adapter.ips.len() ==> ipv4_text(#[trigger] adapter.ips[i])
}

/// Every adapter that a report describes can be listed.
pub proof fn law_described_adapter_is_listable(config: ConfigView)
    requires
        adapter_of(config) is Some,
    ensures
        listable(adapter_of(config)->0),
{
    broadcast use vstd::seq_lib::group_filter_ensures;

    let ips = ipv4_addresses(config.ip_address);
    let members = ascending_members(ips);
    law_ascending_members(ips);
    assert(ips.contains(ips[0]));
    assert(members.contains(ips[0]));
    assert forall|i: int| 0 <= i < members.len() implies ipv4_text(#[trigger] members[i]) by {
        assert(members.contains(members[i]));
        assert(ips.contains(members[i]));
        let j = choose|j: int| 0 <= j < ips.len() && ips[j] == members[i];
        let list = config.ip_address->0.map_values(|text: Seq<char>| trimmed(text));
        let wanted = |text: Seq<char>| ipv4_text(text);
        assert(wanted(list.filter(wanted)[j]));
    }
}

/// The list holds the adapters that the reports describe and no other, each as often as it is
/// described; every one can be listed; exactly the first is selected.
pub proof fn law_list_holds_described_adapters(configs: Seq<ConfigView>)
    ensures
        ({
            let found = configs.filter_map(|config: ConfigView| adapter_of(config));
            let listed = adapters_of(configs);
            &&& listed.len() == found.len()
            &&& forall|i: int|
                0 <= i < listed.len() ==> listable(#[trigger] listed[i]) && listed[i].selected == (i
                    == 0)
            &&& exists|places: Seq<int>| #[trigger]
                in_key_order(name_keys(found), places) && forall|i: int|
                    0 <= i < listed.len() ==> (#[trigger] listed[i]) == (AdapterView {
                        selected: i == 0,
                        ..found[places[i]]
                    })
        }),
{
    let describe = |config: ConfigView| adapter_of(config);
    let found = configs.filter_map(describe);
    let listed = adapters_of(configs);
    let places = key_order(name_keys(found));
    law_key_order(name_keys(found));
    assert forall|i: int| 0 <= i < listed.len() implies listable(#[trigger] listed[i]) by {
        assert(places.contains(places[i]));
        let adapter = found[places[i]];
        assert(found.contains(adapter));
        configs.lemma_filter_map_contains(describe, adapter);
        let config = choose|config: ConfigView| #[trigger]
            configs.contains(config) && describe(config) == Some(adapter);
        law_described_adapter_is_listable(config);
    }
    assert(in_key_order(name_keys(found), places));
}

/// The list is ordered by name, regardless of case.
pub proof fn law_list_is_ordered_by_name(configs: Seq<ConfigView>, i: int, j: int)
    requires
        0 <= i < j < adapters_of(configs).len(),
    ensures
        crate::order::not_after(
            lowercase(adapters_of(configs)[i].name),
            lowercase(adapters_of(configs)[j].name),
        ),
{
    let found = configs.filter_map(|config: ConfigView| adapter_of(config));
    let keys = name_keys(found);
    let places = key_order(keys);
    law_key_order(keys);
    assert(places.contains(places[i]) && places.contains(places[j]));
    assert(place_before(keys, places[i], places[j]));
    crate::order::lemma_reflexive(keys[places[i]]);
}

/// Two reports say the same of an adapter, but for the order in which they list its addresses and
/// how often.
pub open spec fn same_report(left: ConfigView, right: ConfigView) -> bool {
    &&& left.mac_address == right.mac_address
    &&& left.ip_enabled == right.ip_enabled
    &&& left.description == right.description
    &&& match (left.ip_address, right.ip_address) {
        (Some(l), Some(r)) => forall|text: Seq<char>| l.contains(text) <==> #[trigger] r.contains(
            text,
        ),
        (None, None) => true,
        _ => false,
    }
}

/// No two adapters that the reports describe have the same name, regardless of case.
pub open spec fn distinct_names(configs: Seq<ConfigView>) -> bool {
    forall|i: int, j: int|
        #![trigger configs[i], configs[j]]
        0 <= i < j < configs.len() && adapter_of(configs[i]) is Some && adapter_of(configs[j]) is Some
            ==> lowercase(adapter_of(configs[i])->0.name) != lowercase(
            adapter_of(configs[j])->0.name,
        )
}

/// `right` holds the reports of `left` in another order: each stands at the place that `places`
/// gives, and lists its addresses in any order and any number of times.
pub open spec fn rearranged(
    left: Seq<ConfigView>,
    right: Seq<ConfigView>,
    places: Seq<int>,
) -> bool {
    &&& left.len() == right.len() == places.len()
    &&& forall|p: int| 0 <= p < left.len() ==> #[trigger] places.contains(p)
    &&& forall|i: int| 0 <= i < places.len() ==> 0 <= #[trigger] places[i] < left.len()
    &&& forall|i: int, j: int|
        0 <= i < j < places.len() ==> #[trigger] places[i] != #[trigger] places[j]
    &&& forall|i: int|
        0 <= i < right.len() ==> same_report(left[#[trigger] places[i]], right[i])
}

/// The IPv4 addresses are those of the reported addresses that are some once they are trimmed.
proof fn lemma_ipv4_addresses(list: Seq<Seq<char>>, ip: Seq<char>)
    ensures
        ipv4_addresses(Some(list)).contains(ip) <==> ipv4_text(ip) && exists|i: int|
            0 <= i < list.len() && trimmed(#[trigger] list[i]) == ip,
{
    broadcast use vstd::seq_lib::group_filter_ensures;

    let all = list.map_values(|text: Seq<char>| trimmed(text));
    let wanted = |text: Seq<char>| ipv4_text(text);
    let kept = all.filter(wanted);
    if kept.contains(ip) {
        let j = choose|j: int| 0 <= j < kept.len() && kept[j] == ip;
        assert(wanted(kept[j]));
        all.lemma_filter_contains_rev(wanted, ip);
        let i = choose|i: int| 0 <= i < all.len() && all[i] == ip;
        assert(trimmed(list[i]) == ip);
    }
    if ipv4_text(ip) && exists|i: int| 0 <= i < list.len() && trimmed(#[trigger] list[i]) == ip {
        let i = choose|i: int| 0 <= i < list.len() && trimmed(#[trigger] list[i]) == ip;
        assert(all[i] == ip);
        assert(wanted(all[i]));
        assert(kept.contains(all[i]));
    }
}

/// The order in which a report lists the addresses, and how often, does not matter.
pub proof fn law_order_of_addresses_does_not_matter(left: ConfigView, right: ConfigView)
    requires
        same_report(left, right),
    ensures
        adapter_of(left) == adapter_of(right),
{
    if let (Some(l), Some(r)) = (left.ip_address, right.ip_address) {
        let a = ipv4_addresses(Some(l));
        let b = ipv4_addresses(Some(r));
        assert forall|ip: Seq<char>| a.contains(ip) <==> #[trigger] b.contains(ip) by {
            lemma_ipv4_addresses(l, ip);
            lemma_ipv4_addresses(r, ip);
            if a.contains(ip) {
                let i = choose|i: int| 0 <= i < l.len() && trimmed(#[trigger] l[i]) == ip;
                assert(l.contains(l[i]));
                assert(r.contains(l[i]));
                let j = choose|j: int| 0 <= j < r.len() && r[j] == l[i];
                assert(trimmed(r[j]) == ip);
            }
            if b.contains(ip) {
                let i = choose|i: int| 0 <= i < r.len() && trimmed(#[trigger] r[i]) == ip;
                assert(r.contains(r[i]));
                assert(l.contains(r[i]));
                let j = choose|j: int| 0 <= j < l.len() && l[j] == r[i];
                assert(trimmed(l[j]) == ip);
            }
        }
        if a.len() > 0 {
            assert(a.contains(a[0]));
            assert(b.contains(a[0]));
        }
        if b.len() > 0 {
            assert(b.contains(b[0]));
            assert(a.contains(b[0]));
        }
        law_ascending_members(a);
        assert forall|ip: Seq<char>| ascending_members(a).contains(ip) <==> #[trigger] b.contains(
            ip,
        ) by {
            assert(ascending_members(a).contains(ip) <==> a.contains(ip));
        }
        law_ascending_members_are_unique(b, ascending_members(a));
    }
}

/// The adapters that the reports describe, before they are ordered.
spec fn described(configs: Seq<ConfigView>) -> Seq<AdapterView> {
    configs.filter_map(|config: ConfigView| adapter_of(config))
}

/// What the reports describe is found, and nothing else.
proof fn lemma_described(configs: Seq<ConfigView>, adapter: AdapterView)
    ensures
        described(configs).contains(adapter) <==> exists|i: int|
            0 <= i < configs.len() && adapter_of(#[trigger] configs[i]) == Some(adapter),
    decreases configs.len(),
{
    if configs.len() > 0 {
        let rest = configs.drop_last();
        let last = configs.last();
        let before = described(rest);
        let found = described(configs);
        lemma_described(rest, adapter);
        if before.contains(adapter) {
            let k = choose|k: int| 0 <= k < before.len() && before[k] == adapter;
            assert(found[k] == adapter);
            let i = choose|i: int|
                0 <= i < rest.len() && adapter_of(#[trigger] rest[i]) == Some(adapter);
            assert(configs[i] == rest[i]);
        }
        if adapter_of(last) == Some(adapter) {
            assert(found[before.len() as int] == adapter);
            assert(configs[configs.len() - 1] == last);
        }
        if found.contains(adapter) && !before.contains(adapter) {
            let k = choose|k: int| 0 <= k < found.len() && found[k] == adapter;
            if k < before.len() {
                assert(before[k] == adapter);
            }
            assert(adapter_of(last) == Some(adapter));
        }
        if exists|i: int| 0 <= i < configs.len() && adapter_of(#[trigger] configs[i]) == Some(
            adapter,
        ) {
            let i = choose|i: int|
                0 <= i < configs.len() && adapter_of(#[trigger] configs[i]) == Some(adapter);
            if i < rest.len() {
                assert(rest[i] == configs[i]);
            }
        }
    }
}

/// Where the names are distinct, they are among what is found.
proof fn lemma_described_names(configs: Seq<ConfigView>)
    requires
        distinct_names(configs),
    ensures
        forall|i: int, j: int|
            0 <= i < j < described(configs).len() ==> lowercase(
                (#[trigger] described(configs)[i]).name,
            ) != lowercase((#[trigger] described(configs)[j]).name),
    decreases configs.len(),
{
    if configs.len() > 0 {
        let rest = configs.drop_last();
        let last = configs.len() - 1;
        let before = described(rest);
        let found = described(configs);
        assert(forall|i: int| 0 <= i < rest.len() ==> rest[i] == configs[i]);
        lemma_described_names(rest);
        assert forall|i: int, j: int| 0 <= i < j < found.len() implies lowercase(
            (#[trigger] found[i]).name,
        ) != lowercase((#[trigger] found[j]).name) by {
            assert(found[i] == before[i]);
            if j < before.len() {
                assert(found[j] == before[j]);
            } else {
                assert(before.contains(before[i]));
                lemma_described(rest, before[i]);
                let k = choose|k: int|
                    0 <= k < rest.len() && adapter_of(#[trigger] rest[k]) == Some(before[i]);
                assert(adapter_of(configs[k]) == Some(before[i]));
                assert(adapter_of(configs[last]) == Some(found[j]));
            }
        }
    }
}

/// Adapters ordered by name are in the order of their names and are those that were ordered.
proof fn lemma_by_name(found: Seq<AdapterView>)
    requires
        forall|i: int, j: int|
            0 <= i < j < found.len() ==> lowercase((#[trigger] found[i]).name) != lowercase(
                (#[trigger] found[j]).name,
            ),
    ensures
        forall|i: int, j: int|
            0 <= i < j < found.len() ==> before(
                lowercase((#[trigger] by_name(found)[i]).name),
                lowercase((#[trigger] by_name(found)[j]).name),
            ),
        forall|adapter: AdapterView| #[trigger]
            by_name(found).contains(adapter) <==> found.contains(adapter),
{
    let keys = name_keys(found);
    let places = key_order(keys);
    let sorted = by_name(found);
    law_key_order(keys);
    assert forall|i: int, j: int| 0 <= i < j < found.len() implies before(
        lowercase((#[trigger] sorted[i]).name),
        lowercase((#[trigger] sorted[j]).name),
    ) by {
        assert(places.contains(places[i]) && places.contains(places[j]));
        assert(place_before(keys, places[i], places[j]));
        if places[i] < places[j] {
            assert(lowercase(found[places[i]].name) != lowercase(found[places[j]].name));
        }
    }
    assert forall|adapter: AdapterView| #[trigger] sorted.contains(adapter) <==> found.contains(
        adapter,
    ) by {
        if sorted.contains(adapter) {
            let i = choose|i: int| 0 <= i < sorted.len() && sorted[i] == adapter;
            assert(places.contains(places[i]));
            assert(found[places[i]] == adapter);
        }
        if found.contains(adapter) {
            let p = choose|p: int| 0 <= p < found.len() && found[p] == adapter;
            assert(places.contains(p));
            let i = choose|i: int| 0 <= i < places.len() && places[i] == p;
            assert(sorted[i] == adapter);
        }
    }
}

/// The list does not depend on the order of the reports, nor on the order in which each lists its
/// addresses or how often, where the names of the adapters are distinct regardless of case.
pub proof fn law_order_of_reports_does_not_matter(
    left: Seq<ConfigView>,
    right: Seq<ConfigView>,
    places: Seq<int>,
)
    requires
        rearranged(left, right, places),
        distinct_names(left),
    ensures
        adapters_of(left) == adapters_of(right),
{
    assert forall|i: int| 0 <= i < right.len() implies adapter_of(#[trigger] right[i])
        == adapter_of(left[places[i]]) by {
        law_order_of_addresses_does_not_matter(left[places[i]], right[i]);
    }
    assert(distinct_names(right)) by {
        assert forall|i: int, j: int|
            #![trigger right[i], right[j]]
            0 <= i < j < right.len() && adapter_of(right[i]) is Some && adapter_of(
                right[j],
            ) is Some implies lowercase(adapter_of(right[i])->0.name) != lowercase(
            adapter_of(right[j])->0.name,
        ) by {
            let p = places[i];
            let q = places[j];
            assert(p != q);
            assert(adapter_of(left[p]) == adapter_of(right[i]));
            assert(adapter_of(left[q]) == adapter_of(right[j]));
        }
    }
    let l = described(left);
    let r = described(right);
    lemma_described_names(left);
    lemma_described_names(right);
    lemma_by_name(l);
    lemma_by_name(r);
    assert forall|adapter: AdapterView| by_name(l).contains(adapter) <==> #[trigger] by_name(
        r,
    ).contains(adapter) by {
        assert(by_name(l).contains(adapter) <==> l.contains(adapter));
        lemma_described(left, adapter);
        lemma_described(right, adapter);
        if l.contains(adapter) {
            let p = choose|p: int|
                0 <= p < left.len() && adapter_of(#[trigger] left[p]) == Some(adapter);
            assert(places.contains(p));
            let i = choose|i: int| 0 <= i < places.len() && places[i] == p;
            assert(adapter_of(right[i]) == Some(adapter));
        }
        if r.contains(adapter) {
            let i = choose|i: int|
                0 <= i < right.len() && adapter_of(#[trigger] right[i]) == Some(adapter);
            assert(adapter_of(left[places[i]]) == Some(adapter));
        }
    }
    let less = |a: AdapterView, b: AdapterView| before(lowercase(a.name), lowercase(b.name));
    assert forall|a: AdapterView, b: AdapterView| #[trigger] less(a, b) implies !less(b, a) by {
        if less(b, a) {
            lemma_antisymmetric(lowercase(a.name), lowercase(b.name));
        }
    }
    assert(by_name(l).len() == l.len() && by_name(r).len() == r.len());
    assert forall|i: int, j: int| 0 <= i < j < by_name(l).len() implies less(
        #[trigger] by_name(l)[i],
        #[trigger] by_name(l)[j],
    ) by {}
    assert forall|i: int, j: int| 0 <= i < j < by_name(r).len() implies less(
        #[trigger] by_name(r)[i],
        #[trigger] by_name(r)[j],
    ) by {}
    lemma_one_arrangement(by_name(l), by_name(r), less);
}

/// A query is over after three attempts at the latest: the first answer ends it; while attempts
/// are left, a failure leads to the next attempt half a second later; and three failures end it
/// with the message of the third.
pub proof fn law_query_ends_after_three_attempts(
    user_path: Option<Seq<char>>,
    hostname: Option<Seq<char>>,
    first: Result<Seq<ConfigView>, Seq<char>>,
    second: Result<Seq<ConfigView>, Seq<char>>,
    third: Result<Seq<ConfigView>, Seq<char>>,
)
    ensures
        ({
            let start = new_query(user_path, hostname);
            let info = |configs: Seq<ConfigView>|
                InfoView {
                    hostname: text_or(hostname, "Unknown"@),
                    adapters: adapters_of(configs),
                    user_path: text_or(user_path, default_user_path()),
                };
            match query_step(start, first) {
                QueryStepView::Found(found) => first is Ok && found == info(first->Ok_0),
                QueryStepView::Failed(_) => false,
                QueryStepView::Retry { query: again, milliseconds } => {
                    &&& first is Err
                    &&& milliseconds == 500
                    &&& match query_step(again, second) {
                        QueryStepView::Found(found) => second is Ok && found == info(second->Ok_0),
                        QueryStepView::Failed(_) => false,
                        QueryStepView::Retry { query: last, milliseconds } => {
                            &&& second is Err
                            &&& milliseconds == 500
                            &&& match query_step(last, third) {
                                QueryStepView::Found(found) => third is Ok && found == info(
                                    third->Ok_0,
                                ),
                                QueryStepView::Failed(message) => third is Err && message
                                    == "WMI 查询网络接口失败，已重试 3 次："@ + third->Err_0,
                                QueryStepView::Retry { .. } => false,
                            }
                        },
                    }
                },
            }
        }),
{
}

/// The user's profile that the tool starts with is known, unless the environment names an empty
/// one.
pub proof fn law_start_knows_the_user_path(
    found: Option<InfoView>,
    user_path: Option<Seq<char>>,
    hostname: Option<Seq<char>>,
)
    requires
        user_path != Some(Seq::<char>::empty()),
    ensures
        network_at_start(found, user_path, hostname).user_path.len() > 0,
{
    reveal_strlit(r"C:\");
    if user_path is Some && user_path->0.len() == 0 {
        assert(user_path->0 == Seq::<char>::empty());
    }
}

/// What is known of the network says what its fields say, of every adapter and every address.
pub proof fn law_network_says_its_fields(info: NetworkInfo, i: int, k: int)
    ensures
        info@.hostname == info.hostname@,
        info@.user_path == info.user_path@,
        info@.adapters == adapter_views(info.adapters@),
        info@.adapters.len() == info.adapters@.len(),
        0 <= i < info.adapters@.len() ==> {
            let adapter = info.adapters@[i];
            &&& info@.adapters[i].name == adapter.name@
            &&& info@.adapters[i].mac == adapter.mac@
            &&& info@.adapters[i].selected == adapter.selected
            &&& info@.adapters[i].ips.len() == adapter.ips@.len()
            &&& 0 <= k < adapter.ips@.len() ==> info@.adapters[i].ips[k] == adapter.ips@[k]@
        },
{
}

/// What the system reports says what its fields say, of every adapter and every address.
pub proof fn law_reports_say_their_fields(configs: Seq<AdapterConfig>, i: int, k: int)
    ensures
        config_views(configs).len() == configs.len(),
        0 <= i < configs.len() ==> {
            let config = configs[i];
            let view = config_views(configs)[i];
            &&& view == config@
            &&& view.ip_enabled == config.ip_enabled
            &&& match (view.mac_address, config.mac_address) {
                (Some(said), Some(mac)) => said == mac@,
                (None, None) => true,
                _ => false,
            }
            &&& match (view.description, config.description) {
                (Some(said), Some(name)) => said == name@,
                (None, None) => true,
                _ => false,
            }
            &&& match (view.ip_address, config.ip_address) {
                (Some(said), Some(list)) => said.len() == list@.len() && (0 <= k < list@.len()
                    ==> said[k] == list@[k]@),
                (None, None) => true,
                _ => false,
            }
        },
{
}

/// What may be missing says what it holds where it is there, and so does what an attempt gave and
/// what is done after it.
pub proof fn law_outcomes_say_what_they_hold(
    text: String,
    info: NetworkInfo,
    configs: Vec<AdapterConfig>,
    query: NetworkQuery,
    milliseconds: u64,
)
    ensures
        text_option(Some(text)) == Some(text@) && text_option(None) is None,
        info_option(Some(info)) == Some(info@) && info_option(None) is None,
        outcome_view(Ok(configs)) == Ok::<Seq<ConfigView>, Seq<char>>(config_views(configs@)),
        outcome_view(Err(text)) == Err::<Seq<ConfigView>, Seq<char>>(text@),
        QueryStep::Found(info)@ == QueryStepView::Found(info@),
        QueryStep::Failed(text)@ == QueryStepView::Failed(text@),
        (QueryStep::Retry { query, milliseconds })@ == (QueryStepView::Retry {
            query: query@,
            milliseconds,
        }),
{
}

/// A report describes an adapter exactly where IP is enabled, the hardware address is more than
/// white space, and some reported address is an IPv4 address once it is trimmed.
pub proof fn law_which_reports_describe_an_adapter(config: ConfigView)
    ensures
        adapter_of(config) is Some <==> {
            &&& config.ip_enabled == Some(true)
            &&& config.mac_address is Some && !blank(config.mac_address->0)
            &&& config.ip_address is Some && exists|i: int|
                0 <= i < config.ip_address->0.len() && ipv4_text(
                    trimmed(#[trigger] config.ip_address->0[i]),
                )
        },
{
    let ips = ipv4_addresses(config.ip_address);
    if let Some(list) = config.ip_address {
        if ips.len() > 0 {
            assert(ips.contains(ips[0]));
            lemma_ipv4_addresses(list, ips[0]);
            let i = choose|i: int| 0 <= i < list.len() && trimmed(#[trigger] list[i]) == ips[0];
            assert(ipv4_text(trimmed(config.ip_address->0[i])));
        }
        if exists|i: int| 0 <= i < list.len() && ipv4_text(trimmed(#[trigger] list[i])) {
            let i = choose|i: int| 0 <= i < list.len() && ipv4_text(trimmed(#[trigger] list[i]));
            lemma_ipv4_addresses(list, trimmed(list[i]));
        }
    }
}

/// No reported IPv4 address is left out and no other comes in: an address is among those of a
/// described adapter exactly where it is an IPv4 address and some reported text trims to it.
pub proof fn law_adapter_has_every_ipv4_address(config: ConfigView, ip: Seq<char>)
    requires
        adapter_of(config) is Some,
    ensures
        config.ip_address is Some,
        adapter_of(config)->0.ips.contains(ip) <==> ipv4_text(ip) && exists|i: int|
            0 <= i < config.ip_address->0.len() && trimmed(#[trigger] config.ip_address->0[i])
                == ip,
{
    let ips = ipv4_addresses(config.ip_address);
    law_ascending_members(ips);
    assert(ascending_members(ips).contains(ip) <==> ips.contains(ip));
    if let Some(list) = config.ip_address {
        lemma_ipv4_addresses(list, ip);
    }
}

/// A described adapter has the name and the hardware address of its report, or the name that stands
/// in for a missing one; its addresses are in order and none is listed twice; it is not selected.
pub proof fn law_adapter_is_as_reported(config: ConfigView)
    requires
        adapter_of(config) is Some,
    ensures
        ({
            let adapter = adapter_of(config)->0;
            &&& adapter.name == if config.description is Some {
                config.description->0
            } else {
                "未知网络接口"@
            }
            &&& Some(adapter.mac) == config.mac_address
            &&& !adapter.selected
            &&& adapter.ips.len() > 0
            &&& forall|i: int, j: int|
                0 <= i < j < adapter.ips.len() ==> #[trigger] adapter.ips[i]
                    != #[trigger] adapter.ips[j] && crate::order::not_after(
                    adapter.ips[i],
                    adapter.ips[j],
                )
        }),
{
    let adapter = adapter_of(config)->0;
    law_described_adapter_is_listable(config);
    assert forall|i: int, j: int| 0 <= i < j < adapter.ips.len() implies #[trigger] adapter.ips[i]
        != #[trigger] adapter.ips[j] && crate::order::not_after(adapter.ips[i], adapter.ips[j]) by {
        assert(before(adapter.ips[i], adapter.ips[j]));
    }
}

/// Which of the reports describe an adapter: their places in order.
proof fn lemma_described_places(configs: Seq<ConfigView>) -> (places: Seq<int>)
    ensures
        places.len() == described(configs).len(),
        forall|k: int|
            0 <= k < places.len() ==> 0 <= #[trigger] places[k] < configs.len() && adapter_of(
                configs[places[k]],
            ) == Some(described(configs)[k]),
        forall|k: int, l: int|
            0 <= k < l < places.len() ==> #[trigger] places[k] < #[trigger] places[l],
        forall|p: int|
            0 <= p < configs.len() && adapter_of(#[trigger] configs[p]) is Some
                ==> places.contains(p),
    decreases configs.len(),
{
    if configs.len() == 0 {
        seq![]
    } else {
        let rest = configs.drop_last();
        let last = configs.len() - 1;
        let held = lemma_described_places(rest);
        assert(forall|p: int| 0 <= p < rest.len() ==> rest[p] == configs[p]);
        if adapter_of(configs.last()) is Some {
            let all = held.push(last);
            assert(described(configs) == described(rest).push(adapter_of(configs.last())->0));
            assert forall|p: int|
                0 <= p < configs.len() && adapter_of(
                    #[trigger] configs[p],
                ) is Some implies all.contains(p) by {
                if p < last {
                    assert(adapter_of(rest[p]) is Some);
                    let k = choose|k: int| 0 <= k < held.len() && held[k] == p;
                    assert(all[k] == p);
                } else {
                    assert(all[held.len() as int] == p);
                }
            }
            all
        } else {
            assert(described(configs) == described(rest));
            assert forall|p: int|
                0 <= p < configs.len() && adapter_of(
                    #[trigger] configs[p],
                ) is Some implies held.contains(p) by {
                assert(adapter_of(rest[p]) is Some);
            }
            held
        }
    }
}

/// Every report that describes an adapter has its own place in the list, and nothing else has one:
/// `places` says which report each listed adapter comes from. The list goes by the names in lower
/// case, and by the order of the reports where those agree; exactly the first is selected.
pub proof fn law_every_described_adapter_is_listed(configs: Seq<ConfigView>) -> (places: Seq<int>)
    ensures
        ({
            let listed = adapters_of(configs);
            &&& places.len() == listed.len()
            &&& forall|i: int|
                0 <= i < listed.len() ==> {
                    &&& 0 <= #[trigger] places[i] < configs.len()
                    &&& adapter_of(configs[places[i]]) is Some
                    &&& listed[i].name == adapter_of(configs[places[i]])->0.name
                    &&& listed[i].mac == adapter_of(configs[places[i]])->0.mac
                    &&& listed[i].ips == adapter_of(configs[places[i]])->0.ips
                    &&& listed[i].selected <==> i == 0
                }
            &&& forall|p: int|
                0 <= p < configs.len() && adapter_of(#[trigger] configs[p]) is Some
                    ==> places.contains(p)
            &&& forall|i: int, j: int|
                0 <= i < j < listed.len() ==> {
                    &&& #[trigger] places[i] != #[trigger] places[j]
                    &&& crate::order::not_after(
                        lowercase(listed[i].name),
                        lowercase(listed[j].name),
                    )
                    &&& lowercase(listed[i].name) == lowercase(listed[j].name) ==> places[i]
                        < places[j]
                }
        }),
{
    let found = described(configs);
    let keys = name_keys(found);
    let order = key_order(keys);
    let sources = lemma_described_places(configs);
    crate::order::law_ordering_is_stable(keys);
    let listed = adapters_of(configs);
    let places = Seq::new(order.len(), |i: int| sources[order[i]]);
    assert forall|p: int|
        0 <= p < configs.len() && adapter_of(
            #[trigger] configs[p],
        ) is Some implies places.contains(p) by {
        let k = choose|k: int| 0 <= k < sources.len() && sources[k] == p;
        assert(order.contains(k));
        let i = choose|i: int| 0 <= i < order.len() && order[i] == k;
        assert(places[i] == p);
    }
    assert forall|i: int| 0 <= i < listed.len() implies {
        &&& 0 <= #[trigger] places[i] < configs.len()
        &&& adapter_of(configs[places[i]]) == Some(found[order[i]])
    } by {
        assert(places[i] == sources[order[i]]);
    }
    assert forall|i: int, j: int| 0 <= i < j < listed.len() implies {
        &&& #[trigger] places[i] != #[trigger] places[j]
        &&& crate::order::not_after(lowercase(listed[i].name), lowercase(listed[j].name))
        &&& lowercase(listed[i].name) == lowercase(listed[j].name) ==> places[i] < places[j]
    } by {
        let p = order[i];
        let q = order[j];
        assert(p != q);
        assert(keys[p] == lowercase(listed[i].name));
        assert(keys[q] == lowercase(listed[j].name));
        if p < q {
            assert(sources[p] < sources[q]);
        } else {
            assert(sources[q] < sources[p]);
        }
    }
    places
}

/// Selecting the first adapter, or every one, changes which are selected and nothing else.
pub proof fn law_selecting_changes_nothing_else(adapters: Seq<AdapterView>, i: int)
    ensures
        first_selected(adapters).len() == adapters.len(),
        all_selected(adapters).len() == adapters.len(),
        0 <= i < adapters.len() ==> {
            let first = first_selected(adapters)[i];
            let all = all_selected(adapters)[i];
            &&& first.selected <==> i == 0
            &&& all.selected
            &&& first.name == adapters[i].name && all.name == adapters[i].name
            &&& first.mac == adapters[i].mac && all.mac == adapters[i].mac
            &&& first.ips == adapters[i].ips && all.ips == adapters[i].ips
        },
{
}

/// An answer is taken with the host's name and the user's profile that the environment gave when
/// the query began, or with what stands in for them; however many attempts failed before it.
pub proof fn law_answer_comes_with_the_environment(
    query: QueryView,
    user_path: Option<Seq<char>>,
    hostname: Option<Seq<char>>,
    configs: Seq<ConfigView>,
)
    requires
        query.user_path == new_query(user_path, hostname).user_path,
        query.hostname == new_query(user_path, hostname).hostname,
    ensures
        ({
            let step = query_step(query, Ok(configs));
            &&& step is Found
            &&& step->Found_0.adapters == adapters_of(configs)
            &&& step->Found_0.hostname == if hostname is Some {
                hostname->0
            } else {
                "Unknown"@
            }
            &&& step->Found_0.user_path == if user_path is Some {
                user_path->0
            } else {
                r"C:\"@
            }
        }),
{
}

/// A failed attempt is followed by another half a second later, which keeps what the query knows,
/// unless it is the third: then the message ends with why that one failed.
pub proof fn law_third_failure_is_the_last(
    query: QueryView,
    error: Seq<char>,
    user_path: Option<Seq<char>>,
    hostname: Option<Seq<char>>,
)
    requires
        query.failures < 3,
    ensures
        match query_step(query, Err(error)) {
            QueryStepView::Retry { query: again, milliseconds } => {
                &&& query.failures < 2
                &&& again.failures == query.failures + 1
                &&& again.user_path == query.user_path
                &&& again.hostname == query.hostname
                &&& milliseconds == 500
            },
            QueryStepView::Failed(message) => query.failures == 2 && message
                == "WMI 查询网络接口失败，已重试 3 次："@ + error,
            QueryStepView::Found(_) => false,
        },
        new_query(user_path, hostname).failures == 0,
{
}

/// What was found is what the tool starts with, whole; only an unknown user's profile is taken from
/// the environment, or else is the default.
pub proof fn law_start_keeps_what_was_found(
    found: InfoView,
    user_path: Option<Seq<char>>,
    hostname: Option<Seq<char>>,
)
    ensures
        ({
            let info = network_at_start(Some(found), user_path, hostname);
            &&& info.adapters == found.adapters
            &&& info.hostname == found.hostname
            &&& info.user_path == if found.user_path.len() > 0 {
                found.user_path
            } else if user_path is Some {
                user_path->0
            } else {
                r"C:\"@
            }
        }),
{
}

/// Where nothing was found, the tool starts without adapters, with the host's name and the user's
/// profile of the environment; a missing name is empty, and a missing profile is the default.
pub proof fn law_start_without_a_network(user_path: Option<Seq<char>>, hostname: Option<Seq<char>>)
    ensures
        ({
            let info = network_at_start(None, user_path, hostname);
            &&& info.adapters.len() == 0
            &&& info.hostname == if hostname is Some {
                hostname->0
            } else {
                Seq::<char>::empty()
            }
            &&& info.user_path == if user_path is Some {
                user_path->0
            } else {
                r"C:\"@
            }
        }),
{
}

} // verus!
