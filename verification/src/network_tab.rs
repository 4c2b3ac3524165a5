//! The Network tab's decisions: which sub-view is shown, the filters and column sorts
//! of its four tables (listening ports, systemd services, Docker containers,
//! Kubernetes pods), their state badges and ranks, the interfaces strip's
//! hidden/visible split, and the two-click confirms before a kill or a service action.

use std::cmp::Ordering;
use vstd::prelude::*;
use crate::numeral::{decimal, decimal_string, parse_unsigned};
use crate::order::{
    ColumnSort, SortKey, KeyView, key_views, sort_rows_by_keys, sorted_by_keys_from, flip,
    is_permutation, sorted_by_keys, before,
};
use crate::text::{
    lowercase, trim_seq, trim_string, lower_chars, chars_of, contains_chars, contains_seq,
    starts_with_chars, starts_with_seq, str_eq, ascii_lower_seq, ascii_lower_vec, chars_eq,
    join_with, views, join_strings, push_all, copy_strings, cat,
};

verus! {

/// Status colours the badges use.
pub const OK_GREEN: u32 = 0x8ad08a;
pub const DANGER: u32 = 0xd08a8a;
pub const FG_DIM: u32 = 0x8a8a90;
pub const BRAND: u32 = 0x5a9ad0;

// ---- the sub-views -----------------------------------------------------------------

/// Which sub-view the Network tab shows.
#[derive(Clone, Copy, Debug, PartialEq, Eq, Structural)]
pub enum NetSubTab {
    Ports,
    Services,
    Interfaces,
    Docker,
    Kubernetes,
}

impl NetSubTab {
    /// Every sub-view, in the segmented control's order.
    pub fn all() -> (v: Vec<NetSubTab>)
        ensures
            v@ == seq![
                NetSubTab::Ports,
                NetSubTab::Services,
                NetSubTab::Interfaces,
                NetSubTab::Docker,
                NetSubTab::Kubernetes,
            ],
    {
        let v = vec![
            NetSubTab::Ports,
            NetSubTab::Services,
            NetSubTab::Interfaces,
            NetSubTab::Docker,
            NetSubTab::Kubernetes,
        ];
        assert(v@ =~= seq![
            NetSubTab::Ports,
            NetSubTab::Services,
            NetSubTab::Interfaces,
            NetSubTab::Docker,
            NetSubTab::Kubernetes,
        ]);
        v
    }

    /// The segment's label.
    pub fn label(self) -> (s: &'static str)
        ensures
            s@ == match self {
                NetSubTab::Ports => "Ports"@,
                NetSubTab::Services => "Services"@,
                NetSubTab::Interfaces => "Interfaces"@,
                NetSubTab::Docker => "Docker"@,
                NetSubTab::Kubernetes => "Kubernetes"@,
            },
    {
        match self {
            NetSubTab::Ports => "Ports",
            NetSubTab::Services => "Services",
            NetSubTab::Interfaces => "Interfaces",
            NetSubTab::Docker => "Docker",
            NetSubTab::Kubernetes => "Kubernetes",
        }
    }
}

// ---- sort direction and header marks -----------------------------------------------

/// Ascending or descending.
#[derive(Clone, Copy, Debug, PartialEq, Eq, Structural)]
pub enum SortDir {
    Asc,
    Desc,
}

/// The direction a header's sort state means; no sort (`Default`) is no direction.
pub open spec fn dir_of(sort: ColumnSort) -> Option<SortDir> {
    match sort {
        ColumnSort::Ascending => Some(SortDir::Asc),
        ColumnSort::Descending => Some(SortDir::Desc),
        ColumnSort::Default => None,
    }
}

impl SortDir {
    /// The direction a header's sort state means, as [`dir_of`] says.
    pub fn from_column_sort(sort: ColumnSort) -> (r: Option<SortDir>)
        ensures
            r == dir_of(sort),
    {
        match sort {
            ColumnSort::Ascending => Some(SortDir::Asc),
            ColumnSort::Descending => Some(SortDir::Desc),
            ColumnSort::Default => None,
        }
    }

    /// Apply the direction to an ascending comparison: descending reverses it.
    pub fn apply(self, order: Ordering) -> (r: Ordering)
        ensures
            r == match self {
                SortDir::Asc => order,
                SortDir::Desc => flip(order),
            },
    {
        match self {
            SortDir::Asc => order,
            SortDir::Desc => crate::order::reverse(order),
        }
    }
}

/// Mark column `col_ix` with `sort` and reset every other sortable column to
/// `Default`; columns that are not sortable (`None`) stay so.
pub fn mark_column_sort(sorts: &mut Vec<Option<ColumnSort>>, col_ix: usize, sort: ColumnSort)
    ensures
        final(sorts)@.len() == old(sorts)@.len(),
        forall|i: int|
            0 <= i < old(sorts)@.len() ==> #[trigger] final(sorts)@[i] == (if old(sorts)@[i] is None {
                None
            } else if i == col_ix {
                Some(sort)
            } else {
                Some(ColumnSort::Default)
            }),
{
    let ghost before = sorts@;
    let mut i: usize = 0;
    while i < sorts.len()
        invariant
            i <= sorts.len(),
            sorts@.len() == before.len(),
            forall|j: int| i <= j < before.len() ==> #[trigger] sorts@[j] == before[j],
            forall|j: int|
                0 <= j < i ==> #[trigger] sorts@[j] == (if before[j] is None {
                    None
                } else if j == col_ix {
                    Some(sort)
                } else {
                    Some(ColumnSort::Default)
                }),
        decreases sorts.len() - i,
    {
        if sorts[i].is_some() {
            let v = if i == col_ix {
                sort
            } else {
                ColumnSort::Default
            };
            sorts.set(i, Some(v));
        }
        i = i + 1;
    }
}

// ---- confirms and fetch generations ------------------------------------------------

/// A process id.
#[derive(Clone, Copy, Debug, PartialEq, Eq, Structural)]
pub struct Pid(pub u32);

impl Pid {
    pub fn from_u32(n: u32) -> (p: Pid)
        ensures
            p.0 == n,
    {
        Pid(n)
    }

    pub fn as_u32(self) -> (n: u32)
        ensures
            n == self.0,
    {
        self.0
    }
}

/// The two-click kill confirm: the click executes only on the pid already armed.
pub fn kill_click_executes(armed: Option<Pid>, clicked: Pid) -> (b: bool)
    ensures
        b == (armed == Some(clicked)),
{
    match armed {
        Some(p) => p.0 == clicked.0,
        None => false,
    }
}

/// What a service row's action button does.
#[derive(Clone, Copy, Debug, PartialEq, Eq, Structural)]
pub enum SvcAction {
    Restart,
    Stop,
    Kill,
}

/// The two-click confirm for a service action: executes only when the same action on
/// the same unit is already armed.
pub fn action_click_executes(armed: &Option<(String, SvcAction)>, name: &str, action: SvcAction) -> (b:
    bool)
    ensures
        b == (armed matches Some((n, a)) && n@ == name@ && a == action),
{
    match armed {
        Some((n, a)) => str_eq(n.as_str(), name) && *a == action,
        None => false,
    }
}

/// A port row's kill button: `kill?` once armed, else `kill`.
pub fn kill_button_label(armed: bool) -> (s: &'static str)
    ensures
        s@ == (if armed {
            "kill?"@
        } else {
            "kill"@
        }),
{
    if armed {
        "kill?"
    } else {
        "kill"
    }
}

/// The name of a service action's button.
pub open spec fn action_name(action: SvcAction) -> Seq<char> {
    match action {
        SvcAction::Restart => "restart"@,
        SvcAction::Stop => "stop"@,
        SvcAction::Kill => "kill"@,
    }
}

/// A service action's button: its name, with `?` once armed.
pub fn action_button_label(action: SvcAction, armed: bool) -> (s: String)
    ensures
        s@ == (if armed {
            action_name(action) + "?"@
        } else {
            action_name(action)
        }),
{
    let name = match action {
        SvcAction::Restart => "restart",
        SvcAction::Stop => "stop",
        SvcAction::Kill => "kill",
    };
    if armed {
        cat(name, "?")
    } else {
        String::from_str(name)
    }
}

/// A text cell: its text, or `—` when it is empty (a missing pid, sub-state or
/// description).
pub fn cell_text(text: &str) -> (s: &str)
    ensures
        s@ == (if text@.len() == 0 {
            "—"@
        } else {
            text@
        }),
{
    if text.is_empty() {
        "—"
    } else {
        text
    }
}

/// A pods fetch applies its result only if no newer fetch was started meanwhile.
pub fn should_apply_pods(current_gen: u64, fetched_gen: u64) -> (b: bool)
    ensures
        b == (current_gen == fetched_gen),
{
    current_gen == fetched_gen
}

// ---- the tables' rows --------------------------------------------------------------

/// A socket's transport.
#[derive(Clone, Copy, Debug, PartialEq, Eq, Structural)]
pub enum Protocol {
    Tcp,
    Udp,
}

/// A socket's state.
#[derive(Clone, Copy, Debug, PartialEq, Eq, Structural)]
pub enum SocketState {
    Listen,
    Other,
}

/// A listening socket and the process holding it.
#[derive(Clone, Debug, PartialEq, Eq)]
pub struct ListeningPort {
    pub port: u16,
    pub pid: Option<Pid>,
    pub command: String,
    pub protocol: Protocol,
    pub state: SocketState,
    pub local_addr: String,
}

/// A systemd unit's coarse active state.
#[derive(Clone, Copy, Debug, PartialEq, Eq, Structural)]
pub enum SvcActiveState {
    Active,
    Inactive,
    Failed,
    /// Activating, deactivating or reloading — told apart by the sub-state.
    Other,
}

/// A systemd unit.
#[derive(Clone, Debug, PartialEq, Eq)]
pub struct ServiceInfo {
    pub name: String,
    pub description: String,
    pub active: SvcActiveState,
    pub sub_state: String,
}

/// A Docker container.
#[derive(Clone, Debug, PartialEq, Eq)]
pub struct ContainerInfo {
    pub id: String,
    pub name: String,
    pub image: String,
    pub state: String,
    pub status: String,
    pub ports: Vec<String>,
}

/// A Kubernetes pod.
#[derive(Clone, Debug, PartialEq, Eq)]
pub struct KubePod {
    pub namespace: String,
    pub name: String,
    pub ready: String,
    pub phase: String,
    pub restarts: u32,
    pub node: String,
}

/// A network interface.
#[derive(Clone, Debug, PartialEq, Eq)]
pub struct NetInterface {
    pub name: String,
    pub addrs: Vec<String>,
    pub rx_bytes: u64,
    pub tx_bytes: u64,
    pub is_up: bool,
}

/// The values a list of references points at.
pub open spec fn derefs<T>(s: Seq<&T>) -> Seq<T> {
    s.map_values(|r: &T| *r)
}

/// The filter text as matched: trimmed, then lower-cased.
pub open spec fn filter_needle(query: Seq<char>) -> Seq<char> {
    lowercase(trim_seq(query))
}

// ---- ports -------------------------------------------------------------------------

/// Whether a port row matches the (trimmed) query: its number starts with the query,
/// its command or local address contains it (ignoring case), or the query is exactly
/// its pid.
pub open spec fn port_matches(p: ListeningPort, query: Seq<char>) -> bool {
    let q = trim_seq(query);
    let lower = lowercase(q);
    q.len() == 0 || starts_with_seq(decimal(p.port as nat), lower) || contains_seq(
        lowercase(p.command@),
        lower,
    ) || contains_seq(lowercase(p.local_addr@), lower) || (match parse_unsigned(q, 4294967295) {
        Some(n) => p.pid matches Some(pid) && pid.0 == n,
        None => false,
    })
}

/// The ports that match `query`, in order; a blank query keeps them all.
pub fn filter_ports<'a>(ports: &'a Vec<ListeningPort>, query: &str) -> (out: Vec<&'a ListeningPort>)
    ensures
        derefs(out@) == ports@.filter(|p: ListeningPort| port_matches(p, query@)),
{
    let q = trim_string(query);
    let lower = lower_chars(q.as_str());
    let exact_pid = crate::numeral::parse_u32(q.as_str());
    let ghost pred = |p: ListeningPort| port_matches(p, query@);
    let mut out: Vec<&'a ListeningPort> = Vec::new();
    let mut i: usize = 0;
    proof {
        reveal(Seq::filter);
        assert(ports@.take(0) =~= Seq::<ListeningPort>::empty());
    }
    while i < ports.len()
        invariant
            i <= ports.len(),
            q@ == trim_seq(query@),
            lower@ == lowercase(q@),
            match exact_pid {
                Some(y) => parse_unsigned(q@, 4294967295) == Some(y as int),
                None => parse_unsigned(q@, 4294967295) is None,
            },
            pred == (|p: ListeningPort| port_matches(p, query@)),
            derefs(out@) == ports@.take(i as int).filter(pred),
        decreases ports.len() - i,
    {
        let p = &ports[i];
        let m = if q.as_str().is_empty() {
            true
        } else {
            let num = chars_of(crate::numeral::decimal_string(p.port as u128).as_str());
            let cmd = lower_chars(p.command.as_str());
            let addr = lower_chars(p.local_addr.as_str());
            starts_with_chars(&num, &lower) || contains_chars(&cmd, &lower) || contains_chars(
                &addr,
                &lower,
            ) || match exact_pid {
                Some(n) => match p.pid {
                    Some(pid) => pid.0 == n,
                    None => false,
                },
                None => false,
            }
        };
        let ghost before = out@;
        if m {
            out.push(p);
        }
        proof {
            reveal(Seq::filter);
            let t = ports@.take(i + 1);
            assert(t.drop_last() =~= ports@.take(i as int));
            assert(t.last() == ports@[i as int]);
            assert(m == pred(ports@[i as int]));
            if m {
                assert(derefs(out@) =~= derefs(before).push(ports@[i as int]));
            } else {
                assert(derefs(out@) =~= derefs(before));
            }
        }
        i = i + 1;
    }
    assert(ports@.take(ports.len() as int) =~= ports@);
    out
}

/// A protocol's label.
pub open spec fn protocol_text(p: Protocol) -> Seq<char> {
    match p {
        Protocol::Tcp => "tcp"@,
        Protocol::Udp => "udp"@,
    }
}

/// A protocol's label.
pub fn protocol_label(protocol: Protocol) -> (s: &'static str)
    ensures
        s@ == protocol_text(protocol),
{
    match protocol {
        Protocol::Tcp => "tcp",
        Protocol::Udp => "udp",
    }
}

/// The sort key of a port row for column `col`: protocol label; port number; local
/// address (code-point order); pid (a row without one after every row with one);
/// command, ignoring case.
pub open spec fn port_key(p: ListeningPort, col: int) -> KeyView {
    if col == 0 {
        KeyView { rank: 0, text: protocol_text(p.protocol) }
    } else if col == 1 {
        KeyView { rank: p.port as int, text: Seq::empty() }
    } else if col == 2 {
        KeyView { rank: 0, text: p.local_addr@ }
    } else if col == 3 {
        KeyView {
            rank: match p.pid {
                Some(pid) => pid.0 as int,
                None => 4294967296,
            },
            text: Seq::empty(),
        }
    } else {
        KeyView { rank: 0, text: lowercase(p.command@) }
    }
}

/// The sort key of a port row for column `col` (one of 0–4).
fn port_sort_key(p: &ListeningPort, col: usize) -> (k: SortKey)
    ensures
        k@ == port_key(*p, col as int),
{
    if col == 0 {
        SortKey { rank: 0, text: chars_of(protocol_label(p.protocol)) }
    } else if col == 1 {
        SortKey { rank: p.port as u64, text: Vec::new() }
    } else if col == 2 {
        SortKey { rank: 0, text: chars_of(p.local_addr.as_str()) }
    } else if col == 3 {
        SortKey {
            rank: match p.pid {
                Some(pid) => pid.0 as u64,
                None => 4294967296,
            },
            text: Vec::new(),
        }
    } else {
        SortKey { rank: 0, text: lower_chars(p.command.as_str()) }
    }
}

/// The keys of every row of a table, computed by `key_of`.
pub open spec fn keys_of<T>(rows: Seq<T>, key_of: spec_fn(T) -> KeyView) -> Seq<KeyView> {
    rows.map_values(|r: T| key_of(r))
}

/// Sort the ports table by column `col_ix` (protocol, port, address, pid, process), a
/// stable sort, reversed for `Desc`; any other column leaves the rows as they are.
pub fn sort_ports(rows: &mut Vec<ListeningPort>, col_ix: usize, dir: SortDir)
    ensures
        col_ix <= 4 ==> sorted_by_keys_from(
            final(rows)@,
            old(rows)@,
            keys_of(old(rows)@, |p: ListeningPort| port_key(p, col_ix as int)),
            dir == SortDir::Desc,
        ),
        col_ix > 4 ==> final(rows)@ == old(rows)@,
{
    if col_ix > 4 {
        return;
    }
    let mut keys: Vec<SortKey> = Vec::new();
    let mut i: usize = 0;
    while i < rows.len()
        invariant
            i <= rows.len(),
            keys@.len() == i,
            forall|j: int| 0 <= j < i ==> (#[trigger] keys@[j])@ == port_key(rows@[j], col_ix as int),
        decreases rows.len() - i,
    {
        keys.push(port_sort_key(&rows[i], col_ix));
        i = i + 1;
    }
    assert(key_views(keys@) =~= keys_of(rows@, |p: ListeningPort| port_key(p, col_ix as int)));
    sort_rows_by_keys(rows, &keys, dir == SortDir::Desc);
}

/// A copy of a port row.
pub fn copy_port(p: &ListeningPort) -> (r: ListeningPort)
    ensures
        r == *p,
{
    ListeningPort {
        port: p.port,
        pid: p.pid,
        command: p.command.clone(),
        protocol: p.protocol,
        state: p.state,
        local_addr: p.local_addr.clone(),
    }
}

/// What the ports table shows: the rows that match `query`, then — when a column sort
/// is active — stably sorted by it; filtering never clears the sort.
pub open spec fn ports_shown(out: Seq<ListeningPort>, all: Seq<ListeningPort>, query: Seq<char>, active_sort: Option<(usize, SortDir)>) -> bool {
    let kept = all.filter(|p: ListeningPort| port_matches(p, query));
    match active_sort {
        Some((col, dir)) => if col <= 4 {
            sorted_by_keys_from(
                out,
                kept,
                keys_of(kept, |p: ListeningPort| port_key(p, col as int)),
                dir == SortDir::Desc,
            )
        } else {
            out == kept
        },
        None => out == kept,
    }
}

/// The ports table's rows, as [`ports_shown`] says.
pub fn ports_view(all: &Vec<ListeningPort>, query: &str, active_sort: Option<(usize, SortDir)>) -> (out: Vec<ListeningPort>)
    ensures
        ports_shown(out@, all@, query@, active_sort),
{
    let refs = filter_ports(all, query);
    let mut rows: Vec<ListeningPort> = Vec::new();
    let mut i: usize = 0;
    while i < refs.len()
        invariant
            i <= refs.len(),
            rows@ == derefs(refs@).take(i as int),
        decreases refs.len() - i,
    {
        rows.push(copy_port(refs[i]));
        i = i + 1;
        assert(rows@ =~= derefs(refs@).take(i as int));
    }
    assert(derefs(refs@).take(refs.len() as int) =~= derefs(refs@));
    match active_sort {
        Some((col, dir)) => {
            sort_ports(&mut rows, col, dir);
        },
        None => {},
    }
    rows
}

/// Drop every row held by `pid` — what a successful kill does to the table at once.
pub fn drop_killed(ports: &mut Vec<ListeningPort>, pid: Pid)
    ensures
        final(ports)@ == old(ports)@.filter(|p: ListeningPort| p.pid != Some(pid)),
{
    let ghost pred = |p: ListeningPort| p.pid != Some(pid);
    let mut kept: Vec<ListeningPort> = Vec::new();
    let mut i: usize = 0;
    proof {
        reveal(Seq::filter);
        assert(ports@.take(0) =~= Seq::<ListeningPort>::empty());
    }
    while i < ports.len()
        invariant
            i <= ports.len(),
            pred == (|p: ListeningPort| p.pid != Some(pid)),
            kept@ == ports@.take(i as int).filter(pred),
        decreases ports.len() - i,
    {
        let held = match ports[i].pid {
            Some(q) => q.0 == pid.0,
            None => false,
        };
        let ghost before = kept@;
        if !held {
            kept.push(copy_port(&ports[i]));
        }
        proof {
            reveal(Seq::filter);
            let t = ports@.take(i + 1);
            assert(t.drop_last() =~= ports@.take(i as int));
            assert(t.last() == ports@[i as int]);
            assert(held == !pred(ports@[i as int]));
        }
        i = i + 1;
    }
    assert(ports@.take(ports.len() as int) =~= ports@);
    *ports = kept;
}

// ---- services ----------------------------------------------------------------------

/// Whether a service matches the needle: its name or description contains it,
/// ignoring case (an empty needle matches all).
pub open spec fn service_matches(s: ServiceInfo, needle: Seq<char>) -> bool {
    needle.len() == 0 || contains_seq(lowercase(s.name@), needle) || contains_seq(
        lowercase(s.description@),
        needle,
    )
}

/// The services that match `query`, in order; a blank query keeps them all.
pub fn filter_services<'a>(services: &'a Vec<ServiceInfo>, query: &str) -> (out: Vec<&'a ServiceInfo>)
    ensures
        derefs(out@) == services@.filter(|s: ServiceInfo| service_matches(s, filter_needle(query@))),
{
    let q = trim_string(query);
    let needle = lower_chars(q.as_str());
    let ghost pred = |s: ServiceInfo| service_matches(s, filter_needle(query@));
    let mut out: Vec<&'a ServiceInfo> = Vec::new();
    let mut i: usize = 0;
    proof {
        reveal(Seq::filter);
        assert(services@.take(0) =~= Seq::<ServiceInfo>::empty());
    }
    while i < services.len()
        invariant
            i <= services.len(),
            needle@ == filter_needle(query@),
            pred == (|s: ServiceInfo| service_matches(s, filter_needle(query@))),
            derefs(out@) == services@.take(i as int).filter(pred),
        decreases services.len() - i,
    {
        let s = &services[i];
        let m = needle.len() == 0 || contains_chars(&lower_chars(s.name.as_str()), &needle)
            || contains_chars(&lower_chars(s.description.as_str()), &needle);
        let ghost before = out@;
        if m {
            out.push(s);
        }
        proof {
            reveal(Seq::filter);
            let t = services@.take(i + 1);
            assert(t.drop_last() =~= services@.take(i as int));
            assert(t.last() == services@[i as int]);
            if m {
                assert(derefs(out@) =~= derefs(before).push(services@[i as int]));
            } else {
                assert(derefs(out@) =~= derefs(before));
            }
        }
        i = i + 1;
    }
    assert(services@.take(services.len() as int) =~= services@);
    out
}

/// A service state's badge label and colour.
pub fn svc_state_badge(state: SvcActiveState) -> (r: (&'static str, u32))
    ensures
        match state {
            SvcActiveState::Active => r.0@ == "active"@ && r.1 == OK_GREEN,
            SvcActiveState::Failed => r.0@ == "failed"@ && r.1 == DANGER,
            SvcActiveState::Inactive => r.0@ == "inactive"@ && r.1 == FG_DIM,
            SvcActiveState::Other => r.0@ == "other"@ && r.1 == FG_DIM,
        },
{
    match state {
        SvcActiveState::Active => ("active", OK_GREEN),
        SvcActiveState::Failed => ("failed", DANGER),
        SvcActiveState::Inactive => ("inactive", FG_DIM),
        SvcActiveState::Other => ("other", FG_DIM),
    }
}

/// Active first: active, activating, reloading, any other transitional state,
/// inactive, failed (the sub-state compared ignoring ASCII case).
pub open spec fn svc_rank_spec(s: ServiceInfo) -> int {
    match s.active {
        SvcActiveState::Active => 0,
        SvcActiveState::Other => if ascii_lower_seq(s.sub_state@) == "activating"@ {
            1
        } else if ascii_lower_seq(s.sub_state@) == "reloading"@ {
            2
        } else {
            3
        },
        SvcActiveState::Inactive => 4,
        SvcActiveState::Failed => 5,
    }
}

/// A service's rank in the state column's order.
pub fn svc_state_rank(svc: &ServiceInfo) -> (r: u8)
    ensures
        r as int == svc_rank_spec(*svc),
{
    match svc.active {
        SvcActiveState::Active => 0,
        SvcActiveState::Other => {
            let sub = ascii_lower_vec(&chars_of(svc.sub_state.as_str()));
            if chars_eq(&sub, &chars_of("activating")) {
                1
            } else if chars_eq(&sub, &chars_of("reloading")) {
                2
            } else {
                3
            }
        },
        SvcActiveState::Inactive => 4,
        SvcActiveState::Failed => 5,
    }
}

/// The sort key of a service for column `col`: name ignoring case; state rank then
/// name; sub-state; description.
pub open spec fn service_key(s: ServiceInfo, col: int) -> KeyView {
    if col == 0 {
        KeyView { rank: 0, text: lowercase(s.name@) }
    } else if col == 1 {
        KeyView { rank: svc_rank_spec(s), text: lowercase(s.name@) }
    } else if col == 2 {
        KeyView { rank: 0, text: s.sub_state@ }
    } else {
        KeyView { rank: 0, text: s.description@ }
    }
}

fn service_sort_key(s: &ServiceInfo, col: usize) -> (k: SortKey)
    ensures
        k@ == service_key(*s, col as int),
{
    if col == 0 {
        SortKey { rank: 0, text: lower_chars(s.name.as_str()) }
    } else if col == 1 {
        SortKey { rank: svc_state_rank(s) as u64, text: lower_chars(s.name.as_str()) }
    } else if col == 2 {
        SortKey { rank: 0, text: chars_of(s.sub_state.as_str()) }
    } else {
        SortKey { rank: 0, text: chars_of(s.description.as_str()) }
    }
}

/// Sort the services table by column `col_ix` (name, state, sub-state, description);
/// any other column leaves the rows as they are.
pub fn sort_services(rows: &mut Vec<ServiceInfo>, col_ix: usize, dir: SortDir)
    ensures
        col_ix <= 3 ==> sorted_by_keys_from(
            final(rows)@,
            old(rows)@,
            keys_of(old(rows)@, |s: ServiceInfo| service_key(s, col_ix as int)),
            dir == SortDir::Desc,
        ),
        col_ix > 3 ==> final(rows)@ == old(rows)@,
{
    if col_ix > 3 {
        return;
    }
    let mut keys: Vec<SortKey> = Vec::new();
    let mut i: usize = 0;
    while i < rows.len()
        invariant
            i <= rows.len(),
            keys@.len() == i,
            forall|j: int| 0 <= j < i ==> (#[trigger] keys@[j])@ == service_key(rows@[j], col_ix as int),
        decreases rows.len() - i,
    {
        keys.push(service_sort_key(&rows[i], col_ix));
        i = i + 1;
    }
    assert(key_views(keys@) =~= keys_of(rows@, |s: ServiceInfo| service_key(s, col_ix as int)));
    sort_rows_by_keys(rows, &keys, dir == SortDir::Desc);
}

/// A copy of a service row.
pub fn copy_service(s: &ServiceInfo) -> (r: ServiceInfo)
    ensures
        r == *s,
{
    ServiceInfo {
        name: s.name.clone(),
        description: s.description.clone(),
        active: s.active,
        sub_state: s.sub_state.clone(),
    }
}

/// What the services table shows: the units that match `query`, then — when a column
/// sort is active — stably sorted by it.
pub open spec fn services_shown(out: Seq<ServiceInfo>, all: Seq<ServiceInfo>, query: Seq<char>, active_sort: Option<(usize, SortDir)>) -> bool {
    let kept = all.filter(|s: ServiceInfo| service_matches(s, filter_needle(query)));
    match active_sort {
        Some((col, dir)) => if col <= 3 {
            sorted_by_keys_from(
                out,
                kept,
                keys_of(kept, |s: ServiceInfo| service_key(s, col as int)),
                dir == SortDir::Desc,
            )
        } else {
            out == kept
        },
        None => out == kept,
    }
}

/// The services table's rows, as [`services_shown`] says.
pub fn services_view(all: &Vec<ServiceInfo>, query: &str, active_sort: Option<(usize, SortDir)>) -> (out: Vec<ServiceInfo>)
    ensures
        services_shown(out@, all@, query@, active_sort),
{
    let refs = filter_services(all, query);
    let mut rows: Vec<ServiceInfo> = Vec::new();
    let mut i: usize = 0;
    while i < refs.len()
        invariant
            i <= refs.len(),
            rows@ == derefs(refs@).take(i as int),
        decreases refs.len() - i,
    {
        rows.push(copy_service(refs[i]));
        i = i + 1;
        assert(rows@ =~= derefs(refs@).take(i as int));
    }
    assert(derefs(refs@).take(refs.len() as int) =~= derefs(refs@));
    match active_sort {
        Some((col, dir)) => {
            sort_services(&mut rows, col, dir);
        },
        None => {},
    }
    rows
}

// ---- containers --------------------------------------------------------------------

/// Whether a container matches the needle: name, image, state or status contains it,
/// ignoring case.
pub open spec fn container_matches(c: ContainerInfo, needle: Seq<char>) -> bool {
    needle.len() == 0 || contains_seq(lowercase(c.name@), needle) || contains_seq(
        lowercase(c.image@),
        needle,
    ) || contains_seq(lowercase(c.state@), needle) || contains_seq(lowercase(c.status@), needle)
}

/// The containers that match `query`, in order; a blank query keeps them all.
pub fn filter_containers<'a>(containers: &'a Vec<ContainerInfo>, query: &str) -> (out: Vec<
    &'a ContainerInfo,
>)
    ensures
        derefs(out@) == containers@.filter(
            |c: ContainerInfo| container_matches(c, filter_needle(query@)),
        ),
{
    let q = trim_string(query);
    let needle = lower_chars(q.as_str());
    let ghost pred = |c: ContainerInfo| container_matches(c, filter_needle(query@));
    let mut out: Vec<&'a ContainerInfo> = Vec::new();
    let mut i: usize = 0;
    proof {
        reveal(Seq::filter);
        assert(containers@.take(0) =~= Seq::<ContainerInfo>::empty());
    }
    while i < containers.len()
        invariant
            i <= containers.len(),
            needle@ == filter_needle(query@),
            pred == (|c: ContainerInfo| container_matches(c, filter_needle(query@))),
            derefs(out@) == containers@.take(i as int).filter(pred),
        decreases containers.len() - i,
    {
        let c = &containers[i];
        let m = needle.len() == 0 || contains_chars(&lower_chars(c.name.as_str()), &needle)
            || contains_chars(&lower_chars(c.image.as_str()), &needle) || contains_chars(
            &lower_chars(c.state.as_str()),
            &needle,
        ) || contains_chars(&lower_chars(c.status.as_str()), &needle);
        let ghost before = out@;
        if m {
            out.push(c);
        }
        proof {
            reveal(Seq::filter);
            let t = containers@.take(i + 1);
            assert(t.drop_last() =~= containers@.take(i as int));
            assert(t.last() == containers@[i as int]);
            if m {
                assert(derefs(out@) =~= derefs(before).push(containers@[i as int]));
            } else {
                assert(derefs(out@) =~= derefs(before));
            }
        }
        i = i + 1;
    }
    assert(containers@.take(containers.len() as int) =~= containers@);
    out
}

/// A container state's badge: known states get their label and colour; an
/// unrecognised one passes through, dimmed.
pub fn docker_state_badge(state: &str) -> (r: (&str, u32))
    ensures
        state@ == "running"@ ==> r.0@ == "running"@ && r.1 == OK_GREEN,
        state@ == "exited"@ || state@ == "dead"@ ==> r.0@ == "exited"@ && r.1 == FG_DIM,
        state@ == "paused"@ ==> r.0@ == "paused"@ && r.1 == FG_DIM,
        state@ == "restarting"@ ==> r.0@ == "restarting"@ && r.1 == DANGER,
        !(state@ == "running"@ || state@ == "exited"@ || state@ == "dead"@ || state@ == "paused"@
            || state@ == "restarting"@) ==> r.0@ == state@ && r.1 == FG_DIM,
{
    proof {
        reveal_strlit("running");
        reveal_strlit("exited");
        reveal_strlit("dead");
        reveal_strlit("paused");
        reveal_strlit("restarting");
    }
    if str_eq(state, "running") {
        ("running", OK_GREEN)
    } else if str_eq(state, "exited") || str_eq(state, "dead") {
        ("exited", FG_DIM)
    } else if str_eq(state, "paused") {
        ("paused", FG_DIM)
    } else if str_eq(state, "restarting") {
        ("restarting", DANGER)
    } else {
        (state, FG_DIM)
    }
}

/// Running first: running, paused, restarting, exited/dead, anything else.
pub open spec fn docker_rank_spec(state: Seq<char>) -> int {
    if state == "running"@ {
        0
    } else if state == "paused"@ {
        1
    } else if state == "restarting"@ {
        2
    } else if state == "exited"@ || state == "dead"@ {
        3
    } else {
        4
    }
}

/// The state column's order: running, then paused, then restarting, then exited and
/// dead (tied), then any other state.
pub proof fn law_docker_state_order(other: Seq<char>)
    requires
        other != "running"@ && other != "paused"@ && other != "restarting"@ && other != "exited"@
            && other != "dead"@,
    ensures
        docker_rank_spec("running"@) < docker_rank_spec("paused"@),
        docker_rank_spec("paused"@) < docker_rank_spec("restarting"@),
        docker_rank_spec("restarting"@) < docker_rank_spec("exited"@),
        docker_rank_spec("exited"@) == docker_rank_spec("dead"@),
        docker_rank_spec("dead"@) < docker_rank_spec(other),
{
    reveal_strlit("running");
    reveal_strlit("paused");
    reveal_strlit("restarting");
    reveal_strlit("exited");
    reveal_strlit("dead");
    assert("running"@.len() == 7 && "paused"@.len() == 6 && "restarting"@.len() == 10
        && "exited"@.len() == 6 && "dead"@.len() == 4);
    assert("paused"@[0] != "exited"@[0]);
}

/// Sorting containers by state, ascending, never puts a container after one that
/// ranks later: whatever comes before a running container is running; before a paused
/// one, running or paused; before a restarting one, running, paused or restarting;
/// before an exited or dead one, never a container in some other state.
pub proof fn law_state_sort_order(rows: Seq<ContainerInfo>, out: Seq<ContainerInfo>, i: int, j: int)
    requires
        sorted_by_keys_from(out, rows, keys_of(rows, |c: ContainerInfo| container_key(c, 2)), false),
        0 <= i < j < out.len(),
    ensures
        out[j].state@ == "running"@ ==> out[i].state@ == "running"@,
        out[j].state@ == "paused"@ ==> out[i].state@ == "running"@ || out[i].state@ == "paused"@,
        out[j].state@ == "restarting"@ ==> out[i].state@ == "running"@ || out[i].state@ == "paused"@
            || out[i].state@ == "restarting"@,
        out[j].state@ == "exited"@ || out[j].state@ == "dead"@ ==> out[i].state@ == "running"@
            || out[i].state@ == "paused"@ || out[i].state@ == "restarting"@ || out[i].state@
            == "exited"@ || out[i].state@ == "dead"@,
{
    let keys = keys_of(rows, |c: ContainerInfo| container_key(c, 2));
    let p = choose|p: Seq<usize>|
        is_permutation(p, rows.len() as int) && sorted_by_keys(p, keys, false) && out.len()
            == rows.len() && forall|k: int| 0 <= k < out.len() ==> #[trigger] out[k] == rows[p[k] as int];
    assert(out[i] == rows[p[i] as int]);
    assert(out[j] == rows[p[j] as int]);
    assert(before(keys, false, p[i] as int, p[j] as int));
    assert(keys[p[i] as int] == container_key(out[i], 2));
    assert(keys[p[j] as int] == container_key(out[j], 2));
    assert(docker_rank_spec(out[i].state@) <= docker_rank_spec(out[j].state@));
    reveal_strlit("running");
    reveal_strlit("paused");
    reveal_strlit("restarting");
    reveal_strlit("exited");
    reveal_strlit("dead");
    assert("running"@.len() == 7 && "paused"@.len() == 6 && "restarting"@.len() == 10
        && "exited"@.len() == 6 && "dead"@.len() == 4);
    assert("paused"@[0] != "exited"@[0]);
}

/// A container state's rank in the state column's order.
pub fn docker_state_rank(state: &str) -> (r: u8)
    ensures
        r as int == docker_rank_spec(state@),
{
    if str_eq(state, "running") {
        0
    } else if str_eq(state, "paused") {
        1
    } else if str_eq(state, "restarting") {
        2
    } else if str_eq(state, "exited") || str_eq(state, "dead") {
        3
    } else {
        4
    }
}

/// The sort key of a container for column `col`: name; image; state rank then name;
/// status; the published ports as shown (joined with `, `).
pub open spec fn container_key(c: ContainerInfo, col: int) -> KeyView {
    if col == 0 {
        KeyView { rank: 0, text: c.name@ }
    } else if col == 1 {
        KeyView { rank: 0, text: c.image@ }
    } else if col == 2 {
        KeyView { rank: docker_rank_spec(c.state@), text: c.name@ }
    } else if col == 3 {
        KeyView { rank: 0, text: c.status@ }
    } else {
        KeyView { rank: 0, text: join_with(views(c.ports@), ", "@) }
    }
}

fn container_sort_key(c: &ContainerInfo, col: usize) -> (k: SortKey)
    ensures
        k@ == container_key(*c, col as int),
{
    if col == 0 {
        SortKey { rank: 0, text: chars_of(c.name.as_str()) }
    } else if col == 1 {
        SortKey { rank: 0, text: chars_of(c.image.as_str()) }
    } else if col == 2 {
        SortKey { rank: docker_state_rank(c.state.as_str()) as u64, text: chars_of(c.name.as_str()) }
    } else if col == 3 {
        SortKey { rank: 0, text: chars_of(c.status.as_str()) }
    } else {
        SortKey { rank: 0, text: chars_of(join_strings(&c.ports, ", ").as_str()) }
    }
}

/// Sort the containers table by column `col_ix` (name, image, state, status, ports);
/// any other column leaves the rows as they are.
pub fn sort_containers(rows: &mut Vec<ContainerInfo>, col_ix: usize, dir: SortDir)
    ensures
        col_ix <= 4 ==> sorted_by_keys_from(
            final(rows)@,
            old(rows)@,
            keys_of(old(rows)@, |c: ContainerInfo| container_key(c, col_ix as int)),
            dir == SortDir::Desc,
        ),
        col_ix > 4 ==> final(rows)@ == old(rows)@,
{
    if col_ix > 4 {
        return;
    }
    let mut keys: Vec<SortKey> = Vec::new();
    let mut i: usize = 0;
    while i < rows.len()
        invariant
            i <= rows.len(),
            keys@.len() == i,
            forall|j: int| 0 <= j < i ==> (#[trigger] keys@[j])@ == container_key(rows@[j], col_ix as int),
        decreases rows.len() - i,
    {
        keys.push(container_sort_key(&rows[i], col_ix));
        i = i + 1;
    }
    assert(key_views(keys@) =~= keys_of(rows@, |c: ContainerInfo| container_key(c, col_ix as int)));
    sort_rows_by_keys(rows, &keys, dir == SortDir::Desc);
}

/// Two container rows hold the same values (the ports list compared by its view).
pub open spec fn same_container(a: ContainerInfo, b: ContainerInfo) -> bool {
    a.id == b.id && a.name == b.name && a.image == b.image && a.state == b.state && a.status
        == b.status && a.ports@ == b.ports@
}

/// `out` holds a copy of each row of `v`, in order.
pub open spec fn container_copies(out: Seq<ContainerInfo>, v: Seq<ContainerInfo>) -> bool {
    out.len() == v.len() && forall|k: int| 0 <= k < out.len() ==> same_container(#[trigger] out[k], v[k])
}

/// A copy of a container row.
pub fn copy_container(x: &ContainerInfo) -> (r: ContainerInfo)
    ensures
        same_container(r, *x),
{
    ContainerInfo {
        id: x.id.clone(),
        name: x.name.clone(),
        image: x.image.clone(),
        state: x.state.clone(),
        status: x.status.clone(),
        ports: copy_strings(&x.ports),
    }
}

/// The containers that match `query`, then — when a column sort is active — stably
/// sorted by it.
pub open spec fn containers_order(v: Seq<ContainerInfo>, all: Seq<ContainerInfo>, query: Seq<char>, active_sort: Option<(usize, SortDir)>) -> bool {
    let kept = all.filter(|x: ContainerInfo| container_matches(x, filter_needle(query)));
    match active_sort {
        Some((col, dir)) => if col <= 4 {
            sorted_by_keys_from(
                v,
                kept,
                keys_of(kept, |x: ContainerInfo| container_key(x, col as int)),
                dir == SortDir::Desc,
            )
        } else {
            v == kept
        },
        None => v == kept,
    }
}

/// What the containers table shows: a copy of each row of [`containers_order`].
pub open spec fn containers_shown(out: Seq<ContainerInfo>, all: Seq<ContainerInfo>, query: Seq<char>, active_sort: Option<(usize, SortDir)>) -> bool {
    exists|v: Seq<ContainerInfo>| containers_order(v, all, query, active_sort) && container_copies(out, v)
}

/// The containers table's rows, as [`containers_shown`] says: the matching rows are
/// picked and ordered by reference, then copied.
pub fn containers_view(all: &Vec<ContainerInfo>, query: &str, active_sort: Option<(usize, SortDir)>) -> (out: Vec<ContainerInfo>)
    ensures
        containers_shown(out@, all@, query@, active_sort),
{
    let mut refs = filter_containers(all, query);
    let ghost kept = derefs(refs@);
    match active_sort {
        Some((col, dir)) => {
            if col <= 4 {
                let mut keys: Vec<SortKey> = Vec::new();
                let mut i: usize = 0;
                while i < refs.len()
                    invariant
                        i <= refs.len(),
                        keys@.len() == i,
                        forall|j: int| 0 <= j < i ==> (#[trigger] keys@[j])@ == container_key(*refs@[j], col as int),
                    decreases refs.len() - i,
                {
                    keys.push(container_sort_key(refs[i], col));
                    i = i + 1;
                }
                let ghost before = refs@;
                assert(key_views(keys@) =~= keys_of(kept, |x: ContainerInfo| container_key(x, col as int)));
                sort_rows_by_keys(&mut refs, &keys, dir == SortDir::Desc);
                proof {
                    let p = choose|p: Seq<usize>|
                        is_permutation(p, before.len() as int) && sorted_by_keys(p, key_views(keys@), dir == SortDir::Desc)
                            && refs@.len() == before.len() && forall|k: int|
                            0 <= k < refs@.len() ==> #[trigger] refs@[k] == before[p[k] as int];
                    assert forall|k: int| 0 <= k < derefs(refs@).len() implies #[trigger] derefs(refs@)[k] == kept[p[k] as int] by {
                        assert(refs@[k] == before[p[k] as int]);
                    }
                    assert(sorted_by_keys_from(
                        derefs(refs@),
                        kept,
                        keys_of(kept, |x: ContainerInfo| container_key(x, col as int)),
                        dir == SortDir::Desc,
                    ));
                }
            }
        },
        None => {},
    }
    let ghost order = derefs(refs@);
    assert(containers_order(order, all@, query@, active_sort));
    let mut out: Vec<ContainerInfo> = Vec::new();
    let mut i: usize = 0;
    while i < refs.len()
        invariant
            i <= refs.len(),
            order == derefs(refs@),
            out@.len() == i,
            forall|k: int| 0 <= k < i ==> same_container(#[trigger] out@[k], order[k]),
        decreases refs.len() - i,
    {
        out.push(copy_container(refs[i]));
        i = i + 1;
    }
    assert(container_copies(out@, order));
    out
}

// ---- pods --------------------------------------------------------------------------

/// Whether a pod matches the needle: namespace or name contains it, ignoring case.
pub open spec fn pod_matches(p: KubePod, needle: Seq<char>) -> bool {
    needle.len() == 0 || contains_seq(lowercase(p.namespace@), needle) || contains_seq(
        lowercase(p.name@),
        needle,
    )
}

/// The pods that match `query`, in order; a blank query keeps them all.
pub fn filter_pods<'a>(pods: &'a Vec<KubePod>, query: &str) -> (out: Vec<&'a KubePod>)
    ensures
        derefs(out@) == pods@.filter(|p: KubePod| pod_matches(p, filter_needle(query@))),
{
    let q = trim_string(query);
    let needle = lower_chars(q.as_str());
    let ghost pred = |p: KubePod| pod_matches(p, filter_needle(query@));
    let mut out: Vec<&'a KubePod> = Vec::new();
    let mut i: usize = 0;
    proof {
        reveal(Seq::filter);
        assert(pods@.take(0) =~= Seq::<KubePod>::empty());
    }
    while i < pods.len()
        invariant
            i <= pods.len(),
            needle@ == filter_needle(query@),
            pred == (|p: KubePod| pod_matches(p, filter_needle(query@))),
            derefs(out@) == pods@.take(i as int).filter(pred),
        decreases pods.len() - i,
    {
        let p = &pods[i];
        let m = needle.len() == 0 || contains_chars(&lower_chars(p.namespace.as_str()), &needle)
            || contains_chars(&lower_chars(p.name.as_str()), &needle);
        let ghost before = out@;
        if m {
            out.push(p);
        }
        proof {
            reveal(Seq::filter);
            let t = pods@.take(i + 1);
            assert(t.drop_last() =~= pods@.take(i as int));
            assert(t.last() == pods@[i as int]);
            if m {
                assert(derefs(out@) =~= derefs(before).push(pods@[i as int]));
            } else {
                assert(derefs(out@) =~= derefs(before));
            }
        }
        i = i + 1;
    }
    assert(pods@.take(pods.len() as int) =~= pods@);
    out
}

/// A pod phase's badge: known phases get their colour; an unrecognised one passes
/// through, dimmed.
pub fn kube_phase_badge(phase: &str) -> (r: (&str, u32))
    ensures
        phase@ == "Running"@ ==> r.0@ == "Running"@ && r.1 == OK_GREEN,
        phase@ == "Succeeded"@ ==> r.0@ == "Succeeded"@ && r.1 == OK_GREEN,
        phase@ == "Pending"@ ==> r.0@ == "Pending"@ && r.1 == FG_DIM,
        phase@ == "Failed"@ ==> r.0@ == "Failed"@ && r.1 == DANGER,
        phase@ == "Unknown"@ ==> r.0@ == "Unknown"@ && r.1 == DANGER,
        !(phase@ == "Running"@ || phase@ == "Succeeded"@ || phase@ == "Pending"@ || phase@
            == "Failed"@ || phase@ == "Unknown"@) ==> r.0@ == phase@ && r.1 == FG_DIM,
{
    proof {
        reveal_strlit("Running");
        reveal_strlit("Succeeded");
        reveal_strlit("Pending");
        reveal_strlit("Failed");
        reveal_strlit("Unknown");
        assert("Running"@[0] != "Pending"@[0]);
        assert("Running"@[0] != "Unknown"@[0]);
        assert("Pending"@[0] != "Unknown"@[0]);
    }
    if str_eq(phase, "Running") {
        ("Running", OK_GREEN)
    } else if str_eq(phase, "Succeeded") {
        ("Succeeded", OK_GREEN)
    } else if str_eq(phase, "Pending") {
        ("Pending", FG_DIM)
    } else if str_eq(phase, "Failed") {
        ("Failed", DANGER)
    } else if str_eq(phase, "Unknown") {
        ("Unknown", DANGER)
    } else {
        (phase, FG_DIM)
    }
}

/// Running first: Running, Succeeded, Pending, Failed, Unknown, anything else.
pub open spec fn phase_rank_spec(phase: Seq<char>) -> int {
    if phase == "Running"@ {
        0
    } else if phase == "Succeeded"@ {
        1
    } else if phase == "Pending"@ {
        2
    } else if phase == "Failed"@ {
        3
    } else if phase == "Unknown"@ {
        4
    } else {
        5
    }
}

/// A pod phase's rank in the phase column's order.
pub fn kube_phase_rank(phase: &str) -> (r: u8)
    ensures
        r as int == phase_rank_spec(phase@),
{
    if str_eq(phase, "Running") {
        0
    } else if str_eq(phase, "Succeeded") {
        1
    } else if str_eq(phase, "Pending") {
        2
    } else if str_eq(phase, "Failed") {
        3
    } else if str_eq(phase, "Unknown") {
        4
    } else {
        5
    }
}

/// The sort key of a pod for column `col`: namespace; name; ready; phase rank then
/// name; restart count; node.
pub open spec fn pod_key(p: KubePod, col: int) -> KeyView {
    if col == 0 {
        KeyView { rank: 0, text: p.namespace@ }
    } else if col == 1 {
        KeyView { rank: 0, text: p.name@ }
    } else if col == 2 {
        KeyView { rank: 0, text: p.ready@ }
    } else if col == 3 {
        KeyView { rank: phase_rank_spec(p.phase@), text: p.name@ }
    } else if col == 4 {
        KeyView { rank: p.restarts as int, text: Seq::empty() }
    } else {
        KeyView { rank: 0, text: p.node@ }
    }
}

fn pod_sort_key(p: &KubePod, col: usize) -> (k: SortKey)
    ensures
        k@ == pod_key(*p, col as int),
{
    if col == 0 {
        SortKey { rank: 0, text: chars_of(p.namespace.as_str()) }
    } else if col == 1 {
        SortKey { rank: 0, text: chars_of(p.name.as_str()) }
    } else if col == 2 {
        SortKey { rank: 0, text: chars_of(p.ready.as_str()) }
    } else if col == 3 {
        SortKey { rank: kube_phase_rank(p.phase.as_str()) as u64, text: chars_of(p.name.as_str()) }
    } else if col == 4 {
        SortKey { rank: p.restarts as u64, text: Vec::new() }
    } else {
        SortKey { rank: 0, text: chars_of(p.node.as_str()) }
    }
}

/// Sort the pods table by column `col_ix` (namespace, name, ready, phase, restarts,
/// node); any other column leaves the rows as they are.
pub fn sort_pods(rows: &mut Vec<KubePod>, col_ix: usize, dir: SortDir)
    ensures
        col_ix <= 5 ==> sorted_by_keys_from(
            final(rows)@,
            old(rows)@,
            keys_of(old(rows)@, |p: KubePod| pod_key(p, col_ix as int)),
            dir == SortDir::Desc,
        ),
        col_ix > 5 ==> final(rows)@ == old(rows)@,
{
    if col_ix > 5 {
        return;
    }
    let mut keys: Vec<SortKey> = Vec::new();
    let mut i: usize = 0;
    while i < rows.len()
        invariant
            i <= rows.len(),
            keys@.len() == i,
            forall|j: int| 0 <= j < i ==> (#[trigger] keys@[j])@ == pod_key(rows@[j], col_ix as int),
        decreases rows.len() - i,
    {
        keys.push(pod_sort_key(&rows[i], col_ix));
        i = i + 1;
    }
    assert(key_views(keys@) =~= keys_of(rows@, |p: KubePod| pod_key(p, col_ix as int)));
    sort_rows_by_keys(rows, &keys, dir == SortDir::Desc);
}

/// A copy of a pod row.
pub fn copy_pod(x: &KubePod) -> (r: KubePod)
    ensures
        r == *x,
{
    KubePod {
        namespace: x.namespace.clone(),
        name: x.name.clone(),
        ready: x.ready.clone(),
        phase: x.phase.clone(),
        restarts: x.restarts,
        node: x.node.clone(),
    }
}

/// What the pods table shows: the rows that match `query`, then — when a column
/// sort is active — stably sorted by it.
pub open spec fn pods_shown(out: Seq<KubePod>, all: Seq<KubePod>, query: Seq<char>, active_sort: Option<(usize, SortDir)>) -> bool {
    let kept = all.filter(|x: KubePod| pod_matches(x, filter_needle(query)));
    match active_sort {
        Some((col, dir)) => if col <= 5 {
            sorted_by_keys_from(
                out,
                kept,
                keys_of(kept, |x: KubePod| pod_key(x, col as int)),
                dir == SortDir::Desc,
            )
        } else {
            out == kept
        },
        None => out == kept,
    }
}

/// The pods table's rows, as [`pods_shown`] says.
pub fn pods_view(all: &Vec<KubePod>, query: &str, active_sort: Option<(usize, SortDir)>) -> (out: Vec<KubePod>)
    ensures
        pods_shown(out@, all@, query@, active_sort),
{
    let refs = filter_pods(all, query);
    let mut rows: Vec<KubePod> = Vec::new();
    let mut i: usize = 0;
    while i < refs.len()
        invariant
            i <= refs.len(),
            rows@ == derefs(refs@).take(i as int),
        decreases refs.len() - i,
    {
        rows.push(copy_pod(refs[i]));
        i = i + 1;
        assert(rows@ =~= derefs(refs@).take(i as int));
    }
    assert(derefs(refs@).take(refs.len() as int) =~= derefs(refs@));
    match active_sort {
        Some((col, dir)) => {
            sort_pods(&mut rows, col, dir);
        },
        None => {},
    }
    rows
}

// ---- interfaces --------------------------------------------------------------------

/// The name prefixes of physical and VPN interfaces, which are shown by default.
pub open spec fn visible_prefix(name: Seq<char>) -> bool {
    starts_with_seq(name, "en"@) || starts_with_seq(name, "eth"@) || starts_with_seq(name, "wl"@)
        || starts_with_seq(name, "wlan"@) || starts_with_seq(name, "ww"@) || starts_with_seq(
        name,
        "usb"@,
    ) || starts_with_seq(name, "wg"@) || starts_with_seq(name, "tun"@) || starts_with_seq(
        name,
        "tailscale"@,
    )
}

/// Whether an interface starts in the collapsed hidden group: never the default-route
/// interface; otherwise every interface without a physical or VPN name prefix.
pub fn is_hidden_interface(name: &str, is_default_route: bool) -> (b: bool)
    ensures
        b == (!is_default_route && !visible_prefix(name@)),
{
    if is_default_route {
        return false;
    }
    let v = chars_of(name);
    let shown = starts_with_chars(&v, &chars_of("en")) || starts_with_chars(&v, &chars_of("eth"))
        || starts_with_chars(&v, &chars_of("wl")) || starts_with_chars(&v, &chars_of("wlan"))
        || starts_with_chars(&v, &chars_of("ww")) || starts_with_chars(&v, &chars_of("usb"))
        || starts_with_chars(&v, &chars_of("wg")) || starts_with_chars(&v, &chars_of("tun"))
        || starts_with_chars(&v, &chars_of("tailscale"));
    !shown
}

/// Whether an interface is hidden given the default route's interface name.
pub open spec fn iface_hidden(i: NetInterface, default_name: Option<Seq<char>>) -> bool {
    !(default_name == Some(i.name@)) && !visible_prefix(i.name@)
}

/// Whether `name` is the default route's interface.
fn is_default(name: &str, default_name: Option<&str>) -> (b: bool)
    ensures
        b == (match default_name {
            Some(d) => d@ == name@,
            None => false,
        }),
{
    match default_name {
        Some(d) => str_eq(d, name),
        None => false,
    }
}

/// Split the interfaces into `(visible, hidden)` as [`is_hidden_interface`] says, each
/// in the original order.
pub fn partition_interfaces<'a>(interfaces: &'a Vec<NetInterface>, default_name: Option<&str>) -> (r: (
    Vec<&'a NetInterface>,
    Vec<&'a NetInterface>,
))
    ensures
        ({
            let dn = match default_name {
                Some(d) => Some(d@),
                None => None,
            };
            &&& derefs(r.0@) == interfaces@.filter(|i: NetInterface| !iface_hidden(i, dn))
            &&& derefs(r.1@) == interfaces@.filter(|i: NetInterface| iface_hidden(i, dn))
        }),
{
    let ghost dn = match default_name {
        Some(d) => Some(d@),
        None => None,
    };
    let ghost pv = |i: NetInterface| !iface_hidden(i, dn);
    let ghost ph = |i: NetInterface| iface_hidden(i, dn);
    let mut visible: Vec<&'a NetInterface> = Vec::new();
    let mut hidden: Vec<&'a NetInterface> = Vec::new();
    let mut k: usize = 0;
    proof {
        reveal(Seq::filter);
        assert(interfaces@.take(0) =~= Seq::<NetInterface>::empty());
    }
    while k < interfaces.len()
        invariant
            k <= interfaces.len(),
            dn == (match default_name {
                Some(d) => Some(d@),
                None => None,
            }),
            pv == (|i: NetInterface| !iface_hidden(i, dn)),
            ph == (|i: NetInterface| iface_hidden(i, dn)),
            derefs(visible@) == interfaces@.take(k as int).filter(pv),
            derefs(hidden@) == interfaces@.take(k as int).filter(ph),
        decreases interfaces.len() - k,
    {
        let iface = &interfaces[k];
        let d = is_default(iface.name.as_str(), default_name);
        let h = is_hidden_interface(iface.name.as_str(), d);
        let ghost bv = visible@;
        let ghost bh = hidden@;
        if h {
            hidden.push(iface);
        } else {
            visible.push(iface);
        }
        proof {
            reveal(Seq::filter);
            let t = interfaces@.take(k + 1);
            assert(t.drop_last() =~= interfaces@.take(k as int));
            assert(t.last() == interfaces@[k as int]);
            assert(h == iface_hidden(interfaces@[k as int], dn));
            if h {
                assert(derefs(hidden@) =~= derefs(bh).push(interfaces@[k as int]));
                assert(derefs(visible@) =~= derefs(bv));
            } else {
                assert(derefs(visible@) =~= derefs(bv).push(interfaces@[k as int]));
                assert(derefs(hidden@) =~= derefs(bh));
            }
        }
        k = k + 1;
    }
    assert(interfaces@.take(interfaces.len() as int) =~= interfaces@);
    (visible, hidden)
}

/// Whether an interface's name matches the needle (an empty needle matches all).
pub open spec fn iface_matches(i: NetInterface, needle: Seq<char>) -> bool {
    needle.len() == 0 || contains_seq(lowercase(i.name@), needle)
}

/// The interfaces strip's two groups for a filter `query`: the visible and the hidden
/// interfaces (as [`partition_interfaces`] splits them) whose name contains the trimmed,
/// lower-cased query, ignoring case.
pub fn interface_groups<'a>(interfaces: &'a Vec<NetInterface>, default_name: Option<&str>, query: &str) -> (r: (
    Vec<&'a NetInterface>,
    Vec<&'a NetInterface>,
))
    ensures
        ({
            let dn = match default_name {
                Some(d) => Some(d@),
                None => None,
            };
            let needle = filter_needle(query@);
            &&& derefs(r.0@) == interfaces@.filter(
                |i: NetInterface| !iface_hidden(i, dn) && iface_matches(i, needle),
            )
            &&& derefs(r.1@) == interfaces@.filter(
                |i: NetInterface| iface_hidden(i, dn) && iface_matches(i, needle),
            )
        }),
{
    let q = trim_string(query);
    let needle = lower_chars(q.as_str());
    let ghost dn = match default_name {
        Some(d) => Some(d@),
        None => None,
    };
    let ghost nd = filter_needle(query@);
    let ghost pv = |i: NetInterface| !iface_hidden(i, dn) && iface_matches(i, nd);
    let ghost ph = |i: NetInterface| iface_hidden(i, dn) && iface_matches(i, nd);
    let mut visible: Vec<&'a NetInterface> = Vec::new();
    let mut hidden: Vec<&'a NetInterface> = Vec::new();
    let mut k: usize = 0;
    proof {
        reveal(Seq::filter);
        assert(interfaces@.take(0) =~= Seq::<NetInterface>::empty());
    }
    while k < interfaces.len()
        invariant
            k <= interfaces.len(),
            needle@ == nd,
            nd == filter_needle(query@),
            dn == (match default_name {
                Some(d) => Some(d@),
                None => None,
            }),
            pv == (|i: NetInterface| !iface_hidden(i, dn) && iface_matches(i, nd)),
            ph == (|i: NetInterface| iface_hidden(i, dn) && iface_matches(i, nd)),
            derefs(visible@) == interfaces@.take(k as int).filter(pv),
            derefs(hidden@) == interfaces@.take(k as int).filter(ph),
        decreases interfaces.len() - k,
    {
        let iface = &interfaces[k];
        let d = is_default(iface.name.as_str(), default_name);
        let h = is_hidden_interface(iface.name.as_str(), d);
        let m = needle.len() == 0 || contains_chars(&lower_chars(iface.name.as_str()), &needle);
        let ghost bv = visible@;
        let ghost bh = hidden@;
        if m {
            if h {
                hidden.push(iface);
            } else {
                visible.push(iface);
            }
        }
        proof {
            reveal(Seq::filter);
            let t = interfaces@.take(k + 1);
            assert(t.drop_last() =~= interfaces@.take(k as int));
            assert(t.last() == interfaces@[k as int]);
            assert(h == iface_hidden(interfaces@[k as int], dn));
            assert(m == iface_matches(interfaces@[k as int], nd));
            if m && h {
                assert(derefs(hidden@) =~= derefs(bh).push(interfaces@[k as int]));
                assert(derefs(visible@) =~= derefs(bv));
            } else if m {
                assert(derefs(visible@) =~= derefs(bv).push(interfaces@[k as int]));
                assert(derefs(hidden@) =~= derefs(bh));
            } else {
                assert(derefs(visible@) =~= derefs(bv));
                assert(derefs(hidden@) =~= derefs(bh));
            }
        }
        k = k + 1;
    }
    assert(interfaces@.take(interfaces.len() as int) =~= interfaces@);
    (visible, hidden)
}

/// The characters of an optional name.
pub open spec fn opt_view(o: Option<&str>) -> Option<Seq<char>> {
    match o {
        Some(d) => Some(d@),
        None => None,
    }
}

/// The sort key putting the default-route interface first, then the rest by name.
pub open spec fn iface_key(i: NetInterface, default_name: Option<Seq<char>>) -> KeyView {
    KeyView {
        rank: if default_name == Some(i.name@) {
            0
        } else {
            1
        },
        text: i.name@,
    }
}

/// Put the default-route interface first (if present), then sort the rest by name.
pub fn sort_interfaces_default_first(interfaces: &mut Vec<NetInterface>, default_name: Option<&str>)
    ensures
        sorted_by_keys_from(
            final(interfaces)@,
            old(interfaces)@,
            keys_of(old(interfaces)@, |i: NetInterface| iface_key(i, opt_view(default_name))),
            false,
        ),
{
    let mut keys: Vec<SortKey> = Vec::new();
    let mut k: usize = 0;
    while k < interfaces.len()
        invariant
            k <= interfaces.len(),
            keys@.len() == k,
            forall|j: int|
                0 <= j < k ==> (#[trigger] keys@[j])@ == iface_key(interfaces@[j], opt_view(default_name)),
        decreases interfaces.len() - k,
    {
        let d = is_default(interfaces[k].name.as_str(), default_name);
        keys.push(SortKey { rank: if d { 0 } else { 1 }, text: chars_of(interfaces[k].name.as_str()) });
        k = k + 1;
    }
    assert(key_views(keys@) =~= keys_of(interfaces@, |i: NetInterface| iface_key(i, opt_view(default_name))));
    sort_rows_by_keys(interfaces, &keys, false);
}

// ---- the tab's state ---------------------------------------------------------------

/// Which systemd manager the Services sub-view lists.
#[derive(Clone, Copy, Debug, PartialEq, Eq, Structural)]
pub enum SvcScope {
    System,
    User,
}

/// A configured kubeconfig context; `current` marks kubeconfig's own current context.
#[derive(Clone, Debug, PartialEq, Eq)]
pub struct KubeContext {
    pub name: String,
    pub current: bool,
}

/// How a probe of an optional tool (docker, kubectl) failed: the tool is absent, or
/// it answered with an error (its message).
#[derive(Clone, Debug, PartialEq, Eq)]
pub enum ToolError {
    NotInstalled,
    Failed(String),
}

/// The loads a paint of the tab starts: the ports/interfaces probe, the services list
/// (for the given manager), the containers list, and the Kubernetes fetch (its
/// generation and the context it is scoped to).
#[derive(Debug, PartialEq, Eq)]
pub struct PaintLoads {
    pub ports: bool,
    pub services: Option<SvcScope>,
    pub docker: bool,
    pub kube: Option<(u64, Option<String>)>,
}

/// The Network tab's state: the active sub-view, the interfaces strip (all
/// interfaces, the filtered visible and hidden groups, the default route, whether the
/// hidden group is open), and for each probe whether it has loaded, whether a fetch is
/// in flight, and its error. The tables' rows are handed to their owner as fetches
/// complete. Kubernetes fetches carry a generation: only the newest one applies.
#[derive(Debug)]
pub struct NetworkTabState {
    pub loaded: bool,
    pub refreshing: bool,
    pub sub_tab: NetSubTab,
    pub interfaces: Vec<NetInterface>,
    pub visible_interfaces: Vec<NetInterface>,
    pub hidden_interfaces: Vec<NetInterface>,
    pub default_route: Option<String>,
    pub interfaces_expanded: bool,
    pub error: Option<String>,
    pub svc_scope: SvcScope,
    pub svc_loaded: bool,
    pub svc_refreshing: bool,
    pub svc_error: Option<String>,
    pub docker_loaded: bool,
    pub docker_refreshing: bool,
    pub docker_not_installed: bool,
    pub docker_error: Option<String>,
    pub kube_contexts: Vec<KubeContext>,
    pub kube_selected_context: Option<String>,
    pub kube_loaded: bool,
    pub kube_refreshing: bool,
    pub kube_fetch_generation: u64,
    pub kube_not_installed: bool,
    pub kube_error: Option<String>,
}

/// The interfaces the strip shows for a default route and a filter needle.
pub open spec fn visible_group(ifaces: Seq<NetInterface>, dn: Option<Seq<char>>, needle: Seq<char>) -> Seq<
    NetInterface,
> {
    ifaces.filter(|i: NetInterface| !iface_hidden(i, dn) && iface_matches(i, needle))
}

/// The interfaces the strip folds into its hidden group.
pub open spec fn hidden_group(ifaces: Seq<NetInterface>, dn: Option<Seq<char>>, needle: Seq<char>) -> Seq<
    NetInterface,
> {
    ifaces.filter(|i: NetInterface| iface_hidden(i, dn) && iface_matches(i, needle))
}

/// The characters of an optional owned name.
pub open spec fn opt_string_view(o: Option<String>) -> Option<Seq<char>> {
    match o {
        Some(d) => Some(d@),
        None => None,
    }
}

/// The next fetch generation (wrapping past the largest).
pub open spec fn next_generation(g: u64) -> u64 {
    if g < u64::MAX {
        (g + 1) as u64
    } else {
        0
    }
}

fn bump(g: u64) -> (r: u64)
    ensures
        r == next_generation(g),
{
    if g < u64::MAX {
        g + 1
    } else {
        0
    }
}

/// `a` is a copy of `b`: the same name, addresses, counters and state.
pub open spec fn same_iface(a: NetInterface, b: NetInterface) -> bool {
    a.name == b.name && a.addrs@ == b.addrs@ && a.rx_bytes == b.rx_bytes && a.tx_bytes
        == b.tx_bytes && a.is_up == b.is_up
}

/// `a` holds a copy of each interface of `b`, in order.
pub open spec fn copies_of(a: Seq<NetInterface>, b: Seq<NetInterface>) -> bool {
    a.len() == b.len() && forall|k: int| 0 <= k < a.len() ==> same_iface(#[trigger] a[k], b[k])
}

/// A copy of an interface.
pub fn copy_iface(i: &NetInterface) -> (r: NetInterface)
    ensures
        same_iface(r, *i),
{
    NetInterface {
        name: i.name.clone(),
        addrs: copy_strings(&i.addrs),
        rx_bytes: i.rx_bytes,
        tx_bytes: i.tx_bytes,
        is_up: i.is_up,
    }
}

fn owned_ifaces(v: &Vec<&NetInterface>) -> (out: Vec<NetInterface>)
    ensures
        copies_of(out@, derefs(v@)),
{
    let mut out: Vec<NetInterface> = Vec::new();
    let mut i: usize = 0;
    while i < v.len()
        invariant
            i <= v.len(),
            copies_of(out@, derefs(v@).take(i as int)),
        decreases v.len() - i,
    {
        out.push(copy_iface(v[i]));
        i = i + 1;
    }
    assert(derefs(v@).take(v.len() as int) =~= derefs(v@));
    out
}

/// The prefix a join failure's message gets: which probe task died.
pub fn panicked(probe: &str, join_error: &str) -> (r: String)
    ensures
        r@ == probe@ + " probe task panicked: "@ + join_error@,
{
    let mut r = String::from_str(probe);
    push_all(&mut r, &chars_of(" probe task panicked: "));
    push_all(&mut r, &chars_of(join_error));
    r
}

/// The status line of the active sub-view, given the row counts of the four tables.
pub open spec fn status_spec(
    s: NetworkTabState,
    ports: nat,
    services: nat,
    containers: nat,
    pods: nat,
) -> Seq<char> {
    match s.sub_tab {
        NetSubTab::Ports => match s.error {
            Some(e) => "error: "@ + e@,
            None => if s.refreshing {
                "refreshing…"@
            } else {
                decimal(ports) + " listening ports"@
            },
        },
        NetSubTab::Services => match s.svc_error {
            Some(e) => "error: "@ + e@,
            None => if s.svc_refreshing {
                "refreshing…"@
            } else {
                decimal(services) + (if s.svc_scope == SvcScope::User {
                    " user services"@
                } else {
                    " system services"@
                })
            },
        },
        NetSubTab::Interfaces => match s.error {
            Some(e) => "error: "@ + e@,
            None => decimal(s.interfaces@.len()) + " interfaces"@,
        },
        NetSubTab::Docker => if s.docker_not_installed {
            "docker not installed — no daemon reachable"@
        } else {
            match s.docker_error {
                Some(e) => "error: "@ + e@,
                None => if s.docker_refreshing {
                    "refreshing…"@
                } else {
                    decimal(containers) + " containers"@
                },
            }
        },
        NetSubTab::Kubernetes => if s.kube_not_installed {
            "kubectl not installed — no cluster"@
        } else {
            match s.kube_error {
                Some(e) => "error: "@ + e@,
                None => if s.kube_refreshing {
                    "refreshing…"@
                } else {
                    decimal(s.kube_contexts@.len()) + " contexts · "@ + decimal(pods) + " pods"@
                },
            }
        },
    }
}

/// Whether a context chip is lit, and its label: the chosen context is lit, or —
/// nothing chosen yet — kubeconfig's current one, which also carries a `★`.
pub fn context_chip(ctx: &KubeContext, selected: &Option<String>) -> (r: (bool, String))
    ensures
        r.0 == match selected {
            Some(n) => n@ == ctx.name@,
            None => ctx.current,
        },
        r.1@ == (if ctx.current {
            "★ "@ + ctx.name@
        } else {
            ctx.name@
        }),
{
    let active = match selected {
        Some(n) => str_eq(n.as_str(), ctx.name.as_str()),
        None => ctx.current,
    };
    let label = if ctx.current {
        cat("★ ", ctx.name.as_str())
    } else {
        ctx.name.clone()
    };
    (active, label)
}

impl NetworkTabState {
    /// The tab before its first paint: Ports shown, nothing loaded, the system manager
    /// selected, generation 0.
    pub fn new() -> (s: NetworkTabState)
        ensures
            !s.loaded && !s.refreshing && s.sub_tab == NetSubTab::Ports,
            s.interfaces@.len() == 0 && s.visible_interfaces@.len() == 0
                && s.hidden_interfaces@.len() == 0,
            s.default_route is None && !s.interfaces_expanded && s.error is None,
            s.svc_scope == SvcScope::System && !s.svc_loaded && !s.svc_refreshing
                && s.svc_error is None,
            !s.docker_loaded && !s.docker_refreshing && !s.docker_not_installed
                && s.docker_error is None,
            s.kube_contexts@.len() == 0 && s.kube_selected_context is None && !s.kube_loaded
                && !s.kube_refreshing && s.kube_fetch_generation == 0 && !s.kube_not_installed
                && s.kube_error is None,
    {
        NetworkTabState {
            loaded: false,
            refreshing: false,
            sub_tab: NetSubTab::Ports,
            interfaces: Vec::new(),
            visible_interfaces: Vec::new(),
            hidden_interfaces: Vec::new(),
            default_route: None,
            interfaces_expanded: false,
            error: None,
            svc_scope: SvcScope::System,
            svc_loaded: false,
            svc_refreshing: false,
            svc_error: None,
            docker_loaded: false,
            docker_refreshing: false,
            docker_not_installed: false,
            docker_error: None,
            kube_contexts: Vec::new(),
            kube_selected_context: None,
            kube_loaded: false,
            kube_refreshing: false,
            kube_fetch_generation: 0,
            kube_not_installed: false,
            kube_error: None,
        }
    }

    /// Recompute the strip's visible and hidden groups from the interfaces, the
    /// default route and the filter `query`; nothing else changes.
    pub fn recompute_interfaces(&mut self, query: &str)
        ensures
            copies_of(
                final(self).visible_interfaces@,
                visible_group(
                    old(self).interfaces@,
                    opt_string_view(old(self).default_route),
                    filter_needle(query@),
                ),
            ),
            copies_of(
                final(self).hidden_interfaces@,
                hidden_group(
                    old(self).interfaces@,
                    opt_string_view(old(self).default_route),
                    filter_needle(query@),
                ),
            ),
            *final(self) == (NetworkTabState {
                visible_interfaces: final(self).visible_interfaces,
                hidden_interfaces: final(self).hidden_interfaces,
                ..*old(self)
            }),
    {
        let dn = match &self.default_route {
            Some(d) => Some(d.as_str()),
            None => None,
        };
        let (v, h) = interface_groups(&self.interfaces, dn, query);
        let visible = owned_ifaces(&v);
        let hidden = owned_ifaces(&h);
        self.visible_interfaces = visible;
        self.hidden_interfaces = hidden;
    }

    /// Start the ports/interfaces probe, unless one is in flight (then nothing
    /// changes): marks it in flight and clears its error.
    pub fn begin_refresh(&mut self) -> (started: bool)
        ensures
            started == !old(self).refreshing,
            !started ==> *final(self) == *old(self),
            started ==> *final(self) == (NetworkTabState {
                refreshing: true,
                error: None,
                ..*old(self)
            }),
    {
        if self.refreshing {
            return false;
        }
        self.refreshing = true;
        self.error = None;
        true
    }

    /// Apply the ports/interfaces probe's outcome: `Err` when the task died (its
    /// message), else the ports, the interfaces and the default route's name. The
    /// interfaces are stored default-route first, then by name, and the strip is
    /// recomputed for `query`; the error is the first of the two that failed (a failed
    /// route lookup means no default route). Returns the ports for the ports table.
    pub fn finish_refresh(
        &mut self,
        outcome: Result<
            (Result<Vec<ListeningPort>, String>, Result<Vec<NetInterface>, String>, Result<
                Option<String>,
                String,
            >),
            String,
        >,
        query: &str,
    ) -> (ports: Option<Vec<ListeningPort>>)
        ensures
            !final(self).refreshing,
            final(self).loaded == old(self).loaded,
            final(self).sub_tab == old(self).sub_tab,
            final(self).interfaces_expanded == old(self).interfaces_expanded,
            final(self).svc_scope == old(self).svc_scope,
            match outcome {
                Err(j) => ports is None && final(self).interfaces == old(self).interfaces
                    && final(self).default_route == old(self).default_route && (final(
                    self).error matches Some(e) && e@ == "network"@ + " probe task panicked: "@
                    + j@),
                Ok((pr, ir, rr)) => {
                    &&& match pr {
                        Ok(p) => ports == Some(p),
                        Err(_) => ports is None,
                    }
                    &&& final(self).error == match pr {
                        Err(e) => Some(e),
                        Ok(_) => match ir {
                            Err(e) => Some(e),
                            Ok(_) => None,
                        },
                    }
                    &&& match ir {
                        Err(_) => final(self).interfaces == old(self).interfaces
                            && final(self).default_route == old(self).default_route,
                        Ok(ifaces) => {
                            let dn = match rr {
                                Ok(d) => d,
                                Err(_) => None,
                            };
                            &&& final(self).default_route == dn
                            &&& sorted_by_keys_from(
                                final(self).interfaces@,
                                ifaces@,
                                keys_of(ifaces@, |i: NetInterface| iface_key(i, opt_string_view(dn))),
                                false,
                            )
                            &&& copies_of(
                                final(self).visible_interfaces@,
                                visible_group(
                                    final(self).interfaces@,
                                    opt_string_view(dn),
                                    filter_needle(query@),
                                ),
                            )
                            &&& copies_of(
                                final(self).hidden_interfaces@,
                                hidden_group(
                                    final(self).interfaces@,
                                    opt_string_view(dn),
                                    filter_needle(query@),
                                ),
                            )
                        },
                    }
                },
            },
    {
        self.refreshing = false;
        match outcome {
            Err(j) => {
                self.error = Some(panicked("network", j.as_str()));
                None
            },
            Ok((pr, ir, rr)) => {
                let mut err: Option<String> = None;
                let ports = match pr {
                    Ok(p) => Some(p),
                    Err(e) => {
                        err = Some(e);
                        None
                    },
                };
                match ir {
                    Ok(ifaces) => {
                        let dn = match rr {
                            Ok(d) => d,
                            Err(_) => None,
                        };
                        let mut ifaces = ifaces;
                        sort_interfaces_default_first(
                            &mut ifaces,
                            match &dn {
                                Some(d) => Some(d.as_str()),
                                None => None,
                            },
                        );
                        self.default_route = dn;
                        self.interfaces = ifaces;
                        self.recompute_interfaces(query);
                    },
                    Err(e) => {
                        if err.is_none() {
                            err = Some(e);
                        }
                    },
                }
                self.error = err;
                ports
            },
        }
    }

    /// Start the services fetch for the selected manager, unless one is in flight
    /// (then nothing changes): marks it in flight and clears its error.
    pub fn begin_services_refresh(&mut self) -> (scope: Option<SvcScope>)
        ensures
            old(self).svc_refreshing ==> scope is None && *final(self) == *old(self),
            !old(self).svc_refreshing ==> scope == Some(old(self).svc_scope) && *final(self) == (
            NetworkTabState { svc_refreshing: true, svc_error: None, ..*old(self) }),
    {
        if self.svc_refreshing {
            return None;
        }
        self.svc_refreshing = true;
        self.svc_error = None;
        Some(self.svc_scope)
    }

    /// Apply the services fetch's outcome (outer `Err`: the task died): the fetch is
    /// over and counts as loaded; the units go to the services table, a failure to the
    /// error.
    pub fn finish_services(&mut self, outcome: Result<Result<Vec<ServiceInfo>, String>, String>) -> (rows:
        Option<Vec<ServiceInfo>>)
        ensures
            *final(self) == (NetworkTabState {
                svc_refreshing: false,
                svc_loaded: true,
                svc_error: final(self).svc_error,
                ..*old(self)
            }),
            match outcome {
                Ok(Ok(v)) => rows == Some(v) && final(self).svc_error == old(self).svc_error,
                Ok(Err(e)) => rows is None && final(self).svc_error == Some(e),
                Err(j) => rows is None && (final(self).svc_error matches Some(e) && e@
                    == "service"@ + " probe task panicked: "@ + j@),
            },
    {
        self.svc_refreshing = false;
        self.svc_loaded = true;
        match outcome {
            Ok(Ok(v)) => Some(v),
            Ok(Err(e)) => {
                self.svc_error = Some(e);
                None
            },
            Err(j) => {
                self.svc_error = Some(panicked("service", j.as_str()));
                None
            },
        }
    }

    /// Switch the services manager: a different one needs a fresh list (system and
    /// user units are disjoint), so it is marked not loaded. Says whether it changed.
    pub fn set_svc_scope(&mut self, scope: SvcScope) -> (changed: bool)
        ensures
            changed == (old(self).svc_scope != scope),
            !changed ==> *final(self) == *old(self),
            changed ==> *final(self) == (NetworkTabState {
                svc_scope: scope,
                svc_loaded: false,
                ..*old(self)
            }),
    {
        if self.svc_scope == scope {
            return false;
        }
        self.svc_scope = scope;
        self.svc_loaded = false;
        true
    }

    /// Start the containers fetch, unless one is in flight (then nothing changes):
    /// marks it in flight and clears its error and the not-installed notice.
    pub fn begin_docker_refresh(&mut self) -> (started: bool)
        ensures
            started == !old(self).docker_refreshing,
            !started ==> *final(self) == *old(self),
            started ==> *final(self) == (NetworkTabState {
                docker_refreshing: true,
                docker_error: None,
                docker_not_installed: false,
                ..*old(self)
            }),
    {
        if self.docker_refreshing {
            return false;
        }
        self.docker_refreshing = true;
        self.docker_error = None;
        self.docker_not_installed = false;
        true
    }

    /// Apply the containers fetch's outcome: the fetch is over and counts as loaded;
    /// the containers go to the table; a missing docker empties the table and shows the
    /// notice instead of an error; other failures go to the error.
    pub fn finish_docker(&mut self, outcome: Result<Result<Vec<ContainerInfo>, ToolError>, String>) -> (rows:
        Option<Vec<ContainerInfo>>)
        ensures
            *final(self) == (NetworkTabState {
                docker_refreshing: false,
                docker_loaded: true,
                docker_error: final(self).docker_error,
                docker_not_installed: final(self).docker_not_installed,
                ..*old(self)
            }),
            match outcome {
                Ok(Ok(v)) => rows == Some(v) && final(self).docker_error == old(self).docker_error
                    && final(self).docker_not_installed == old(self).docker_not_installed,
                Ok(Err(ToolError::NotInstalled)) => rows matches Some(v) && v@.len() == 0
                    && final(self).docker_not_installed && final(self).docker_error == old(self).docker_error,
                Ok(Err(ToolError::Failed(e))) => rows is None && final(self).docker_error == Some(
                    e,
                ) && final(self).docker_not_installed == old(self).docker_not_installed,
                Err(j) => rows is None && final(self).docker_not_installed == old(self).docker_not_installed && (final(self).docker_error matches Some(e) && e@
                    == "docker"@ + " probe task panicked: "@ + j@),
            },
    {
        self.docker_refreshing = false;
        self.docker_loaded = true;
        match outcome {
            Ok(Ok(v)) => Some(v),
            Ok(Err(ToolError::NotInstalled)) => {
                self.docker_not_installed = true;
                Some(Vec::new())
            },
            Ok(Err(ToolError::Failed(e))) => {
                self.docker_error = Some(e);
                None
            },
            Err(j) => {
                self.docker_error = Some(panicked("docker", j.as_str()));
                None
            },
        }
    }

    /// Apply a contexts fetch: the contexts, or — kubectl missing — none and the
    /// notice, or the failure as the error.
    pub fn apply_kube_contexts(&mut self, res: Result<Vec<KubeContext>, ToolError>)
        ensures
            *final(self) == (NetworkTabState {
                kube_contexts: final(self).kube_contexts,
                kube_not_installed: final(self).kube_not_installed,
                kube_error: final(self).kube_error,
                ..*old(self)
            }),
            match res {
                Ok(c) => final(self).kube_contexts == c && final(self).kube_not_installed == old(self).kube_not_installed && final(self).kube_error == old(self).kube_error,
                Err(ToolError::NotInstalled) => final(self).kube_contexts@.len() == 0 && final(self).kube_not_installed && final(self).kube_error == old(self).kube_error,
                Err(ToolError::Failed(e)) => final(self).kube_contexts == old(self).kube_contexts
                    && final(self).kube_not_installed == old(self).kube_not_installed && final(self).kube_error == Some(e),
            },
    {
        match res {
            Ok(c) => {
                self.kube_contexts = c;
            },
            Err(ToolError::NotInstalled) => {
                self.kube_not_installed = true;
                self.kube_contexts = Vec::new();
            },
            Err(ToolError::Failed(e)) => {
                self.kube_error = Some(e);
            },
        }
    }

    /// Apply a pods fetch: the pods go to the table; kubectl missing empties it and
    /// shows the notice; a failure becomes the error unless one (from the contexts
    /// fetch of the same pass) is already shown.
    pub fn apply_kube_pods(&mut self, res: Result<Vec<KubePod>, ToolError>) -> (rows: Option<Vec<KubePod>>)
        ensures
            *final(self) == (NetworkTabState {
                kube_not_installed: final(self).kube_not_installed,
                kube_error: final(self).kube_error,
                ..*old(self)
            }),
            match res {
                Ok(p) => rows == Some(p) && final(self).kube_not_installed == old(self).kube_not_installed && final(self).kube_error == old(self).kube_error,
                Err(ToolError::NotInstalled) => rows matches Some(v) && v@.len() == 0 && final(self).kube_not_installed && final(self).kube_error == old(self).kube_error,
                Err(ToolError::Failed(e)) => rows is None && final(self).kube_not_installed == old(self).kube_not_installed && final(self).kube_error == (match old(self).kube_error {
                    Some(x) => Some(x),
                    None => Some(e),
                }),
            },
    {
        match res {
            Ok(p) => Some(p),
            Err(ToolError::NotInstalled) => {
                self.kube_not_installed = true;
                Some(Vec::new())
            },
            Err(ToolError::Failed(e)) => {
                if self.kube_error.is_none() {
                    self.kube_error = Some(e);
                }
                None
            },
        }
    }

    /// Start a full Kubernetes fetch (contexts, then pods for the chosen context),
    /// unless one is in flight (then nothing changes): marks it in flight, clears the
    /// error and the notice, and takes the next generation. Returns the generation and
    /// the context to scope the pods to.
    pub fn begin_kube_refresh(&mut self) -> (r: Option<(u64, Option<String>)>)
        ensures
            old(self).kube_refreshing ==> r is None && *final(self) == *old(self),
            !old(self).kube_refreshing ==> r == Some(
                (final(self).kube_fetch_generation, old(self).kube_selected_context),
            ) && *final(self) == (NetworkTabState {
                kube_refreshing: true,
                kube_error: None,
                kube_not_installed: false,
                kube_fetch_generation: next_generation(old(self).kube_fetch_generation),
                ..*old(self)
            }),
    {
        if self.kube_refreshing {
            return None;
        }
        self.kube_refreshing = true;
        self.kube_error = None;
        self.kube_not_installed = false;
        self.kube_fetch_generation = bump(self.kube_fetch_generation);
        let selected = match &self.kube_selected_context {
            Some(n) => Some(n.clone()),
            None => None,
        };
        Some((self.kube_fetch_generation, selected))
    }

    /// Apply a full Kubernetes fetch of generation `generation` (outer `Err`: the task
    /// died). The tab counts as loaded either way; a superseded fetch changes nothing
    /// else and hands back no rows.
    pub fn finish_kube(
        &mut self,
        generation: u64,
        outcome: Result<(Result<Vec<KubeContext>, ToolError>, Result<Vec<KubePod>, ToolError>), String>,
    ) -> (rows: Option<Vec<KubePod>>)
        ensures
            final(self).kube_loaded,
            generation != old(self).kube_fetch_generation ==> rows is None && *final(self) == (
            NetworkTabState { kube_loaded: true, ..*old(self) }),
            generation == old(self).kube_fetch_generation ==> !final(self).kube_refreshing
                && final(self).kube_fetch_generation == generation,
            generation == old(self).kube_fetch_generation && outcome is Err ==> rows is None
                && final(self).kube_contexts == old(self).kube_contexts && (final(self).kube_error matches Some(e)
                && e@ == "kube"@ + " probe task panicked: "@ + outcome->Err_0@),
            generation == old(self).kube_fetch_generation && outcome is Ok ==> ({
                let (cr, pr) = outcome->Ok_0;
                &&& match cr {
                    Ok(c) => final(self).kube_contexts == c,
                    Err(ToolError::NotInstalled) => final(self).kube_contexts@.len() == 0,
                    Err(ToolError::Failed(_)) => final(self).kube_contexts == old(self).kube_contexts,
                }
                &&& final(self).kube_not_installed == (old(self).kube_not_installed
                    || cr == Err::<Vec<KubeContext>, ToolError>(ToolError::NotInstalled)
                    || pr == Err::<Vec<KubePod>, ToolError>(ToolError::NotInstalled))
                &&& final(self).kube_error == match cr {
                    Err(ToolError::Failed(e)) => Some(e),
                    _ => match old(self).kube_error {
                        Some(x) => Some(x),
                        None => match pr {
                            Err(ToolError::Failed(e)) => Some(e),
                            _ => None,
                        },
                    },
                }
                &&& match pr {
                    Ok(p) => rows == Some(p),
                    Err(ToolError::NotInstalled) => rows matches Some(v) && v@.len() == 0,
                    Err(ToolError::Failed(_)) => rows is None,
                }
            }),
            final(self).sub_tab == old(self).sub_tab,
            final(self).kube_selected_context == old(self).kube_selected_context,
    {
        self.kube_loaded = true;
        if !should_apply_pods(self.kube_fetch_generation, generation) {
            return None;
        }
        self.kube_refreshing = false;
        match outcome {
            Ok((cr, pr)) => {
                self.apply_kube_contexts(cr);
                self.apply_kube_pods(pr)
            },
            Err(j) => {
                self.kube_error = Some(panicked("kube", j.as_str()));
                None
            },
        }
    }

    /// Start a pods-only fetch for the chosen context. It does not wait for one in
    /// flight: it takes the next generation, which makes any earlier fetch stale.
    /// Returns the generation and the context.
    pub fn begin_kube_pods_refresh(&mut self) -> (r: (u64, Option<String>))
        ensures
            r == (final(self).kube_fetch_generation, old(self).kube_selected_context),
            *final(self) == (NetworkTabState {
                kube_refreshing: true,
                kube_error: None,
                kube_fetch_generation: next_generation(old(self).kube_fetch_generation),
                ..*old(self)
            }),
    {
        self.kube_refreshing = true;
        self.kube_error = None;
        self.kube_fetch_generation = bump(self.kube_fetch_generation);
        let selected = match &self.kube_selected_context {
            Some(n) => Some(n.clone()),
            None => None,
        };
        (self.kube_fetch_generation, selected)
    }

    /// Apply a pods-only fetch of generation `generation`: a superseded one changes
    /// nothing at all; the current one ends the fetch and is applied as
    /// [`Self::apply_kube_pods`] says (outer `Err`: the task died).
    pub fn finish_kube_pods(&mut self, generation: u64, outcome: Result<Result<Vec<KubePod>, ToolError>, String>) -> (rows:
        Option<Vec<KubePod>>)
        ensures
            generation != old(self).kube_fetch_generation ==> rows is None && *final(self)
                == *old(self),
            generation == old(self).kube_fetch_generation ==> !final(self).kube_refreshing && (
            match outcome {
                Err(j) => rows is None && final(self).kube_not_installed == old(self).kube_not_installed && (final(self).kube_error matches Some(e) && e@ == "kube"@
                    + " probe task panicked: "@ + j@),
                Ok(Ok(p)) => rows == Some(p) && final(self).kube_not_installed == old(self).kube_not_installed && final(self).kube_error == old(self).kube_error,
                Ok(Err(ToolError::NotInstalled)) => rows matches Some(v) && v@.len() == 0
                    && final(self).kube_not_installed && final(self).kube_error == old(self).kube_error,
                Ok(Err(ToolError::Failed(e))) => rows is None && final(self).kube_not_installed
                    == old(self).kube_not_installed && final(self).kube_error == (match old(self).kube_error {
                    Some(x) => Some(x),
                    None => Some(e),
                }),
            }) && *final(self) == (NetworkTabState {
                kube_refreshing: false,
                kube_not_installed: final(self).kube_not_installed,
                kube_error: final(self).kube_error,
                ..*old(self)
            }),
    {
        if !should_apply_pods(self.kube_fetch_generation, generation) {
            return None;
        }
        self.kube_refreshing = false;
        match outcome {
            Ok(pr) => self.apply_kube_pods(pr),
            Err(j) => {
                self.kube_error = Some(panicked("kube", j.as_str()));
                None
            },
        }
    }

    /// Choose the pods table's context (`None`: kubectl's own current one). The same
    /// choice changes nothing; another starts a pods-only fetch for it, whose
    /// generation and context are returned.
    pub fn select_kube_context(&mut self, name: Option<String>) -> (r: Option<(u64, Option<String>)>)
        ensures
            opt_string_view(old(self).kube_selected_context) == opt_string_view(name) ==> r is None
                && *final(self) == *old(self),
            opt_string_view(old(self).kube_selected_context) != opt_string_view(name) ==> r == Some(
                (final(self).kube_fetch_generation, name),
            ) && *final(self) == (NetworkTabState {
                kube_selected_context: name,
                kube_refreshing: true,
                kube_error: None,
                kube_fetch_generation: next_generation(old(self).kube_fetch_generation),
                ..*old(self)
            }),
    {
        let same = match (&self.kube_selected_context, &name) {
            (Some(a), Some(b)) => str_eq(a.as_str(), b.as_str()),
            (None, None) => true,
            _ => false,
        };
        if same {
            return None;
        }
        self.kube_selected_context = name;
        Some(self.begin_kube_pods_refresh())
    }

    /// A paint of the tab: the first one starts the ports/interfaces probe; showing a
    /// sub-view whose data has not loaded starts its fetch — each only when none of its
    /// kind is in flight. Each fetch started is marked running with its error cleared
    /// (a Kubernetes fetch also takes the next generation, the one its result must
    /// carry), so a second paint starts no duplicate; nothing else changes.
    pub fn paint(&mut self) -> (loads: PaintLoads)
        ensures
            loads.ports == (!old(self).loaded && !old(self).refreshing),
            *final(self) == (NetworkTabState {
                loaded: true,
                refreshing: if loads.ports {
                    true
                } else {
                    old(self).refreshing
                },
                error: if loads.ports {
                    None
                } else {
                    old(self).error
                },
                svc_refreshing: if loads.services is Some {
                    true
                } else {
                    old(self).svc_refreshing
                },
                svc_error: if loads.services is Some {
                    None
                } else {
                    old(self).svc_error
                },
                docker_refreshing: if loads.docker {
                    true
                } else {
                    old(self).docker_refreshing
                },
                docker_error: if loads.docker {
                    None
                } else {
                    old(self).docker_error
                },
                docker_not_installed: if loads.docker {
                    false
                } else {
                    old(self).docker_not_installed
                },
                kube_refreshing: if loads.kube is Some {
                    true
                } else {
                    old(self).kube_refreshing
                },
                kube_error: if loads.kube is Some {
                    None
                } else {
                    old(self).kube_error
                },
                kube_not_installed: if loads.kube is Some {
                    false
                } else {
                    old(self).kube_not_installed
                },
                kube_fetch_generation: if loads.kube is Some {
                    next_generation(old(self).kube_fetch_generation)
                } else {
                    old(self).kube_fetch_generation
                },
                ..*old(self)
            }),
            loads.services is Some == (old(self).sub_tab == NetSubTab::Services
                && !old(self).svc_loaded && !old(self).svc_refreshing),
            loads.services is Some ==> loads.services == Some(old(self).svc_scope),
            loads.docker == (old(self).sub_tab == NetSubTab::Docker && !old(self).docker_loaded
                && !old(self).docker_refreshing),
            loads.kube is Some == (old(self).sub_tab == NetSubTab::Kubernetes
                && !old(self).kube_loaded && !old(self).kube_refreshing),
            loads.kube is Some ==> loads.kube == Some(
                (next_generation(old(self).kube_fetch_generation), old(self).kube_selected_context),
            ),
    {
        let mut ports = false;
        if !self.loaded {
            self.loaded = true;
            ports = self.begin_refresh();
        }
        let services = if self.sub_tab == NetSubTab::Services && !self.svc_loaded {
            self.begin_services_refresh()
        } else {
            None
        };
        let docker = if self.sub_tab == NetSubTab::Docker && !self.docker_loaded {
            self.begin_docker_refresh()
        } else {
            false
        };
        let kube = if self.sub_tab == NetSubTab::Kubernetes && !self.kube_loaded {
            self.begin_kube_refresh()
        } else {
            None
        };
        PaintLoads { ports, services, docker, kube }
    }

    /// Whether the active sub-view's fetch is in flight (the refresh button then shows
    /// `…`).
    pub fn active_refreshing(&self) -> (b: bool)
        ensures
            b == match self.sub_tab {
                NetSubTab::Services => self.svc_refreshing,
                NetSubTab::Ports | NetSubTab::Interfaces => self.refreshing,
                NetSubTab::Docker => self.docker_refreshing,
                NetSubTab::Kubernetes => self.kube_refreshing,
            },
    {
        match self.sub_tab {
            NetSubTab::Services => self.svc_refreshing,
            NetSubTab::Ports | NetSubTab::Interfaces => self.refreshing,
            NetSubTab::Docker => self.docker_refreshing,
            NetSubTab::Kubernetes => self.kube_refreshing,
        }
    }

    /// The active sub-view's status line, given the tables' row counts.
    pub fn status_line(&self, ports: usize, services: usize, containers: usize, pods: usize) -> (t: String)
        ensures
            t@ == status_spec(*self, ports as nat, services as nat, containers as nat, pods as nat),
    {
        match self.sub_tab {
            NetSubTab::Ports => match &self.error {
                Some(e) => cat("error: ", e.as_str()),
                None => if self.refreshing {
                    String::from_str("refreshing…")
                } else {
                    let n = decimal_string(ports as u128);
                    cat(n.as_str(), " listening ports")
                },
            },
            NetSubTab::Services => match &self.svc_error {
                Some(e) => cat("error: ", e.as_str()),
                None => if self.svc_refreshing {
                    String::from_str("refreshing…")
                } else {
                    let n = decimal_string(services as u128);
                    if self.svc_scope == SvcScope::User {
                        cat(n.as_str(), " user services")
                    } else {
                        cat(n.as_str(), " system services")
                    }
                },
            },
            NetSubTab::Interfaces => match &self.error {
                Some(e) => cat("error: ", e.as_str()),
                None => {
                    let n = decimal_string(self.interfaces.len() as u128);
                    cat(n.as_str(), " interfaces")
                },
            },
            NetSubTab::Docker => if self.docker_not_installed {
                String::from_str("docker not installed — no daemon reachable")
            } else {
                match &self.docker_error {
                    Some(e) => cat("error: ", e.as_str()),
                    None => if self.docker_refreshing {
                        String::from_str("refreshing…")
                    } else {
                        let n = decimal_string(containers as u128);
                        cat(n.as_str(), " containers")
                    },
                }
            },
            NetSubTab::Kubernetes => if self.kube_not_installed {
                String::from_str("kubectl not installed — no cluster")
            } else {
                match &self.kube_error {
                    Some(e) => cat("error: ", e.as_str()),
                    None => if self.kube_refreshing {
                        String::from_str("refreshing…")
                    } else {
                        let c = decimal_string(self.kube_contexts.len() as u128);
                        let head = cat(c.as_str(), " contexts · ");
                        let p = decimal_string(pods as u128);
                        let tail = cat(p.as_str(), " pods");
                        let r = cat(head.as_str(), tail.as_str());
                        assert(r@ =~= decimal(self.kube_contexts@.len()) + " contexts · "@ + decimal(
                            pods as nat,
                        ) + " pods"@);
                        r
                    },
                }
            },
        }
    }
}

/// A newer Kubernetes fetch strands the older one: each start takes the next
/// generation, so the older fetch — which carries the previous generation — changes
/// nothing when it finishes ([`NetworkTabState::finish_kube`],
/// [`NetworkTabState::finish_kube_pods`]).
pub proof fn law_a_newer_fetch_strands_the_older(before: NetworkTabState, after: NetworkTabState)
    requires
        after.kube_fetch_generation == next_generation(before.kube_fetch_generation),
    ensures
        after.kube_fetch_generation != before.kube_fetch_generation,
{
}

// ---- the ports and services tables -------------------------------------------------

/// The ports table: every probed socket, the rows shown (filtered, then sorted), the
/// filter text, the armed kill, the last kill's error, each column's sort marker
/// (`None` for the action column) and the sort in force.
#[derive(Debug)]
pub struct PortsTable {
    pub all_ports: Vec<ListeningPort>,
    pub ports: Vec<ListeningPort>,
    pub query: String,
    pub armed_kill: Option<Pid>,
    pub kill_error: Option<String>,
    pub sorts: Vec<Option<ColumnSort>>,
    pub active_sort: Option<(usize, SortDir)>,
}

impl PortsTable {
    /// An empty table: five sortable columns (proto, port, addr, pid, process) and the
    /// kill column.
    pub fn new() -> (t: PortsTable)
        ensures
            t.all_ports@.len() == 0 && t.ports@.len() == 0 && t.query@.len() == 0,
            t.armed_kill is None && t.kill_error is None && t.active_sort is None,
            t.sorts@ == seq![
                Some(ColumnSort::Default),
                Some(ColumnSort::Default),
                Some(ColumnSort::Default),
                Some(ColumnSort::Default),
                Some(ColumnSort::Default),
                None::<ColumnSort>,
            ],
    {
        let mut sorts: Vec<Option<ColumnSort>> = Vec::new();
        sorts.push(Some(ColumnSort::Default));
        sorts.push(Some(ColumnSort::Default));
        sorts.push(Some(ColumnSort::Default));
        sorts.push(Some(ColumnSort::Default));
        sorts.push(Some(ColumnSort::Default));
        sorts.push(None);
        PortsTable {
            all_ports: Vec::new(),
            ports: Vec::new(),
            query: String::new(),
            armed_kill: None,
            kill_error: None,
            sorts,
            active_sort: None,
        }
    }

    /// Re-derive the rows shown from every socket, the filter and the sort.
    pub fn recompute(&mut self)
        ensures
            ports_shown(final(self).ports@, old(self).all_ports@, old(self).query@, old(self).active_sort),
            final(self).all_ports == old(self).all_ports,
            final(self).query == old(self).query,
            final(self).armed_kill == old(self).armed_kill,
            final(self).kill_error == old(self).kill_error,
            final(self).sorts == old(self).sorts,
            final(self).active_sort == old(self).active_sort,
    {
        self.ports = ports_view(&self.all_ports, self.query.as_str(), self.active_sort);
    }

    /// A fresh probe's sockets: the rows are re-derived, and a pending kill is disarmed
    /// (the rows changed under it).
    pub fn set_ports(&mut self, ports: Vec<ListeningPort>)
        ensures
            final(self).all_ports == ports,
            final(self).armed_kill is None,
            ports_shown(final(self).ports@, ports@, old(self).query@, old(self).active_sort),
            final(self).query == old(self).query,
            final(self).kill_error == old(self).kill_error,
            final(self).sorts == old(self).sorts,
            final(self).active_sort == old(self).active_sort,
    {
        self.all_ports = ports;
        self.armed_kill = None;
        self.recompute();
    }

    /// A new filter text: the rows are re-derived; the sort stays.
    pub fn set_query(&mut self, query: &str)
        ensures
            final(self).query@ == query@,
            ports_shown(final(self).ports@, old(self).all_ports@, query@, old(self).active_sort),
            final(self).all_ports == old(self).all_ports,
            final(self).armed_kill == old(self).armed_kill,
            final(self).kill_error == old(self).kill_error,
            final(self).sorts == old(self).sorts,
            final(self).active_sort == old(self).active_sort,
    {
        self.query = String::from_str(query);
        self.recompute();
    }

    /// A header click cycled column `col_ix` to `sort`: its marker shows it (the others
    /// reset), the sort in force follows (`Default` clears it), and the rows re-derive.
    pub fn perform_sort(&mut self, col_ix: usize, sort: ColumnSort)
        ensures
            final(self).active_sort == match dir_of(sort) {
                Some(d) => Some((col_ix, d)),
                None => None,
            },
            final(self).sorts@.len() == old(self).sorts@.len(),
            forall|i: int|
                0 <= i < old(self).sorts@.len() ==> #[trigger] final(self).sorts@[i] == (if old(
                    self).sorts@[i] is None {
                    None
                } else if i == col_ix {
                    Some(sort)
                } else {
                    Some(ColumnSort::Default)
                }),
            ports_shown(final(self).ports@, old(self).all_ports@, old(self).query@, final(self).active_sort),
            final(self).all_ports == old(self).all_ports,
            final(self).armed_kill == old(self).armed_kill,
            final(self).kill_error == old(self).kill_error,
    {
        mark_column_sort(&mut self.sorts, col_ix, sort);
        self.active_sort = match SortDir::from_column_sort(sort) {
            Some(d) => Some((col_ix, d)),
            None => None,
        };
        self.recompute();
    }

    /// A click on a row's kill button: the second click on the armed pid executes
    /// (disarming and clearing the last error); any other arms this pid. Says whether to
    /// send the signal.
    pub fn kill_click(&mut self, pid: Pid) -> (execute: bool)
        ensures
            execute == (old(self).armed_kill == Some(pid)),
            execute ==> final(self).armed_kill is None && final(self).kill_error is None,
            !execute ==> final(self).armed_kill == Some(pid) && final(self).kill_error == old(
                self).kill_error,
            final(self).all_ports == old(self).all_ports,
            final(self).ports == old(self).ports,
            final(self).query == old(self).query,
            final(self).sorts == old(self).sorts,
            final(self).active_sort == old(self).active_sort,
    {
        if kill_click_executes(self.armed_kill, pid) {
            self.armed_kill = None;
            self.kill_error = None;
            true
        } else {
            self.armed_kill = Some(pid);
            false
        }
    }

    /// The kill of `pid` finished (outer `Err`: the task died): on success its rows
    /// leave both the sockets and the rows shown at once; a failure is the kill error.
    pub fn finish_kill(&mut self, pid: Pid, outcome: Result<Result<(), String>, String>)
        ensures
            match outcome {
                Ok(Ok(())) => final(self).all_ports@ == old(self).all_ports@.filter(
                    |p: ListeningPort| p.pid != Some(pid),
                ) && final(self).ports@ == old(self).ports@.filter(
                    |p: ListeningPort| p.pid != Some(pid),
                ) && final(self).kill_error == old(self).kill_error,
                Ok(Err(e)) => final(self).kill_error == Some(e) && final(self).all_ports == old(
                    self).all_ports && final(self).ports == old(self).ports,
                Err(j) => (final(self).kill_error matches Some(e) && e@ == "kill task panicked: "@
                    + j@) && final(self).all_ports == old(self).all_ports
                    && final(self).ports == old(self).ports,
            },
            final(self).armed_kill == old(self).armed_kill,
            final(self).query == old(self).query,
            final(self).sorts == old(self).sorts,
            final(self).active_sort == old(self).active_sort,
    {
        match outcome {
            Ok(Ok(())) => {
                drop_killed(&mut self.all_ports, pid);
                drop_killed(&mut self.ports, pid);
            },
            Ok(Err(e)) => {
                self.kill_error = Some(e);
            },
            Err(j) => {
                self.kill_error = Some(cat("kill task panicked: ", j.as_str()));
            },
        }
    }
}


/// The services table: the manager it controls, every unit listed, the rows shown,
/// the filter text, the armed (unit, action) pair, the last action's error, each
/// column's sort marker (`None` for the actions column) and the sort in force.
#[derive(Debug)]
pub struct ServicesTable {
    pub scope: SvcScope,
    pub all_services: Vec<ServiceInfo>,
    pub services: Vec<ServiceInfo>,
    pub query: String,
    pub armed_action: Option<(String, SvcAction)>,
    pub action_error: Option<String>,
    pub sorts: Vec<Option<ColumnSort>>,
    pub active_sort: Option<(usize, SortDir)>,
}

impl ServicesTable {
    /// An empty table for `scope`: four sortable columns (unit, state, sub-state,
    /// description) and the actions column.
    pub fn new(scope: SvcScope) -> (t: ServicesTable)
        ensures
            t.scope == scope,
            t.all_services@.len() == 0 && t.services@.len() == 0 && t.query@.len() == 0,
            t.armed_action is None && t.action_error is None && t.active_sort is None,
            t.sorts@ == seq![
                Some(ColumnSort::Default),
                Some(ColumnSort::Default),
                Some(ColumnSort::Default),
                Some(ColumnSort::Default),
                None::<ColumnSort>,
            ],
    {
        let mut sorts: Vec<Option<ColumnSort>> = Vec::new();
        sorts.push(Some(ColumnSort::Default));
        sorts.push(Some(ColumnSort::Default));
        sorts.push(Some(ColumnSort::Default));
        sorts.push(Some(ColumnSort::Default));
        sorts.push(None);
        ServicesTable {
            scope,
            all_services: Vec::new(),
            services: Vec::new(),
            query: String::new(),
            armed_action: None,
            action_error: None,
            sorts,
            active_sort: None,
        }
    }

    /// Follow the manager selected in the tab, so an action controls the unit there.
    pub fn set_scope(&mut self, scope: SvcScope)
        ensures
            *final(self) == (ServicesTable { scope, ..*old(self) }),
    {
        self.scope = scope;
    }

    /// Re-derive the rows shown from every unit, the filter and the sort.
    pub fn recompute(&mut self)
        ensures
            services_shown(final(self).services@, old(self).all_services@, old(self).query@, old(self).active_sort),
            *final(self) == (ServicesTable { services: final(self).services, ..*old(self) }),
    {
        self.services = services_view(&self.all_services, self.query.as_str(), self.active_sort);
    }

    /// A fresh list of units: the rows are re-derived and a pending action is
    /// disarmed (the rows changed under it).
    pub fn set_services(&mut self, services: Vec<ServiceInfo>)
        ensures
            final(self).all_services == services,
            final(self).armed_action is None,
            services_shown(final(self).services@, services@, old(self).query@, old(self).active_sort),
            final(self).scope == old(self).scope,
            final(self).query == old(self).query,
            final(self).action_error == old(self).action_error,
            final(self).sorts == old(self).sorts,
            final(self).active_sort == old(self).active_sort,
    {
        self.all_services = services;
        self.armed_action = None;
        self.recompute();
    }

    /// A new filter text: the rows are re-derived; the sort stays.
    pub fn set_query(&mut self, query: &str)
        ensures
            final(self).query@ == query@,
            services_shown(final(self).services@, old(self).all_services@, query@, old(self).active_sort),
            final(self).scope == old(self).scope,
            final(self).all_services == old(self).all_services,
            final(self).armed_action == old(self).armed_action,
            final(self).action_error == old(self).action_error,
            final(self).sorts == old(self).sorts,
            final(self).active_sort == old(self).active_sort,
    {
        self.query = String::from_str(query);
        self.recompute();
    }

    /// A header click cycled column `col_ix` to `sort`: its marker shows it (the others
    /// reset), the sort in force follows (`Default` clears it), and the rows re-derive.
    pub fn perform_sort(&mut self, col_ix: usize, sort: ColumnSort)
        ensures
            final(self).active_sort == match dir_of(sort) {
                Some(d) => Some((col_ix, d)),
                None => None,
            },
            final(self).sorts@.len() == old(self).sorts@.len(),
            forall|i: int|
                0 <= i < old(self).sorts@.len() ==> #[trigger] final(self).sorts@[i] == (if old(
                    self).sorts@[i] is None {
                    None
                } else if i == col_ix {
                    Some(sort)
                } else {
                    Some(ColumnSort::Default)
                }),
            services_shown(final(self).services@, old(self).all_services@, old(self).query@, final(self).active_sort),
            final(self).scope == old(self).scope,
            final(self).all_services == old(self).all_services,
            final(self).query == old(self).query,
            final(self).armed_action == old(self).armed_action,
            final(self).action_error == old(self).action_error,
    {
        mark_column_sort(&mut self.sorts, col_ix, sort);
        self.active_sort = match SortDir::from_column_sort(sort) {
            Some(d) => Some((col_ix, d)),
            None => None,
        };
        self.recompute();
    }

    /// A click on a unit's action button: the second click on the armed (unit, action)
    /// pair executes — disarming, clearing the last error, and handing back the unit,
    /// the action and the manager to control; any other click arms the pair.
    pub fn action_click(&mut self, name: &str, action: SvcAction) -> (perform: Option<(String, SvcAction, SvcScope)>)
        ensures
            (perform is Some) == (old(self).armed_action matches Some((n, a)) && n@ == name@ && a
                == action),
            perform matches Some((n, a, sc)) ==> n@ == name@ && a == action && sc == old(self).scope
                && final(self).armed_action is None && final(self).action_error is None,
            perform is None ==> (final(self).armed_action matches Some((n, a)) && n@ == name@ && a
                == action) && final(self).action_error == old(self).action_error,
            final(self).scope == old(self).scope,
            final(self).all_services == old(self).all_services,
            final(self).services == old(self).services,
            final(self).query == old(self).query,
            final(self).sorts == old(self).sorts,
            final(self).active_sort == old(self).active_sort,
    {
        if action_click_executes(&self.armed_action, name, action) {
            self.armed_action = None;
            self.action_error = None;
            Some((String::from_str(name), action, self.scope))
        } else {
            self.armed_action = Some((String::from_str(name), action));
            None
        }
    }

    /// The action finished (outer `Err`: the task died), with the control's outcome
    /// and the list fetched right after it: a failed control is the action error; a
    /// fetched list replaces the units (as [`ServicesTable::set_services`] does).
    pub fn finish_action(
        &mut self,
        outcome: Result<(Result<(), String>, Result<Vec<ServiceInfo>, String>), String>,
    )
        ensures
            match outcome {
                Ok((ctrl, listed)) => {
                    &&& final(self).action_error == match ctrl {
                        Err(e) => Some(e),
                        Ok(()) => old(self).action_error,
                    }
                    &&& match listed {
                        Ok(v) => final(self).all_services == v && final(self).armed_action is None
                            && services_shown(final(self).services@, v@, old(self).query@, old(self).active_sort),
                        Err(_) => final(self).all_services == old(self).all_services
                            && final(self).services == old(self).services
                            && final(self).armed_action == old(self).armed_action,
                    }
                },
                Err(j) => (final(self).action_error matches Some(e) && e@
                    == "service control task panicked: "@ + j@) && final(self).all_services == old(
                    self).all_services && final(self).services == old(self).services
                    && final(self).armed_action == old(self).armed_action,
            },
            final(self).scope == old(self).scope,
            final(self).query == old(self).query,
            final(self).sorts == old(self).sorts,
            final(self).active_sort == old(self).active_sort,
    {
        match outcome {
            Ok((ctrl, listed)) => {
                match ctrl {
                    Err(e) => {
                        self.action_error = Some(e);
                    },
                    Ok(()) => {},
                }
                match listed {
                    Ok(v) => {
                        self.set_services(v);
                    },
                    Err(_) => {},
                }
            },
            Err(j) => {
                self.action_error = Some(cat("service control task panicked: ", j.as_str()));
            },
        }
    }
}


/// The Docker table: every row fetched, the rows shown, the filter text, each
/// column's sort marker and the sort in force.
#[derive(Debug)]
pub struct ContainersTable {
    pub all_containers: Vec<ContainerInfo>,
    pub containers: Vec<ContainerInfo>,
    pub query: String,
    pub sorts: Vec<Option<ColumnSort>>,
    pub active_sort: Option<(usize, SortDir)>,
}

impl ContainersTable {
    /// An empty table: name, image, state, status and ports, all sortable.
    pub fn new() -> (t: ContainersTable)
        ensures
            t.all_containers@.len() == 0 && t.containers@.len() == 0 && t.query@.len() == 0,
            t.active_sort is None,
            t.sorts@ == seq![
                Some(ColumnSort::Default),
                Some(ColumnSort::Default),
                Some(ColumnSort::Default),
                Some(ColumnSort::Default),
                Some(ColumnSort::Default),
            ],
    {
        let mut sorts: Vec<Option<ColumnSort>> = Vec::new();
        sorts.push(Some(ColumnSort::Default));
        sorts.push(Some(ColumnSort::Default));
        sorts.push(Some(ColumnSort::Default));
        sorts.push(Some(ColumnSort::Default));
        sorts.push(Some(ColumnSort::Default));
        ContainersTable {
            all_containers: Vec::new(),
            containers: Vec::new(),
            query: String::new(),
            sorts,
            active_sort: None,
        }
    }

    /// Re-derive the rows shown from every row, the filter and the sort.
    pub fn recompute(&mut self)
        ensures
            containers_shown(final(self).containers@, old(self).all_containers@, old(self).query@, old(self).active_sort),
            *final(self) == (ContainersTable { containers: final(self).containers, ..*old(self) }),
    {
        self.containers = containers_view(&self.all_containers, self.query.as_str(), self.active_sort);
    }

    /// A fresh fetch: the rows are re-derived under the filter and sort in force.
    pub fn set_containers(&mut self, rows: Vec<ContainerInfo>)
        ensures
            final(self).all_containers == rows,
            containers_shown(final(self).containers@, rows@, old(self).query@, old(self).active_sort),
            final(self).query == old(self).query,
            final(self).sorts == old(self).sorts,
            final(self).active_sort == old(self).active_sort,
    {
        self.all_containers = rows;
        self.recompute();
    }

    /// A new filter text: the rows are re-derived; the sort stays.
    pub fn set_query(&mut self, query: &str)
        ensures
            final(self).query@ == query@,
            containers_shown(final(self).containers@, old(self).all_containers@, query@, old(self).active_sort),
            final(self).all_containers == old(self).all_containers,
            final(self).sorts == old(self).sorts,
            final(self).active_sort == old(self).active_sort,
    {
        self.query = String::from_str(query);
        self.recompute();
    }

    /// A header click cycled column `col_ix` to `sort`: its marker shows it (the others
    /// reset), the sort in force follows (`Default` clears it), and the rows re-derive.
    pub fn perform_sort(&mut self, col_ix: usize, sort: ColumnSort)
        ensures
            final(self).active_sort == match dir_of(sort) {
                Some(d) => Some((col_ix, d)),
                None => None,
            },
            final(self).sorts@.len() == old(self).sorts@.len(),
            forall|i: int|
                0 <= i < old(self).sorts@.len() ==> #[trigger] final(self).sorts@[i] == (if old(
                    self).sorts@[i] is None {
                    None
                } else if i == col_ix {
                    Some(sort)
                } else {
                    Some(ColumnSort::Default)
                }),
            containers_shown(final(self).containers@, old(self).all_containers@, old(self).query@, final(self).active_sort),
            final(self).all_containers == old(self).all_containers,
            final(self).query == old(self).query,
    {
        mark_column_sort(&mut self.sorts, col_ix, sort);
        self.active_sort = match SortDir::from_column_sort(sort) {
            Some(d) => Some((col_ix, d)),
            None => None,
        };
        self.recompute();
    }
}

/// The Kubernetes pods table: every row fetched, the rows shown, the filter text, each
/// column's sort marker and the sort in force.
#[derive(Debug)]
pub struct PodsTable {
    pub all_pods: Vec<KubePod>,
    pub pods: Vec<KubePod>,
    pub query: String,
    pub sorts: Vec<Option<ColumnSort>>,
    pub active_sort: Option<(usize, SortDir)>,
}

impl PodsTable {
    /// An empty table: namespace, name, ready, phase, restarts and node, all sortable.
    pub fn new() -> (t: PodsTable)
        ensures
            t.all_pods@.len() == 0 && t.pods@.len() == 0 && t.query@.len() == 0,
            t.active_sort is None,
            t.sorts@ == seq![
                Some(ColumnSort::Default),
                Some(ColumnSort::Default),
                Some(ColumnSort::Default),
                Some(ColumnSort::Default),
                Some(ColumnSort::Default),
                Some(ColumnSort::Default),
            ],
    {
        let mut sorts: Vec<Option<ColumnSort>> = Vec::new();
        sorts.push(Some(ColumnSort::Default));
        sorts.push(Some(ColumnSort::Default));
        sorts.push(Some(ColumnSort::Default));
        sorts.push(Some(ColumnSort::Default));
        sorts.push(Some(ColumnSort::Default));
        sorts.push(Some(ColumnSort::Default));
        PodsTable {
            all_pods: Vec::new(),
            pods: Vec::new(),
            query: String::new(),
            sorts,
            active_sort: None,
        }
    }

    /// Re-derive the rows shown from every row, the filter and the sort.
    pub fn recompute(&mut self)
        ensures
            pods_shown(final(self).pods@, old(self).all_pods@, old(self).query@, old(self).active_sort),
            *final(self) == (PodsTable { pods: final(self).pods, ..*old(self) }),
    {
        self.pods = pods_view(&self.all_pods, self.query.as_str(), self.active_sort);
    }

    /// A fresh fetch: the rows are re-derived under the filter and sort in force.
    pub fn set_pods(&mut self, rows: Vec<KubePod>)
        ensures
            final(self).all_pods == rows,
            pods_shown(final(self).pods@, rows@, old(self).query@, old(self).active_sort),
            final(self).query == old(self).query,
            final(self).sorts == old(self).sorts,
            final(self).active_sort == old(self).active_sort,
    {
        self.all_pods = rows;
        self.recompute();
    }

    /// A new filter text: the rows are re-derived; the sort stays.
    pub fn set_query(&mut self, query: &str)
        ensures
            final(self).query@ == query@,
            pods_shown(final(self).pods@, old(self).all_pods@, query@, old(self).active_sort),
            final(self).all_pods == old(self).all_pods,
            final(self).sorts == old(self).sorts,
            final(self).active_sort == old(self).active_sort,
    {
        self.query = String::from_str(query);
        self.recompute();
    }

    /// A header click cycled column `col_ix` to `sort`: its marker shows it (the others
    /// reset), the sort in force follows (`Default` clears it), and the rows re-derive.
    pub fn perform_sort(&mut self, col_ix: usize, sort: ColumnSort)
        ensures
            final(self).active_sort == match dir_of(sort) {
                Some(d) => Some((col_ix, d)),
                None => None,
            },
            final(self).sorts@.len() == old(self).sorts@.len(),
            forall|i: int|
                0 <= i < old(self).sorts@.len() ==> #[trigger] final(self).sorts@[i] == (if old(
                    self).sorts@[i] is None {
                    None
                } else if i == col_ix {
                    Some(sort)
                } else {
                    Some(ColumnSort::Default)
                }),
            pods_shown(final(self).pods@, old(self).all_pods@, old(self).query@, final(self).active_sort),
            final(self).all_pods == old(self).all_pods,
            final(self).query == old(self).query,
    {
        mark_column_sort(&mut self.sorts, col_ix, sort);
        self.active_sort = match SortDir::from_column_sort(sort) {
            Some(d) => Some((col_ix, d)),
            None => None,
        };
        self.recompute();
    }
}

} // verus!
