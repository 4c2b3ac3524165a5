use sid::network_tab::{action_button_label, cell_text, kill_button_label};
use sid::network_tab::{
    context_chip, ContainerInfo, ContainersTable, KubeContext, KubePod, ListeningPort, NetInterface, NetSubTab, NetworkTabState,
    Pid, PodsTable, PortsTable, Protocol, ServiceInfo, ServicesTable, SocketState, SortDir, SvcAction,
    SvcActiveState, SvcScope, ToolError,
};
use sid::order::ColumnSort;

fn iface(name: &str) -> NetInterface {
    NetInterface { name: name.to_string(), addrs: vec!["10.0.0.1".to_string()], rx_bytes: 1, tx_bytes: 2, is_up: true }
}

fn pod(name: &str) -> KubePod {
    KubePod {
        namespace: "default".to_string(),
        name: name.to_string(),
        ready: "1/1".to_string(),
        phase: "Running".to_string(),
        restarts: 0,
        node: "n1".to_string(),
    }
}

#[test]
fn the_first_paint_starts_the_ports_probe_once() {
    let mut s = NetworkTabState::new();
    let loads = s.paint();
    assert!(loads.ports);
    assert!(s.refreshing && s.loaded);
    let again = s.paint();
    assert!(!again.ports);
    assert!(!s.begin_refresh());
}

#[test]
fn a_finished_probe_sorts_the_default_route_first_and_splits_the_strip() {
    let mut s = NetworkTabState::new();
    assert!(s.begin_refresh());
    let port = ListeningPort {
        port: 22,
        pid: Some(Pid(1)),
        command: "sshd".to_string(),
        protocol: Protocol::Tcp,
        state: SocketState::Listen,
        local_addr: "0.0.0.0".to_string(),
    };
    let ifaces = vec![iface("wlan0"), iface("docker0"), iface("eth0"), iface("veth9")];
    let ports = s.finish_refresh(Ok((Ok(vec![port.clone()]), Ok(ifaces), Ok(Some("wlan0".to_string())))), "");
    assert_eq!(ports, Some(vec![port]));
    assert!(!s.refreshing);
    assert_eq!(s.error, None);
    let names: Vec<&str> = s.interfaces.iter().map(|i| i.name.as_str()).collect();
    assert_eq!(names, vec!["wlan0", "docker0", "eth0", "veth9"]);
    let visible: Vec<&str> = s.visible_interfaces.iter().map(|i| i.name.as_str()).collect();
    let hidden: Vec<&str> = s.hidden_interfaces.iter().map(|i| i.name.as_str()).collect();
    assert_eq!(visible, vec!["wlan0", "eth0"]);
    assert_eq!(hidden, vec!["docker0", "veth9"]);
    s.recompute_interfaces("  ETH ");
    let visible: Vec<&str> = s.visible_interfaces.iter().map(|i| i.name.as_str()).collect();
    assert_eq!(visible, vec!["eth0"]);
    let hidden: Vec<&str> = s.hidden_interfaces.iter().map(|i| i.name.as_str()).collect();
    assert_eq!(hidden, vec!["veth9"]);
}

#[test]
fn the_probe_reports_the_first_failure_and_a_dead_task() {
    let mut s = NetworkTabState::new();
    s.begin_refresh();
    let ports = s.finish_refresh(Ok((Err("ports failed".to_string()), Err("ifaces failed".to_string()), Ok(None))), "");
    assert_eq!(ports, None);
    assert_eq!(s.error.as_deref(), Some("ports failed"));
    s.begin_refresh();
    s.finish_refresh(Err("boom".to_string()), "");
    assert_eq!(s.error.as_deref(), Some("network probe task panicked: boom"));
}

#[test]
fn switching_the_services_manager_forces_a_reload() {
    let mut s = NetworkTabState::new();
    s.sub_tab = NetSubTab::Services;
    let loads = s.paint();
    assert_eq!(loads.services, Some(SvcScope::System));
    assert_eq!(s.finish_services(Ok(Ok(Vec::new()))), Some(Vec::new()));
    assert!(s.svc_loaded);
    assert!(!s.set_svc_scope(SvcScope::System));
    assert!(s.set_svc_scope(SvcScope::User));
    assert!(!s.svc_loaded);
    assert_eq!(s.paint().services, Some(SvcScope::User));
    s.finish_services(Ok(Err("systemctl failed".to_string())));
    assert_eq!(s.svc_error.as_deref(), Some("systemctl failed"));
}

#[test]
fn a_missing_docker_is_a_notice_not_an_error() {
    let mut s = NetworkTabState::new();
    assert!(s.begin_docker_refresh());
    assert!(!s.begin_docker_refresh());
    let rows = s.finish_docker(Ok(Err(ToolError::NotInstalled)));
    assert_eq!(rows, Some(Vec::new()));
    assert!(s.docker_not_installed);
    assert_eq!(s.docker_error, None);
    s.sub_tab = NetSubTab::Docker;
    assert_eq!(s.status_line(0, 0, 0, 0), "docker not installed — no daemon reachable");
}

#[test]
fn a_superseded_pods_fetch_is_dropped() {
    let mut s = NetworkTabState::new();
    let (g1, ctx1) = s.begin_kube_refresh().unwrap();
    assert_eq!(ctx1, None);
    let (g2, ctx2) = s.select_kube_context(Some("prod".to_string())).unwrap();
    assert_eq!(ctx2.as_deref(), Some("prod"));
    assert_ne!(g1, g2);
    // the first fetch lands late: nothing but `kube_loaded` changes
    let late = s.finish_kube(g1, Ok((Ok(vec![KubeContext { name: "dev".to_string(), current: true }]), Ok(vec![pod("old")]))));
    assert_eq!(late, None);
    assert!(s.kube_contexts.is_empty());
    assert!(s.kube_refreshing);
    // the current one applies
    let rows = s.finish_kube_pods(g2, Ok(Ok(vec![pod("new")])));
    assert_eq!(rows, Some(vec![pod("new")]));
    assert!(!s.kube_refreshing);
    // the same context again does nothing
    assert_eq!(s.select_kube_context(Some("prod".to_string())), None);
}

#[test]
fn a_pods_failure_does_not_clobber_a_contexts_failure() {
    let mut s = NetworkTabState::new();
    let (g, _) = s.begin_kube_refresh().unwrap();
    s.finish_kube(g, Ok((Err(ToolError::Failed("no config".to_string())), Err(ToolError::Failed("no pods".to_string())))));
    assert_eq!(s.kube_error.as_deref(), Some("no config"));
    s.sub_tab = NetSubTab::Kubernetes;
    assert_eq!(s.status_line(0, 0, 0, 0), "error: no config");
}

#[test]
fn status_lines_count_what_each_view_shows() {
    let mut s = NetworkTabState::new();
    assert_eq!(s.status_line(3, 0, 0, 0), "3 listening ports");
    s.sub_tab = NetSubTab::Services;
    s.svc_scope = SvcScope::User;
    assert_eq!(s.status_line(0, 12, 0, 0), "12 user services");
    s.sub_tab = NetSubTab::Kubernetes;
    s.kube_contexts = vec![KubeContext { name: "a".to_string(), current: false }];
    assert_eq!(s.status_line(0, 0, 0, 4), "1 contexts · 4 pods");
    s.kube_refreshing = true;
    assert_eq!(s.status_line(0, 0, 0, 4), "refreshing…");
    assert!(s.active_refreshing());
}

#[test]
fn the_current_context_is_starred_and_lit_until_one_is_chosen() {
    let cur = KubeContext { name: "dev".to_string(), current: true };
    let other = KubeContext { name: "prod".to_string(), current: false };
    assert_eq!(context_chip(&cur, &None), (true, "★ dev".to_string()));
    assert_eq!(context_chip(&other, &None), (false, "prod".to_string()));
    assert_eq!(context_chip(&cur, &Some("prod".to_string())), (false, "★ dev".to_string()));
    assert_eq!(context_chip(&other, &Some("prod".to_string())), (true, "prod".to_string()));
}

fn sock(port: u16, pid: u32, command: &str) -> ListeningPort {
    ListeningPort {
        port,
        pid: Some(Pid(pid)),
        command: command.to_string(),
        protocol: Protocol::Tcp,
        state: SocketState::Listen,
        local_addr: "0.0.0.0".to_string(),
    }
}

fn ports_of(rows: &[ListeningPort]) -> Vec<u16> {
    rows.iter().map(|p| p.port).collect()
}

#[test]
fn a_new_ports_table_has_five_sortable_columns_and_the_kill_column() {
    let t = PortsTable::new();
    assert_eq!(t.sorts.len(), 6);
    assert!(t.sorts[..5].iter().all(|s| *s == Some(ColumnSort::Default)));
    assert_eq!(t.sorts[5], None);
    assert!(t.ports.is_empty() && t.active_sort.is_none() && t.armed_kill.is_none());
}

#[test]
fn the_ports_filter_keeps_the_sort_in_force() {
    let mut t = PortsTable::new();
    t.set_ports(vec![sock(8080, 30, "node"), sock(22, 10, "sshd"), sock(5432, 20, "postgres")]);
    assert_eq!(ports_of(&t.ports), vec![8080, 22, 5432]);
    t.perform_sort(1, ColumnSort::Descending);
    assert_eq!(t.active_sort, Some((1, SortDir::Desc)));
    assert_eq!(t.sorts[1], Some(ColumnSort::Descending));
    assert_eq!(t.sorts[0], Some(ColumnSort::Default));
    assert_eq!(t.sorts[5], None);
    assert_eq!(ports_of(&t.ports), vec![8080, 5432, 22]);
    t.set_query("  S ");
    assert_eq!(ports_of(&t.ports), vec![5432, 22]);
    t.perform_sort(1, ColumnSort::Default);
    assert_eq!(t.active_sort, None);
    assert_eq!(ports_of(&t.ports), vec![22, 5432]);
}

#[test]
fn a_port_kill_takes_two_clicks_and_drops_the_rows_at_once() {
    let mut t = PortsTable::new();
    t.set_ports(vec![sock(80, 7, "nginx"), sock(443, 7, "nginx"), sock(22, 1, "sshd")]);
    assert!(!t.kill_click(Pid(7)));
    assert_eq!(t.armed_kill, Some(Pid(7)));
    assert!(t.kill_click(Pid(7)));
    assert_eq!(t.armed_kill, None);
    t.finish_kill(Pid(7), Ok(Ok(())));
    assert_eq!(ports_of(&t.ports), vec![22]);
    assert_eq!(ports_of(&t.all_ports), vec![22]);
}

#[test]
fn a_click_on_another_pid_rearms_and_a_fresh_probe_disarms() {
    let mut t = PortsTable::new();
    t.set_ports(vec![sock(80, 7, "nginx"), sock(22, 1, "sshd")]);
    assert!(!t.kill_click(Pid(7)));
    assert!(!t.kill_click(Pid(1)));
    assert_eq!(t.armed_kill, Some(Pid(1)));
    t.set_ports(vec![sock(22, 1, "sshd")]);
    assert_eq!(t.armed_kill, None);
    assert!(!t.kill_click(Pid(1)));
}

#[test]
fn a_failed_or_panicked_kill_is_the_kill_error_and_keeps_the_rows() {
    let mut t = PortsTable::new();
    t.set_ports(vec![sock(80, 7, "nginx")]);
    t.finish_kill(Pid(7), Ok(Err("operation not permitted".to_string())));
    assert_eq!(t.kill_error.as_deref(), Some("operation not permitted"));
    assert_eq!(ports_of(&t.ports), vec![80]);
    t.finish_kill(Pid(7), Err("boom".to_string()));
    assert_eq!(t.kill_error.as_deref(), Some("kill task panicked: boom"));
    assert_eq!(ports_of(&t.all_ports), vec![80]);
    assert!(!t.kill_click(Pid(7)));
    assert!(t.kill_click(Pid(7)));
    assert_eq!(t.kill_error, None);
}

fn unit(name: &str, active: SvcActiveState, description: &str) -> ServiceInfo {
    ServiceInfo {
        name: name.to_string(),
        description: description.to_string(),
        active,
        sub_state: "running".to_string(),
    }
}

fn names(rows: &[ServiceInfo]) -> Vec<&str> {
    rows.iter().map(|s| s.name.as_str()).collect()
}

#[test]
fn a_new_services_table_has_four_sortable_columns_and_the_actions_column() {
    let t = ServicesTable::new(SvcScope::User);
    assert_eq!(t.scope, SvcScope::User);
    assert_eq!(t.sorts.len(), 5);
    assert_eq!(t.sorts[4], None);
    assert!(t.sorts[..4].iter().all(|s| *s == Some(ColumnSort::Default)));
}

#[test]
fn the_services_table_sorts_by_state_rank_and_filters_by_name_or_description() {
    let mut t = ServicesTable::new(SvcScope::System);
    t.set_services(vec![
        unit("zeta.service", SvcActiveState::Failed, "Zeta"),
        unit("nginx.service", SvcActiveState::Active, "Web server"),
        unit("cron.service", SvcActiveState::Inactive, "Scheduler"),
    ]);
    t.perform_sort(1, ColumnSort::Ascending);
    assert_eq!(t.active_sort, Some((1, SortDir::Asc)));
    assert_eq!(names(&t.services), vec!["nginx.service", "cron.service", "zeta.service"]);
    t.set_query("SERVER");
    assert_eq!(names(&t.services), vec!["nginx.service"]);
    t.set_query("");
    t.perform_sort(0, ColumnSort::Descending);
    assert_eq!(t.sorts[1], Some(ColumnSort::Default));
    assert_eq!(names(&t.services), vec!["zeta.service", "nginx.service", "cron.service"]);
}

#[test]
fn a_service_action_takes_two_clicks_on_the_same_unit_and_action() {
    let mut t = ServicesTable::new(SvcScope::User);
    t.set_services(vec![unit("nginx.service", SvcActiveState::Active, "Web")]);
    assert_eq!(t.action_click("nginx.service", SvcAction::Restart), None);
    assert_eq!(t.action_click("nginx.service", SvcAction::Stop), None);
    assert_eq!(t.armed_action, Some(("nginx.service".to_string(), SvcAction::Stop)));
    assert_eq!(
        t.action_click("nginx.service", SvcAction::Stop),
        Some(("nginx.service".to_string(), SvcAction::Stop, SvcScope::User))
    );
    assert_eq!(t.armed_action, None);
}

#[test]
fn a_finished_action_reports_the_control_error_and_takes_the_fresh_list() {
    let mut t = ServicesTable::new(SvcScope::System);
    t.set_services(vec![unit("nginx.service", SvcActiveState::Active, "Web")]);
    assert_eq!(t.action_click("nginx.service", SvcAction::Kill), None);
    t.finish_action(Ok((
        Err("permission denied".to_string()),
        Ok(vec![unit("nginx.service", SvcActiveState::Failed, "Web")]),
    )));
    assert_eq!(t.action_error.as_deref(), Some("permission denied"));
    assert_eq!(t.services[0].active, SvcActiveState::Failed);
    assert_eq!(t.armed_action, None);
    t.finish_action(Err("cancelled".to_string()));
    assert_eq!(t.action_error.as_deref(), Some("service control task panicked: cancelled"));
    assert_eq!(names(&t.all_services), vec!["nginx.service"]);
}

#[test]
fn a_failed_list_after_an_action_keeps_the_rows() {
    let mut t = ServicesTable::new(SvcScope::System);
    t.set_services(vec![unit("a.service", SvcActiveState::Active, "A")]);
    t.finish_action(Ok((Ok(()), Err("bus closed".to_string()))));
    assert_eq!(t.action_error, None);
    assert_eq!(names(&t.services), vec!["a.service"]);
    t.set_scope(SvcScope::User);
    assert_eq!(t.scope, SvcScope::User);
}

fn container(name: &str, state: &str, ports: &[&str]) -> ContainerInfo {
    ContainerInfo {
        id: format!("id-{name}"),
        name: name.to_string(),
        image: "alpine:3".to_string(),
        state: state.to_string(),
        status: "Up 2 hours".to_string(),
        ports: ports.iter().map(|p| p.to_string()).collect(),
    }
}

#[test]
fn the_containers_table_sorts_running_first_and_keeps_the_sort_under_a_filter() {
    let mut t = ContainersTable::new();
    assert_eq!(t.sorts.len(), 5);
    t.set_containers(vec![
        container("web", "exited", &["80/tcp"]),
        container("db", "running", &["5432/tcp", "5433/tcp"]),
        container("cache", "running", &[]),
    ]);
    t.perform_sort(2, ColumnSort::Ascending);
    let names: Vec<&str> = t.containers.iter().map(|c| c.name.as_str()).collect();
    assert_eq!(names, vec!["cache", "db", "web"]);
    assert_eq!(t.containers[1].ports, vec!["5432/tcp".to_string(), "5433/tcp".to_string()]);
    t.set_query("RUNNING");
    let names: Vec<&str> = t.containers.iter().map(|c| c.name.as_str()).collect();
    assert_eq!(names, vec!["cache", "db"]);
    assert_eq!(t.all_containers.len(), 3);
}

#[test]
fn the_pods_table_sorts_restarts_numerically_and_filters_by_namespace() {
    let mut t = PodsTable::new();
    assert_eq!(t.sorts.len(), 6);
    let mut a = pod("api");
    a.restarts = 10;
    let mut b = pod("worker");
    b.restarts = 9;
    b.namespace = "jobs".to_string();
    t.set_pods(vec![a, b, pod("cron")]);
    t.perform_sort(4, ColumnSort::Descending);
    let names: Vec<&str> = t.pods.iter().map(|p| p.name.as_str()).collect();
    assert_eq!(names, vec!["api", "worker", "cron"]);
    t.set_query("jobs");
    let names: Vec<&str> = t.pods.iter().map(|p| p.name.as_str()).collect();
    assert_eq!(names, vec!["worker"]);
    t.perform_sort(4, ColumnSort::Default);
    assert_eq!(t.active_sort, None);
    assert_eq!(t.sorts[4], Some(ColumnSort::Default));
}

#[test]
fn armed_buttons_ask_and_empty_cells_show_a_dash() {
    assert_eq!(kill_button_label(false), "kill");
    assert_eq!(kill_button_label(true), "kill?");
    assert_eq!(action_button_label(SvcAction::Restart, true), "restart?");
    assert_eq!(action_button_label(SvcAction::Stop, false), "stop");
    assert_eq!(action_button_label(SvcAction::Kill, true), "kill?");
    assert_eq!(cell_text(""), "—");
    assert_eq!(cell_text("running"), "running");
}

#[test]
fn a_paint_marks_each_fetch_it_starts_so_the_next_paint_starts_none() {
    let mut s = NetworkTabState::new();
    s.sub_tab = NetSubTab::Kubernetes;
    let first = s.paint();
    let (generation, _) = first.kube.clone().expect("the pods fetch starts");
    assert!(s.kube_refreshing && s.kube_error.is_none());
    assert_eq!(s.kube_fetch_generation, generation);
    let second = s.paint();
    assert!(second.kube.is_none() && !second.ports);
    let rows = s.finish_kube(generation, Ok((Ok(vec![]), Ok(vec![pod("api")]))));
    assert_eq!(rows.map(|r| r.len()), Some(1));
    s.sub_tab = NetSubTab::Docker;
    assert!(s.paint().docker);
    assert!(s.docker_refreshing && !s.paint().docker);
    s.sub_tab = NetSubTab::Services;
    assert_eq!(s.paint().services, Some(s.svc_scope));
    assert!(s.svc_refreshing && s.paint().services.is_none());
}
