use std::cmp::Ordering;

use sid::network_tab::{
    action_click_executes, docker_state_badge, docker_state_rank, drop_killed, filter_containers,
    filter_pods, filter_ports, filter_services, interface_groups, is_hidden_interface,
    kill_click_executes, kube_phase_badge, kube_phase_rank, mark_column_sort, partition_interfaces,
    ports_view, protocol_label, should_apply_pods, sort_containers, sort_interfaces_default_first,
    sort_pods, sort_ports, sort_services, svc_state_badge, svc_state_rank, ContainerInfo, KubePod,
    ListeningPort, NetInterface, NetSubTab, Pid, Protocol, ServiceInfo, SocketState, SortDir,
    SvcAction, SvcActiveState, DANGER, OK_GREEN,
};
use sid::order::ColumnSort;

fn iface(name: &str) -> NetInterface {
    NetInterface { name: name.to_string(), addrs: Vec::new(), rx_bytes: 0, tx_bytes: 0, is_up: true }
}

fn port(port: u16, pid: Option<u32>, command: &str, local_addr: &str) -> ListeningPort {
    ListeningPort {
        port,
        pid: pid.map(Pid::from_u32),
        command: command.to_string(),
        protocol: Protocol::Tcp,
        state: SocketState::Listen,
        local_addr: local_addr.to_string(),
    }
}

fn svc(name: &str, description: &str) -> ServiceInfo {
    ServiceInfo {
        name: name.to_string(),
        description: description.to_string(),
        active: SvcActiveState::Active,
        sub_state: "running".to_string(),
    }
}

fn container(name: &str, image: &str, state: &str, status: &str) -> ContainerInfo {
    ContainerInfo {
        id: "abc123".to_string(),
        name: name.to_string(),
        image: image.to_string(),
        state: state.to_string(),
        status: status.to_string(),
        ports: Vec::new(),
    }
}

fn pod(namespace: &str, name: &str) -> KubePod {
    KubePod {
        namespace: namespace.to_string(),
        name: name.to_string(),
        ready: "1/1".to_string(),
        phase: "Running".to_string(),
        restarts: 0,
        node: "node-1".to_string(),
    }
}

#[test]
fn kill_needs_two_clicks_on_the_same_pid() {
    let pid = Pid::from_u32(123);
    let other = Pid::from_u32(456);
    assert!(!kill_click_executes(None, pid));
    assert!(kill_click_executes(Some(pid), pid));
    assert!(!kill_click_executes(Some(pid), other));
}

#[test]
fn should_apply_pods_matches_only_the_current_generation() {
    assert!(should_apply_pods(1, 1));
    assert!(!should_apply_pods(2, 1));
    assert!(!should_apply_pods(1, 2));
}

#[test]
fn action_click_needs_two_clicks_on_same_unit_and_action() {
    let armed = Some(("nginx.service".to_string(), SvcAction::Restart));
    assert!(action_click_executes(&armed, "nginx.service", SvcAction::Restart));
    assert!(!action_click_executes(&armed, "nginx.service", SvcAction::Stop));
    assert!(!action_click_executes(&armed, "sshd.service", SvcAction::Restart));
    assert!(!action_click_executes(&None, "nginx.service", SvcAction::Restart));
}

#[test]
fn filter_ports_empty_query_matches_all() {
    let ports = vec![port(22, Some(1), "sshd", "0.0.0.0"), port(80, Some(2), "nginx", "127.0.0.1")];
    assert_eq!(filter_ports(&ports, "").len(), 2);
    assert_eq!(filter_ports(&ports, "   ").len(), 2);
}

#[test]
fn filter_ports_matches_port_number_prefix() {
    let ports = vec![
        port(22, Some(1), "sshd", "0.0.0.0"),
        port(2222, Some(2), "sshd-alt", "0.0.0.0"),
        port(80, Some(3), "nginx", "0.0.0.0"),
    ];
    let got: Vec<u16> = filter_ports(&ports, "22").iter().map(|p| p.port).collect();
    assert_eq!(got, vec![22, 2222]);
}

#[test]
fn filter_ports_matches_command_substring_case_insensitively() {
    let ports = vec![port(22, Some(1), "sshd", "0.0.0.0"), port(80, Some(2), "nginx", "0.0.0.0")];
    let got: Vec<u16> = filter_ports(&ports, "NGI").iter().map(|p| p.port).collect();
    assert_eq!(got, vec![80]);
}

#[test]
fn filter_ports_matches_local_addr_substring() {
    let ports = vec![port(22, Some(1), "sshd", "127.0.0.1"), port(80, Some(2), "nginx", "0.0.0.0")];
    let got: Vec<u16> = filter_ports(&ports, "127.0").iter().map(|p| p.port).collect();
    assert_eq!(got, vec![22]);
}

#[test]
fn filter_ports_matches_exact_pid_only() {
    let ports = vec![port(22, Some(123), "sshd", "0.0.0.0"), port(80, Some(1230), "nginx", "0.0.0.0")];
    let got: Vec<u16> = filter_ports(&ports, "123").iter().map(|p| p.port).collect();
    assert_eq!(got, vec![22]);
}

#[test]
fn filter_services_empty_query_matches_all() {
    let services = vec![svc("nginx.service", "web server"), svc("sshd.service", "secure shell")];
    assert_eq!(filter_services(&services, "").len(), 2);
}

#[test]
fn filter_services_matches_name_or_description_case_insensitively() {
    let services = vec![svc("nginx.service", "web server"), svc("sshd.service", "secure shell")];
    let by_name: Vec<&str> = filter_services(&services, "NGINX").iter().map(|s| s.name.as_str()).collect();
    assert_eq!(by_name, vec!["nginx.service"]);
    let by_desc: Vec<&str> = filter_services(&services, "shell").iter().map(|s| s.name.as_str()).collect();
    assert_eq!(by_desc, vec!["sshd.service"]);
}

#[test]
fn svc_state_badge_labels_cover_all_variants() {
    assert_eq!(svc_state_badge(SvcActiveState::Active).0, "active");
    assert_eq!(svc_state_badge(SvcActiveState::Failed).0, "failed");
    assert_eq!(svc_state_badge(SvcActiveState::Inactive).0, "inactive");
    assert_eq!(svc_state_badge(SvcActiveState::Other).0, "other");
    assert_eq!(svc_state_badge(SvcActiveState::Active).1, OK_GREEN);
    assert_eq!(svc_state_badge(SvcActiveState::Failed).1, DANGER);
}

#[test]
fn filter_containers_empty_query_matches_all() {
    let containers = vec![
        container("web-1", "nginx:latest", "running", "Up 1 hour"),
        container("db-1", "postgres:16", "exited", "Exited (0) 2 days ago"),
    ];
    assert_eq!(filter_containers(&containers, "").len(), 2);
    assert_eq!(filter_containers(&containers, "   ").len(), 2);
}

#[test]
fn filter_containers_matches_name_case_insensitively() {
    let containers = vec![
        container("web-1", "nginx:latest", "running", "Up"),
        container("db-1", "postgres:16", "running", "Up"),
    ];
    let got: Vec<&str> = filter_containers(&containers, "WEB").iter().map(|c| c.name.as_str()).collect();
    assert_eq!(got, vec!["web-1"]);
}

#[test]
fn filter_containers_matches_image_state_or_status() {
    let containers = vec![
        container("a", "postgres:16", "running", "Up 3 hours"),
        container("b", "redis:7", "exited", "Exited (0) 2 days ago"),
    ];
    assert_eq!(filter_containers(&containers, "postgres").len(), 1);
    assert_eq!(filter_containers(&containers, "exited").len(), 1);
    assert_eq!(filter_containers(&containers, "2 days").len(), 1);
    assert_eq!(filter_containers(&containers, "nonexistent").len(), 0);
}

#[test]
fn docker_state_badge_covers_known_and_unknown_states() {
    assert_eq!(docker_state_badge("running").0, "running");
    assert_eq!(docker_state_badge("exited").0, "exited");
    assert_eq!(docker_state_badge("dead").0, "exited");
    assert_eq!(docker_state_badge("paused").0, "paused");
    assert_eq!(docker_state_badge("restarting").0, "restarting");
    assert_eq!(docker_state_badge("weird-future-state").0, "weird-future-state");
}

#[test]
fn filter_pods_empty_query_matches_all() {
    let pods = vec![pod("default", "web-1"), pod("kube-system", "coredns-1")];
    assert_eq!(filter_pods(&pods, "").len(), 2);
}

#[test]
fn filter_pods_matches_namespace_or_name_case_insensitively() {
    let pods = vec![pod("default", "web-1"), pod("kube-system", "coredns-1")];
    let by_ns: Vec<&str> = filter_pods(&pods, "KUBE-SYS").iter().map(|p| p.name.as_str()).collect();
    assert_eq!(by_ns, vec!["coredns-1"]);
    let by_name: Vec<&str> = filter_pods(&pods, "WEB").iter().map(|p| p.name.as_str()).collect();
    assert_eq!(by_name, vec!["web-1"]);
}

#[test]
fn kube_phase_badge_covers_known_and_unknown_phases() {
    assert_eq!(kube_phase_badge("Running").0, "Running");
    assert_eq!(kube_phase_badge("Succeeded").0, "Succeeded");
    assert_eq!(kube_phase_badge("Pending").0, "Pending");
    assert_eq!(kube_phase_badge("Failed").0, "Failed");
    assert_eq!(kube_phase_badge("Unknown").0, "Unknown");
    assert_eq!(kube_phase_badge("SomeFuturePhase").0, "SomeFuturePhase");
}

#[test]
fn physical_and_vpn_prefixes_are_visible() {
    for name in ["eth0", "en0", "enp3s0", "wlan0", "wl0", "wwan0", "usb0", "wg0", "tun0", "tailscale0"] {
        assert!(!is_hidden_interface(name, false), "{name} should be visible");
    }
}

#[test]
fn virtual_and_unmatched_interfaces_are_hidden() {
    for name in ["lo", "docker0", "veth1234", "br-abcdef", "virbr0", "vnet0", "tap0", "randomiface0"] {
        assert!(is_hidden_interface(name, false), "{name} should be hidden");
    }
}

#[test]
fn default_route_iface_is_always_visible_even_if_it_would_otherwise_be_hidden() {
    assert!(!is_hidden_interface("docker0", true));
    assert!(!is_hidden_interface("lo", true));
}

#[test]
fn partition_interfaces_splits_visible_and_hidden() {
    let ifaces = vec![iface("eth0"), iface("docker0"), iface("lo"), iface("wg0")];
    let (visible, hidden) = partition_interfaces(&ifaces, None);
    let visible_names: Vec<&str> = visible.iter().map(|i| i.name.as_str()).collect();
    let hidden_names: Vec<&str> = hidden.iter().map(|i| i.name.as_str()).collect();
    assert_eq!(visible_names, vec!["eth0", "wg0"]);
    assert_eq!(hidden_names, vec!["docker0", "lo"]);
}

#[test]
fn partition_interfaces_keeps_default_route_visible() {
    let ifaces = vec![iface("docker0"), iface("eth0")];
    let (visible, _hidden) = partition_interfaces(&ifaces, Some("docker0"));
    let visible_names: Vec<&str> = visible.iter().map(|i| i.name.as_str()).collect();
    assert!(visible_names.contains(&"docker0"));
}

#[test]
fn interface_groups_apply_the_filter_to_both_groups() {
    let ifaces = vec![iface("eth0"), iface("docker0"), iface("wlan0"), iface("veth1")];
    let (visible, hidden) = interface_groups(&ifaces, None, "  ETH ");
    let v: Vec<&str> = visible.iter().map(|i| i.name.as_str()).collect();
    let h: Vec<&str> = hidden.iter().map(|i| i.name.as_str()).collect();
    assert_eq!(v, vec!["eth0"]);
    assert_eq!(h, vec!["veth1"]);
}

#[test]
fn default_route_iface_sorts_first_then_by_name() {
    let mut ifaces = vec![iface("wlan0"), iface("eth0"), iface("lo")];
    sort_interfaces_default_first(&mut ifaces, Some("wlan0"));
    let names: Vec<&str> = ifaces.iter().map(|i| i.name.as_str()).collect();
    assert_eq!(names, vec!["wlan0", "eth0", "lo"]);
}

#[test]
fn no_default_route_sorts_all_by_name() {
    let mut ifaces = vec![iface("wlan0"), iface("eth0")];
    sort_interfaces_default_first(&mut ifaces, None);
    let names: Vec<&str> = ifaces.iter().map(|i| i.name.as_str()).collect();
    assert_eq!(names, vec!["eth0", "wlan0"]);
}

#[test]
fn sort_dir_from_column_sort_maps_ascending_and_descending_only() {
    assert_eq!(SortDir::from_column_sort(ColumnSort::Ascending), Some(SortDir::Asc));
    assert_eq!(SortDir::from_column_sort(ColumnSort::Descending), Some(SortDir::Desc));
    assert_eq!(SortDir::from_column_sort(ColumnSort::Default), None);
}

#[test]
fn sort_dir_apply_reverses_only_for_descending() {
    assert_eq!(SortDir::Asc.apply(Ordering::Less), Ordering::Less);
    assert_eq!(SortDir::Desc.apply(Ordering::Less), Ordering::Greater);
    assert_eq!(SortDir::Asc.apply(Ordering::Equal), Ordering::Equal);
    assert_eq!(SortDir::Desc.apply(Ordering::Equal), Ordering::Equal);
}

#[test]
fn mark_column_sort_sets_target_and_clears_other_sortable_columns() {
    // columns "a" and "b" are sortable, "c" is not; "a" was sorted descending before
    let mut columns = vec![Some(ColumnSort::Descending), Some(ColumnSort::Default), None];
    mark_column_sort(&mut columns, 1, ColumnSort::Ascending);
    assert_eq!(columns[0], Some(ColumnSort::Default));
    assert_eq!(columns[1], Some(ColumnSort::Ascending));
    assert_eq!(columns[2], None);
}

#[test]
fn cmp_port_number_orders_numerically_not_lexicographically() {
    let mut ports = vec![port(8080, None, "", ""), port(9, None, "", ""), port(443, None, "", ""), port(10, None, "", "")];
    sort_ports(&mut ports, 1, SortDir::Asc);
    let nums: Vec<u16> = ports.iter().map(|p| p.port).collect();
    assert_eq!(nums, vec![9, 10, 443, 8080]);
}

#[test]
fn cmp_port_number_descending_reverses_numeric_order() {
    let mut ports = vec![port(9, None, "", ""), port(443, None, "", "")];
    sort_ports(&mut ports, 1, SortDir::Desc);
    let nums: Vec<u16> = ports.iter().map(|p| p.port).collect();
    assert_eq!(nums, vec![443, 9]);
}

#[test]
fn cmp_port_proto_orders_tcp_before_udp() {
    let mut udp = port(53, None, "", "");
    udp.protocol = Protocol::Udp;
    let tcp = port(80, None, "", "");
    let mut ports = vec![udp, tcp.clone()];
    sort_ports(&mut ports, 0, SortDir::Asc);
    assert_eq!(ports[0].port, tcp.port);
    assert_eq!(protocol_label(Protocol::Udp), "udp");
}

#[test]
fn cmp_port_addr_orders_lexicographically() {
    let mut ports = vec![port(1, None, "", "127.0.0.1"), port(2, None, "", "0.0.0.0")];
    sort_ports(&mut ports, 2, SortDir::Asc);
    let addrs: Vec<&str> = ports.iter().map(|p| p.local_addr.as_str()).collect();
    assert_eq!(addrs, vec!["0.0.0.0", "127.0.0.1"]);
}

#[test]
fn cmp_port_process_is_case_insensitive() {
    let mut ports = vec![port(1, None, "Zsh", ""), port(2, None, "bash", ""), port(3, None, "Ash", "")];
    sort_ports(&mut ports, 4, SortDir::Asc);
    let commands: Vec<&str> = ports.iter().map(|p| p.command.as_str()).collect();
    assert_eq!(commands, vec!["Ash", "bash", "Zsh"]);
}

#[test]
fn cmp_port_pid_none_sorts_after_some_ascending_and_before_descending() {
    let mut ports = vec![port(1, None, "", ""), port(2, Some(456), "", ""), port(3, Some(123), "", "")];
    sort_ports(&mut ports, 3, SortDir::Asc);
    let pids: Vec<Option<u32>> = ports.iter().map(|p| p.pid.map(Pid::as_u32)).collect();
    assert_eq!(pids, vec![Some(123), Some(456), None]);

    sort_ports(&mut ports, 3, SortDir::Desc);
    let pids: Vec<Option<u32>> = ports.iter().map(|p| p.pid.map(Pid::as_u32)).collect();
    assert_eq!(pids, vec![None, Some(456), Some(123)]);
}

#[test]
fn sort_ports_unsortable_column_index_is_a_no_op() {
    let mut ports = vec![port(80, None, "b", ""), port(22, None, "a", "")];
    let before: Vec<u16> = ports.iter().map(|p| p.port).collect();
    sort_ports(&mut ports, 5, SortDir::Asc);
    let after: Vec<u16> = ports.iter().map(|p| p.port).collect();
    assert_eq!(before, after);
}

#[test]
fn filter_then_sort_composes_for_ports() {
    let ports = vec![
        port(8080, Some(3), "app", "0.0.0.0"),
        port(9, Some(1), "small", "127.0.0.1"),
        port(443, Some(2), "https", "0.0.0.0"),
        port(80, Some(4), "http", "0.0.0.0"),
    ];
    let mut filtered: Vec<ListeningPort> = filter_ports(&ports, "0.0.0.0").into_iter().cloned().collect();
    sort_ports(&mut filtered, 1, SortDir::Asc);
    let nums: Vec<u16> = filtered.iter().map(|p| p.port).collect();
    assert_eq!(nums, vec![80, 443, 8080]);
    let view: Vec<u16> = ports_view(&ports, "0.0.0.0", Some((1, SortDir::Asc))).iter().map(|p| p.port).collect();
    assert_eq!(view, vec![80, 443, 8080]);
}

#[test]
fn a_successful_kill_drops_the_process_rows() {
    let mut ports = vec![port(80, Some(7), "a", ""), port(81, Some(8), "b", ""), port(82, Some(7), "c", "")];
    drop_killed(&mut ports, Pid::from_u32(7));
    let nums: Vec<u16> = ports.iter().map(|p| p.port).collect();
    assert_eq!(nums, vec![81]);
}

fn svc_with_state(name: &str, active: SvcActiveState, sub_state: &str) -> ServiceInfo {
    ServiceInfo { name: name.to_string(), description: String::new(), active, sub_state: sub_state.to_string() }
}

#[test]
fn svc_state_rank_orders_active_first() {
    let active = svc_with_state("a", SvcActiveState::Active, "running");
    let activating = svc_with_state("b", SvcActiveState::Other, "activating");
    let reloading = svc_with_state("c", SvcActiveState::Other, "reloading");
    let inactive = svc_with_state("d", SvcActiveState::Inactive, "dead");
    let failed = svc_with_state("e", SvcActiveState::Failed, "failed");
    assert!(svc_state_rank(&active) < svc_state_rank(&activating));
    assert!(svc_state_rank(&activating) < svc_state_rank(&reloading));
    assert!(svc_state_rank(&reloading) < svc_state_rank(&inactive));
    assert!(svc_state_rank(&inactive) < svc_state_rank(&failed));
    assert_eq!(svc_state_rank(&svc_with_state("f", SvcActiveState::Other, "ACTIVATING")), 1);
    assert_eq!(svc_state_rank(&svc_with_state("g", SvcActiveState::Other, "deactivating")), 3);
}

#[test]
fn cmp_svc_state_sorts_by_rank_then_name() {
    let mut services = vec![
        svc_with_state("z-active", SvcActiveState::Active, "running"),
        svc_with_state("nginx.service", SvcActiveState::Failed, "failed"),
        svc_with_state("a-active", SvcActiveState::Active, "running"),
    ];
    sort_services(&mut services, 1, SortDir::Asc);
    let names: Vec<&str> = services.iter().map(|s| s.name.as_str()).collect();
    assert_eq!(names, vec!["a-active", "z-active", "nginx.service"]);
}

#[test]
fn cmp_svc_name_is_case_insensitive() {
    let mut services = vec![svc("Zsh.service", ""), svc("bash.service", "")];
    sort_services(&mut services, 0, SortDir::Asc);
    let names: Vec<&str> = services.iter().map(|s| s.name.as_str()).collect();
    assert_eq!(names, vec!["bash.service", "Zsh.service"]);
}

#[test]
fn cmp_svc_sub_state_orders_lexicographically() {
    let mut services = vec![
        svc_with_state("a", SvcActiveState::Active, "running"),
        svc_with_state("b", SvcActiveState::Active, "dead"),
    ];
    sort_services(&mut services, 2, SortDir::Asc);
    let sub_states: Vec<&str> = services.iter().map(|s| s.sub_state.as_str()).collect();
    assert_eq!(sub_states, vec!["dead", "running"]);
}

#[test]
fn cmp_svc_description_orders_lexicographically() {
    let mut services = vec![svc("a", "web server"), svc("b", "database")];
    sort_services(&mut services, 3, SortDir::Asc);
    let descriptions: Vec<&str> = services.iter().map(|s| s.description.as_str()).collect();
    assert_eq!(descriptions, vec!["database", "web server"]);
}

#[test]
fn docker_state_rank_orders_running_first() {
    assert!(docker_state_rank("running") < docker_state_rank("paused"));
    assert!(docker_state_rank("paused") < docker_state_rank("exited"));
    assert!(docker_state_rank("running") < docker_state_rank("exited"));
}

#[test]
fn cmp_container_state_sorts_running_before_exited() {
    let mut containers = vec![
        container("b", "img", "exited", ""),
        container("a", "img", "running", ""),
        container("c", "img", "paused", ""),
    ];
    sort_containers(&mut containers, 2, SortDir::Asc);
    let names: Vec<&str> = containers.iter().map(|c| c.name.as_str()).collect();
    assert_eq!(names, vec!["a", "c", "b"]);
}

#[test]
fn cmp_container_name_orders_lexicographically() {
    let mut containers = vec![container("web-2", "img", "running", ""), container("web-1", "img", "running", "")];
    sort_containers(&mut containers, 0, SortDir::Asc);
    let names: Vec<&str> = containers.iter().map(|c| c.name.as_str()).collect();
    assert_eq!(names, vec!["web-1", "web-2"]);
}

#[test]
fn cmp_container_image_orders_lexicographically() {
    let mut containers = vec![container("a", "redis:7", "running", ""), container("b", "nginx:latest", "running", "")];
    sort_containers(&mut containers, 1, SortDir::Asc);
    let images: Vec<&str> = containers.iter().map(|c| c.image.as_str()).collect();
    assert_eq!(images, vec!["nginx:latest", "redis:7"]);
}

#[test]
fn cmp_container_status_orders_lexicographically() {
    let mut containers = vec![
        container("a", "img", "running", "Up 3 hours"),
        container("b", "img", "exited", "Exited (0) 2 days ago"),
    ];
    sort_containers(&mut containers, 3, SortDir::Asc);
    let statuses: Vec<&str> = containers.iter().map(|c| c.status.as_str()).collect();
    assert_eq!(statuses, vec!["Exited (0) 2 days ago", "Up 3 hours"]);
}

#[test]
fn cmp_container_ports_orders_by_joined_label() {
    let mut a = container("a", "img", "running", "");
    a.ports = vec!["0.0.0.0:8080->80/tcp".to_string()];
    let mut b = container("b", "img", "running", "");
    b.ports = vec!["0.0.0.0:5432->5432/tcp".to_string()];
    let mut containers = vec![a.clone(), b.clone()];
    sort_containers(&mut containers, 4, SortDir::Asc);
    assert_eq!(containers[0].name, b.name);
}

#[test]
fn kube_phase_rank_orders_running_first() {
    assert!(kube_phase_rank("Running") < kube_phase_rank("Succeeded"));
    assert!(kube_phase_rank("Running") < kube_phase_rank("Pending"));
    assert!(kube_phase_rank("Running") < kube_phase_rank("Failed"));
    assert!(kube_phase_rank("Running") < kube_phase_rank("Unknown"));
}

#[test]
fn cmp_pod_phase_sorts_running_before_others() {
    let mut a = pod("default", "a");
    a.phase = "Failed".to_string();
    let mut b = pod("default", "b");
    b.phase = "Running".to_string();
    let mut pods = vec![a, b];
    sort_pods(&mut pods, 3, SortDir::Asc);
    assert_eq!(pods[0].name, "b");
}

#[test]
fn cmp_pod_restarts_orders_numerically_not_lexicographically() {
    let mut p9 = pod("default", "nine");
    p9.restarts = 9;
    let mut p10 = pod("default", "ten");
    p10.restarts = 10;
    let mut p2 = pod("default", "two");
    p2.restarts = 2;
    let mut pods = vec![p9, p10, p2];
    sort_pods(&mut pods, 4, SortDir::Asc);
    let restarts: Vec<u32> = pods.iter().map(|p| p.restarts).collect();
    assert_eq!(restarts, vec![2, 9, 10]);
}

#[test]
fn cmp_pod_namespace_orders_lexicographically() {
    let mut pods = vec![pod("kube-system", "a"), pod("default", "b")];
    sort_pods(&mut pods, 0, SortDir::Asc);
    let namespaces: Vec<&str> = pods.iter().map(|p| p.namespace.as_str()).collect();
    assert_eq!(namespaces, vec!["default", "kube-system"]);
}

#[test]
fn cmp_pod_name_orders_lexicographically() {
    let mut pods = vec![pod("default", "web-2"), pod("default", "web-1")];
    sort_pods(&mut pods, 1, SortDir::Asc);
    let names: Vec<&str> = pods.iter().map(|p| p.name.as_str()).collect();
    assert_eq!(names, vec!["web-1", "web-2"]);
}

#[test]
fn cmp_pod_ready_and_node_order_lexicographically() {
    let mut a = pod("default", "a");
    a.ready = "0/1".to_string();
    a.node = "node-2".to_string();
    let mut b = pod("default", "b");
    b.ready = "1/1".to_string();
    b.node = "node-1".to_string();
    let mut pods = vec![a, b];
    sort_pods(&mut pods, 2, SortDir::Asc);
    assert_eq!(pods[0].ready, "0/1");
    sort_pods(&mut pods, 5, SortDir::Asc);
    assert_eq!(pods[0].node, "node-1");
}

#[test]
fn the_sub_tabs_are_labelled_in_order() {
    let labels: Vec<&str> = NetSubTab::all().iter().map(|t| t.label()).collect();
    assert_eq!(labels, vec!["Ports", "Services", "Interfaces", "Docker", "Kubernetes"]);
}
