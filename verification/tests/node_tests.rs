use cluster_manager::architecture::Architecture;
use cluster_manager::config::{
    get, get_all_nodes, get_default_os_for, get_default_user_for, get_log_source_from_array,
    get_log_sources, get_log_sources_of, get_node_by_id, get_nodes, get_or_default,
    get_power_commands_of, get_power_table_of, get_storage_device_of, ClusterConfig,
};
use cluster_manager::image_row::ImageRow;
use cluster_manager::logsource::{LogSource, LogSourceTypes};
use cluster_manager::manager::{image_name, results_tasks};
use cluster_manager::node::{Node, NodeSettings};
use cluster_manager::node_manager::{
    add_dnsmasq, add_nfs, add_node, add_tftp, change_hostname, change_ipv4address,
    close_screens_for_serial_logging, get_hosts, get_ipv4_address, get_node_line, is_up,
    remove_dnsmasq, remove_nfs, remove_nfsroot, remove_node, remove_tftp, restart_services,
    shows_row, status_address, stop_node, umount_tftp_directory, verify_node_usability, Plumbing,
};
use cluster_manager::node_row::NodeRow;
use cluster_manager::power_action::{PowerAction, Type};
use cluster_manager::power_action_set::PowerActionSet;
use cluster_manager::power_manager::{execute, power_off, power_on, reboot};
use cluster_manager::service::Service;
use cluster_manager::task::{self, Task};

fn strings(items: &[&str]) -> Vec<String> {
    items.iter().map(|s| s.to_string()).collect()
}

fn settings(name: &str, mac: &str, architecture: &str) -> NodeSettings {
    NodeSettings {
        name: Some(name.to_string()),
        tftp_prefix: Some(format!("{}-prefix", name)),
        mac_address: Some(mac.to_string()),
        ipv4_address: Some("10.0.0.11".to_string()),
        serial_number: Some("0001".to_string()),
        architecture: Some(architecture.to_string()),
        pxe: None,
        default_os: Some("raspbian".to_string()),
        default_user: Some("pi".to_string()),
        storage_device: Some("mmcblk0".to_string()),
        log_hosts: strings(&["10.0.0.11", "10.0.0.12"]),
        log_serial: strings(&["ttyUSB0"]),
        power_on: Some("uhubctl -a on -p 1".to_string()),
        power_off: None,
        power_reboot: Some("   ".to_string()),
    }
}

fn plumbing() -> Plumbing {
    Plumbing {
        exports: strings(&["/nfs/old *(rw,sync,no_subtree_check,no_root_squash)"]),
        dhcp_hosts: strings(&["dhcp-host=aa:aa:aa:aa:aa:aa,10.0.0.2,old"]),
        nfs_directories: strings(&["old"]),
        tftp_directories: strings(&["old"]),
    }
}

fn state(p: &Plumbing) -> (Vec<String>, Vec<String>, Vec<String>, Vec<String>) {
    (p.exports.clone(), p.dhcp_hosts.clone(), p.nfs_directories.clone(), p.tftp_directories.clone())
}

fn a_node(pxe: bool) -> Node {
    let mut s = settings("n1", "b8:27:eb:00:00:01", "ARM32");
    s.pxe = Some(pxe);
    Node::from_config("n1".to_string(), &s, Vec::new())
}

#[test]
fn node_is_read_from_its_settings() {
    let mut s = settings("n1", "b8:27:eb:00:00:01", "ARM64");
    assert!(s.is_complete());
    assert_eq!(s.read_architecture(), Some(Architecture::ARM64));
    let n = Node::from_config("id1".to_string(), &s, vec![LogSource::host("x".to_string())]);
    assert_eq!((n.id.as_str(), n.name.as_str(), n.tftp_prefix.as_str()), ("id1", "n1", "n1-prefix"));
    assert_eq!((n.mac_address.as_str(), n.serial_number.as_str(), n.ipv4_address.as_str()), ("b8:27:eb:00:00:01", "0001", "10.0.0.11"));
    assert_eq!(n.architecture, Architecture::ARM64);
    assert!(!n.pxe);
    assert_eq!(n.log_inputs.len(), 1);
    s.pxe = Some(true);
    assert!(Node::from_config("id1".to_string(), &s, Vec::new()).pxe);
    assert!(n.same_machine(&n.clone()));
    let mut moved = n.clone();
    moved.ipv4_address = "10.0.0.200".to_string();
    assert!(n == moved);
    moved.serial_number = "0002".to_string();
    assert!(n != moved && !n.same_machine(&moved));
    s.architecture = Some("MIPS".to_string());
    assert!(!s.is_complete());
    s.architecture = Some("X86".to_string());
    s.name = None;
    assert!(!s.is_complete());
}

#[test]
fn adding_then_removing_a_node_restores_the_plumbing() {
    for pxe in [false, true] {
        let mut p = plumbing();
        let before = state(&p);
        let n = a_node(pxe);
        add_node(&mut p, &n);
        assert_eq!(p.exports.last().unwrap(), "/nfs/n1-prefix *(rw,sync,no_subtree_check,no_root_squash)");
        let line = if pxe { "dhcp-host=set:pxe,b8:27:eb:00:00:01,10.0.0.11,n1" } else { "dhcp-host=b8:27:eb:00:00:01,10.0.0.11,n1" };
        assert_eq!(p.dhcp_hosts.last().unwrap(), line);
        assert_eq!(p.nfs_directories, strings(&["old", "n1-prefix"]));
        assert_eq!(p.tftp_directories, strings(&["old", "n1-prefix"]));
        assert!(verify_node_usability(&p, &n));
        remove_node(&mut p, &n);
        assert_eq!(state(&p), before);
        assert!(!verify_node_usability(&p, &n));
    }
}

#[test]
fn adding_a_node_twice_adds_it_once() {
    let mut p = plumbing();
    let n = a_node(true);
    add_node(&mut p, &n);
    let once = state(&p);
    add_node(&mut p, &n);
    assert_eq!(state(&p), once);
}

#[test]
fn plumbing_is_changed_piece_by_piece() {
    let mut p = plumbing();
    let n = a_node(false);
    add_nfs(&mut p, &n);
    assert_eq!(p.exports.len(), 2);
    add_tftp(&mut p, &n);
    assert!(!verify_node_usability(&p, &n));
    add_dnsmasq(&mut p, "10.0.0.50", &n);
    assert_eq!(p.dhcp_hosts.last().unwrap(), "dhcp-host=b8:27:eb:00:00:01,10.0.0.50,n1");
    assert!(verify_node_usability(&p, &n));
    remove_dnsmasq(&mut p, &n);
    assert_eq!(p.dhcp_hosts, strings(&["dhcp-host=aa:aa:aa:aa:aa:aa,10.0.0.2,old"]));
    remove_nfs(&mut p, &n);
    remove_tftp(&mut p, &n);
    assert_eq!(state(&p), state(&plumbing()));
}

#[test]
fn host_name_and_address_are_changed_in_the_dhcp_hosts() {
    let mut p = plumbing();
    let mut n = a_node(true);
    assert_eq!(get_ipv4_address(&p, &n), None);
    assert!(!change_hostname(&mut p, &mut n, "web-1"));
    assert_eq!(n.name, "n1");
    add_node(&mut p, &n);
    assert_eq!(get_ipv4_address(&p, &n), Some("10.0.0.11".to_string()));
    assert!(change_hostname(&mut p, &mut n, "web-1"));
    assert_eq!(n.name, "web-1");
    assert_eq!(p.dhcp_hosts, strings(&["dhcp-host=aa:aa:aa:aa:aa:aa,10.0.0.2,old", "dhcp-host=set:pxe,b8:27:eb:00:00:01,10.0.0.11,web-1"]));
    assert!(change_ipv4address(&mut p, &n, "10.0.0.77"));
    assert_eq!(p.dhcp_hosts.last().unwrap(), "dhcp-host=set:pxe,b8:27:eb:00:00:01,10.0.0.77,web-1");
    assert_eq!(get_ipv4_address(&p, &n), Some("10.0.0.77".to_string()));
    let twice = Plumbing { dhcp_hosts: strings(&["dhcp-host=b8:27:eb:00:00:01,1,a", "dhcp-host=b8:27:eb:00:00:01,2,b"]), ..plumbing() };
    assert_eq!(get_ipv4_address(&twice, &n), None);
}

#[test]
fn node_calls_of_the_manager() {
    let restart = restart_services();
    assert_eq!((restart[0].program.as_str(), restart[0].arguments.clone()), ("service", strings(&["nfs-kernel-server", "restart"])));
    assert_eq!((restart[1].program.as_str(), restart[1].arguments.clone()), ("service", strings(&["dnsmasq", "restart"])));
    assert_eq!(umount_tftp_directory("n1").arguments, strings(&["/tftpboot/n1"]));
    assert_eq!(remove_nfsroot("n1", false), ("/nfs/n1/".to_string(), true));
    assert_eq!(remove_nfsroot("n1", true), ("/nfs/n1/".to_string(), false));
    let ping = is_up("10.0.0.11");
    assert_eq!((ping.program.as_str(), ping.arguments), ("ping", strings(&["-c 1", "-v4", "10.0.0.11"])));
    let n = a_node(false);
    let sources = vec![LogSource::host("h".to_string()), LogSource::serial("ttyUSB0".to_string()), LogSource::serial("ttyUSB1".to_string())];
    let ends = close_screens_for_serial_logging(&n, &sources);
    assert_eq!(ends.len(), 2);
    assert_eq!(ends[1].arguments, strings(&["-X", "-S", "n1-1", "quit"]));
    let plan = stop_node(&n, &sources, true, false);
    assert_eq!(plan.close_sessions.len(), 2);
    assert!(plan.prune && plan.recreate_nfs_root);
    assert_eq!(plan.unmount.arguments, strings(&["/tftpboot/n1-prefix"]));
    assert_eq!(plan.nfs_root, "/nfs/n1-prefix/");
    assert_eq!(plan.pxe_file, "/tftpboot/pxelinux.cfg/01-b8-27-eb-00-00-01");
    assert_eq!(plan.restart.len(), 2);
    assert!(!stop_node(&n, &sources, false, true).recreate_nfs_root);
}

#[test]
fn node_rows_are_put_together() {
    let hosts = get_hosts(&strings(&["# comment", "dhcp-host=set:pxe,b8:27:eb:00:00:01,10.0.0.11,web-1", "dhcp-host=broken", "dhcp-host=aa:aa:aa:aa:aa:aa,10.0.0.2,old"]));
    assert_eq!(
        hosts,
        vec![
            ("web-1".to_string(), "10.0.0.11".to_string(), "b8:27:eb:00:00:01".to_string()),
            ("old".to_string(), "10.0.0.2".to_string(), "aa:aa:aa:aa:aa:aa".to_string()),
        ]
    );
    let n = a_node(true);
    let row = get_node_line(&n, &hosts, Some(true), true);
    assert_eq!(row.get_cells(), strings(&["n1", "n1", "b8:27:eb:00:00:01", "n1-prefix", "0001", "up", "web-1", "10.0.0.11", "yes"]));
    let unknown = get_node_line(&n, &Vec::new(), None, false);
    assert_eq!(unknown.get_cells(), strings(&["n1", "n1", "b8:27:eb:00:00:01", "n1-prefix", "0001", "\u{2014}", "\u{2014}", "\u{2014}", "no"]));
    assert_eq!(NodeRow::new(n.clone(), Some(false), None, None, true).get_cells()[5], "down");
    assert!(shows_row(true, &unknown) && !shows_row(false, &unknown) && shows_row(false, &row));
    let mut s = Service::new("s", "web", "h", 0);
    s.node = Some("n1".to_string());
    s.ipv4_address = Some("10.0.0.99".to_string());
    let mut other = Service::new("o", "web", "h", 0);
    other.node = Some("n2".to_string());
    assert_eq!(status_address(&n, &vec![other.clone(), s]), Some("10.0.0.99".to_string()));
    assert_eq!(status_address(&n, &vec![other]), None);
}

#[test]
fn image_rows_and_names() {
    assert_eq!(image_name("web.zip"), Some("web".to_string()));
    assert_eq!(image_name("web.tar"), None);
    assert_eq!(image_name("zip"), Some("zip".to_string()));
    assert_eq!(image_name("a.zip.zip"), Some("a".to_string()));
    let mut config = cluster_manager::configuration::Configuration::default();
    config.architecture = Architecture::X86;
    config.on_device = true;
    assert_eq!(ImageRow::new("web".to_string(), Some(config)).get_cells(), strings(&["web", "X86", "yes"]));
    assert_eq!(ImageRow::new("web".to_string(), Some(cluster_manager::configuration::Configuration::default())).get_cells(), strings(&["web", "ARM64", "no"]));
    assert_eq!(ImageRow::new("web".to_string(), None).get_cells(), strings(&["web", "\u{2014}", "\u{2014}"]));
}

fn config() -> ClusterConfig {
    ClusterConfig {
        nodes: vec![
            ("n1".to_string(), settings("n1", "b8:27:eb:00:00:01", "ARM32")),
            ("n2".to_string(), settings("n2", "b8:27:eb:00:00:02", "X86")),
        ],
        properties: vec![("server-ip".to_string(), "10.0.0.1".to_string()), ("log-server".to_string(), "http://10.0.0.1:8080".to_string())],
    }
}

#[test]
fn configuration_is_looked_up() {
    let c = config();
    assert!(c.is_complete());
    assert_eq!(get(&c, "server-ip"), Some("10.0.0.1".to_string()));
    assert_eq!(get(&c, "missing"), None);
    assert_eq!(get_or_default(&c, "log-server", "x"), "http://10.0.0.1:8080");
    assert_eq!(get_or_default(&c, "missing", "fallback"), "fallback");
    let nodes = get_all_nodes(&c).unwrap();
    assert_eq!(nodes.iter().map(|n| n.id.clone()).collect::<Vec<_>>(), strings(&["n1", "n2"]));
    assert_eq!(nodes[1].architecture, Architecture::X86);
    assert_eq!(nodes[0].log_inputs.len(), 3);
    let empty = ClusterConfig { nodes: Vec::new(), properties: Vec::new() };
    assert_eq!(get_all_nodes(&empty).err(), Some("no nodes"));
    let sources = get_log_sources(&c, "n1");
    let shape: Vec<(String, LogSourceTypes)> = sources.iter().map(|s| (s.path.clone(), s.source)).collect();
    assert_eq!(shape, vec![("10.0.0.11".to_string(), LogSourceTypes::HOST), ("10.0.0.12".to_string(), LogSourceTypes::HOST), ("ttyUSB0".to_string(), LogSourceTypes::SERIAL)]);
    assert!(get_log_sources(&c, "zz").is_empty());
    let of = get_log_sources_of(&c, &nodes[0]);
    assert_eq!(of.len(), 4);
    assert_eq!((of[3].path.as_str(), of[3].source), ("10.0.0.11", LogSourceTypes::HOST));
    assert_eq!(get_log_source_from_array(&strings(&["a", "b"]), &LogSourceTypes::SERIAL).len(), 2);
    assert_eq!(get_default_os_for(&c, &nodes[0]), Some("raspbian".to_string()));
    assert_eq!(get_default_user_for(&c, &nodes[0]), Some("pi".to_string()));
    assert_eq!(get_storage_device_of(&c, &nodes[0]), Some("mmcblk0".to_string()));
    let mut stranger = nodes[0].clone();
    stranger.id = "zz".to_string();
    assert_eq!(get_default_os_for(&c, &stranger), None);
    assert!(get_power_table_of(&c, &stranger).is_none());
    assert_eq!(get_power_table_of(&c, &nodes[0]).unwrap().0, Some("uhubctl -a on -p 1".to_string()));
}

#[test]
fn only_usable_nodes_are_offered() {
    let c = config();
    let mut p = plumbing();
    assert_eq!(get_nodes(&c, &p).unwrap().len(), 0);
    let nodes = get_all_nodes(&c).unwrap();
    add_node(&mut p, &nodes[1]);
    assert_eq!(get_nodes(&c, &p).unwrap().iter().map(|n| n.id.clone()).collect::<Vec<_>>(), strings(&["n2"]));
    assert!(get_node_by_id(&c, &p, "n1", false).is_none());
    assert_eq!(get_node_by_id(&c, &p, "n1", true).unwrap().name, "n1");
    assert_eq!(get_node_by_id(&c, &p, "n2", false).unwrap().name, "n2");
    assert!(get_node_by_id(&c, &p, "zz", true).is_none());
}

#[test]
fn power_commands_are_read_and_called() {
    let action = PowerAction::parse(Type::REBOOT, "uhubctl -a cycle  -p 2").unwrap();
    assert_eq!(action.get_action(), Type::REBOOT);
    assert_eq!(action.get_command(), "uhubctl");
    assert_eq!(action.get_arguments(), strings(&["-a", "cycle", "-p", "2"]));
    let call = action.clone().execute();
    assert_eq!((call.program.as_str(), call.arguments, call.directory), ("uhubctl", strings(&["-a", "cycle", "-p", "2"]), None));
    assert_eq!(PowerAction::parse(Type::ON, " ").err(), Some("Could not parse power command".to_string()));
    let set = PowerActionSet::new(Ok(action.clone()), Err("no off command".to_string()), Ok(action));
    assert_eq!(set.get(&Type::OFF).err(), Some("no off command".to_string()));
    let c = config();
    let n = get_all_nodes(&c).unwrap().remove(0);
    let on = power_on(&c, &n).unwrap();
    assert_eq!((on.program.as_str(), on.arguments), ("uhubctl", strings(&["-a", "on", "-p", "1"])));
    assert_eq!(power_off(&c, &n).err(), Some("no off command".to_string()));
    assert_eq!(reboot(&c, &n).err(), Some("Could not parse power command".to_string()));
    assert_eq!(execute(get_power_commands_of(&c, &n), &Type::ON).unwrap().program, "uhubctl");
    let mut stranger = n.clone();
    stranger.id = "zz".to_string();
    assert_eq!(reboot(&c, &stranger).err(), Some("no reboot command".to_string()));
    assert_eq!(power_on(&c, &stranger).err(), Some("no on command".to_string()));
}

#[test]
fn tasks_that_fetch_results_are_found() {
    let fetch = Task::new(Some(1), Some(5), task::Type::GetResults, "{}".to_string(), false);
    let stop = Task::stop_if_true("done", 1);
    let other = Task::new(Some(1), Some(6), task::Type::GetResults, "{}".to_string(), false);
    let none = Task::new(Some(1), None, task::Type::GetResults, "{}".to_string(), false);
    let found = results_tasks(&vec![stop, fetch, other, none], 5);
    assert_eq!(found.len(), 1);
    assert_eq!(found[0].service, Some(5));
}
