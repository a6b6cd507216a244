use cluster_manager::architecture::Architecture;
use cluster_manager::builder::{
    base_directory, base_image_kind, build, build_directory, classify_base_image, configuration_file,
    create_base_image_tmp_directory, docker_logs, docker_outcome, docker_packer, generate_sha256,
    get_base_image_from_repo, handle_repo_base_image, merge_mount_order, mount_table,
    move_base_image_to_sandbox, move_files_to_sandbox, move_preseed_file, native_packer,
    packer_cache, parent_directory, read_configuration_of_base_image, set_tag, take_mount_order,
    docker_poll, unpack_base_image, write_configuration, write_pkr_hcl, zip_image, BaseImage,
    BuildStep, Poll,
};
use cluster_manager::client;
use cluster_manager::configuration::Configuration;
use cluster_manager::database::{
    self, check, deployment_query, free_nodes, get_idle_nodes, insert_task_statement, is_hosting,
    service_query, setup,
};
use cluster_manager::deployment::Deployment;
use cluster_manager::deployment_row::DeploymentRow;
use cluster_manager::ledger::Ledger;
use cluster_manager::logs_manager::{
    collect_deployment_logs, copy_results, deployment_directory, format_log, gather_logs,
    get_log_base_directory, get_log_sources, get_logs_of_deployment, log_fields_of,
    move_node_logs, node_directory, read_log_line, results_directory, shows_header,
    string_members,
};
use cluster_manager::logsource::LogSource;
use cluster_manager::mountpoint::Mountpoint;
use cluster_manager::node::Node;
use cluster_manager::parser::parse;
use cluster_manager::server::{self, Status, UploadStep};
use cluster_manager::service::{Service, ServiceEntry};
use cluster_manager::service_row::ServiceRow;
use cluster_manager::table::Table;
use cluster_manager::task::{from_db_to_type, Task, Type};
use cluster_manager::watcher::{
    count_hits, log_task_fulfilled, needs_logs, rule_fulfilled, watch, WATCH_INTERVAL,
};

fn strings(items: &[&str]) -> Vec<String> {
    items.iter().map(|s| s.to_string()).collect()
}

fn node(id: &str) -> Node {
    Node {
        id: id.to_string(),
        name: id.to_string(),
        tftp_prefix: id.to_string(),
        mac_address: format!("mac-{}", id),
        serial_number: "1".to_string(),
        ipv4_address: "10.0.0.11".to_string(),
        log_inputs: Vec::new(),
        architecture: Architecture::ARM64,
        pxe: false,
    }
}

fn running_on(node: &str, deployment: i64) -> Service {
    let mut s = Service::new("s", "web", "h", 100);
    s.node = Some(node.to_string());
    s.deployment = Some(deployment);
    s.architecture = Some(Architecture::ARM64);
    s
}

#[test]
fn task_kinds_are_stored_as_numbers() {
    let kinds = [Type::NoOp, Type::PurgeLocalStorage, Type::DeleteLocalStorage, Type::StopIfTrue, Type::GetResults];
    for (number, kind) in kinds.iter().enumerate() {
        assert_eq!(kind.to_db(), number);
        assert_eq!(from_db_to_type(number), *kind);
    }
    assert_eq!(from_db_to_type(5), Type::NoOp);
    assert_eq!(from_db_to_type(usize::MAX), Type::NoOp);
    let t = Task::from_row(3, Some(4), 4, "{}".to_string(), false, Some(10), None);
    assert_eq!((t.deployment, t.service, t.task_type, t.start, t.end), (Some(3), Some(4), Type::GetResults, Some(10), None));
}

#[test]
fn stop_rules_are_written_and_read_as_json() {
    let task = Task::stop_if_true("build-failed", 2);
    assert_eq!(task.parameters, "[\"build-failed\",2]");
    assert_eq!(task.task_type, Type::StopIfTrue);
    assert!(task.during_deployment);
    assert!(task.deployment.is_none() && task.service.is_none() && task.start.is_none() && task.end.is_none());
    assert_eq!(task.stop_rule(), Some(("build-failed".to_string(), 2)));
    let quoted = Task::stop_if_true("say \"hi\"", -1);
    assert_eq!(quoted.parameters, "[\"say \\\"hi\\\"\",-1]");
    assert_eq!(quoted.stop_rule(), Some(("say \"hi\"".to_string(), -1)));
    let broken = Task::new(None, None, Type::StopIfTrue, "{\"mount_position\":1}".to_string(), true);
    assert_eq!(broken.stop_rule(), None);
}

#[test]
fn watcher_stop() {
    let task = Task::stop_if_true("build-failed", 2);
    let line = |m: &str| ("n1".to_string(), "file".to_string(), m.to_string());
    let one = vec![line("starting"), line("build-failed"), line("build-failed again")];
    let two = vec![line("build-failed"), line("other"), line("build-failed")];
    assert_eq!(count_hits(&one, "build-failed"), 1);
    assert_eq!(count_hits(&two, "build-failed"), 2);
    assert!(!log_task_fulfilled(&task, &one));
    assert!(log_task_fulfilled(&task, &two));
    assert!(!watch(&vec![task.clone()], &one));
    assert!(watch(&vec![task.clone()], &two));
    let mut later = task.clone();
    later.during_deployment = false;
    assert!(!watch(&vec![later], &two));
    let fetch = Task::new(None, Some(1), Type::GetResults, task.parameters.clone(), true);
    assert!(!watch(&vec![fetch], &two));
    let broken = Task::new(None, None, Type::StopIfTrue, "not json".to_string(), true);
    assert!(!watch(&vec![broken, Task::stop_if_true("never", 1)], &two));
    assert!(watch(&vec![Task::stop_if_true("never", 0)], &Vec::new()));
    assert!(rule_fulfilled(Some(("x".to_string(), -5)), &Vec::new()));
    assert!(!rule_fulfilled(None, &two));
    assert_eq!(WATCH_INTERVAL, 60);
}

#[test]
fn log_lines_are_read_and_shown() {
    let lines = strings(&[
        "{\"@timestamp\":\"2021-05-01T10:00:00Z\",\"message\":\"starting\",\"host\":\"n1\"}",
        "{\"message\":\"build-failed\",\"@timestamp\":\"2021-05-01T10:00:05Z\"}",
    ]);
    let shown = get_logs_of_deployment("n1", "/var/log/n1", &lines, true).unwrap();
    assert_eq!(shown, vec![
        ("n1".to_string(), "/var/log/n1".to_string(), "2021-05-01T10:00:00Z: starting".to_string()),
        ("n1".to_string(), "/var/log/n1".to_string(), "2021-05-01T10:00:05Z: build-failed".to_string()),
    ]);
    let plain = get_logs_of_deployment("n1", "f", &lines, false).unwrap();
    assert_eq!(plain[1].2, "build-failed");
    assert!(get_logs_of_deployment("n1", "f", &strings(&["not json"]), false).is_none());
    assert!(get_logs_of_deployment("n1", "f", &strings(&["{\"message\":\"no time\"}"]), false).is_none());
    assert!(get_logs_of_deployment("n1", "f", &strings(&["{\"@timestamp\":1,\"message\":\"x\"}"]), false).is_none());
    assert_eq!(get_logs_of_deployment("n1", "f", &Vec::new(), false), Some(Vec::new()));
    assert_eq!(format_log("t", "m", true), "t: m");
    assert_eq!(format_log("t", "m", false), "m");
    assert!(shows_header("", "a", true) && !shows_header("a", "a", true) && !shows_header("", "a", false));
}

#[test]
fn log_files_and_calls() {
    assert_eq!(get_log_base_directory(Some("/var/logstash".to_string())), Some("/var/logstash/".to_string()));
    assert_eq!(get_log_base_directory(Some("/var/logstash/".to_string())), Some("/var/logstash/".to_string()));
    assert_eq!(get_log_base_directory(None), None);
    let sources = vec![LogSource::host("10.0.0.11".to_string()), LogSource::serial("ttyUSB0".to_string()), LogSource::host("n1".to_string())];
    assert_eq!(get_log_sources(&sources, "/var/logstash/"), strings(&["/var/logstash/logs/10.0.0.11/logs", "/var/logstash/logs/n1/logs"]));
    let n = node("n1");
    let moves = gather_logs(&n, &sources, "/var/logstash/");
    assert_eq!(moves.len(), 2);
    assert_eq!((moves[0].program.as_str(), moves[0].arguments.clone()), ("mv", strings(&["/var/logstash/logs/10.0.0.11/logs", "/etc/cluster-manager/results/n1/logs/10.0.0.11.log"])));
    let mut served = node("n1");
    served.tftp_prefix = "p1".to_string();
    assert_eq!(results_directory(&served), "/nfs/p1/results/");
    assert_eq!(copy_results(&served).arguments, strings(&["-a", "/nfs/p1/results/", "/etc/cluster-manager/results/n1/logs/results"]));
    assert_eq!(deployment_directory(7), "/etc/cluster-manager/results/7/");
    assert_eq!(node_directory("n1"), "/etc/cluster-manager/results/n1");
    assert_eq!(move_node_logs(7, "n1").arguments, strings(&["/etc/cluster-manager/results/n1", "/etc/cluster-manager/results/7/"]));
    let zip = collect_deployment_logs(7);
    assert_eq!((zip.program.as_str(), zip.arguments, zip.directory), ("zip", strings(&["-r", "7.zip", "./7"]), Some("/etc/cluster-manager/results/".to_string())));
}

#[test]
fn upload_checksum_mismatch() {
    assert_eq!(server::upload_step(false), UploadStep::Delete);
    assert_eq!(server::upload_image(false, false), Status::Conflict);
    assert_eq!(server::upload_image(false, true).code(), 409);
    assert_eq!(server::upload_step(true), UploadStep::Move);
    assert_eq!(server::upload_image(true, true).code(), 200);
    assert_eq!(server::upload_image(true, false).code(), 409);
    assert_eq!(server::upload_file("foo.zip"), "/tmp/rest-api/upload/foo.zip");
    assert_eq!(server::image_file("foo.zip"), "/etc/cluster-manager/os_images/foo.zip");
    assert_eq!(server::download_image("foo"), ("/etc/cluster-manager/os_images/foo.zip".to_string(), "form-data; filename=foo.zip".to_string()));
    assert_eq!(server::get_deployment_logs(12), ("/etc/cluster-manager/results/12.zip".to_string(), "form-data; filename=12.zip".to_string()));
    assert_eq!(server::found(false).code(), 404);
    assert_eq!(server::found(true), Status::Fine);
}

#[test]
fn client_addresses() {
    assert_eq!(client::get_server_address(None), "http://localhost:9090");
    let server = client::get_server_address(Some("10.0.0.1:9090".to_string()));
    assert_eq!(server, "http://10.0.0.1:9090");
    assert_eq!(client::list_services(&server, true, false), "http://10.0.0.1:9090/service/list/true/false");
    assert_eq!(client::list_nodes(&server, false), "http://10.0.0.1:9090/node/list/false");
    assert_eq!(client::get_node_by_id(&server, "n1", true), "http://10.0.0.1:9090/node/get/n1/true");
    assert_eq!(client::list_deployments(&server, true), "http://10.0.0.1:9090/deployment/list/true");
    assert_eq!(client::list_images(&server), "http://10.0.0.1:9090/image/list");
    assert_eq!(client::deploy_single_image(&server), "http://10.0.0.1:9090/deploy/image");
    assert_eq!(client::deploy_deployment(&server), "http://10.0.0.1:9090/deploy/file");
    assert_eq!(client::get_deployment_logs(&server, 3), ("http://10.0.0.1:9090/deployment/logs/3".to_string(), "./3.zip".to_string()));
    assert_eq!(client::pull_image(&server, "web"), "http://10.0.0.1:9090/image/download/web");
    let push = client::push_image(&server, "web", "web.zip", "abc");
    assert_eq!((push.program.as_str(), push.arguments), ("curl", strings(&["http://10.0.0.1:9090/image/upload/web.zip/abc", "-X", "POST", "-H", "Content-Type: multipart/form-data", "--form", "file=@web.zip"])));
}

#[test]
fn idle_nodes_host_no_running_service() {
    let nodes: Vec<Node> = (0..24).map(|i| node(&format!("n{}", i))).collect();
    let mut ended = running_on("n3", 1);
    ended.end = Some(200);
    let services = vec![running_on("n1", 1), ended, running_on("n7", 1), Service::new("unbound", "web", "h", 0)];
    assert!(is_hosting(&services, "n1") && !is_hosting(&services, "n3") && !is_hosting(&services, "n2"));
    let free: Vec<String> = free_nodes(&nodes, &services).iter().map(|n| n.id.clone()).collect();
    let expected: Vec<String> = (0..24).filter(|i| *i != 1 && *i != 7).map(|i| format!("n{}", i)).collect();
    assert_eq!(free, expected);
    let mut orders = Vec::new();
    for _ in 0..6 {
        let idle: Vec<String> = get_idle_nodes(&nodes, &services).iter().map(|n| n.id.clone()).collect();
        let mut sorted = idle.clone();
        sorted.sort();
        let mut wanted = expected.clone();
        wanted.sort();
        assert_eq!(sorted, wanted);
        orders.push(idle);
    }
    assert!(orders.iter().any(|o| *o != expected), "the idle nodes come in a random order");
}

#[test]
fn ledger_statements() {
    let statements = setup();
    assert_eq!(statements.len(), 4);
    assert!(statements[0].starts_with("CREATE TABLE IF NOT EXISTS deployments"));
    assert!(statements[3].contains("executed"));
    assert_eq!(check(), statements);
    assert_eq!(deployment_query(false), "SELECT * FROM deployments d WHERE d.id = ?1");
    assert_eq!(deployment_query(true), "SELECT * FROM deployments d WHERE d.id = ?1 AND d.end IS NULL");
    assert_eq!(service_query(true), "SELECT * FROM services s WHERE s.id = ?1 AND s.end IS NULL");
    assert_eq!(service_query(false), "SELECT * FROM services s WHERE s.id = ?1");
}

#[test]
fn ledger_keeps_deployments_services_and_tasks() {
    let mut ledger = Ledger::new();
    let mut d = Deployment::new("first", 50);
    d.tasks.push(Task::stop_if_true("done", 1));
    let id = ledger.insert_deployment(&d, 100);
    assert_eq!(id, 1);
    assert_eq!(ledger.count_deployments(), 1);
    assert!(ledger.is_running(1) && !ledger.is_running(2) && !ledger.is_running(0));
    let row = ledger.get_deployment_by_id(1, true).unwrap();
    assert_eq!((row.id, row.name.as_str(), row.owner.as_str(), row.start, row.end), (Some(1), "first", "aresch", 100, None));
    let tasks = ledger.get_tasks_by_deployment(1);
    assert_eq!(tasks.len(), 1);
    assert_eq!(tasks[0].deployment, Some(1));
    let s1 = ledger.insert_service(&running_on("n1", 1), 110);
    let s2 = ledger.record_service(&running_on("n2", 1), 120);
    assert_eq!((s1, s2), (1, Some(2)));
    assert_eq!(ledger.record_service(&running_on("n2", 1), 130), None, "a node takes one running service");
    assert_eq!(ledger.record_service(&running_on("n3", 9), 130), None, "a service belongs to a deployment that is there");
    assert_eq!(ledger.get_services().len(), 2);
    let running = ledger.get_running_services();
    assert_eq!(running.iter().map(|s| (s.id, s.node.clone(), s.start, s.end)).collect::<Vec<_>>(), vec![(Some(1), Some("n1".to_string()), 110, None), (Some(2), Some("n2".to_string()), 120, None)]);
    assert_eq!(ledger.insert_task(&Task::new(None, Some(2), Type::GetResults, "{}".to_string(), false), 1), 2);
    assert_eq!(ledger.get_tasks_by_deployment(1).len(), 2);
    assert_eq!(ledger.set_end_and_executed_for_task(2, 150), 1);
    assert_eq!(ledger.get_tasks_by_deployment(1)[1].end, Some(150));
    assert_eq!(ledger.set_end_and_executed_for_task(9, 150), 0);
    let with_tasks = ledger.get_running_deployments();
    assert_eq!(with_tasks.len(), 1);
    assert_eq!(with_tasks[0].tasks.len(), 2);
    ledger.stop_deployment(1, 200);
    assert!(!ledger.is_running(1));
    assert!(ledger.get_running_services().is_empty());
    assert_eq!(ledger.get_stopped_services().iter().map(|s| s.end).collect::<Vec<_>>(), vec![Some(200), Some(200)]);
    assert_eq!(ledger.get_deployment_by_id(1, false).unwrap().end, Some(200));
    assert!(ledger.get_deployment_by_id(1, true).is_none());
    assert!(ledger.get_running_deployments().is_empty());
    assert_eq!(ledger.get_deployments().len(), 1);
    assert_eq!(ledger.record_service(&running_on("n2", 1), 300), Some(3), "the node is free again");
    assert_eq!(ledger.get_services_by_deployment(1).len(), 3);
    assert_eq!(ledger.get_service_by_id(3, true).unwrap().node, Some("n2".to_string()));
    assert!(ledger.get_service_by_id(1, true).is_none());
    assert_eq!(ledger.get_service_by_id(1, false).unwrap().end, Some(200));
    assert!(ledger.get_service_by_id(0, false).is_none() && ledger.get_service_by_id(4, false).is_none());
}

#[test]
fn ledger_is_read_from_rows_and_looked_over() {
    let row = |id: i64, node: &str, deployment: i64, start: i64, end: Option<i64>| {
        let mut s = running_on(node, deployment);
        s.id = Some(id);
        s.start = start;
        s.end = end;
        s
    };
    let deployments = || vec![Deployment::from_row(Some(1), "a".to_string(), "me".to_string(), 10, None), Deployment::from_row(Some(2), "b".to_string(), "me".to_string(), 20, Some(30))];
    let good = Ledger::from_rows(deployments(), vec![row(1, "n1", 1, 11, None), row(2, "n2", 2, 21, Some(30)), row(3, "n2", 1, 40, None)], Vec::new(), 50).unwrap();
    assert!(good.has_unique_nodes() && good.has_whole_deployments() && good.is_consistent());
    let shared = Ledger::from_rows(deployments(), vec![row(1, "n1", 1, 11, None), row(2, "n1", 1, 12, None)], Vec::new(), 50).unwrap();
    assert!(!shared.has_unique_nodes() && shared.has_whole_deployments() && !shared.is_consistent());
    let ended = Ledger::from_rows(deployments(), vec![row(1, "n1", 1, 11, Some(12))], Vec::new(), 50).unwrap();
    assert!(ended.has_unique_nodes() && !ended.has_whole_deployments());
    let early = Ledger::from_rows(deployments(), vec![row(1, "n1", 1, 60, None)], Vec::new(), 50).unwrap();
    assert!(!early.is_consistent());
    let stray = Ledger::from_rows(deployments(), vec![row(1, "n1", 3, 11, None)], Vec::new(), 50).unwrap();
    assert!(!stray.has_whole_deployments());
    assert!(Ledger::from_rows(deployments(), vec![row(2, "n1", 1, 11, None)], Vec::new(), 50).is_none());
    assert!(Ledger::from_rows(vec![Deployment::from_row(None, "a".to_string(), "me".to_string(), 10, None)], Vec::new(), Vec::new(), 50).is_none());
    assert!(Ledger::from_rows(Vec::new(), Vec::new(), Vec::new(), 0).unwrap().is_consistent());
}

#[test]
fn end_dates_are_set_once() {
    let mut ledger = Ledger::new();
    ledger.insert_deployment(&Deployment::new("d", 0), 10);
    ledger.insert_service(&running_on("n1", 1), 20);
    assert_eq!(ledger.set_enddate_for_service(1, 30), 1);
    assert_eq!(ledger.set_enddate_for_service(1, 40), 1);
    assert_eq!(ledger.get_service_by_id(1, false).unwrap().end, Some(30));
    assert_eq!(ledger.set_enddate_for_service(2, 40), 0);
    assert_eq!(ledger.set_enddate_for_deployment(1, 50), 1);
    assert_eq!(ledger.set_enddate_for_deployment(1, 60), 1);
    assert_eq!(ledger.get_deployment_by_id(1, false).unwrap().end, Some(50));
    assert_eq!(ledger.set_enddate_for_deployment(7, 60), 0);
}

#[test]
fn services_and_deployments_are_described() {
    let entry = ServiceEntry { image: "web".to_string(), hostname: Some("h1".to_string()), replicas: Some(3), node: Some("n1".to_string()), ipv4_address: None };
    let s = Service::from_yaml("front", &entry, 77);
    assert_eq!((s.name.as_str(), s.image.as_str(), s.hostname.as_str(), s.replicas, s.start), ("front", "web", "h1", 3, 77));
    assert_eq!(s.preferred_node, Some("n1".to_string()));
    assert!(s.id.is_none() && s.deployment.is_none() && s.node.is_none() && s.architecture.is_none() && s.end.is_none());
    let bare = ServiceEntry { image: "db".to_string(), hostname: None, replicas: None, node: None, ipv4_address: Some("10.0.0.9".to_string()) };
    let t = Service::from_yaml("back", &bare, 77);
    assert_eq!(t.replicas, 1);
    assert!(!t.hostname.is_empty());
    assert_eq!(t.ipv4_address, Some("10.0.0.9".to_string()));
    assert_eq!(Service::from_entry("back", &bare, "fallback".to_string(), 1).hostname, "fallback");
    let d = Deployment::from_yaml("demo.yml", &vec![("front".to_string(), entry), ("back".to_string(), bare)], &vec![("build-failed".to_string(), 2)], 77);
    assert_eq!(d.name, "demo.yml");
    assert_eq!(d.get_services().iter().map(|s| s.name.clone()).collect::<Vec<_>>(), strings(&["front", "back"]));
    assert_eq!(d.tasks.len(), 1);
    assert_eq!(d.tasks[0].parameters, "[\"build-failed\",2]");
    let row = Service::from_row(Some(4), "front".to_string(), "web".to_string(), Some(1), Some("n1".to_string()), 10, Some(20), None, "h1".to_string(), "X86");
    assert_eq!((row.id, row.replicas, row.architecture, row.end), (Some(4), 1, Some(Architecture::X86), Some(20)));
    assert_eq!(Service::from_row(None, String::new(), String::new(), None, None, 0, None, None, String::new(), "??").architecture, Some(Architecture::ARM64));
    let line = ServiceRow::new(&row, "node one".to_string(), "demo".to_string());
    assert_eq!((line.id, line.node.as_str(), line.deployment.as_str(), line.start, line.end, line.replicas), (4, "node one", "demo", Some(10), Some(20), 1));
    let from_row = Deployment::from_row(Some(2), "demo".to_string(), "me".to_string(), 5, None);
    let line = DeploymentRow::new(from_row, Some(3));
    assert_eq!((line.id, line.name.as_str(), line.owner.as_str(), line.start, line.end, line.services), (Some(2), "demo", "me", Some(5), None, Some(3)));
}

#[test]
fn services_are_grouped_by_image_and_deployment() {
    let make = |image: &str, deployment: i64, name: &str| {
        let mut s = Service::new(name, image, "h", 0);
        s.deployment = Some(deployment);
        s
    };
    let groups = Service::group_services(vec![make("web", 1, "a"), make("db", 1, "b"), make("web", 1, "c"), make("web", 2, "d"), make("web", 1, "e")]);
    assert_eq!(groups.iter().map(|s| (s.name.clone(), s.replicas)).collect::<Vec<_>>(), vec![("a".to_string(), 3), ("b".to_string(), 1), ("d".to_string(), 1)]);
    assert!(Service::group_services(Vec::new()).is_empty());
}

#[test]
fn base_images_are_classified() {
    assert_eq!(classify_base_image(true, "./base.img"), BaseImage::Local);
    assert_eq!(classify_base_image(true, "http://example.org/base.img"), BaseImage::Local);
    assert_eq!(classify_base_image(false, "http://example.org/base.img"), BaseImage::Remote);
    assert_eq!(classify_base_image(false, "raspbian"), BaseImage::Registry);
    assert_eq!(classify_base_image(false, "./missing.img"), BaseImage::Registry);
    assert_eq!(base_image_kind(false, true), BaseImage::Remote);
}

#[test]
fn later_mount_point_wins_per_path() {
    let mut base = Configuration::default();
    base.mountorder.push(Mountpoint::new(1, 2, "/".to_string()));
    base.mountorder.push(Mountpoint::new(2, 1, "/boot".to_string()));
    let mut table = mount_table(&base);
    assert_eq!(table.len(), 2);
    merge_mount_order(&mut table, vec![Mountpoint::new(2, 3, "boot".to_string()), Mountpoint::new(2, 4, "/var".to_string()), Mountpoint::new(2, 5, "/boot".to_string())]);
    assert_eq!(table.len(), 3);
    assert_eq!(table.get("/").unwrap().partition_number, 2);
    assert_eq!(table.get("/boot").unwrap().partition_number, 5);
    assert_eq!(table.get("/var").unwrap().partition_number, 4);
    let order: Vec<usize> = table.into_values().iter().map(|m| m.partition_number).collect();
    assert_eq!(order, vec![2, 5, 4]);
}

#[test]
fn builder_output_becomes_the_mount_order() {
    let mut image = parse("ARCH ARM64\nFROM raspbian\n").unwrap();
    let mut base = Configuration::default();
    base.mountorder.push(Mountpoint::new(1, 2, "/".to_string()));
    base.partitions.push(cluster_manager::partition::Partition::parse("ext4 / root 1G 100000 L").unwrap());
    let table = handle_repo_base_image(&mut image, base, "calm-sea").ok().unwrap();
    assert_eq!(image.preamble.get_filename(), "./base/calm-sea/os-build/generated.img");
    assert_eq!(image.configuration.partitions.len(), 1);
    assert!(take_mount_order(&mut image, table, "mounting /dev/loop0p1 to /tmp/1/boot\nmounting /dev/loop0p3 to /tmp/1\n"));
    let shape: Vec<(String, usize)> = image.configuration.mountorder.iter().map(|m| (m.get_path(), m.partition_number)).collect();
    assert_eq!(shape, vec![("/".to_string(), 3), ("/boot".to_string(), 1)]);
    let mut empty = parse("ARCH ARM64\nFROM raspbian\n").unwrap();
    assert!(!take_mount_order(&mut empty, Table::new(), "nothing mounted"));
    assert!(empty.configuration.mountorder.is_empty());
    let mut bare = parse("ARCH ARM64\nFROM raspbian\n").unwrap();
    assert_eq!(handle_repo_base_image(&mut bare, Configuration::default(), "s").err(), Some("No Mountorder found"));
    assert_eq!(bare.preamble.get_filename(), "raspbian");
}

#[test]
fn build_steps_skip_the_builder_for_a_prebuilt_image() {
    let mut prebuilt = parse("ARCH ARM64\nFROM ./ready.img\nPREBUILT\n").unwrap();
    assert_eq!(
        build(&mut prebuilt, "ready"),
        vec![BuildStep::CleanDirectory, BuildStep::CopyPrebuilt, BuildStep::WriteConfiguration, BuildStep::Cleanup, BuildStep::Compress, BuildStep::RemoveDirectory]
    );
    assert_eq!(prebuilt.configuration.name, "ready");
    let mut recipe = parse("ARCH ARM64\nFROM ./base.img\nRUN true\n").unwrap();
    let steps = build(&mut recipe, "made");
    assert_eq!(steps.len(), 11);
    assert_eq!(steps[1], BuildStep::ResolveBaseImage);
    assert_eq!(steps[5], BuildStep::RunBuilder);
    assert!(!steps.contains(&BuildStep::CopyPrebuilt));
}

#[test]
fn manifest_is_made_ready() {
    let mut image = parse("ARCH ARM32\nCONFIG /a /b\nCONFIG /b /c\n").unwrap();
    set_tag(&mut image, "web");
    write_configuration(&mut image);
    assert_eq!(image.configuration.name, "web");
    assert_eq!(image.configuration.architecture, Architecture::ARM32);
    assert_eq!(image.configuration.bootconfigs.len(), 1);
    assert_eq!(image.configuration.bootconfigs[0].get_files(), strings(&["/a", "/b", "/c"]));
}

#[test]
fn build_paths_and_calls() {
    assert_eq!(build_directory(), "./os-build");
    assert_eq!(base_directory(), "./os-build/base");
    assert_eq!(packer_cache(), "./os-build/packer_cache");
    assert_eq!(write_pkr_hcl("image.pkr.hcl"), "./os-build/image.pkr.hcl");
    assert_eq!(configuration_file(), "os-build/configuration.json");
    let docker = docker_packer("image.pkr.hcl", "/home/me", "calm-sea");
    assert_eq!((docker.program.as_str(), docker.arguments), ("docker", strings(&["run", "--rm", "--name", "calm-sea", "--privileged", "-v", "/dev:/dev", "-v", "/home/me/os-build:/build", "mkaczanowski/packer-builder-arm", "build", "image.pkr.hcl"])));
    assert_eq!(docker_logs("calm-sea").arguments, strings(&["logs", "-f", "calm-sea"]));
    assert_eq!(docker_outcome(true, "out".to_string()), Ok("out".to_string()));
    assert_eq!(docker_outcome(true, String::new()), Err("Could not execute docker command, check if docker is installed and running".to_string()));
    assert!(docker_outcome(false, "out".to_string()).is_err());
    let native = native_packer("image.pkr.hcl", "/home/me");
    assert_eq!((native.program.as_str(), native.arguments, native.directory), ("packer", strings(&["build", "/home/me/os-build/image.pkr.hcl"]), Some("/home/me/os-build/".to_string())));
    assert_eq!(zip_image("web").arguments, strings(&["-r", "web.zip", "./os-build"]));
    assert_eq!(get_base_image_from_repo("raspbian"), "./os-build/base/raspbian.zip");
    assert_eq!(create_base_image_tmp_directory("s"), "./os-build/base/s");
    assert_eq!(unpack_base_image("raspbian", "s").arguments, strings(&["./os-build/base/raspbian.zip", "-d", "./os-build/base/s"]));
    assert_eq!(read_configuration_of_base_image("s"), "./os-build/base/s/os-build/configuration.json");
    assert_eq!(generate_sha256("x/generated.img", "abc"), ("x/generated.img.sha256".to_string(), "abc generated.img\n".to_string()));
    assert_eq!(parent_directory("./os-build/conf/setup.sh"), "./os-build/conf");
    assert_eq!(parent_directory("setup.sh"), "");
}

#[test]
fn files_are_staged_for_the_builder() {
    let mut image = parse("ARCH X86\nFROM ./alpine.iso md5\nFILE conf/setup.sh /root/setup.sh\nRUN true\nFILE motd /etc/motd\nPRESEED conf/answers.cfg\n").unwrap();
    assert_eq!(move_files_to_sandbox(&image), vec![("conf/setup.sh".to_string(), "./os-build/conf/setup.sh".to_string()), ("motd".to_string(), "./os-build/motd".to_string())]);
    assert_eq!(move_preseed_file(&image), Some(("conf/answers.cfg".to_string(), "./os-build/http/answers.cfg".to_string())));
    let (copy, checksum) = move_base_image_to_sandbox("./alpine.iso", &mut image);
    assert_eq!(copy.arguments, strings(&["./alpine.iso", "./os-build/base"]));
    assert_eq!(checksum, "./alpine.iso.md5");
    assert_eq!(image.preamble.get_filename(), "./base/./alpine.iso");
    let plain = parse("ARCH ARM64\nFROM x\n").unwrap();
    assert_eq!(move_preseed_file(&plain), None);
    assert!(move_files_to_sandbox(&plain).is_empty());
}

#[test]
fn log_records_are_picked_apart() {
    let pair = |a: &str, b: &str| (a.to_string(), b.to_string());
    let members = vec![pair("host", "n1"), pair("message", "starting"), pair("@timestamp", "t0"), pair("message", "second")];
    assert_eq!(log_fields_of(&members), Some(pair("t0", "starting")));
    assert_eq!(log_fields_of(&vec![pair("message", "m")]), None);
    assert_eq!(log_fields_of(&vec![pair("@timestamp", "t"), pair("Message", "m")]), None);
    assert_eq!(log_fields_of(&Vec::new()), None);
    let mixed = vec![("@timestamp".to_string(), None), ("message".to_string(), Some("m".to_string())), ("level".to_string(), Some("info".to_string()))];
    assert_eq!(string_members(&mixed), vec![pair("message", "m"), pair("level", "info")]);
    assert_eq!(read_log_line("{\"message\":\"m\",\"@timestamp\":\"t\",\"n\":3,\"tags\":[\"a\"]}"), Some(pair("t", "m")));
    assert_eq!(read_log_line("{\"message\":\"m\",\"@timestamp\":null}"), None);
    assert_eq!(read_log_line("[\"@timestamp\",\"message\"]"), None);
    assert_eq!(read_log_line("null"), None);
    assert_eq!(read_log_line("{\"message\":\"m\""), None);
}

#[test]
fn logs_are_read_only_for_watched_rules() {
    let rule = Task::stop_if_true("done", 1);
    let mut later = rule.clone();
    later.during_deployment = false;
    let broken = Task::new(None, None, Type::StopIfTrue, "not json".to_string(), true);
    let fetch = Task::new(None, Some(1), Type::GetResults, rule.parameters.clone(), true);
    assert!(!needs_logs(&Vec::new()));
    assert!(!needs_logs(&vec![later, broken, fetch.clone()]));
    assert!(needs_logs(&vec![fetch, rule]));
}

#[test]
fn the_log_of_the_building_container_is_polled() {
    assert_eq!(docker_poll(true, false, true), Poll::Finished);
    assert_eq!(docker_poll(true, false, false), Poll::Finished);
    assert_eq!(docker_poll(true, true, false), Poll::ShowErrors);
    assert_eq!(docker_poll(true, true, true), Poll::Again);
    assert_eq!(docker_poll(false, false, false), Poll::ShowFailure);
    assert_eq!(docker_poll(false, true, true), Poll::ShowFailure);
}

#[test]
fn ledger_rows_are_written_by_fixed_statements() {
    assert_eq!(database::INSERT_DEPLOYMENT, "INSERT INTO deployments (name, owner) VALUES (?1, ?2)");
    assert!(database::INSERT_SERVICE.starts_with("INSERT INTO services (name, image, deployment, node, ipv4_address, hostname, architecture)"));
    assert_eq!(insert_task_statement(true), "INSERT INTO tasks (deployment, service, type, parameters, during_deployment) VALUES (?1, ?2, ?3, ?4, ?5)");
    assert_eq!(insert_task_statement(false), "INSERT INTO tasks (deployment, type, parameters, during_deployment) VALUES (?1, ?2, ?3, ?4)");
    assert_eq!(database::END_SERVICE, "UPDATE services SET end = CURRENT_TIMESTAMP WHERE id = ?1 AND end IS NULL");
    assert_eq!(database::END_DEPLOYMENT, "UPDATE deployments SET end = CURRENT_TIMESTAMP WHERE id = ?1 AND end IS NULL");
    assert_eq!(database::END_TASK, "UPDATE tasks SET end = CURRENT_TIMESTAMP, executed = 1 WHERE id = ?1");
    assert_eq!(database::RUNNING_SERVICES, "SELECT * FROM services s WHERE s.end IS NULL");
    assert_eq!(database::RUNNING_DEPLOYMENTS, "SELECT * FROM deployments d WHERE d.end IS NULL");
}
