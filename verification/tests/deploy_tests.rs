use cluster_manager::architecture::Architecture;
use cluster_manager::bootconfig::BootConfig;
use cluster_manager::configuration::Configuration;
use cluster_manager::deployer::{
    activate_vgs, add_loopdevice, allow_ssh_access_to_node, assign_deployment,
    associate_architectures, bootconfig_placeholders, bootconfigs_resolved, check_availability,
    clean_node, convert_vmdk_to_img, copy_partition_to_result, create_result_directory,
    create_results_directory, create_tmp_directory, deactivate_vgs, deploy, deploy_image,
    deploy_single_image, destroy_tmp_directory, execute_command_over_ssh, extract_configuration,
    flash_image_to_node, get_boot_path, get_loopdevice, get_mounted_order, get_pv_and_vg,
    handle_lvm_image,
    image_archive, is_lvm, largest_file, list_image_files, list_logical_volumes, list_partitions,
    list_physical_volumes, lvm_partitions, mount_lvm_partition, mount_order, mount_partition,
    mount_partitions, results_task, writes_pxe_file,
    mount_tftpboot, move_image_to_root_home, move_result_to_nfs, node_matches,
    open_screens_for_serial_logging, partition_order, prune_sd_card, pxe_directory, pxe_file,
    read_configuration, refusal, remove_loopdevice, remove_partition_directory,
    replace_placeholders, resolve_bootconfigs, results_mountpoint, retrieve_local_logs,
    service_address, storage_path, unmount_partition, unpack_image, wait_for_rebooted_node,
    write_pxe_file, Admission,
};
use cluster_manager::deployment::Deployment;
use cluster_manager::logsource::LogSource;
use cluster_manager::mountpoint::Mountpoint;
use cluster_manager::node::Node;
use cluster_manager::partition::Partition;
use cluster_manager::provisioning::{
    aborted_stations, after_manifest, next_state, run_succeeded, stations, State, Traits,
};
use cluster_manager::service::Service;

fn strings(items: &[&str]) -> Vec<String> {
    items.iter().map(|s| s.to_string()).collect()
}

fn node(id: &str, architecture: Architecture) -> Node {
    Node {
        id: id.to_string(),
        name: format!("{}-name", id),
        tftp_prefix: format!("{}-prefix", id),
        mac_address: "b8:27:eb:00:00:01".to_string(),
        serial_number: "0001".to_string(),
        ipv4_address: "10.0.0.11".to_string(),
        log_inputs: Vec::new(),
        architecture,
        pxe: false,
    }
}

fn service(name: &str, architecture: Option<Architecture>, replicas: i64, preferred: Option<&str>) -> Service {
    let mut s = Service::new(name, "web", "h1", 1000);
    s.architecture = architecture;
    s.replicas = replicas;
    s.preferred_node = preferred.map(|p| p.to_string());
    s
}

fn bound(bindings: &[(Service, Node)]) -> Vec<(String, String, Option<String>)> {
    bindings.iter().map(|(s, n)| (s.name.clone(), n.id.clone(), s.node.clone())).collect()
}

#[test]
fn first_matching_node_wins() {
    let nodes = vec![node("a", Architecture::X86), node("b", Architecture::ARM64), node("c", Architecture::ARM64)];
    let services = vec![service("s1", Some(Architecture::ARM64), 1, None), service("s2", Some(Architecture::X86), 1, None)];
    let bindings = check_availability(services, nodes).unwrap();
    assert_eq!(bound(&bindings), vec![("s1".to_string(), "b".to_string(), Some("b".to_string())), ("s2".to_string(), "a".to_string(), Some("a".to_string()))]);
}

#[test]
fn replicas_take_one_node_each() {
    let nodes = vec![node("a", Architecture::ARM64), node("b", Architecture::ARM32), node("c", Architecture::ARM64)];
    let bindings = check_availability(vec![service("s", Some(Architecture::ARM64), 2, None)], nodes).unwrap();
    assert_eq!(bound(&bindings), vec![("s".to_string(), "a".to_string(), Some("a".to_string())), ("s".to_string(), "c".to_string(), Some("c".to_string()))]);
    let nodes = vec![node("a", Architecture::ARM64), node("b", Architecture::ARM32)];
    assert_eq!(check_availability(vec![service("s", Some(Architecture::ARM64), 2, None)], nodes).err(), Some("No available node for s".to_string()));
}

#[test]
fn admission_is_deterministic() {
    let make = || {
        (
            vec![service("s1", Some(Architecture::ARM64), 2, None), service("s2", Some(Architecture::ARM32), 1, Some("d"))],
            vec![node("a", Architecture::ARM64), node("b", Architecture::ARM32), node("c", Architecture::ARM64), node("d", Architecture::ARM32)],
        )
    };
    let (s1, n1) = make();
    let (s2, n2) = make();
    let first = check_availability(s1, n1).unwrap();
    let second = check_availability(s2, n2).unwrap();
    assert_eq!(bound(&first), bound(&second));
    assert_eq!(bound(&first).iter().map(|b| b.1.clone()).collect::<Vec<_>>(), strings(&["a", "c", "d"]));
}

#[test]
fn no_replicas_admit_without_binding() {
    let nodes = vec![node("a", Architecture::ARM64)];
    assert_eq!(check_availability(vec![service("s", Some(Architecture::ARM64), 0, None)], nodes).unwrap().len(), 0);
    assert_eq!(check_availability(vec![service("s", Some(Architecture::X86), 0, Some("zz"))], Vec::new()).unwrap().len(), 0);
    assert_eq!(check_availability(vec![service("s", Some(Architecture::X86), -3, None)], Vec::new()).unwrap().len(), 0);
    assert_eq!(check_availability(Vec::new(), vec![node("a", Architecture::ARM64)]).unwrap().len(), 0);
}

#[test]
fn preferred_node_of_another_architecture_fails_admission() {
    let nodes = vec![node("a", Architecture::ARM64), node("b", Architecture::X86)];
    let r = check_availability(vec![service("s", Some(Architecture::X86), 1, Some("a"))], nodes);
    assert_eq!(r.err(), Some("No available node for s".to_string()));
    let nodes = vec![node("a", Architecture::ARM64), node("b", Architecture::X86)];
    let r = check_availability(vec![service("s", Some(Architecture::X86), 1, Some("b"))], nodes).unwrap();
    assert_eq!(r[0].1.id, "b");
}

#[test]
fn a_service_without_architecture_matches_no_node() {
    let n = node("a", Architecture::ARM64);
    assert!(!node_matches(&n, &service("s", None, 1, None)));
    assert!(node_matches(&n, &service("s", Some(Architecture::ARM64), 1, None)));
    assert!(!node_matches(&n, &service("s", Some(Architecture::ARM64), 1, Some("b"))));
    assert!(check_availability(vec![service("s", None, 1, None)], vec![n]).is_err());
}

#[test]
fn admission_failure() {
    // one idle ARM32 node, the image of the service is X86
    let mut deployment = Deployment::new("d", 1000);
    deployment.services.push(service("s", None, 1, None));
    let r = deploy(&mut deployment, &vec![Some(Architecture::X86)], vec![node("n", Architecture::ARM32)]);
    match r {
        Admission::Refused(message) => assert_eq!(message, "No available node for s"),
        _ => panic!("the deployment must be refused"),
    }
    assert_eq!(deployment.services[0].architecture, Some(Architecture::X86));
    assert_eq!(refusal(), "can not deploy this deployment because not enough nodes are available");
}

#[test]
fn netboot_deploy_of_one_arm64_service() {
    let mut deployment = Deployment::new("d", 1000);
    deployment.services.push(Service::new("s", "web", "h1", 1000));
    let r = deploy(&mut deployment, &vec![Some(Architecture::ARM64)], vec![node("n1", Architecture::ARM64)]);
    let bindings = match r {
        Admission::Admitted(bindings) => bindings,
        _ => panic!("the deployment must be admitted"),
    };
    assert_eq!(bound(&bindings), vec![("s".to_string(), "n1".to_string(), Some("n1".to_string()))]);
    let bindings = assign_deployment(bindings, 7);
    assert_eq!(bindings[0].0.deployment, Some(7));
    assert_eq!(bindings[0].0.hostname, "h1");
    // the image: boot at sector 8192, root at sector 100000, mounted root first
    let mut config = Configuration::default();
    config.partitions.push(Partition::parse("fat /boot boot 256M 8192 c").unwrap());
    config.partitions.push(Partition::parse("ext4 / root 1G 100000 L").unwrap());
    config.mountorder.push(Mountpoint::new(1, 2, "/".to_string()));
    config.mountorder.push(Mountpoint::new(2, 1, "/boot".to_string()));
    let traits = deploy_image(&config, false);
    assert_eq!(traits, Traits { on_device: false, x86: false, lvm: false, pxe: false });
    let path = stations(traits);
    assert!(!path.contains(&State::PxeFileWritten));
    assert!(path.contains(&State::BootPartitionBindMountedInTftp));
    let order: Vec<String> = mount_order(&config).iter().map(|m| m.get_path()).collect();
    assert_eq!(order, strings(&["/", "/boot"]));
    let bind = mount_tftpboot(&config.partitions, "n1");
    assert_eq!(bind.arguments, strings(&["-o", "bind", "/nfs/n1/boot", "/tftpboot/n1"]));
    assert!(results_mountpoint(&config).is_none());
}

#[test]
fn unresolved_architectures_stop_a_deployment() {
    let mut deployment = Deployment::new("d", 1000);
    deployment.services.push(service("s1", None, 1, None));
    deployment.services.push(service("s2", Some(Architecture::ARM32), 1, None));
    assert!(matches!(deploy(&mut deployment, &vec![None, Some(Architecture::X86)], vec![node("n", Architecture::ARM32)]), Admission::Unresolved));
    assert_eq!(deployment.services[1].architecture, Some(Architecture::ARM32));
    let mut deployment = Deployment::new("d", 1000);
    deployment.services.push(service("s1", None, 1, None));
    deployment.services.push(service("s2", Some(Architecture::ARM32), 1, None));
    assert!(associate_architectures(&mut deployment, &vec![Some(Architecture::ARM64), None]));
    assert_eq!(deployment.services[0].architecture, Some(Architecture::ARM64));
    assert_eq!(deployment.services[1].architecture, Some(Architecture::ARM32));
}

#[test]
fn empty_mount_order_falls_back_on_the_partitions() {
    let mut config = Configuration::default();
    config.partitions.push(Partition::parse("fat /boot boot 256M 8192 c").unwrap());
    config.partitions.push(Partition::parse("ext4 / root 1G 100000 L").unwrap());
    let order = mount_order(&config);
    let shape: Vec<(usize, usize, String)> = order.iter().map(|m| (m.get_mount_position(), m.partition_number, m.get_path())).collect();
    assert_eq!(shape, vec![(1, 1, "/boot".to_string()), (2, 2, "/".to_string())]);
    assert_eq!(partition_order(&config.partitions).len(), 2);
    assert!(mount_order(&Configuration::default()).is_empty());
}

#[test]
fn on_device_flash() {
    let mut config = Configuration::default();
    config.on_device = true;
    config.mountorder.push(Mountpoint::new(1, 1, "/boot".to_string()));
    config.mountorder.push(Mountpoint::new(2, 2, "/".to_string()));
    let target = results_mountpoint(&config).unwrap();
    assert_eq!((target.get_mount_position(), target.partition_number, target.get_path()), (2, 2, "/".to_string()));
    let traits = deploy_image(&config, false);
    assert!(traits.on_device);
    let path = stations(traits);
    assert_eq!(
        path,
        vec![
            State::Start, State::SandboxCreated, State::ImageUnpacked, State::ConfigRead, State::DefaultOsProvisioned,
            State::NodeRebooted, State::ImageCopiedToNode, State::SshAccessGranted, State::NodeUp, State::Flashed,
            State::RebootIssued, State::TftpUnmounted, State::NfsRootRemoved, State::Done, State::SandboxDestroyed,
        ]
    );
    let n2 = node("n2", Architecture::ARM32);
    let flash = flash_image_to_node(&n2, &storage_path("mmcblk0"));
    assert_eq!(flash.program, "ssh");
    assert_eq!(flash.arguments.last().unwrap(), "dd if=/root/generated.img of=/dev/mmcblk0 bs=20M");
    assert!(writes_pxe_file(State::PxeFileWritten, &n2));
    assert!(!writes_pxe_file(State::NfsRootRemoved, &n2));
    assert!(!writes_pxe_file(State::Done, &n2));
    let mut boots_with_loader = node("n3", Architecture::ARM32);
    boots_with_loader.pxe = true;
    assert!(writes_pxe_file(State::NfsRootRemoved, &boots_with_loader));
    assert!(!writes_pxe_file(State::Flashed, &boots_with_loader));
    let task = results_task(Some(7), 12, "{\"mount_position\":2,\"partition_number\":2,\"path\":\"/\"}".to_string());
    assert_eq!(task.task_type, cluster_manager::task::Type::GetResults);
    assert_eq!(task.task_type.to_db(), 4);
    assert_eq!((task.deployment, task.service, task.during_deployment), (Some(7), Some(12), false));
    assert_eq!(task.parameters, "{\"mount_position\":2,\"partition_number\":2,\"path\":\"/\"}");
    assert!(task.start.is_none() && task.end.is_none());
    assert_eq!(write_pxe_file(&config, &n2, "10.0.0.1"), "DEFAULT local\nlabel local\nLOCALBOOT 0");
    config.on_device = false;
    assert!(results_mountpoint(&config).is_none());
}

#[test]
fn stations_of_a_netboot_run() {
    let all = Traits { on_device: false, x86: true, lvm: true, pxe: true };
    assert_eq!(
        stations(all),
        vec![
            State::Start, State::SandboxCreated, State::ImageUnpacked, State::ConfigRead, State::VmdkConvertedToImg,
            State::LoopdevAttached, State::LvmActivated, State::PartitionsMounted, State::ResultDirCreated,
            State::PartitionsCopiedToResult, State::PartitionsUnmounted, State::VgsDeactivated, State::LoopdevDetached,
            State::BootconfigsResolved, State::PxeFileWritten, State::OldTftpUnmounted, State::ResultMovedToNfs,
            State::BootPartitionBindMountedInTftp, State::Done, State::SandboxDestroyed,
        ]
    );
    let plain = Traits { on_device: false, x86: false, lvm: false, pxe: false };
    let path = stations(plain);
    assert_eq!(path.len(), 16);
    assert!(!path.contains(&State::VmdkConvertedToImg) && !path.contains(&State::LvmActivated) && !path.contains(&State::VgsDeactivated));
    assert_eq!(next_state(State::Done, plain), Some(State::SandboxDestroyed));
    assert_eq!(next_state(State::SandboxDestroyed, plain), None);
    // every run ends with the sandbox destroyed, right after it is done
    for bits in 0..16u8 {
        let traits = Traits { on_device: bits & 1 != 0, x86: bits & 2 != 0, lvm: bits & 4 != 0, pxe: bits & 8 != 0 };
        let path = stations(traits);
        assert_eq!(path[path.len() - 2..], [State::Done, State::SandboxDestroyed]);
        let attached = path.iter().position(|s| *s == State::LoopdevAttached);
        let detached = path.iter().position(|s| *s == State::LoopdevDetached);
        assert_eq!(attached.is_some(), detached.is_some());
        if let (Some(a), Some(d)) = (attached, detached) {
            assert!(a < d);
        }
    }
}

#[test]
fn probes_wait_longer_each_time_up_to_a_ceiling() {
    let waits: Vec<Option<u64>> = (0..7).map(wait_for_rebooted_node).collect();
    assert_eq!(waits, vec![Some(1000), Some(2000), Some(4000), Some(8000), Some(16000), Some(30000), Some(30000)]);
    assert_eq!(wait_for_rebooted_node(119), Some(30000));
    assert_eq!(wait_for_rebooted_node(120), None);
    assert_eq!(wait_for_rebooted_node(u32::MAX), None);
}

#[test]
fn sandbox_paths_and_calls() {
    assert_eq!(image_archive("web"), "/etc/cluster-manager/os_images/web.zip");
    assert_eq!(create_tmp_directory("calm-sea"), "/etc/cluster-manager/tmp/calm-sea");
    assert_eq!(destroy_tmp_directory("calm-sea"), "/etc/cluster-manager/tmp/calm-sea");
    assert_eq!(create_result_directory("calm-sea"), "/etc/cluster-manager/tmp/calm-sea/result");
    assert_eq!(read_configuration("calm-sea"), "/etc/cluster-manager/tmp/calm-sea/os-build/configuration.json");
    let unzip = unpack_image("/etc/cluster-manager/os_images/web.zip", "calm-sea");
    assert_eq!((unzip.program.as_str(), unzip.arguments), ("unzip", strings(&["/etc/cluster-manager/os_images/web.zip", "-d", "/etc/cluster-manager/tmp/calm-sea"])));
    assert_eq!(add_loopdevice("d").arguments, strings(&["-av", "/etc/cluster-manager/tmp/d/os-build/generated.img"]));
    assert_eq!(remove_loopdevice("d").arguments, strings(&["-d", "/etc/cluster-manager/tmp/d/os-build/generated.img"]));
    assert_eq!(remove_loopdevice("d").program, "kpartx");
    let m = Mountpoint::new(1, 2, "boot".to_string());
    let mount = mount_partition("d", "loop0", &m);
    assert_eq!((mount.program.as_str(), mount.arguments), ("mount", strings(&["/dev/mapper/loop0p2", "/etc/cluster-manager/tmp/d/2"])));
    assert_eq!(unmount_partition(&m, "d").arguments, strings(&["/etc/cluster-manager/tmp/d/2"]));
    assert_eq!(unmount_partition(&m, "d").program, "umount");
    assert_eq!(remove_partition_directory(&m, "d"), "/etc/cluster-manager/tmp/d/2");
    let copy = copy_partition_to_result(&m, "d");
    assert_eq!((copy.program.as_str(), copy.arguments), ("rsync", strings(&["-a", "/etc/cluster-manager/tmp/d/2/", "/etc/cluster-manager/tmp/d/result/boot"])));
    let moved = move_result_to_nfs("d", "n1");
    assert_eq!(moved.arguments, strings(&["--delete-before", "--remove-source-files", "-a", "/etc/cluster-manager/tmp/d/result/", "/nfs/n1"]));
    let convert = convert_vmdk_to_img("d");
    assert_eq!((convert.program.as_str(), convert.arguments), ("qemu-img", strings(&["convert", "-f", "vmdk", "/etc/cluster-manager/tmp/d/os-build/generated.vmdk", "/etc/cluster-manager/tmp/d/os-build/generated.img"])));
    assert_eq!(list_partitions("d").arguments, strings(&["-l", "/etc/cluster-manager/tmp/d/os-build/generated.img"]));
    let extract = extract_configuration("web");
    assert_eq!(extract.arguments, strings(&["-p", "/etc/cluster-manager/os_images/web.zip", "os-build/configuration.json"]));
    assert_eq!(list_image_files("d").arguments, strings(&["--sort=size", "/etc/cluster-manager/tmp/d/os-build/"]));
}

#[test]
fn node_calls() {
    let n = node("n1", Architecture::ARM32);
    let ssh = execute_command_over_ssh(&n, "echo 'waiting'");
    assert_eq!(ssh.program, "ssh");
    assert_eq!(ssh.arguments, strings(&["-o", "StrictHostKeyChecking=no", "-o", "UserKnownHostsFile=/dev/null", "-i", "/etc/cluster-manager/deployer", "root@10.0.0.11", "echo 'waiting'"]));
    assert_eq!(allow_ssh_access_to_node(&n).arguments, strings(&["/etc/cluster-manager/deployer.pub", "/nfs/n1-prefix/root/.ssh/authorized_keys"]));
    assert_eq!(move_image_to_root_home("d", "generated.img", &n).arguments, strings(&["/etc/cluster-manager/tmp/d/os-build/generated.img", "/nfs/n1-prefix/root/generated.img"]));
    assert_eq!(prune_sd_card(&n).arguments.last().unwrap(), "dd if=/dev/urandom of=/dev/mmcblk0 bs=20M status=progress");
    assert_eq!(create_results_directory(&n), "/etc/cluster-manager/results/n1/logs");
    let steps = clean_node(&n);
    assert_eq!(steps.len(), 4);
    assert_eq!(steps[2].arguments.last().unwrap(), "reboot");
    assert_eq!(steps[3].arguments, strings(&["/tftpboot/n1-prefix"]));
    let fetch = retrieve_local_logs(&n, "mmcblk0", &Mountpoint::new(2, 2, "/".to_string()));
    let commands: Vec<String> = fetch.iter().map(|c| c.arguments.last().unwrap().clone()).collect();
    assert_eq!(commands, strings(&["mkdir /local", "mount /dev/mmcblk0p2 /local", "mv /local/results /results"]));
    assert_eq!(pxe_directory(), "/tftpboot/pxelinux.cfg");
    assert_eq!(pxe_file(&n), "/tftpboot/pxelinux.cfg/01-b8-27-eb-00-00-01");
}

#[test]
fn loop_device_is_read_from_the_mapper() {
    assert_eq!(get_loopdevice("add map loop0p1 (253:0): 0 524288 linear 7:0 8192\nadd map loop0p2 (253:1): 0 1 linear 7:0 532480\n"), Some("loop0".to_string()));
    assert_eq!(get_loopdevice("add map loop12p1 (253:0)"), Some("loop12".to_string()));
    assert_eq!(get_loopdevice(""), None);
    assert_eq!(get_loopdevice("add map"), None);
    assert_eq!(get_loopdevice("add map sda1 x"), None);
    assert_eq!(largest_file("generated.img  configuration.json\nother"), Some("generated.img".to_string()));
    assert_eq!(largest_file(""), None);
}

#[test]
fn logical_volumes_are_matched_by_name() {
    assert!(is_lvm("Device Boot Start End Sectors Size Id Type\n/dev/x1 2048 999 1M 8e Linux LVM\n"));
    assert!(!is_lvm("Device Boot Start End Sectors Size Id Type\n/dev/x1 2048 999 1M 83 Linux\n"));
    assert_eq!(list_logical_volumes("vg0").arguments, strings(&["vg0"]));
    assert_eq!(list_physical_volumes().program, "pvs");
    let volumes = lvm_partitions("  --- Logical volume ---\n  LV Path                /dev/vg0/root\n  LV Name                root\n  LV Path                /dev/vg0/swap\n  LV Path                /dev/vg0/boot\n");
    assert_eq!(volumes, strings(&["/dev/vg0/root", "/dev/vg0/swap", "/dev/vg0/boot"]));
    assert_eq!(get_pv_and_vg("  PV VG Fmt\n  /dev/mapper/loop0p2 vg0 lvm2 a--\n  /dev/sda2 vg1 lvm2\n", "loop0"), Some(("/dev/mapper/loop0p2".to_string(), "vg0".to_string())));
    assert_eq!(get_pv_and_vg("  PV VG Fmt\n", "loop0"), None);
    let mut config = Configuration::default();
    config.partitions.push(Partition::parse("fat /boot boot 256M 8192 c").unwrap());
    config.partitions.push(Partition::parse("ext4 / root 1G 100000 L").unwrap());
    let matched = handle_lvm_image(&config, "vg0", &volumes);
    let names: Vec<String> = matched.iter().map(|p| p.get_name()).collect();
    assert_eq!(names, strings(&["root", "boot"]));
    assert_eq!(activate_vgs("vg0").arguments, strings(&["-ay", "vg0"]));
    let release = deactivate_vgs("vg0");
    assert_eq!((release[0].program.as_str(), release[0].arguments.clone()), ("vgchange", strings(&["-an", "vg0"])));
    assert_eq!((release[1].program.as_str(), release[1].arguments.clone()), ("vgexport", strings(&["vg0"])));
    let mount = mount_lvm_partition("d", "vg0", 1, &matched[0]);
    assert_eq!(mount.arguments, strings(&["/dev/vg0/root", "/etc/cluster-manager/tmp/d/1"]));
    assert_eq!(get_boot_path(&config.partitions), "/boot");
    assert_eq!(get_boot_path(&matched[..1].to_vec()), "/boot");
}

#[test]
fn boot_path_is_the_mount_point_of_the_boot_partition() {
    let partitions = vec![Partition::parse("ext4 / root 1G 100000 L").unwrap(), Partition::parse("fat /firmware boot 256M 8192 c").unwrap()];
    assert_eq!(get_boot_path(&partitions), "/firmware");
    assert_eq!(mount_tftpboot(&partitions, "n1/").arguments[2], "/nfs/n1/firmware");
}

#[test]
fn placeholders_are_replaced() {
    let placeholders = bootconfig_placeholders("10.0.0.1", "http://10.0.0.1:8080", "n1");
    assert_eq!(
        placeholders,
        vec![
            ("%SERVER_IP%".to_string(), "10.0.0.1".to_string()),
            ("%NFS_ROOT%".to_string(), "/nfs/n1".to_string()),
            ("%LOG_SERVER%".to_string(), "http://10.0.0.1:8080".to_string()),
            ("%TFTP_ROOT%".to_string(), "/tftpboot/n1".to_string()),
        ]
    );
    let content = "root=/dev/nfs nfsroot=%SERVER_IP%:%NFS_ROOT%,vers=3 rw\nlog=%LOG_SERVER% %TFTP_ROOT%\n";
    assert_eq!(replace_placeholders(content, &placeholders), "root=/dev/nfs nfsroot=10.0.0.1:/nfs/n1,vers=3 rw\nlog=http://10.0.0.1:8080 /tftpboot/n1");
    assert_eq!(replace_placeholders("x", &Vec::new()), "x");
    let files = BootConfig::parse("/boot/cmdline.txt /etc/fstab").unwrap();
    assert_eq!(resolve_bootconfigs("d", &files), strings(&["/etc/cluster-manager/tmp/d/result/boot/cmdline.txt", "/etc/cluster-manager/tmp/d/result/etc/fstab"]));
    assert!(bootconfigs_resolved(&vec![true, true]));
    assert!(!bootconfigs_resolved(&vec![true, false]));
    assert!(!bootconfigs_resolved(&Vec::new()));
}

#[test]
fn pxe_file_for_a_netboot_image() {
    let mut config = Configuration::default();
    config.pxe = true;
    config.pxe_kernel = "kernel.img".to_string();
    config.pxe_options = "ip=dhcp root=/dev/nfs nfsroot=%SERVER_IP%:%NFS_ROOT% tftp=%TFTP_ROOT%".to_string();
    let n = node("n1", Architecture::X86);
    assert_eq!(write_pxe_file(&config, &n, "10.0.0.1"), "DEFAULT /tftpboot/n1-prefix/kernel.img ip=dhcp root=/dev/nfs nfsroot=10.0.0.1:/nfs/n1-prefix tftp=/tftpboot/n1-prefix");
}

#[test]
fn serial_lines_are_recorded_in_sessions() {
    let n = node("n1", Architecture::ARM32);
    let sources = vec![LogSource::serial("ttyUSB0".to_string()), LogSource::host("10.0.0.11".to_string()), LogSource::serial("ttyUSB1".to_string())];
    let starts = open_screens_for_serial_logging(&n, &sources);
    assert_eq!(starts.len(), 2);
    assert_eq!(starts[0].program, "screen");
    assert_eq!(starts[0].arguments, strings(&["-dmS", "n1-0", "-L", "-Logfile", "/etc/cluster-manager/results/n1/logs/serial0.log", "/dev/ttyUSB0", "115200"]));
    assert_eq!(starts[1].arguments, strings(&["-dmS", "n1-1", "-L", "-Logfile", "/etc/cluster-manager/results/n1/logs/serial1.log", "/dev/ttyUSB1", "115200"]));
}

#[test]
fn single_image_deployment() {
    let d = deploy_single_image("web", Some(node("n1", Architecture::ARM64)), 1234);
    assert_eq!(d.services.len(), 1);
    assert_eq!(d.services[0].image, "web");
    assert_eq!(d.services[0].preferred_node, Some("n1".to_string()));
    assert_eq!(d.services[0].replicas, 1);
    assert_eq!(d.start, 1234);
    assert_eq!(d.owner, "aresch");
    assert!(d.id.is_none() && d.end.is_none() && d.tasks.is_empty());
    assert!(!d.name.is_empty() && !d.services[0].hostname.is_empty());
    assert_eq!(deploy_single_image("web", None, 0).services[0].preferred_node, None);
    let mut s = Service::new("s", "web", "h", 0);
    assert_eq!(service_address(&s, Some("10.0.0.9".to_string())), Some("10.0.0.9".to_string()));
    s.ipv4_address = Some("10.0.0.5".to_string());
    assert_eq!(service_address(&s, Some("10.0.0.9".to_string())), Some("10.0.0.5".to_string()));
}

#[test]
fn a_manifest_that_cannot_be_read_ends_the_run() {
    assert_eq!(after_manifest(None), State::SandboxDestroyed);
    assert_eq!(aborted_stations(), vec![State::Start, State::SandboxCreated, State::ImageUnpacked, State::ConfigRead, State::SandboxDestroyed]);
    assert!(!run_succeeded(true, false));
    assert!(!run_succeeded(false, false));
    assert!(!run_succeeded(false, true));
    assert!(run_succeeded(true, true));
    for bits in 0..16u8 {
        let traits = Traits { on_device: bits & 1 != 0, x86: bits & 2 != 0, lvm: bits & 4 != 0, pxe: bits & 8 != 0 };
        assert_eq!(Some(after_manifest(Some(traits))), next_state(State::ConfigRead, traits));
    }
    assert_eq!(after_manifest(Some(Traits { on_device: true, x86: true, lvm: true, pxe: true })), State::DefaultOsProvisioned);
    assert_eq!(after_manifest(Some(Traits { on_device: false, x86: true, lvm: false, pxe: false })), State::VmdkConvertedToImg);
    assert_eq!(after_manifest(Some(Traits { on_device: false, x86: false, lvm: true, pxe: false })), State::LoopdevAttached);
}

#[test]
fn partitions_are_mounted_plainly_or_as_logical_volumes() {
    let mut config = Configuration::default();
    config.partitions.push(Partition::parse("fat /boot boot 256M 8192 c").unwrap());
    config.partitions.push(Partition::parse("ext4 / root 1G 100000 L").unwrap());
    config.mountorder.push(Mountpoint::new(1, 2, "/".to_string()));
    config.mountorder.push(Mountpoint::new(2, 1, "/boot".to_string()));
    let plain = mount_partitions("d", "loop0", "", false, &config);
    assert_eq!(plain.iter().map(|c| c.arguments.clone()).collect::<Vec<_>>(), vec![
        strings(&["/dev/mapper/loop0p2", "/etc/cluster-manager/tmp/d/2"]),
        strings(&["/dev/mapper/loop0p1", "/etc/cluster-manager/tmp/d/1"]),
    ]);
    let volumes = mount_partitions("d", "loop0", "vg0", true, &config);
    assert_eq!(volumes.iter().map(|c| c.arguments.clone()).collect::<Vec<_>>(), vec![
        strings(&["/dev/vg0/boot", "/etc/cluster-manager/tmp/d/1"]),
        strings(&["/dev/vg0/root", "/etc/cluster-manager/tmp/d/2"]),
    ]);
    assert!(plain.iter().chain(volumes.iter()).all(|c| c.program == "mount"));
    let order = |lvm: bool| get_mounted_order(lvm, &config).iter().map(|m| (m.get_partition_number(), m.get_path())).collect::<Vec<_>>();
    assert_eq!(order(false), vec![(2, "/".to_string()), (1, "/boot".to_string())]);
    assert_eq!(order(true), vec![(1, "/boot".to_string()), (2, "/".to_string())]);
    assert!(mount_partitions("d", "loop0", "vg0", true, &Configuration::default()).is_empty());
}
