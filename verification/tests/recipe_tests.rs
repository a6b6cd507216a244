use cluster_manager::architecture::Architecture;
use cluster_manager::arm_preamble::ArmPreamble;
use cluster_manager::bootconfig::{group, BootConfig};
use cluster_manager::configuration::Configuration;
use cluster_manager::imagefile::Imagefile;
use cluster_manager::mountpoint::{get_mount_order, try_get_mount_order, Mountpoint};
use cluster_manager::parser::{get_architecture, get_command, parse, sanitize_content, supported_commands};
use cluster_manager::partition::Partition;
use cluster_manager::post_provisioner::PostProvisioner;
use cluster_manager::preamble::Preamble;
use cluster_manager::provisioner::{self, Provisioner, Types};
use cluster_manager::table::Table;
use cluster_manager::x86_preamble::X86Preamble;
use std::cmp::Ordering;

fn strings(items: &[&str]) -> Vec<String> {
    items.iter().map(|s| s.to_string()).collect()
}

#[test]
fn architectures_have_names() {
    assert_eq!(Architecture::ARM32.get_name(), "ARM32");
    assert_eq!(Architecture::ARM64.get_name(), "ARM64");
    assert_eq!(Architecture::X86.get_name(), "X86");
    assert_eq!(Architecture::parse("ARM32"), Ok(Architecture::ARM32));
    assert_eq!(Architecture::parse("ARM64"), Ok(Architecture::ARM64));
    assert_eq!(Architecture::parse("X86"), Ok(Architecture::X86));
    assert_eq!(Architecture::parse("x86"), Err("not supported"));
    assert_eq!(Architecture::parse(""), Err("not supported"));
}

#[test]
fn architectures_choose_their_builder() {
    assert!(matches!(Architecture::ARM32.get_preamble(), Preamble::Arm(_)));
    assert!(matches!(Architecture::ARM64.get_preamble(), Preamble::Arm(_)));
    assert!(matches!(Architecture::X86.get_preamble(), Preamble::X86(_)));
}

#[test]
fn bootconfig_reads_words() {
    assert_eq!(BootConfig::new().get_files(), Vec::<String>::new());
    assert_eq!(BootConfig::default().get_files(), Vec::<String>::new());
    assert_eq!(BootConfig::parse("/boot/cmdline.txt  /etc/fstab").unwrap().get_files(), strings(&["/boot/cmdline.txt", "/etc/fstab"]));
    assert_eq!(BootConfig::parse("   ").err(), Some("Could not parse BootConfig"));
}

#[test]
fn bootconfig_grouping_is_idempotent_and_without_duplicates() {
    let a = BootConfig::parse("/boot/cmdline.txt /etc/fstab").unwrap();
    let b = BootConfig::parse("/etc/fstab /etc/hosts /boot/cmdline.txt").unwrap();
    let once = group(&[a, b]);
    assert_eq!(once.get_files(), strings(&["/boot/cmdline.txt", "/etc/fstab", "/etc/hosts"]));
    let twice = group(&[group(&[BootConfig::parse("/boot/cmdline.txt /etc/fstab").unwrap(), BootConfig::parse("/etc/fstab /etc/hosts /boot/cmdline.txt").unwrap()])]);
    assert_eq!(twice.get_files(), once.get_files());
    assert_eq!(group(&[]).get_files(), Vec::<String>::new());
}

#[test]
fn partition_reads_six_words() {
    let p = Partition::parse("ext4 / rootfs 1G 100000 L").unwrap();
    assert_eq!(p.get_mountpoint(), "/");
    assert_eq!(p.get_name(), "rootfs");
    assert_eq!(p.get_start(), 100000);
    assert_eq!(p.start_sector(), Some(100000));
    assert_eq!(
        p.get_values(),
        vec![
            ("filesystem", "\"ext4\"".to_string()),
            ("mountpoint", "\"/\"".to_string()),
            ("name", "\"rootfs\"".to_string()),
            ("size", "\"1G\"".to_string()),
            ("start_sector", "\"100000\"".to_string()),
            ("type", "\"L\"".to_string()),
        ]
    );
    assert_eq!(Partition::parse("ext4 / rootfs 1G 100000").err(), Some("Could not parse Partition"));
    assert_eq!(Partition::parse("ext4 / rootfs 1G 100000 L extra").err(), Some("Could not parse Partition"));
    assert_eq!(Partition::parse("ext4 / rootfs 1G soon L").unwrap().start_sector(), None);
}

#[test]
fn partition_block_is_aligned() {
    let p = Partition::parse("fat /boot boot 256M 8192 c").unwrap();
    let expected = "  image_partitions {\n    filesystem           = \"fat\"\n    mountpoint           = \"/boot\"\n    name                 = \"boot\"\n    size                 = \"256M\"\n    start_sector         = \"8192\"\n    type                 = \"c\"\n  }\n";
    assert_eq!(p.to_pkr_hcl(), expected);
    let q = p.clone();
    assert_eq!(q.to_pkr_hcl(), expected);
    assert!(p.same_start(&q));
    assert!(p == q);
    assert!(p == Partition::parse("ext4 /other other 1G 8192 L").unwrap());
    assert!(p != Partition::parse("fat /boot boot 256M 8193 c").unwrap());
}

#[test]
fn mountpoint_paths_begin_with_a_slash() {
    assert_eq!(Mountpoint::new(1, 2, String::new()).get_path(), "/");
    assert_eq!(Mountpoint::new(1, 2, "boot".to_string()).get_path(), "/boot");
    assert_eq!(Mountpoint::new(1, 2, "/boot".to_string()).get_path(), "/boot");
    let a = Mountpoint::new(1, 2, "/".to_string());
    let b = Mountpoint::new(2, 1, "/boot".to_string());
    assert_eq!(Mountpoint::sort(&a, &b), Ordering::Less);
    assert_eq!(Mountpoint::sort(&b, &a), Ordering::Greater);
    assert_eq!(Mountpoint::sort(&a, &a), Ordering::Equal);
    assert_eq!(a.partition_number, 2);
    assert_eq!(a.get_partition_number(), 2);
    assert_eq!(b.get_mount_position(), 2);
    assert!(a.same_as(&a.clone()));
    assert!(!a.same_as(&b));
    assert!(a == a.clone());
    assert!(a != b);
    assert!(a != Mountpoint::new(1, 3, "/".to_string()));
}

#[test]
fn mount_order_is_read_from_the_builder_output() {
    let output = "==> arm.imagefile: mounting /dev/loop0p1 to /tmp/783194124/boot\nirrelevant line\n\u{1b}[1;32m==> arm.imagefile: mounting /dev/loop0p2 to /tmp/783194124\u{1b}[0m\nmounting without target\n";
    let order = get_mount_order(output);
    assert_eq!(order.len(), 2);
    assert_eq!(order[0].get_path(), "/");
    assert_eq!(order[0].get_mount_position(), 1);
    assert_eq!(order[0].partition_number, 2);
    assert_eq!(order[1].get_path(), "/boot");
    assert_eq!(order[1].get_mount_position(), 2);
    assert_eq!(order[1].partition_number, 1);
    assert_eq!(get_mount_order("nothing here").len(), 0);
}

#[test]
fn mount_order_keeps_the_order_of_equal_positions() {
    let output = "mounting /dev/loop0p3 to /tmp/1/var\nmounting /dev/loop0p2 to /tmp/1/boot\nmounting /dev/loop0p1 to /tmp/1\n";
    let order = get_mount_order(output);
    let paths: Vec<String> = order.iter().map(|m| m.get_path()).collect();
    assert_eq!(paths, strings(&["/", "/var", "/boot"]));
}

#[test]
fn mount_lines_that_cannot_be_read_are_reported() {
    assert!(try_get_mount_order("mounting /dev/mapper/loop0p1 to /tmp/1/boot").is_none());
    assert!(try_get_mount_order("mounting /dev/loop0p1 to /x").is_none());
    assert_eq!(try_get_mount_order("mounting /dev/loop0p1 to /tmp/1/boot").map(|v| v.len()), Some(1));
}

fn table_of(lines: &[&str]) -> Table<Partition> {
    let mut table = Table::new();
    for line in lines {
        let p = Partition::parse(line).unwrap();
        table.insert(p.get_mountpoint(), p);
    }
    table
}

#[test]
fn partitions_are_taken_in_the_order_of_their_start() {
    let mut config = Configuration::default();
    let table = table_of(&["ext4 / rootfs 1G 100000 L", "fat /boot boot 256M 8192 c", "ext4 /var var 1G 50000 L"]);
    assert!(config.partitions_to_vec(&table));
    let starts: Vec<usize> = config.partitions.iter().map(|p| p.get_start()).collect();
    assert_eq!(starts, vec![8192, 50000, 100000]);
    let names: Vec<String> = config.partitions.iter().map(|p| p.get_name()).collect();
    assert_eq!(names, strings(&["boot", "var", "rootfs"]));
    let mut untouched = Configuration::default();
    assert!(!untouched.partitions_to_vec(&Table::new()));
    assert!(untouched.partitions.is_empty());
}

#[test]
fn a_later_partition_takes_the_place_of_its_mount_point() {
    let table = table_of(&["ext4 / rootfs 1G 100000 L", "ext4 / other 2G 4096 L"]);
    assert_eq!(table.len(), 1);
    assert_eq!(table.get("/").unwrap().get_name(), "other");
    assert!(table.get("/boot").is_none());
}

#[test]
fn configuration_default_is_empty() {
    let config = Configuration::default();
    assert_eq!(config.name, "");
    assert_eq!(config.architecture, Architecture::ARM64);
    assert!(config.bootconfigs.is_empty() && config.partitions.is_empty() && config.mountorder.is_empty());
    assert!(!config.on_device && !config.prebuilt && !config.pxe);
    assert_eq!(config.pxe_kernel, "");
    assert_eq!(config.pxe_options, "");
}

#[test]
fn merge_takes_what_the_base_image_adds() {
    let mut mine = Configuration::default();
    mine.partitions.push(Partition::parse("ext4 / rootfs 1G 100000 L").unwrap());
    mine.mountorder.push(Mountpoint::new(1, 2, "/".to_string()));
    mine.bootconfigs.push(BootConfig::parse("/etc/fstab").unwrap());
    mine.pxe_options = "quiet".to_string();
    let mut base = Configuration::default();
    base.partitions.push(Partition::parse("fat /boot boot 256M 8192 c").unwrap());
    base.partitions.push(Partition::parse("ext4 /other other 1G 100000 L").unwrap());
    base.mountorder.push(Mountpoint::new(1, 2, "/".to_string()));
    base.mountorder.push(Mountpoint::new(2, 1, "/boot".to_string()));
    base.bootconfigs.push(BootConfig::parse("/boot/cmdline.txt").unwrap());
    base.on_device = true;
    base.pxe = true;
    base.pxe_kernel = "kernel.img".to_string();
    base.pxe_options = "verbose".to_string();
    mine.merge(base);
    let names: Vec<String> = mine.partitions.iter().map(|p| p.get_name()).collect();
    assert_eq!(names, strings(&["rootfs", "boot"]));
    let paths: Vec<String> = mine.mountorder.iter().map(|m| m.get_path()).collect();
    assert_eq!(paths, strings(&["/", "/boot"]));
    assert_eq!(mine.bootconfigs.len(), 2);
    assert!(mine.on_device && mine.pxe);
    assert_eq!(mine.pxe_kernel, "kernel.img");
    assert_eq!(mine.pxe_options, "quiet");
}

#[test]
fn merge_leaves_kernel_and_options_without_network_boot() {
    let mut mine = Configuration::default();
    let mut base = Configuration::default();
    base.pxe_kernel = "kernel.img".to_string();
    mine.on_device = true;
    mine.pxe = true;
    mine.merge(base);
    assert!(!mine.pxe && !mine.on_device);
    assert_eq!(mine.pxe_kernel, "");
}

#[test]
fn mount_order_is_taken_from_a_table() {
    let mut config = Configuration::default();
    let mut table: Table<Mountpoint> = Table::new();
    assert!(!config.mountorder_to_vec(Table::new()));
    table.insert("/".to_string(), Mountpoint::new(1, 2, "/".to_string()));
    table.insert("/boot".to_string(), Mountpoint::new(2, 1, "/boot".to_string()));
    table.insert("/".to_string(), Mountpoint::new(1, 3, "/".to_string()));
    assert!(config.mountorder_to_vec(table));
    assert_eq!(config.mountorder.len(), 2);
    assert_eq!(config.mountorder[0].partition_number, 3);
    assert_eq!(config.mountorder[1].get_path(), "/boot");
}

#[test]
fn provisioners_are_read() {
    let run = Provisioner::parse(&Types::SHELL, "apt-get update").unwrap();
    assert_eq!(run.get_type(), Types::SHELL);
    assert_eq!(run.get_command(), strings(&["apt-get update"]));
    assert_eq!(Provisioner::parse(&Types::SHELL, "").err(), Some("Could not parse Run provisioner"));
    let file = Provisioner::parse(&Types::FILE, "setup.sh /root/setup.sh").unwrap();
    assert_eq!(file.get_type(), Types::FILE);
    assert_eq!(file.get_command(), strings(&["setup.sh", "/root/setup.sh"]));
    assert_eq!(Provisioner::parse(&Types::FILE, "setup.sh").err(), Some("Could not parse File provisioner"));
    assert_eq!(provisioner::parse_file("a b c").err(), Some("Could not parse File provisioner"));
    assert!(provisioner::parse_run("x").is_ok());
}

#[test]
fn provisioner_blocks() {
    let run = Provisioner::parse(&Types::SHELL, "apt-get update").unwrap();
    assert_eq!(run.to_pkr_hcl(), "  provisioner \"shell\" {\n    inline  = [\"apt-get update\"]\n  }\n");
    let file = Provisioner::parse(&Types::FILE, "setup.sh /root/setup.sh").unwrap();
    assert_eq!(file.to_pkr_hcl(), "  provisioner \"file\" {\n    destination = \"/root/setup.sh\"\n    source      = \"setup.sh\"\n  }\n");
    let post = PostProvisioner::new(cluster_manager::post_provisioner::Types::LocalShell, "rm -rf output/");
    assert_eq!(post.to_pkr_hcl(), "  post-processor \"shell-local\" {\n    inline  = [\"rm -rf output/\"]\n  }\n");
}

#[test]
fn shell_steps_that_follow_one_another_are_joined() {
    let steps = vec![
        Provisioner::parse(&Types::SHELL, "a").unwrap(),
        Provisioner::parse(&Types::SHELL, "b").unwrap(),
        Provisioner::parse(&Types::FILE, "x /x").unwrap(),
        Provisioner::parse(&Types::FILE, "y /y").unwrap(),
        Provisioner::parse(&Types::SHELL, "c").unwrap(),
    ];
    let grouped = provisioner::group(&steps);
    let shape: Vec<(Types, Vec<String>)> = grouped.iter().map(|p| (p.get_type(), p.get_command())).collect();
    assert_eq!(
        shape,
        vec![
            (Types::SHELL, strings(&["a", "b"])),
            (Types::FILE, strings(&["x", "/x"])),
            (Types::FILE, strings(&["y", "/y"])),
            (Types::SHELL, strings(&["c"])),
        ]
    );
    assert!(provisioner::group(&[]).is_empty());
}

#[test]
fn arm_preamble_reads_the_base_image() {
    let mut preamble = ArmPreamble::new();
    assert!(!preamble.has_base_image());
    assert_eq!(preamble.get_packer_plugin(), "arm");
    assert_eq!(preamble.parse_base_image("./base.img sha256"), Ok(()));
    assert!(preamble.has_base_image());
    assert_eq!(preamble.get_filename(), "./base.img");
    assert_eq!(preamble.get_checksum_type(), "sha256");
    let values = preamble.get_values();
    assert_eq!(values[0], ("image_build_method", "\"reuse\"".to_string()));
    assert_eq!(values[1], ("image_path", "\"generated.img\"".to_string()));
    assert_eq!(values[2], ("image_size", "\"2G\"".to_string()));
    assert_eq!(values[3], ("image_type", "\"dos\"".to_string()));
    assert_eq!(values[4], ("image_chroot_env", "[\"PATH=/usr/local/bin:/usr/local/sbin:/usr/bin:/usr/sbin:/bin:/sbin\"]".to_string()));
    assert_eq!(values[5], ("file_checksum_type", "\"sha256\"".to_string()));
    assert_eq!(values[6], ("file_checksum_url", "\"./base.img.sha256\"".to_string()));
    assert_eq!(values[7], ("file_target_extension", "\"img\"".to_string()));
    assert_eq!(values[8], ("file_urls", "[\"./base.img\"]".to_string()));
    assert_eq!(preamble.parse_base_image("a b c"), Err("Could not parse Baseimage"));
    assert_eq!(preamble.get_filename(), "./base.img");
    preamble.set_filepath("./base/raspbian.zip");
    assert_eq!(preamble.get_filename(), "./base/raspbian.zip");
    preamble.set_checksum("abc".to_string());
    assert_eq!(preamble.get_values()[6], ("file_checksum_url", "\"abc\"".to_string()));
    assert_eq!(preamble.get_values()[7], ("file_target_extension", "\"zip\"".to_string()));
    assert_eq!(preamble.get_preseed_file(), "");
    let mut single = ArmPreamble::default();
    assert_eq!(single.parse_base_image("http://example.org/base.img.xz"), Ok(()));
    assert_eq!(single.get_checksum_type(), "sha256");
    assert_eq!(single.get_values()[7], ("file_target_extension", "\"xz\"".to_string()));
}

#[test]
fn x86_preamble_holds_its_settings() {
    let mut preamble = X86Preamble::with_vm_name("calm-sea".to_string());
    assert_eq!(preamble.disk_size, 8192);
    assert!(preamble.headless);
    assert_eq!(preamble.get_packer_plugin(), "virtualbox-iso");
    assert_eq!(preamble.get_variables(), vec![("vmname".to_string(), "string".to_string(), "calm-sea".to_string())]);
    assert_eq!(preamble.parse_base_image("http://example.org/alpine.iso md5"), Ok(()));
    preamble.set_checksum("0123".to_string());
    preamble.set_ssh_username("admin".to_string());
    preamble.set_ssh_password("secret".to_string());
    preamble.set_boot_wait("10s".to_string());
    preamble.set_headless(false);
    preamble.set_shutdown_command("poweroff".to_string());
    preamble.set_guest_os_type("Debian_64".to_string());
    preamble.boot_command.push("<enter>".to_string());
    let values = preamble.get_values();
    let expected: Vec<(&'static str, String)> = vec![
        ("boot_command", "[\"<enter>\"]".to_string()),
        ("boot_wait", "\"10s\"".to_string()),
        ("disk_size", "8192".to_string()),
        ("guest_additions_mode", "\"disable\"".to_string()),
        ("guest_os_type", "\"Debian_64\"".to_string()),
        ("headless", "false".to_string()),
        ("iso_checksum", "\"md5:0123\"".to_string()),
        ("iso_url", "\"http://example.org/alpine.iso\"".to_string()),
        ("shutdown_command", "\"poweroff\"".to_string()),
        ("ssh_password", "\"secret\"".to_string()),
        ("ssh_username", "\"admin\"".to_string()),
        ("ssh_wait_timeout", "\"1000s\"".to_string()),
        ("vm_name", "\"calm-sea\"".to_string()),
        ("output_directory", "\"output\"".to_string()),
    ];
    assert_eq!(values, expected);
    preamble.set_preseed_file("conf/preseed.cfg".to_string());
    assert_eq!(preamble.get_values()[6], ("http_directory", "\"http\"".to_string()));
    assert_eq!(preamble.get_preseed_file(), "conf/preseed.cfg");
    assert_eq!(preamble.parse_base_image("a b c"), Err("Could not parse Baseimage"));
    let fresh = X86Preamble::new();
    assert_eq!(fresh.ssh_username, "root");
    assert_eq!(fresh.ssh_password, "alpine");
    assert!(!fresh.vm_name.is_empty());
}

#[test]
fn x86_source_block_declares_the_machine_name() {
    let preamble = Preamble::X86(X86Preamble::with_vm_name("calm-sea".to_string()));
    let text = preamble.to_pkr_hcl();
    assert!(text.starts_with("variable \"vmname\" {\n  type    = string\n  default = \"calm-sea\"\n}\nsource \"virtualbox-iso\" \"imagefile\" {\n  boot_command         = []\n  boot_wait            = \"30s\"\n"));
    assert!(text.ends_with("  output_directory     = \"output\"\n"));
}

#[test]
fn recipes_are_cut_into_commands() {
    assert_eq!(supported_commands().len(), 21);
    assert_eq!(get_command("RUN apt-get update"), Some(("RUN".to_string(), "apt-get update".to_string())));
    assert_eq!(get_command("ON-DEVICE"), Some(("ON-DEVICE".to_string(), "ON-DEVICE".to_string())));
    assert_eq!(get_command("  FS ext4 / rootfs 1G 100000 L"), Some(("FS".to_string(), "  ext4 / rootfs 1G 100000 L".to_string())));
    assert_eq!(get_command("COPY a b"), None);
    assert_eq!(get_command("   "), None);
    let commands = sanitize_content("# comment\nARCH ARM64\n\nRUN apt-get \\\ninstall vim\nNOTHING here\n");
    assert_eq!(commands, vec![("ARCH".to_string(), "ARM64".to_string()), ("RUN".to_string(), "apt-get install vim".to_string())]);
    assert_eq!(get_architecture(&commands), Some(Architecture::ARM64));
    assert_eq!(get_architecture(&sanitize_content("RUN x")), None);
    assert_eq!(get_architecture(&sanitize_content("ARCH ARM64\nARCH X86")), None);
    assert_eq!(get_architecture(&sanitize_content("ARCH MIPS\nARCH X86")), Some(Architecture::X86));
}

#[test]
fn a_recipe_without_one_architecture_is_not_read() {
    assert!(parse("RUN apt-get update\n").is_none());
    assert!(parse("ARCH ARM64\nARCH ARM32\n").is_none());
    assert!(parse("").is_none());
}

#[test]
fn recipe_compile() {
    let recipe = "ARCH ARM64\nFROM ./base.img sha256\nFS ext4 / rootfs 1G 100000 L\nRUN apt-get update\nFILE setup.sh /root/setup.sh\nPXE_KERNEL kernel.img";
    let mut image = parse(recipe).unwrap();
    assert_eq!(image.name, "generated.img");
    assert_eq!(image.architecture, Architecture::ARM64);
    assert!(image.configuration.pxe);
    assert_eq!(image.configuration.pxe_kernel, "kernel.img");
    assert!(image.starts_known());
    let text = image.as_pkr_hcl();
    let expected = "source \"arm\" \"imagefile\" {\n  image_build_method   = \"reuse\"\n  image_path           = \"generated.img\"\n  image_size           = \"2G\"\n  image_type           = \"dos\"\n  image_chroot_env     = [\"PATH=/usr/local/bin:/usr/local/sbin:/usr/bin:/usr/sbin:/bin:/sbin\"]\n  file_checksum_type   = \"sha256\"\n  file_checksum_url    = \"./base.img.sha256\"\n  file_target_extension = \"img\"\n  file_urls            = [\"./base.img\"]\n  image_partitions {\n    filesystem           = \"ext4\"\n    mountpoint           = \"/\"\n    name                 = \"rootfs\"\n    size                 = \"1G\"\n    start_sector         = \"100000\"\n    type                 = \"L\"\n  }\n\n}\nbuild {\n  sources = [\"source.arm.imagefile\"]\n\n  provisioner \"shell\" {\n    inline  = [\"apt-get update\"]\n  }\n\n  provisioner \"file\" {\n    destination = \"/root/setup.sh\"\n    source      = \"setup.sh\"\n  }\n\n\n}\n";
    assert_eq!(text, expected);
    assert_eq!(text.matches("image_partitions").count(), 1);
    assert_eq!(image.configuration.partitions.len(), 1);
    assert_eq!(image.configuration.partitions[0].get_name(), "rootfs");
}

#[test]
fn recipe_for_x86_has_no_partitions_but_cleans_up() {
    let recipe = "ARCH X86\nFROM http://example.org/alpine.iso\nCHECKSUM 0123\nBOOTCMD <enter>\nPRESEED conf/answers\nOBSERVE_BUILD\nVM_TYPE Linux_64\nSSH_USER admin\nSSH_PASSWORD secret\nSHUTDOWN_CMD poweroff\nBOOT_TIME 5s\nDISKSIZE 1\nFS ext4 / rootfs 1G 2048 L\nON-DEVICE\nPXE_OPTIONS root=%NFS_ROOT%\nCONFIG /boot/cmdline.txt /etc/fstab\n";
    let mut image = parse(recipe).unwrap();
    assert!(image.configuration.on_device && image.configuration.pxe);
    assert_eq!(image.configuration.pxe_options, "root=%NFS_ROOT%");
    assert_eq!(image.get_boot_files().get_files(), strings(&["/boot/cmdline.txt", "/etc/fstab"]));
    match &image.preamble {
        Preamble::X86(p) => {
            assert_eq!(p.iso_url, "http://example.org/alpine.iso");
            assert_eq!(p.iso_checksum, "0123");
            assert_eq!(p.boot_command, strings(&["<enter>"]));
            assert_eq!(p.preseed_file, "conf/answers");
            assert!(!p.headless);
            assert_eq!(p.guest_os_type, "Linux_64");
            assert_eq!(p.ssh_username, "admin");
            assert_eq!(p.ssh_password, "secret");
            assert_eq!(p.shutdown_command, "poweroff");
            assert_eq!(p.boot_wait, "5s");
            assert_eq!(p.disk_size, 8192);
        }
        Preamble::Arm(_) => panic!("an x86 recipe has x86 settings"),
    }
    let text = image.as_pkr_hcl();
    assert!(!text.contains("image_partitions"));
    assert!(text.contains("  http_directory       = \"http\"\n"));
    assert!(text.ends_with("build {\n  sources = [\"source.virtualbox-iso.imagefile\"]\n\n  post-processor \"shell-local\" {\n    inline  = [\"mv output/${var.vmname}-disk001.vmdk generated.vmdk\", \"mv output/${var.vmname}.ovf generated.ovf\", \"rm -rf output/\"]\n  }\n\n\n}\n"));
    assert_eq!(image.configuration.partitions.len(), 1);
}

#[test]
fn entrypoint_installs_a_wrapper() {
    let image = parse("ARCH ARM32\nENTRYPOINT /usr/bin/bench --fast").unwrap();
    let lines: Vec<String> = image.provisioners.iter().flat_map(|p| p.get_command()).collect();
    assert_eq!(lines.len(), 13);
    assert_eq!(lines[0], "echo 'PATH=/sbin:/bin:/usr/sbin:/usr/bin' >> /root/cron");
    assert_eq!(lines[7], "echo '/usr/bin/bench --fast' >> /entrypoint.sh");
    assert_eq!(lines[12], "echo 'shutdown now' >> /entrypoint.sh");
    assert!(image.provisioners.iter().all(|p| p.get_type() == Types::SHELL));
}

#[test]
fn prebuilt_image_is_carried_through() {
    let image = parse("ARCH ARM64\nFROM ./ready.img\nPREBUILT\n").unwrap();
    assert!(image.configuration.prebuilt);
    assert!(image.provisioners.is_empty());
    assert!(image.preamble.has_base_image());
    let copy = cluster_manager::builder::move_prebuilt_image_to_sandbox(&image);
    assert_eq!(copy.program, "cp");
    assert_eq!(copy.arguments, strings(&["./ready.img", "./os-build/generated.img"]));
    let image = Imagefile::new("x".to_string(), &Architecture::ARM64);
    assert!(!image.configuration.prebuilt);
}
