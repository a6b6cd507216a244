use crate::text::texts;
use crate::utils::{builder_append, builder_new, finish};
use vstd::prelude::*;

verus! {

pub const COPY: &'static str = "cp";

pub const CURL: &'static str = "curl";

pub const DNSMASQ: &'static str = "dnsmasq";

pub const FDISK: &'static str = "fdisk";

pub const KPARTX: &'static str = "kpartx";

pub const LVDISPLAY: &'static str = "lvdisplay";

pub const MOUNT: &'static str = "mount";

pub const MOVE: &'static str = "mv";

pub const NFS_SERVICE: &'static str = "nfs-kernel-server";

pub const PING: &'static str = "ping";

pub const PVS: &'static str = "pvs";

pub const RSYNC: &'static str = "rsync";

pub const RPCBIND: &'static str = "rpcbind";

pub const SCREEN: &'static str = "screen";

pub const SERVICE: &'static str = "service";

pub const SSH: &'static str = "ssh";

pub const UMOUNT: &'static str = "umount";

pub const UNZIP: &'static str = "unzip";

pub const VGCHANGE: &'static str = "vgchange";

pub const QEMU_IMG: &'static str = "qemu-img";

pub const ZIP: &'static str = "zip";

pub const BASE_DIR: &'static str = "/etc/cluster-manager";

pub const CONFIG: &'static str = "/etc/cluster-manager/config.yml";

pub const LOGS_DIR: &'static str = "/etc/cluster-manager/logs";

pub const OS_IMAGES_DIR: &'static str = "/etc/cluster-manager/os_images";

pub const TMP_DIR: &'static str = "/etc/cluster-manager/tmp";

pub const DNSMASQ_NODES_CONFIG_FILE: &'static str = "/etc/cluster-manager/nodes.dnsmasq";

pub const DNSMASQ_CONFIG_FILE: &'static str = "/etc/cluster-manager/dnsmasq.conf";

pub const DEFAULT_DNSMASQ_CONFIG_FILE: &'static str = "/etc/dnsmasq.conf";

pub const RESULTS_DIR: &'static str = "/etc/cluster-manager/results";

pub const TFTP_BASE_DIR: &'static str = "/tftpboot";

pub const NFS_BASE_DIR: &'static str = "/nfs";

/// The programs that the cluster manager calls.
pub open spec fn binary_requirements() -> Seq<Seq<char>> {
    seq![
        "cp"@,
        "curl"@,
        "fdisk"@,
        "kpartx"@,
        "lvdisplay"@,
        "mount"@,
        "mv"@,
        "ping"@,
        "pvs"@,
        "rsync"@,
        "screen"@,
        "service"@,
        "ssh"@,
        "umount"@,
        "unzip"@,
        "vgchange"@,
        "qemu-img"@,
        "zip"@,
    ]
}

/// The services that have to run beside the cluster manager.
pub open spec fn service_requirements() -> Seq<Seq<char>> {
    seq!["dnsmasq"@, "nfs-kernel-server"@, "rpcbind"@]
}

pub fn get_binary_requirements() -> (vec: Vec<String>)
    ensures
        texts(vec@) == binary_requirements(),
{
    let mut vec: Vec<String> = Vec::new();
    vec.push(String::from_str(COPY));
    vec.push(String::from_str(CURL));
    vec.push(String::from_str(FDISK));
    vec.push(String::from_str(KPARTX));
    vec.push(String::from_str(LVDISPLAY));
    vec.push(String::from_str(MOUNT));
    vec.push(String::from_str(MOVE));
    vec.push(String::from_str(PING));
    vec.push(String::from_str(PVS));
    vec.push(String::from_str(RSYNC));
    vec.push(String::from_str(SCREEN));
    vec.push(String::from_str(SERVICE));
    vec.push(String::from_str(SSH));
    vec.push(String::from_str(UMOUNT));
    vec.push(String::from_str(UNZIP));
    vec.push(String::from_str(VGCHANGE));
    vec.push(String::from_str(QEMU_IMG));
    vec.push(String::from_str(ZIP));
    assert(texts(vec@) =~= binary_requirements());
    vec
}

pub fn get_service_requirements() -> (vec: Vec<String>)
    ensures
        texts(vec@) == service_requirements(),
{
    let mut vec: Vec<String> = Vec::new();
    vec.push(String::from_str(DNSMASQ));
    vec.push(String::from_str(NFS_SERVICE));
    vec.push(String::from_str(RPCBIND));
    assert(texts(vec@) =~= service_requirements());
    vec
}

/// The directories that the cluster manager works in, in the order in which
/// they are made.
pub fn get_directories() -> (vec: Vec<String>)
    ensures
        texts(vec@) == seq![
            "/etc/cluster-manager"@,
            "/etc/cluster-manager/os_images"@,
            "/etc/cluster-manager/tmp"@,
            "/nfs"@,
            "/etc/cluster-manager/logs"@,
            "/tftpboot"@,
            "/etc/cluster-manager/results"@,
        ],
{
    let mut vec: Vec<String> = Vec::new();
    vec.push(String::from_str(BASE_DIR));
    vec.push(String::from_str(OS_IMAGES_DIR));
    vec.push(String::from_str(TMP_DIR));
    vec.push(String::from_str(NFS_BASE_DIR));
    vec.push(String::from_str(LOGS_DIR));
    vec.push(String::from_str(TFTP_BASE_DIR));
    vec.push(String::from_str(RESULTS_DIR));
    assert(texts(vec@) =~= seq![
        "/etc/cluster-manager"@,
        "/etc/cluster-manager/os_images"@,
        "/etc/cluster-manager/tmp"@,
        "/nfs"@,
        "/etc/cluster-manager/logs"@,
        "/tftpboot"@,
        "/etc/cluster-manager/results"@,
    ]);
    vec
}

/// The settings with which the DHCP and TFTP server is set up.
pub open spec fn dnsmasq_conf() -> Seq<char> {
    "log-dhcp\n"@ + "enable-tftp\n"@ + "tftp-root=/tftpboot\n"@
        + "pxe-service=0,\"Raspberry Pi Boot\"\n"@ + "log-facility=/var/log/dnsmasq.log\n"@
        + "local=/cluster/\n"@ + "domain=cluster\n"@
        + "conf-file=/etc/cluster-manager/nodes.dnsmasq\n"@
}

pub fn default_dnsmasq_conf_content() -> (content: String)
    ensures
        content@ == dnsmasq_conf(),
{
    let mut builder = builder_new();
    builder_append(&mut builder, "log-dhcp\n");
    builder_append(&mut builder, "enable-tftp\n");
    builder_append(&mut builder, "tftp-root=/tftpboot\n");
    builder_append(&mut builder, "pxe-service=0,\"Raspberry Pi Boot\"\n");
    builder_append(&mut builder, "log-facility=/var/log/dnsmasq.log\n");
    builder_append(&mut builder, "local=/cluster/\n");
    builder_append(&mut builder, "domain=cluster\n");
    builder_append(&mut builder, "conf-file=/etc/cluster-manager/nodes.dnsmasq\n");
    finish(builder)
}

/// Whether the DHCP server has to be started anew after the set-up: it has
/// where one of its two settings files was missing and had to be written.
pub fn needs_restart(dnsmasq_config_exists: bool, nodes_config_exists: bool) -> (restart: bool)
    ensures
        restart == (!dnsmasq_config_exists || !nodes_config_exists),
{
    !dnsmasq_config_exists || !nodes_config_exists
}

} // verus!
