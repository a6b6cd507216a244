use crate::command::{call, invocation_views, Invocation, InvocationView};
use crate::deployer::{nfs_root, pxe_file, pxe_path, session_name, tftp_root};
use crate::installer::{DNSMASQ, NFS_BASE_DIR, NFS_SERVICE, PING, SCREEN, SERVICE, TFTP_BASE_DIR, UMOUNT};
use crate::logsource::{logsource_views, LogSource, LogSourceTypes, LogSourceView};
use crate::node::{Node, NodeView};
use crate::node_row::{NodeRow, NodeRowView};
use crate::service::{service_views, Service, ServiceView};
use crate::text::{
    clone_strings, contains, join2, join3, join4, join6, list_contains, opt_text, pieces,
    render_usize, replaced, split_char, starts_with, str_contains, str_eq, str_replace,
    str_starts_with, texts,
};
use crate::utils::{
    filter_lines_by_substring, holds_not, is_not, lemma_add_remove_line,
    lemma_add_remove_substring, remove_line, remove_line_with_substring,
};
use vstd::prelude::*;

verus! {

/// The file that lists the directories that are served to the nodes.
pub const NFS_CONFIGFILE: &'static str = "/etc/exports";

/// The line that lets every node mount the directory of the given prefix.
pub open spec fn export_line(prefix: Seq<char>) -> Seq<char> {
    nfs_root(prefix) + " *(rw,sync,no_subtree_check,no_root_squash)"@
}

/// What marks a node's line among the hosts of the DHCP server: its hardware
/// address, behind the tag for the boot loader where the node boots with one.
pub open spec fn dhcp_key(node: NodeView) -> Seq<char> {
    "dhcp-host="@ + (if node.pxe {
        "set:pxe,"@
    } else {
        ""@
    }) + node.mac_address
}

/// A node's line among the hosts of the DHCP server: the mark, the address
/// and the host name.
pub open spec fn dhcp_line(node: NodeView, ipv4_address: Seq<char>) -> Seq<char> {
    dhcp_key(node) + ","@ + ipv4_address + ","@ + node.name
}

/// `list` with `item` at its end, where it does not hold it yet.
pub open spec fn with_item(list: Seq<Seq<char>>, item: Seq<char>) -> Seq<Seq<char>> {
    if list.contains(item) {
        list
    } else {
        list.push(item)
    }
}

/// What the server holds for its nodes: the lines of the exports file, the
/// lines of the hosts of the DHCP server, and the directories, by prefix, from
/// which file systems and boot files are served.
#[derive(Debug)]
pub struct Plumbing {
    pub exports: Vec<String>,
    pub dhcp_hosts: Vec<String>,
    pub nfs_directories: Vec<String>,
    pub tftp_directories: Vec<String>,
}

/// What the plumbing holds.
pub struct PlumbingView {
    pub exports: Seq<Seq<char>>,
    pub dhcp_hosts: Seq<Seq<char>>,
    pub nfs_directories: Seq<Seq<char>>,
    pub tftp_directories: Seq<Seq<char>>,
}

impl View for Plumbing {
    type V = PlumbingView;

    open spec fn view(&self) -> PlumbingView {
        PlumbingView {
            exports: texts(self.exports@),
            dhcp_hosts: texts(self.dhcp_hosts@),
            nfs_directories: texts(self.nfs_directories@),
            tftp_directories: texts(self.tftp_directories@),
        }
    }
}

impl PlumbingView {
    /// The plumbing after a node was added: its export line, its line among
    /// the hosts of the DHCP server, and its two directories are there, each
    /// once.
    pub open spec fn with_node(self, node: NodeView) -> PlumbingView {
        PlumbingView {
            exports: with_item(self.exports, export_line(node.tftp_prefix)),
            dhcp_hosts: if self.names(node) {
                self.dhcp_hosts
            } else {
                self.dhcp_hosts.push(dhcp_line(node, node.ipv4_address))
            },
            nfs_directories: with_item(self.nfs_directories, node.tftp_prefix),
            tftp_directories: with_item(self.tftp_directories, node.tftp_prefix),
        }
    }

    /// The plumbing after a node was removed for good: nothing of the node is
    /// left.
    pub open spec fn without_node(self, node: NodeView) -> PlumbingView {
        PlumbingView {
            exports: self.exports.filter(is_not(export_line(node.tftp_prefix))),
            dhcp_hosts: self.dhcp_hosts.filter(holds_not(dhcp_key(node))),
            nfs_directories: self.nfs_directories.filter(is_not(node.tftp_prefix)),
            tftp_directories: self.tftp_directories.filter(is_not(node.tftp_prefix)),
        }
    }

    /// A line among the hosts of the DHCP server names the node.
    pub open spec fn names(self, node: NodeView) -> bool {
        exists|i: int|
            0 <= i < self.dhcp_hosts.len() && contains(#[trigger] self.dhcp_hosts[i], dhcp_key(node))
    }

    /// Nothing of the node is there.
    pub open spec fn lacks(self, node: NodeView) -> bool {
        &&& !self.exports.contains(export_line(node.tftp_prefix))
        &&& !self.names(node)
        &&& !self.nfs_directories.contains(node.tftp_prefix)
        &&& !self.tftp_directories.contains(node.tftp_prefix)
    }

    /// A node can be used: its two directories are there, and a line among the
    /// hosts of the DHCP server holds its hardware address.
    pub open spec fn usable(self, node: NodeView) -> bool {
        &&& self.nfs_directories.contains(node.tftp_prefix)
        &&& self.tftp_directories.contains(node.tftp_prefix)
        &&& exists|i: int|
            0 <= i < self.dhcp_hosts.len() && contains(#[trigger] self.dhcp_hosts[i], node.mac_address)
    }
}

fn key_of(node: &Node) -> (key: String)
    ensures
        key@ == dhcp_key(node@),
{
    join3("dhcp-host=", if node.pxe {
        "set:pxe,"
    } else {
        ""
    }, node.mac_address.as_str())
}

fn line_of(node: &Node, ipv4_address: &str) -> (line: String)
    ensures
        line@ == dhcp_line(node@, ipv4_address@),
{
    let mut line = key_of(node);
    line.append(",");
    line.append(ipv4_address);
    line.append(",");
    line.append(node.name.as_str());
    line
}

fn push_once(list: &mut Vec<String>, item: String)
    ensures
        texts(final(list)@) == with_item(texts(old(list)@), item@),
{
    let ghost before = texts(list@);
    if !list_contains(list, item.as_str()) {
        list.push(item);
        assert(texts(list@) =~= before.push(item@));
    }
}

/// Whether a line of the list holds the text.
fn some_line_contains(list: &Vec<String>, needle: &str) -> (held: bool)
    ensures
        held == exists|i: int| 0 <= i < list@.len() && contains(#[trigger] texts(list@)[i], needle@),
{
    let mut i: usize = 0;
    while i < list.len()
        invariant
            i <= list.len(),
            forall|k: int| 0 <= k < i ==> !contains(#[trigger] texts(list@)[k], needle@),
        decreases list.len() - i,
    {
        if str_contains(list[i].as_str(), needle) {
            assert(contains(texts(list@)[i as int], needle@));
            return true;
        }
        i += 1;
    }
    false
}

/// Enters the directory that is served to a node into the exports.
pub fn add_nfs(plumbing: &mut Plumbing, node: &Node)
    ensures
        final(plumbing)@ == (PlumbingView {
            exports: with_item(old(plumbing)@.exports, export_line(node@.tftp_prefix)),
            nfs_directories: with_item(old(plumbing)@.nfs_directories, node@.tftp_prefix),
            ..old(plumbing)@
        }),
{
    push_once(&mut plumbing.nfs_directories, node.tftp_prefix.clone());
    push_once(
        &mut plumbing.exports,
        join4(NFS_BASE_DIR, "/", node.tftp_prefix.as_str(), " *(rw,sync,no_subtree_check,no_root_squash)"),
    );
}

/// Enters the directory from which a node's boot files are served.
pub fn add_tftp(plumbing: &mut Plumbing, node: &Node)
    ensures
        final(plumbing)@ == (PlumbingView {
            tftp_directories: with_item(old(plumbing)@.tftp_directories, node@.tftp_prefix),
            ..old(plumbing)@
        }),
{
    push_once(&mut plumbing.tftp_directories, node.tftp_prefix.clone());
}

/// Enters a node among the hosts of the DHCP server, with the given address,
/// where no line names the node yet.
pub fn add_dnsmasq(plumbing: &mut Plumbing, ipv4_address: &str, node: &Node)
    ensures
        final(plumbing)@ == (PlumbingView {
            dhcp_hosts: if old(plumbing)@.names(node@) {
                old(plumbing)@.dhcp_hosts
            } else {
                old(plumbing)@.dhcp_hosts.push(dhcp_line(node@, ipv4_address@))
            },
            ..old(plumbing)@
        }),
{
    let key = key_of(node);
    let ghost before = texts(plumbing.dhcp_hosts@);
    if !some_line_contains(&plumbing.dhcp_hosts, key.as_str()) {
        let line = line_of(node, ipv4_address);
        plumbing.dhcp_hosts.push(line);
        assert(texts(plumbing.dhcp_hosts@) =~= before.push(line@));
    }
}

/// Takes the directory that is served to a node out of the exports.
pub fn remove_nfs(plumbing: &mut Plumbing, node: &Node)
    ensures
        final(plumbing)@ == (PlumbingView {
            exports: old(plumbing)@.without_node(node@).exports,
            nfs_directories: old(plumbing)@.without_node(node@).nfs_directories,
            ..old(plumbing)@
        }),
{
    let line = join4(
        NFS_BASE_DIR,
        "/",
        node.tftp_prefix.as_str(),
        " *(rw,sync,no_subtree_check,no_root_squash)",
    );
    plumbing.exports = remove_line(&plumbing.exports, line.as_str());
    plumbing.nfs_directories = remove_line(&plumbing.nfs_directories, node.tftp_prefix.as_str());
}

/// Takes a node out of the hosts of the DHCP server.
pub fn remove_dnsmasq(plumbing: &mut Plumbing, node: &Node)
    ensures
        final(plumbing)@ == (PlumbingView {
            dhcp_hosts: old(plumbing)@.without_node(node@).dhcp_hosts,
            ..old(plumbing)@
        }),
{
    let key = key_of(node);
    plumbing.dhcp_hosts = remove_line_with_substring(&plumbing.dhcp_hosts, key.as_str());
}

/// Takes away the directory from which a node's boot files are served.
pub fn remove_tftp(plumbing: &mut Plumbing, node: &Node)
    ensures
        final(plumbing)@ == (PlumbingView {
            tftp_directories: old(plumbing)@.without_node(node@).tftp_directories,
            ..old(plumbing)@
        }),
{
    plumbing.tftp_directories = remove_line(&plumbing.tftp_directories, node.tftp_prefix.as_str());
}

/// Adds a node to the cluster: its export, its line among the hosts of the
/// DHCP server, and its directories. What is there already stays as it is.
pub fn add_node(plumbing: &mut Plumbing, node: &Node)
    ensures
        final(plumbing)@ == old(plumbing)@.with_node(node@),
{
    add_nfs(plumbing, node);
    add_dnsmasq(plumbing, node.ipv4_address.as_str(), node);
    add_tftp(plumbing, node);
}

/// Removes a node from the cluster for good: nothing of it is left.
pub fn remove_node(plumbing: &mut Plumbing, node: &Node)
    ensures
        final(plumbing)@ == old(plumbing)@.without_node(node@),
{
    remove_nfs(plumbing, node);
    remove_dnsmasq(plumbing, node);
    remove_tftp(plumbing, node);
}

/// The mark of a node stands in its line.
pub proof fn lemma_line_holds_key(node: NodeView, ipv4_address: Seq<char>)
    ensures
        contains(dhcp_line(node, ipv4_address), dhcp_key(node)),
{
    let line = dhcp_line(node, ipv4_address);
    let key = dhcp_key(node);
    assert(line.subrange(0, key.len() as int) =~= key);
    assert(crate::text::occurs_at(line, key, 0));
}

/// Adding a node of which nothing was there, and removing it for good, leaves
/// exports, hosts of the DHCP server and directories as they were.
pub proof fn lemma_add_remove_node(plumbing: PlumbingView, node: NodeView)
    requires
        plumbing.lacks(node),
    ensures
        plumbing.with_node(node).without_node(node) == plumbing,
{
    lemma_add_remove_line(plumbing.exports, export_line(node.tftp_prefix));
    lemma_add_remove_line(plumbing.nfs_directories, node.tftp_prefix);
    lemma_add_remove_line(plumbing.tftp_directories, node.tftp_prefix);
    lemma_line_holds_key(node, node.ipv4_address);
    lemma_add_remove_substring(
        plumbing.dhcp_hosts,
        dhcp_line(node, node.ipv4_address),
        dhcp_key(node),
    );
}

/// Adding a node twice is adding it once.
pub proof fn lemma_add_node_idempotent(plumbing: PlumbingView, node: NodeView)
    ensures
        plumbing.with_node(node).with_node(node) == plumbing.with_node(node),
{
    let once = plumbing.with_node(node);
    lemma_line_holds_key(node, node.ipv4_address);
    if !plumbing.names(node) {
        assert(once.dhcp_hosts[plumbing.dhcp_hosts.len() as int] == dhcp_line(
            node,
            node.ipv4_address,
        ));
    } else {
        let i = choose|i: int|
            0 <= i < plumbing.dhcp_hosts.len() && contains(
                #[trigger] plumbing.dhcp_hosts[i],
                dhcp_key(node),
            );
        assert(contains(once.dhcp_hosts[i], dhcp_key(node)));
    }
    assert(once.names(node));
    lemma_with_item(plumbing.exports, export_line(node.tftp_prefix));
    lemma_with_item(plumbing.nfs_directories, node.tftp_prefix);
    lemma_with_item(plumbing.tftp_directories, node.tftp_prefix);
}

/// A list that was given an item holds it.
pub proof fn lemma_with_item(list: Seq<Seq<char>>, item: Seq<char>)
    ensures
        with_item(list, item).contains(item),
        with_item(with_item(list, item), item) == with_item(list, item),
{
    if !list.contains(item) {
        assert(list.push(item)[list.len() as int] == item);
    }
}

/// Whether a node can be used.
pub fn verify_node_usability(plumbing: &Plumbing, node: &Node) -> (usable: bool)
    ensures
        usable == plumbing@.usable(node@),
{
    let nfs_path = list_contains(&plumbing.nfs_directories, node.tftp_prefix.as_str());
    let tftp_path = list_contains(&plumbing.tftp_directories, node.tftp_prefix.as_str());
    let dnsmasq_entry = some_line_contains(&plumbing.dhcp_hosts, node.mac_address.as_str());
    nfs_path && tftp_path && dnsmasq_entry
}

/// The lines among the hosts of the DHCP server that hold a node's hardware
/// address.
pub open spec fn lines_of(dhcp_hosts: Seq<Seq<char>>, node: NodeView) -> Seq<Seq<char>> {
    dhcp_hosts.filter(|line: Seq<char>| contains(line, node.mac_address))
}

/// The address in a node's line among the hosts of the DHCP server: the last
/// but one of the items between its commas. There is none where not one line
/// holds the node's hardware address, or where that line has no two items.
pub open spec fn address_of(dhcp_hosts: Seq<Seq<char>>, node: NodeView) -> Option<Seq<char>> {
    if lines_of(dhcp_hosts, node).len() != 1 {
        None
    } else if pieces(lines_of(dhcp_hosts, node)[0], ',').len() < 2 {
        None
    } else {
        Some(
            pieces(lines_of(dhcp_hosts, node)[0], ',')[pieces(
                lines_of(dhcp_hosts, node)[0],
                ',',
            ).len() - 2],
        )
    }
}

/// Reads the address that the DHCP server gives to a node.
pub fn get_ipv4_address(plumbing: &Plumbing, node: &Node) -> (r: Option<String>)
    ensures
        opt_text(r) == address_of(plumbing@.dhcp_hosts, node@),
{
    let found = filter_lines_by_substring(plumbing.dhcp_hosts.as_slice(), node.mac_address.as_str());
    assert(texts(found@).len() == found@.len());
    if found.len() == 1 {
        assert(texts(found@)[0] == found@[0]@);
        let items = split_char(found[0].as_str(), ',');
        assert(texts(items@).len() == items@.len());
        if items.len() >= 2 {
            assert(texts(items@)[items.len() - 2] == items@[items.len() - 2]@);
            return Some(items[items.len() - 2].clone());
        }
    }
    None
}

/// Gives a node another host name: its line among the hosts of the DHCP
/// server is written anew, with the address it had. Nothing changes where the
/// address cannot be read.
pub fn change_hostname(plumbing: &mut Plumbing, node: &mut Node, hostname: &str) -> (changed: bool)
    ensures
        changed == address_of(old(plumbing)@.dhcp_hosts, old(node)@) is Some,
        !changed ==> final(plumbing)@ == old(plumbing)@ && final(node)@ == old(node)@,
        changed ==> {
            &&& final(node)@ == (NodeView { name: hostname@, ..old(node)@ })
            &&& final(plumbing)@ == (PlumbingView {
                dhcp_hosts: old(plumbing)@.without_node(old(node)@).dhcp_hosts.push(
                    dhcp_line(final(node)@, address_of(old(plumbing)@.dhcp_hosts, old(node)@)->0),
                ),
                ..old(plumbing)@
            })
        },
{
    match get_ipv4_address(plumbing, node) {
        Some(ipv4_address) => {
            remove_dnsmasq(plumbing, node);
            node.name = String::from_str(hostname);
            let ghost before = texts(plumbing.dhcp_hosts@);
            let line = line_of(node, ipv4_address.as_str());
            plumbing.dhcp_hosts.push(line);
            assert(texts(plumbing.dhcp_hosts@) =~= before.push(line@));
            true
        },
        None => false,
    }
}

/// Gives a node another address: its line among the hosts of the DHCP server
/// is written anew.
pub fn change_ipv4address(plumbing: &mut Plumbing, node: &Node, ipv4_address: &str) -> (changed: bool)
    ensures
        changed,
        final(plumbing)@ == (PlumbingView {
            dhcp_hosts: old(plumbing)@.without_node(node@).dhcp_hosts.push(
                dhcp_line(node@, ipv4_address@),
            ),
            ..old(plumbing)@
        }),
{
    remove_dnsmasq(plumbing, node);
    let ghost before = texts(plumbing.dhcp_hosts@);
    let line = line_of(node, ipv4_address);
    plumbing.dhcp_hosts.push(line);
    assert(texts(plumbing.dhcp_hosts@) =~= before.push(line@));
    true
}

/// The calls that start the file server and the DHCP server anew.
pub fn restart_services() -> (r: Vec<Invocation>)
    ensures
        invocation_views(r@) == seq![
            call(SERVICE@, seq![NFS_SERVICE@, "restart"@]),
            call(SERVICE@, seq![DNSMASQ@, "restart"@]),
        ],
{
    let first = Invocation::new(SERVICE).arg_str(NFS_SERVICE).arg_str("restart");
    assert(first@.arguments =~= seq![NFS_SERVICE@, "restart"@]);
    let second = Invocation::new(SERVICE).arg_str(DNSMASQ).arg_str("restart");
    assert(second@.arguments =~= seq![DNSMASQ@, "restart"@]);
    let mut r: Vec<Invocation> = Vec::new();
    r.push(first);
    r.push(second);
    assert(invocation_views(r@) =~= seq![first@, second@]);
    r
}

pub fn umount_tftp_directory(prefix: &str) -> (r: Invocation)
    ensures
        r@ == call(UMOUNT@, seq![tftp_root(prefix@)]),
{
    let r = Invocation::new(UMOUNT).arg(join3(TFTP_BASE_DIR, "/", prefix));
    assert(r@.arguments =~= seq![tftp_root(prefix@)]);
    r
}

/// The directory from which a node's file system is served, which is removed
/// when the node stops. It is made anew, empty, unless the node is removed
/// for good.
pub fn remove_nfsroot(node_mac: &str, hard_delete: bool) -> (r: (String, bool))
    ensures
        r.0@ == nfs_root(node_mac@) + "/"@,
        r.1 == !hard_delete,
{
    (join4(NFS_BASE_DIR, "/", node_mac, "/"), !hard_delete)
}

/// The call that asks whether a node answers.
pub fn is_up(ipv4_address: &str) -> (r: Invocation)
    ensures
        r@ == call(PING@, seq!["-c 1"@, "-v4"@, ipv4_address@]),
{
    let r = Invocation::new(PING).arg_str("-c 1").arg_str("-v4").arg_str(ipv4_address);
    assert(r@.arguments =~= seq!["-c 1"@, "-v4"@, ipv4_address@]);
    r
}

/// The calls that end the sessions for the serial lines among the given log
/// sources.
pub open spec fn session_ends(id: Seq<char>, sources: Seq<LogSourceView>) -> Seq<InvocationView>
    decreases sources.len(),
{
    if sources.len() == 0 {
        seq![]
    } else {
        let before = session_ends(id, sources.drop_last());
        if sources.last().source == LogSourceTypes::SERIAL {
            before.push(
                call(SCREEN@, seq!["-X"@, "-S"@, session_name(id, before.len()), "quit"@]),
            )
        } else {
            before
        }
    }
}

/// The calls that end the recording of the serial lines of a node.
pub fn close_screens_for_serial_logging(node: &Node, sources: &Vec<LogSource>) -> (r: Vec<Invocation>)
    ensures
        invocation_views(r@) == session_ends(node@.id, logsource_views(sources@)),
{
    let mut r: Vec<Invocation> = Vec::new();
    let mut i: usize = 0;
    assert(invocation_views(r@) =~= session_ends(node@.id, logsource_views(sources@).take(0)));
    while i < sources.len()
        invariant
            i <= sources.len(),
            r.len() <= i,
            invocation_views(r@) == session_ends(node@.id, logsource_views(sources@).take(i as int)),
        decreases sources.len() - i,
    {
        let ghost before = invocation_views(r@);
        proof {
            let next = logsource_views(sources@).take(i + 1);
            assert(next.drop_last() =~= logsource_views(sources@).take(i as int));
            assert(next.last() == sources@[i as int]@);
        }
        match sources[i].source {
            LogSourceTypes::SERIAL => {
                let index = render_usize(r.len());
                let name = join3(node.id.as_str(), "-", index.as_str());
                let end = Invocation::new(SCREEN).arg_str("-X").arg_str("-S").arg(name).arg_str(
                    "quit",
                );
                assert(end@.arguments =~= seq![
                    "-X"@,
                    "-S"@,
                    session_name(node@.id, before.len()),
                    "quit"@,
                ]);
                r.push(end);
                assert(invocation_views(r@) =~= before.push(end@));
            },
            LogSourceTypes::HOST => {},
        }
        i += 1;
    }
    assert(logsource_views(sources@).take(i as int) =~= logsource_views(sources@));
    r
}

/// The host of a line among the hosts of the DHCP server: host name, address
/// and hardware address, the last three of the items between the commas of
/// what follows the mark of such a line. Other lines, and lines with fewer
/// items, name no host.
pub open spec fn host_of(line: Seq<char>) -> Option<(Seq<char>, Seq<char>, Seq<char>)> {
    let items = pieces(replaced(line, "dhcp-host="@, ""@), ',');
    if starts_with(line, "dhcp-host="@) && items.len() >= 3 {
        Some((items[items.len() - 1], items[items.len() - 2], items[items.len() - 3]))
    } else {
        None
    }
}

/// The hosts that the lines name, in the order of the lines.
pub open spec fn hosts_of(dhcp_hosts: Seq<Seq<char>>) -> Seq<(Seq<char>, Seq<char>, Seq<char>)>
    decreases dhcp_hosts.len(),
{
    if dhcp_hosts.len() == 0 {
        seq![]
    } else {
        match host_of(dhcp_hosts.last()) {
            Some(host) => hosts_of(dhcp_hosts.drop_last()).push(host),
            None => hosts_of(dhcp_hosts.drop_last()),
        }
    }
}

/// The texts of a list of hosts.
pub open spec fn host_texts(list: Seq<(String, String, String)>) -> Seq<
    (Seq<char>, Seq<char>, Seq<char>),
> {
    Seq::new(list.len(), |i: int| (list[i].0@, list[i].1@, list[i].2@))
}

/// Reads the hosts of the DHCP server: host name, address and hardware
/// address of each.
pub fn get_hosts(dhcp_hosts: &Vec<String>) -> (hosts: Vec<(String, String, String)>)
    ensures
        host_texts(hosts@) == hosts_of(texts(dhcp_hosts@)),
{
    let mut hosts: Vec<(String, String, String)> = Vec::new();
    let mut i: usize = 0;
    assert(host_texts(hosts@) =~= hosts_of(texts(dhcp_hosts@).take(0)));
    while i < dhcp_hosts.len()
        invariant
            i <= dhcp_hosts.len(),
            host_texts(hosts@) == hosts_of(texts(dhcp_hosts@).take(i as int)),
        decreases dhcp_hosts.len() - i,
    {
        let ghost before = host_texts(hosts@);
        proof {
            let next = texts(dhcp_hosts@).take(i + 1);
            assert(next.drop_last() =~= texts(dhcp_hosts@).take(i as int));
            assert(next.last() == dhcp_hosts@[i as int]@);
        }
        let line = dhcp_hosts[i].as_str();
        if str_starts_with(line, "dhcp-host=") {
            let rest = str_replace(line, "dhcp-host=", "");
            let items = split_char(rest.as_str(), ',');
            assert(texts(items@).len() == items@.len());
            if items.len() >= 3 {
                let n = items.len();
                assert(texts(items@)[n - 1] == items@[n - 1]@);
                assert(texts(items@)[n - 2] == items@[n - 2]@);
                assert(texts(items@)[n - 3] == items@[n - 3]@);
                let host = (items[n - 1].clone(), items[n - 2].clone(), items[n - 3].clone());
                hosts.push(host);
                assert(host_texts(hosts@) =~= before.push((host.0@, host.1@, host.2@)));
            }
        }
        i += 1;
    }
    assert(texts(dhcp_hosts@).take(i as int) =~= texts(dhcp_hosts@));
    hosts
}

/// The place of the first host with the given hardware address.
pub open spec fn host_place(
    hosts: Seq<(Seq<char>, Seq<char>, Seq<char>)>,
    mac_address: Seq<char>,
    from: int,
) -> Option<int>
    decreases hosts.len() - from,
{
    if from < 0 || from >= hosts.len() {
        None
    } else if hosts[from].2 == mac_address {
        Some(from)
    } else {
        host_place(hosts, mac_address, from + 1)
    }
}

/// The place of the first service that runs on the node of the given
/// identifier.
pub open spec fn service_place(services: Seq<ServiceView>, id: Seq<char>, from: int) -> Option<int>
    decreases services.len() - from,
{
    if from < 0 || from >= services.len() {
        None
    } else if services[from].node == Some(id) {
        Some(from)
    } else {
        service_place(services, id, from + 1)
    }
}

/// The address at which to ask whether a node is up: that of the first
/// running service on the node, where there is one and it has an address.
pub open spec fn probe_address(services: Seq<ServiceView>, id: Seq<char>) -> Option<Seq<char>> {
    match service_place(services, id, 0) {
        Some(i) => services[i].ipv4_address,
        None => None,
    }
}

/// The address at which to ask whether a node is up.
pub fn status_address(node: &Node, services: &Vec<Service>) -> (r: Option<String>)
    ensures
        opt_text(r) == probe_address(service_views(services@), node@.id),
{
    let mut i: usize = 0;
    while i < services.len()
        invariant
            i <= services.len(),
            service_place(service_views(services@), node@.id, 0) == service_place(
                service_views(services@),
                node@.id,
                i as int,
            ),
        decreases services.len() - i,
    {
        assert(service_views(services@)[i as int] == services@[i as int]@);
        let runs_here = match &services[i].node {
            Some(id) => *id == node.id,
            None => false,
        };
        if runs_here {
            return crate::text::clone_opt(&services[i].ipv4_address);
        }
        i += 1;
    }
    None
}

/// The line of a node in the list of nodes: host name and address are those
/// of the first host with the node's hardware address. `status` tells whether
/// the node answered, where it was asked.
pub fn get_node_line(
    node: &Node,
    hosts: &Vec<(String, String, String)>,
    status: Option<bool>,
    usable: bool,
) -> (row: NodeRow)
    ensures
        row@ == (NodeRowView {
            id: node@.id,
            name: node@.name,
            mac_address: node@.mac_address,
            tftp_prefix: node@.tftp_prefix,
            serial_number: node@.serial_number,
            status,
            hostname: match host_place(host_texts(hosts@), node@.mac_address, 0) {
                Some(i) => Some(host_texts(hosts@)[i].0),
                None => None,
            },
            ipv4_address: match host_place(host_texts(hosts@), node@.mac_address, 0) {
                Some(i) => Some(host_texts(hosts@)[i].1),
                None => None,
            },
            usable,
        }),
{
    let mut hostname: Option<String> = None;
    let mut ipv4_address: Option<String> = None;
    let mut i: usize = 0;
    let mut found = false;
    while i < hosts.len() && !found
        invariant
            i <= hosts.len(),
            match host_place(host_texts(hosts@), node@.mac_address, 0) {
                Some(k) => if found {
                    opt_text(hostname) == Some(host_texts(hosts@)[k].0) && opt_text(ipv4_address)
                        == Some(host_texts(hosts@)[k].1)
                } else {
                    host_place(host_texts(hosts@), node@.mac_address, i as int) == Some(k)
                        && hostname is None && ipv4_address is None
                },
                None => !found && hostname is None && ipv4_address is None && host_place(
                    host_texts(hosts@),
                    node@.mac_address,
                    i as int,
                ) is None,
            },
        decreases hosts.len() - i + if found { 0int } else { 1int },
    {
        assert(host_texts(hosts@)[i as int] == (hosts@[i as int].0@, hosts@[i as int].1@, hosts@[i as int].2@));
        if hosts[i].2 == node.mac_address {
            hostname = Some(hosts[i].0.clone());
            ipv4_address = Some(hosts[i].1.clone());
            found = true;
        } else {
            i += 1;
        }
    }
    NodeRow::new(node.clone(), status, hostname, ipv4_address, usable)
}

/// Whether a line of the list of nodes is shown: all are where all are asked
/// for, and else those of the nodes that are up.
pub fn shows_row(show_all: bool, row: &NodeRow) -> (shown: bool)
    ensures
        shown == (show_all || row@.status == Some(true)),
{
    show_all || match row.status {
        Some(up) => up,
        None => false,
    }
}

/// What is done to stop a node, in this order: the recording of its serial
/// lines ends, its logs are gathered, its storage is wiped where that is asked
/// for, its boot files are unmounted, its file system is removed, and made
/// anew unless the node is removed for good, the file for its boot loader is
/// removed, and the servers are started anew.
#[derive(Debug)]
pub struct StopPlan {
    pub close_sessions: Vec<Invocation>,
    pub prune: bool,
    pub unmount: Invocation,
    pub nfs_root: String,
    pub recreate_nfs_root: bool,
    pub pxe_file: String,
    pub restart: Vec<Invocation>,
}

/// What is done to stop a node.
pub fn stop_node(node: &Node, sources: &Vec<LogSource>, prune: bool, hard_delete: bool) -> (plan:
    StopPlan)
    ensures
        invocation_views(plan.close_sessions@) == session_ends(node@.id, logsource_views(sources@)),
        plan.prune == prune,
        plan.unmount@ == call(
            UMOUNT@,
            seq![tftp_root(node@.tftp_prefix)],
        ),
        plan.nfs_root@ == nfs_root(node@.tftp_prefix) + "/"@,
        plan.recreate_nfs_root == !hard_delete,
        plan.pxe_file@ == pxe_path(node@.mac_address),
        invocation_views(plan.restart@) == seq![
            call(
                SERVICE@,
                seq![NFS_SERVICE@, "restart"@],
            ),
            call(
                SERVICE@,
                seq![DNSMASQ@, "restart"@],
            ),
        ],
{
    let root = remove_nfsroot(node.tftp_prefix.as_str(), hard_delete);
    StopPlan {
        close_sessions: close_screens_for_serial_logging(node, sources),
        prune,
        unmount: umount_tftp_directory(node.tftp_prefix.as_str()),
        nfs_root: root.0,
        recreate_nfs_root: root.1,
        pxe_file: pxe_file(node),
        restart: restart_services(),
    }
}

} // verus!
