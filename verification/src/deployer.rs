use crate::architecture::Architecture;
use crate::bootconfig::BootConfig;
use crate::command::{call, invocation_views, Invocation, InvocationView};
use crate::provisioning::{State, Traits};
use crate::configuration::{Configuration, ConfigurationView};
use crate::deployment::{Deployment, DeploymentView};
use crate::installer::{
    BASE_DIR, COPY, FDISK, KPARTX, LVDISPLAY, MOUNT, NFS_BASE_DIR, OS_IMAGES_DIR, PVS, QEMU_IMG,
    RESULTS_DIR, RSYNC, SCREEN, SSH, TFTP_BASE_DIR, TMP_DIR, UMOUNT, UNZIP, VGCHANGE,
};
use crate::logsource::{logsource_views, LogSource, LogSourceTypes, LogSourceView};
use crate::mountpoint::{mountpoint_views, Mountpoint, MountpointView};
use crate::node::{node_views, Node, NodeView};
use crate::partition::{partition_views, Partition, PartitionView};
use crate::service::{service_views, Service, ServiceView};
use crate::task::{Task, TaskView, Type};
use crate::text::{
    contains, decimal, join2, join3, join4, join5, join6, join7, joined, lines, pieces, render_usize,
    replaced, split_char, split_lines, split_whitespace, str_contains, str_eq, str_replace, texts,
    words,
};
use crate::text::{opt_text, parts, split_str};
use crate::utils::{get_random_name, replace_in_lines, replaced_in_lines};
use vstd::prelude::*;

verus! {

/// A node can take a service: it has the service's architecture, and it is
/// the node that the service prefers, where the service prefers one.
pub open spec fn fits(node: NodeView, service: ServiceView) -> bool {
    &&& service.architecture == Some(node.architecture)
    &&& (service.preferred_node is None || service.preferred_node == Some(node.id))
}

/// The place of the first node from place `from` on that can take the service.
pub open spec fn first_match_from(idle: Seq<NodeView>, service: ServiceView, from: int) -> Option<
    int,
>
    decreases idle.len() - from,
{
    if from < 0 || from >= idle.len() {
        None
    } else if fits(idle[from], service) {
        Some(from)
    } else {
        first_match_from(idle, service, from + 1)
    }
}

/// The place of the first idle node that can take the service.
pub open spec fn first_match(idle: Seq<NodeView>, service: ServiceView) -> Option<int> {
    first_match_from(idle, service, 0)
}

/// A service bound to a node: the service names the node.
pub open spec fn bound(service: ServiceView, node: NodeView) -> (ServiceView, NodeView) {
    (ServiceView { node: Some(node.id), ..service }, node)
}

/// Binds `left` replicas of a service, each to the first idle node that can
/// take it. Gives the nodes that stay idle and the bindings, or nothing where
/// a replica finds no node.
pub open spec fn admit_replicas(
    service: ServiceView,
    left: int,
    idle: Seq<NodeView>,
    done: Seq<(ServiceView, NodeView)>,
) -> Option<(Seq<NodeView>, Seq<(ServiceView, NodeView)>)>
    decreases left,
{
    if left <= 0 {
        Some((idle, done))
    } else {
        match first_match(idle, service) {
            Some(i) => admit_replicas(
                service,
                left - 1,
                idle.remove(i),
                done.push(bound(service, idle[i])),
            ),
            None => None,
        }
    }
}

/// Binds the replicas of the services from place `i` on, in order. Gives the
/// bindings, or the name of the first service of which a replica finds no
/// node.
pub open spec fn admit_from(
    services: Seq<ServiceView>,
    i: int,
    idle: Seq<NodeView>,
    done: Seq<(ServiceView, NodeView)>,
) -> Result<Seq<(ServiceView, NodeView)>, Seq<char>>
    decreases services.len() - i,
{
    if i < 0 || i >= services.len() {
        Ok(done)
    } else {
        match admit_replicas(services[i], services[i].replicas as int, idle, done) {
            Some((rest, bindings)) => admit_from(services, i + 1, rest, bindings),
            None => Err(services[i].name),
        }
    }
}

/// Admission: every replica of every service is bound, in order, to the first
/// idle node that can take it, and a node takes one replica. Gives the
/// bindings in the order in which they were made, or the name of the first
/// service of which a replica finds no node.
pub open spec fn admission(services: Seq<ServiceView>, idle: Seq<NodeView>) -> Result<
    Seq<(ServiceView, NodeView)>,
    Seq<char>,
> {
    admit_from(services, 0, idle, seq![])
}

/// What the bindings of a list hold.
pub open spec fn binding_views(list: Seq<(Service, Node)>) -> Seq<(ServiceView, NodeView)> {
    Seq::new(list.len(), |i: int| (list[i].0@, list[i].1@))
}

/// Whether a node can take a service.
pub fn node_matches(node: &Node, service: &Service) -> (r: bool)
    ensures
        r == fits(node@, service@),
{
    let preferred = match &service.preferred_node {
        Some(preferred_node) => node.id == *preferred_node,
        None => true,
    };
    let fits = match service.architecture {
        Some(architecture) => architecture == node.architecture,
        None => false,
    };
    preferred && fits
}

/// Finds the first idle node that can take a service.
pub fn find_node(available_nodes: &Vec<Node>, service: &Service) -> (r: Option<usize>)
    ensures
        match r {
            Some(i) => first_match(node_views(available_nodes@), service@) == Some(i as int) && i
                < available_nodes.len(),
            None => first_match(node_views(available_nodes@), service@) is None,
        },
{
    let mut index: usize = 0;
    while index < available_nodes.len()
        invariant
            index <= available_nodes.len(),
            first_match(node_views(available_nodes@), service@) == first_match_from(
                node_views(available_nodes@),
                service@,
                index as int,
            ),
        decreases available_nodes.len() - index,
    {
        assert(node_views(available_nodes@)[index as int] == available_nodes@[index as int]@);
        if node_matches(&available_nodes[index], service) {
            return Some(index);
        }
        index += 1;
    }
    None
}

/// Decides whether a deployment can be admitted: binds every replica of every
/// service to an idle node. Where a replica finds no node nothing is bound,
/// and the message names the service.
pub fn check_availability(services: Vec<Service>, available_nodes: Vec<Node>) -> (r: Result<
    Vec<(Service, Node)>,
    String,
>)
    ensures
        match r {
            Ok(bindings) => admission(service_views(services@), node_views(available_nodes@))
                == Ok::<Seq<(ServiceView, NodeView)>, Seq<char>>(binding_views(bindings@)),
            Err(message) => {
                &&& admission(service_views(services@), node_views(available_nodes@)) is Err
                &&& message@ == "No available node for "@ + admission(
                    service_views(services@),
                    node_views(available_nodes@),
                )->Err_0
            },
        },
{
    let ghost all = service_views(services@);
    let mut services_with_nodes: Vec<(Service, Node)> = Vec::new();
    let ghost start = node_views(available_nodes@);
    let mut idle_nodes = available_nodes;
    let mut i: usize = 0;
    assert(binding_views(services_with_nodes@) =~= Seq::<(ServiceView, NodeView)>::empty());
    while i < services.len()
        invariant
            i <= services.len(),
            all == service_views(services@),
            start == node_views(available_nodes@),
            admission(all, start) == admit_from(
                all,
                i as int,
                node_views(idle_nodes@),
                binding_views(services_with_nodes@),
            ),
        decreases services.len() - i,
    {
        let service = &services[i];
        assert(all[i as int] == service@);
        let mut replica: i64 = 0;
        while replica < service.replicas
            invariant
                0 <= replica,
                replica <= service.replicas || service.replicas < 0,
                i < services.len(),
                all == service_views(services@),
                start == node_views(available_nodes@),
                service@ == all[i as int],
                admission(all, start) == match admit_replicas(
                    service@,
                    service.replicas - replica,
                    node_views(idle_nodes@),
                    binding_views(services_with_nodes@),
                ) {
                    Some((rest, bindings)) => admit_from(all, i + 1, rest, bindings),
                    None => Err(service@.name),
                },
            decreases service.replicas - replica,
        {
            let ghost idle = node_views(idle_nodes@);
            let ghost done = binding_views(services_with_nodes@);
            match find_node(&idle_nodes, service) {
                Some(index) => {
                    let node = idle_nodes.remove(index);
                    assert(idle[index as int] == node@);
                    let mut chosen = service.clone();
                    chosen.node = Some(node.id.clone());
                    services_with_nodes.push((chosen, node));
                    assert(node_views(idle_nodes@) =~= idle.remove(index as int));
                    assert(binding_views(services_with_nodes@) =~= done.push(
                        bound(service@, node@),
                    ));
                },
                None => {
                    let mut message = String::from_str("No available node for ");
                    message.append(service.name.as_str());
                    return Err(message);
                },
            }
            replica += 1;
        }
        i += 1;
    }
    Ok(services_with_nodes)
}

/// Admission is decided by the services and the idle nodes, each in their
/// order: the same services and nodes give the same bindings.
pub proof fn lemma_admission_deterministic(
    services: Seq<Service>,
    idle: Seq<Node>,
    again: Seq<Service>,
    idle_again: Seq<Node>,
)
    requires
        service_views(services) == service_views(again),
        node_views(idle) == node_views(idle_again),
    ensures
        admission(service_views(services), node_views(idle)) == admission(
            service_views(again),
            node_views(idle_again),
        ),
{
}

/// A service without replicas is admitted without a binding.
pub proof fn lemma_no_replica_no_binding(
    service: ServiceView,
    idle: Seq<NodeView>,
    done: Seq<(ServiceView, NodeView)>,
)
    requires
        service.replicas <= 0,
    ensures
        admit_replicas(service, service.replicas as int, idle, done) == Some((idle, done)),
        admission(seq![service], idle) == Ok::<Seq<(ServiceView, NodeView)>, Seq<char>>(seq![]),
{
    assert(admit_from(seq![service], 1, idle, seq![]) == Ok::<
        Seq<(ServiceView, NodeView)>,
        Seq<char>,
    >(seq![]));
}

/// Services of which none has a replica are admitted without a binding,
/// whatever nodes are idle.
pub proof fn lemma_no_replicas(services: Seq<ServiceView>, idle: Seq<NodeView>, i: int)
    requires
        0 <= i <= services.len(),
        forall|k: int| 0 <= k < services.len() ==> (#[trigger] services[k]).replicas <= 0,
    ensures
        admit_from(services, i, idle, seq![]) == Ok::<Seq<(ServiceView, NodeView)>, Seq<char>>(
            seq![],
        ),
    decreases services.len() - i,
{
    if i < services.len() {
        lemma_no_replicas(services, idle, i + 1);
    }
}

/// Every node of `rest` is a node of `idle`.
pub open spec fn drawn_from(rest: Seq<NodeView>, idle: Seq<NodeView>) -> bool {
    forall|k: int| 0 <= k < rest.len() ==> idle.contains(#[trigger] rest[k])
}

/// What `first_match` finds can take the service, and where it finds nothing
/// no idle node can.
pub proof fn lemma_first_match(idle: Seq<NodeView>, service: ServiceView, from: int)
    requires
        0 <= from,
    ensures
        match first_match_from(idle, service, from) {
            Some(i) => from <= i < idle.len() && fits(idle[i], service) && forall|k: int|
                from <= k < i ==> !fits(idle[k], service),
            None => forall|k: int| from <= k < idle.len() ==> !fits(idle[k], service),
        },
    decreases idle.len() - from,
{
    if from < idle.len() && !fits(idle[from], service) {
        lemma_first_match(idle, service, from + 1);
    }
}

/// The nodes that stay idle after replicas were bound were idle before.
pub proof fn lemma_replicas_draw(
    service: ServiceView,
    left: int,
    idle: Seq<NodeView>,
    done: Seq<(ServiceView, NodeView)>,
)
    ensures
        admit_replicas(service, left, idle, done) matches Some((rest, _)) ==> drawn_from(
            rest,
            idle,
        ),
    decreases left,
{
    if left > 0 {
        lemma_first_match(idle, service, 0);
        match first_match(idle, service) {
            Some(i) => {
                let fewer = idle.remove(i);
                lemma_replicas_draw(service, left - 1, fewer, done.push(bound(service, idle[i])));
                match admit_replicas(service, left, idle, done) {
                    Some((rest, _)) => {
                        assert forall|k: int| 0 <= k < rest.len() implies idle.contains(
                            #[trigger] rest[k],
                        ) by {
                            assert(fewer.contains(rest[k]));
                            let j = choose|j: int| 0 <= j < fewer.len() && fewer[j] == rest[k];
                            if j < i {
                                assert(idle[j] == rest[k]);
                            } else {
                                assert(idle[j + 1] == rest[k]);
                            }
                        }
                    },
                    None => {},
                }
            },
            None => {},
        }
    } else {
        assert forall|k: int| 0 <= k < idle.len() implies idle.contains(#[trigger] idle[k]) by {}
    }
}

/// Where no node of `idle` can take `service`, none can after other replicas
/// were bound, and a service with a replica is not admitted.
pub proof fn lemma_unmatched_fails(
    services: Seq<ServiceView>,
    i: int,
    at: int,
    idle: Seq<NodeView>,
    done: Seq<(ServiceView, NodeView)>,
)
    requires
        0 <= i <= at < services.len(),
        services[at].replicas >= 1,
        forall|k: int| 0 <= k < idle.len() ==> !fits(#[trigger] idle[k], services[at]),
    ensures
        admit_from(services, i, idle, done) is Err,
    decreases services.len() - i,
{
    if i == at {
        lemma_first_match(idle, services[at], 0);
    } else {
        lemma_replicas_draw(services[i], services[i].replicas as int, idle, done);
        match admit_replicas(services[i], services[i].replicas as int, idle, done) {
            Some((rest, bindings)) => {
                assert forall|k: int| 0 <= k < rest.len() implies !fits(
                    #[trigger] rest[k],
                    services[at],
                ) by {
                    assert(idle.contains(rest[k]));
                }
                lemma_unmatched_fails(services, i + 1, at, rest, bindings);
            },
            None => {},
        }
    }
}

/// A service that prefers a node of another architecture is not admitted:
/// where every idle node of the preferred name has an architecture that is not
/// the service's, and the service has a replica, admission fails.
pub proof fn lemma_preferred_mismatch_fails(
    services: Seq<ServiceView>,
    at: int,
    idle: Seq<NodeView>,
)
    requires
        0 <= at < services.len(),
        services[at].replicas >= 1,
        services[at].preferred_node is Some,
        forall|k: int|
            0 <= k < idle.len() && Some((#[trigger] idle[k]).id) == services[at].preferred_node
                ==> Some(idle[k].architecture) != services[at].architecture,
    ensures
        admission(services, idle) is Err,
{
    lemma_unmatched_fails(services, 0, at, idle, seq![]);
}

/// The nodes of a list of bindings, in order.
pub open spec fn bound_nodes(bindings: Seq<(ServiceView, NodeView)>) -> Seq<NodeView> {
    Seq::new(bindings.len(), |i: int| bindings[i].1)
}

/// Binding replicas moves nodes from the idle ones to the bindings: the nodes
/// that stay idle and those that were bound are together the nodes that were
/// idle and those that were bound before, each as often.
pub proof fn lemma_replicas_take_nodes(
    service: ServiceView,
    left: int,
    idle: Seq<NodeView>,
    done: Seq<(ServiceView, NodeView)>,
)
    ensures
        admit_replicas(service, left, idle, done) matches Some((rest, bindings))
            ==> rest.to_multiset().add(bound_nodes(bindings).to_multiset())
            == idle.to_multiset().add(bound_nodes(done).to_multiset()),
    decreases left,
{
    broadcast use vstd::seq_lib::group_to_multiset_ensures;
    broadcast use vstd::multiset::group_multiset_axioms;

    if left > 0 {
        lemma_first_match(idle, service, 0);
        match first_match(idle, service) {
            Some(i) => {
                let fewer = idle.remove(i);
                let more = done.push(bound(service, idle[i]));
                lemma_replicas_take_nodes(service, left - 1, fewer, more);
                assert(bound_nodes(more) =~= bound_nodes(done).push(idle[i]));
                assert(idle.contains(idle[i]));
                assert(fewer.to_multiset().add(bound_nodes(more).to_multiset())
                    =~= idle.to_multiset().add(bound_nodes(done).to_multiset()));
            },
            None => {},
        }
    }
}

/// A node takes one replica: the nodes of the bindings of an admission are
/// among the idle nodes, and none is bound more often than it is idle.
pub proof fn lemma_admission_takes_nodes(
    services: Seq<ServiceView>,
    i: int,
    idle: Seq<NodeView>,
    done: Seq<(ServiceView, NodeView)>,
)
    requires
        0 <= i,
    ensures
        admit_from(services, i, idle, done) matches Ok(bindings) ==> bound_nodes(
            bindings,
        ).to_multiset().subset_of(idle.to_multiset().add(bound_nodes(done).to_multiset())),
    decreases services.len() - i,
{
    broadcast use vstd::multiset::group_multiset_axioms;

    if i < services.len() {
        lemma_replicas_take_nodes(services[i], services[i].replicas as int, idle, done);
        match admit_replicas(services[i], services[i].replicas as int, idle, done) {
            Some((rest, bindings)) => {
                lemma_admission_takes_nodes(services, i + 1, rest, bindings);
            },
            None => {},
        }
    }
}

/// Where no node is idle twice, no node is bound twice.
pub proof fn lemma_bindings_distinct(services: Seq<ServiceView>, idle: Seq<NodeView>)
    requires
        idle.no_duplicates(),
    ensures
        admission(services, idle) matches Ok(bindings) ==> bound_nodes(bindings).no_duplicates(),
{
    broadcast use vstd::multiset::group_multiset_axioms;
    broadcast use vstd::seq_lib::group_to_multiset_ensures;

    match admission(services, idle) {
        Ok(bindings) => {
            lemma_admission_takes_nodes(services, 0, idle, seq![]);
            idle.lemma_multiset_has_no_duplicates();
            let nodes = bound_nodes(bindings);
            assert(bound_nodes(Seq::<(ServiceView, NodeView)>::empty()) =~= Seq::<NodeView>::empty());
            assert(Seq::<NodeView>::empty().to_multiset() =~= vstd::multiset::Multiset::empty());
            assert forall|x: NodeView| nodes.to_multiset().contains(x) implies nodes.to_multiset().count(
                x,
            ) == 1 by {
                assert(nodes.to_multiset().count(x) <= idle.to_multiset().add(
                    bound_nodes(Seq::<(ServiceView, NodeView)>::empty()).to_multiset(),
                ).count(x));
            }
            nodes.lemma_multiset_has_no_duplicates_conv();
        },
        Err(_) => {},
    }
}

/// The directory of an unpacked image that holds the disk image and the
/// manifest.
pub const BUILD_DIRECTORY: &'static str = "os-build";

/// The archive of an image among the images of the cluster.
pub open spec fn archive_path(image: Seq<char>) -> Seq<char> {
    OS_IMAGES_DIR@ + "/"@ + image + ".zip"@
}

/// The sandbox of a provisioning run.
pub open spec fn sandbox_path(directory: Seq<char>) -> Seq<char> {
    TMP_DIR@ + "/"@ + directory
}

/// A file of the image that was unpacked into a sandbox.
pub open spec fn unpacked_path(directory: Seq<char>, file: Seq<char>) -> Seq<char> {
    TMP_DIR@ + "/"@ + directory + "/"@ + BUILD_DIRECTORY@ + "/"@ + file
}

/// The directory of a sandbox at which a partition is mounted.
pub open spec fn partition_path(directory: Seq<char>, number: usize) -> Seq<char> {
    TMP_DIR@ + "/"@ + directory + "/"@ + decimal(number as nat)
}

/// The directory of a sandbox in which the file system of the image is put
/// together.
pub open spec fn result_path(directory: Seq<char>) -> Seq<char> {
    TMP_DIR@ + "/"@ + directory + "/result"@
}

/// The directory from which a node's file system is served.
pub open spec fn nfs_root(node: Seq<char>) -> Seq<char> {
    NFS_BASE_DIR@ + "/"@ + node
}

/// The directory from which a node's boot files are served.
pub open spec fn tftp_root(node: Seq<char>) -> Seq<char> {
    TFTP_BASE_DIR@ + "/"@ + node
}

pub fn image_archive(image: &str) -> (path: String)
    ensures
        path@ == archive_path(image@),
{
    join4(OS_IMAGES_DIR, "/", image, ".zip")
}

/// The sandbox that is made before an image is unpacked.
pub fn create_tmp_directory(directory: &str) -> (path: String)
    ensures
        path@ == sandbox_path(directory@),
{
    join3(TMP_DIR, "/", directory)
}

/// The sandbox that is removed at the end of a run, whatever came of it.
pub fn destroy_tmp_directory(directory: &str) -> (path: String)
    ensures
        path@ == sandbox_path(directory@),
{
    join3(TMP_DIR, "/", directory)
}

fn unpacked(directory: &str, file: &str) -> (path: String)
    ensures
        path@ == unpacked_path(directory@, file@),
{
    join7(TMP_DIR, "/", directory, "/", BUILD_DIRECTORY, "/", file)
}

fn partition_directory(directory: &str, number: usize) -> (path: String)
    ensures
        path@ == partition_path(directory@, number),
{
    join5(TMP_DIR, "/", directory, "/", render_usize(number).as_str())
}

pub fn unpack_image(image_path: &str, directory: &str) -> (r: Invocation)
    ensures
        r@ == call(UNZIP@, seq![image_path@, "-d"@, sandbox_path(directory@)]),
{
    let r = Invocation::new(UNZIP).arg_str(image_path).arg_str("-d").arg(
        create_tmp_directory(directory),
    );
    assert(r@.arguments =~= seq![image_path@, "-d"@, sandbox_path(directory@)]);
    r
}

/// The call that maps the partitions of the unpacked disk image to devices.
pub fn add_loopdevice(directory: &str) -> (r: Invocation)
    ensures
        r@ == call(KPARTX@, seq!["-av"@, unpacked_path(directory@, "generated.img"@)]),
{
    let r = Invocation::new(KPARTX).arg_str("-av").arg(unpacked(directory, "generated.img"));
    assert(r@.arguments =~= seq!["-av"@, unpacked_path(directory@, "generated.img"@)]);
    r
}

pub fn remove_loopdevice(directory: &str) -> (r: Invocation)
    ensures
        r@ == call(KPARTX@, seq!["-d"@, unpacked_path(directory@, "generated.img"@)]),
{
    let r = Invocation::new(KPARTX).arg_str("-d").arg(unpacked(directory, "generated.img"));
    assert(r@.arguments =~= seq!["-d"@, unpacked_path(directory@, "generated.img"@)]);
    r
}

/// The loop device that the partition mapper names, where it names one: its
/// first line has a third word, a partition's device, which ends in the
/// letter p and the partition's number behind the loop device's name.
pub open spec fn loopdevice_of(stdout: Seq<char>) -> Option<Seq<char>> {
    if lines(stdout).len() == 0 {
        None
    } else if words(lines(stdout)[0]).len() < 3 {
        None
    } else if pieces(words(lines(stdout)[0])[2], 'p').len() < 2 {
        None
    } else {
        Some(joined(pieces(words(lines(stdout)[0])[2], 'p').take(2), "p"@))
    }
}

/// Reads the loop device from what the partition mapper printed.
pub fn get_loopdevice(stdout: &str) -> (r: Option<String>)
    ensures
        crate::text::opt_text(r) == loopdevice_of(stdout@),
{
    let all = split_lines(stdout);
    if all.len() == 0 {
        return None;
    }
    assert(texts(all@)[0] == all@[0]@);
    let found = split_whitespace(all[0].as_str());
    if found.len() < 3 {
        return None;
    }
    assert(texts(found@)[2] == found@[2]@);
    let mut parts = split_char(found[2].as_str(), 'p');
    if parts.len() < 2 {
        return None;
    }
    let ghost all_parts = texts(parts@);
    parts.truncate(2);
    assert(texts(parts@) =~= all_parts.take(2));
    Some(crate::text::join(&parts, "p"))
}

pub fn mount_partition(directory: &str, loopdevice: &str, mountpoint: &Mountpoint) -> (r: Invocation)
    ensures
        r@ == call(
            MOUNT@,
            seq![
                "/dev/mapper/"@ + loopdevice@ + "p"@ + decimal(mountpoint@.partition_number as nat),
                partition_path(directory@, mountpoint@.partition_number),
            ],
        ),
{
    let number = render_usize(mountpoint.get_partition_number());
    let device = join4("/dev/mapper/", loopdevice, "p", number.as_str());
    let r = Invocation::new(MOUNT).arg(device).arg(
        partition_directory(directory, mountpoint.get_partition_number()),
    );
    assert(r@.arguments =~= seq![
        "/dev/mapper/"@ + loopdevice@ + "p"@ + decimal(mountpoint@.partition_number as nat),
        partition_path(directory@, mountpoint@.partition_number),
    ]);
    r
}

pub fn unmount_partition(mountpoint: &Mountpoint, directory: &str) -> (r: Invocation)
    ensures
        r@ == call(UMOUNT@, seq![partition_path(directory@, mountpoint@.partition_number)]),
{
    let r = Invocation::new(UMOUNT).arg(partition_directory(directory, mountpoint.get_partition_number()));
    assert(r@.arguments =~= seq![partition_path(directory@, mountpoint@.partition_number)]);
    r
}

/// The directory at which a partition was mounted, to be removed.
pub fn remove_partition_directory(mountpoint: &Mountpoint, directory: &str) -> (path: String)
    ensures
        path@ == partition_path(directory@, mountpoint@.partition_number),
{
    partition_directory(directory, mountpoint.get_partition_number())
}

pub fn create_result_directory(name: &str) -> (path: String)
    ensures
        path@ == result_path(name@),
{
    join4(TMP_DIR, "/", name, "/result")
}

pub fn copy_partition_to_result(mountpoint: &Mountpoint, directory: &str) -> (r: Invocation)
    ensures
        r@ == call(
            RSYNC@,
            seq![
                "-a"@,
                partition_path(directory@, mountpoint@.partition_number) + "/"@,
                result_path(directory@) + mountpoint@.full_path(),
            ],
        ),
{
    let mut from = partition_directory(directory, mountpoint.get_partition_number());
    from.append("/");
    let mut to = create_result_directory(directory);
    to.append(mountpoint.get_path().as_str());
    let r = Invocation::new(RSYNC).arg_str("-a").arg(from).arg(to);
    assert(r@.arguments =~= seq![
        "-a"@,
        partition_path(directory@, mountpoint@.partition_number) + "/"@,
        result_path(directory@) + mountpoint@.full_path(),
    ]);
    r
}

pub fn move_result_to_nfs(directory: &str, node: &str) -> (r: Invocation)
    ensures
        r@ == call(
            RSYNC@,
            seq![
                "--delete-before"@,
                "--remove-source-files"@,
                "-a"@,
                result_path(directory@) + "/"@,
                nfs_root(node@),
            ],
        ),
{
    let mut from = create_result_directory(directory);
    from.append("/");
    let r = Invocation::new(RSYNC).arg_str("--delete-before").arg_str(
        "--remove-source-files",
    ).arg_str("-a").arg(from).arg(join3(NFS_BASE_DIR, "/", node));
    assert(r@.arguments =~= seq![
        "--delete-before"@,
        "--remove-source-files"@,
        "-a"@,
        result_path(directory@) + "/"@,
        nfs_root(node@),
    ]);
    r
}

/// The place of the first partition of the given name, if there is one.
pub open spec fn named_partition(partitions: Seq<PartitionView>, name: Seq<char>, from: int) -> Option<
    int,
>
    decreases partitions.len() - from,
{
    if from < 0 || from >= partitions.len() {
        None
    } else if partitions[from].name == name {
        Some(from)
    } else {
        named_partition(partitions, name, from + 1)
    }
}

/// The path inside an image at which its boot files lie: the mount point of
/// the partition named boot, or /boot where no partition has that name.
pub open spec fn boot_path(partitions: Seq<PartitionView>) -> Seq<char> {
    match named_partition(partitions, "boot"@, 0) {
        Some(i) => partitions[i].mountpoint,
        None => "/boot"@,
    }
}

/// The path inside an image at which its boot files lie.
pub fn get_boot_path(partitions: &Vec<Partition>) -> (path: String)
    ensures
        path@ == boot_path(partition_views(partitions@)),
{
    let mut i: usize = 0;
    while i < partitions.len()
        invariant
            i <= partitions.len(),
            named_partition(partition_views(partitions@), "boot"@, 0) == named_partition(
                partition_views(partitions@),
                "boot"@,
                i as int,
            ),
        decreases partitions.len() - i,
    {
        assert(partition_views(partitions@)[i as int] == partitions@[i as int]@);
        if str_eq(partitions[i].get_name().as_str(), "boot") {
            return partitions[i].get_mountpoint();
        }
        i += 1;
    }
    String::from_str("/boot")
}

/// The call that makes a node's boot files, which lie in the file system that
/// is served to it, visible to its boot loader.
pub fn mount_tftpboot(partitions: &Vec<Partition>, node: &str) -> (r: Invocation)
    ensures
        r@ == call(
            MOUNT@,
            seq![
                "-o"@,
                "bind"@,
                replaced(nfs_root(node@) + boot_path(partition_views(partitions@)), "//"@, "/"@),
                tftp_root(node@),
            ],
        ),
{
    let boot = get_boot_path(partitions);
    let from = join4(NFS_BASE_DIR, "/", node, boot.as_str());
    let r = Invocation::new(MOUNT).arg_str("-o").arg_str("bind").arg(
        str_replace(from.as_str(), "//", "/"),
    ).arg(join3(TFTP_BASE_DIR, "/", node));
    assert(r@.arguments =~= seq![
        "-o"@,
        "bind"@,
        replaced(nfs_root(node@) + boot_path(partition_views(partitions@)), "//"@, "/"@),
        tftp_root(node@),
    ]);
    r
}

/// The arguments with which a command is run on a node as its administrator,
/// with the deployer's key and without asking about the node's host key.
pub open spec fn ssh_arguments(address: Seq<char>, command: Seq<char>) -> Seq<Seq<char>> {
    seq![
        "-o"@,
        "StrictHostKeyChecking=no"@,
        "-o"@,
        "UserKnownHostsFile=/dev/null"@,
        "-i"@,
        BASE_DIR@ + "/deployer"@,
        "root@"@ + address,
        command,
    ]
}

pub fn execute_command_over_ssh(node: &Node, command: &str) -> (r: Invocation)
    ensures
        r@ == call(SSH@, ssh_arguments(node@.ipv4_address, command@)),
{
    let r = Invocation::new(SSH).arg_str("-o").arg_str("StrictHostKeyChecking=no").arg_str(
        "-o",
    ).arg_str("UserKnownHostsFile=/dev/null").arg_str("-i").arg(join2(BASE_DIR, "/deployer")).arg(
        join2("root@", node.ipv4_address.as_str()),
    ).arg_str(command);
    assert(r@.arguments =~= ssh_arguments(node@.ipv4_address, command@));
    r
}

/// The command that writes the image, which lies in the administrator's home
/// on the node, to the node's storage.
pub open spec fn flash_command(device: Seq<char>) -> Seq<char> {
    "dd if=/root/generated.img of="@ + device + " bs="@ + "20M"@
}

pub fn flash_image_to_node(node: &Node, device: &str) -> (r: Invocation)
    ensures
        r@ == call(SSH@, ssh_arguments(node@.ipv4_address, flash_command(device@))),
{
    let command = join4("dd if=/root/generated.img of=", device, " bs=", "20M");
    execute_command_over_ssh(node, command.as_str())
}

/// The device of a node's storage.
pub fn storage_path(storage_device: &str) -> (path: String)
    ensures
        path@ == "/dev/"@ + storage_device@,
{
    join2("/dev/", storage_device)
}

pub fn allow_ssh_access_to_node(node: &Node) -> (r: Invocation)
    ensures
        r@ == call(
            COPY@,
            seq![
                BASE_DIR@ + "/deployer.pub"@,
                nfs_root(node@.tftp_prefix) + "/root/.ssh/authorized_keys"@,
            ],
        ),
{
    let r = Invocation::new(COPY).arg(join2(BASE_DIR, "/deployer.pub")).arg(
        join4(NFS_BASE_DIR, "/", node.tftp_prefix.as_str(), "/root/.ssh/authorized_keys"),
    );
    assert(r@.arguments =~= seq![
        BASE_DIR@ + "/deployer.pub"@,
        nfs_root(node@.tftp_prefix) + "/root/.ssh/authorized_keys"@,
    ]);
    r
}

/// The call that lists the files of an unpacked image, the largest first.
pub fn list_image_files(directory: &str) -> (r: Invocation)
    ensures
        r@ == call("ls"@, seq!["--sort=size"@, unpacked_path(directory@, ""@)]),
{
    let r = Invocation::new("ls").arg_str("--sort=size").arg(unpacked(directory, ""));
    assert(r@.arguments =~= seq!["--sort=size"@, unpacked_path(directory@, ""@)]);
    r
}

/// The first word of the first line of a listing.
pub open spec fn first_listed(stdout: Seq<char>) -> Option<Seq<char>> {
    if lines(stdout).len() == 0 {
        None
    } else if words(lines(stdout)[0]).len() == 0 {
        None
    } else {
        Some(words(lines(stdout)[0])[0])
    }
}

/// The largest file of an unpacked image, from the listing: the disk image.
pub fn largest_file(stdout: &str) -> (r: Option<String>)
    ensures
        crate::text::opt_text(r) == first_listed(stdout@),
{
    let all = split_lines(stdout);
    if all.len() == 0 {
        return None;
    }
    assert(texts(all@)[0] == all@[0]@);
    let found = split_whitespace(all[0].as_str());
    if found.len() == 0 {
        return None;
    }
    assert(texts(found@)[0] == found@[0]@);
    Some(found[0].clone())
}

/// The call that puts the disk image into the administrator's home on the
/// node, in the file system that is served to it.
pub fn move_image_to_root_home(directory: &str, image: &str, node: &Node) -> (r: Invocation)
    ensures
        r@ == call(
            COPY@,
            seq![
                unpacked_path(directory@, image@),
                nfs_root(node@.tftp_prefix) + "/root/generated.img"@,
            ],
        ),
{
    let r = Invocation::new(COPY).arg(unpacked(directory, image)).arg(
        join4(NFS_BASE_DIR, "/", node.tftp_prefix.as_str(), "/root/generated.img"),
    );
    assert(r@.arguments =~= seq![
        unpacked_path(directory@, image@),
        nfs_root(node@.tftp_prefix) + "/root/generated.img"@,
    ]);
    r
}

/// The call that overwrites the memory card of a node with noise.
pub fn prune_sd_card(node: &Node) -> (r: Invocation)
    ensures
        r@ == call(
            SSH@,
            ssh_arguments(
                node@.ipv4_address,
                "dd if=/dev/urandom of=/dev/mmcblk0 bs=20M status=progress"@,
            ),
        ),
{
    execute_command_over_ssh(node, "dd if=/dev/urandom of=/dev/mmcblk0 bs=20M status=progress")
}

/// The directory in which the logs of a node are gathered.
pub open spec fn node_logs_path(id: Seq<char>) -> Seq<char> {
    RESULTS_DIR@ + "/"@ + id + "/logs"@
}

pub fn create_results_directory(node: &Node) -> (path: String)
    ensures
        path@ == node_logs_path(node@.id),
{
    join4(RESULTS_DIR, "/", node.id.as_str(), "/logs")
}

pub fn convert_vmdk_to_img(directory: &str) -> (r: Invocation)
    ensures
        r@ == call(
            QEMU_IMG@,
            seq![
                "convert"@,
                "-f"@,
                "vmdk"@,
                unpacked_path(directory@, "generated.vmdk"@),
                unpacked_path(directory@, "generated.img"@),
            ],
        ),
{
    let r = Invocation::new(QEMU_IMG).arg_str("convert").arg_str("-f").arg_str("vmdk").arg(
        unpacked(directory, "generated.vmdk"),
    ).arg(unpacked(directory, "generated.img"));
    assert(r@.arguments =~= seq![
        "convert"@,
        "-f"@,
        "vmdk"@,
        unpacked_path(directory@, "generated.vmdk"@),
        unpacked_path(directory@, "generated.img"@),
    ]);
    r
}

/// The call that lists the partitions of the unpacked disk image.
pub fn list_partitions(directory: &str) -> (r: Invocation)
    ensures
        r@ == call(FDISK@, seq!["-l"@, unpacked_path(directory@, "generated.img"@)]),
{
    let r = Invocation::new(FDISK).arg_str("-l").arg(unpacked(directory, "generated.img"));
    assert(r@.arguments =~= seq!["-l"@, unpacked_path(directory@, "generated.img"@)]);
    r
}

/// A line of the list holds the text.
pub open spec fn some_line_holds(list: Seq<Seq<char>>, needle: Seq<char>) -> bool {
    exists|i: int| 0 <= i < list.len() && contains(#[trigger] list[i], needle)
}

/// Whether a disk image holds logical volumes: the partition tool reports a
/// partition of that kind.
pub fn is_lvm(stdout: &str) -> (r: bool)
    ensures
        r == some_line_holds(lines(stdout@), "Linux LVM"@),
{
    let all = split_lines(stdout);
    let mut i: usize = 0;
    while i < all.len()
        invariant
            i <= all.len(),
            texts(all@) == lines(stdout@),
            forall|k: int| 0 <= k < i ==> !contains(#[trigger] texts(all@)[k], "Linux LVM"@),
        decreases all.len() - i,
    {
        if str_contains(all[i].as_str(), "Linux LVM") {
            assert(contains(texts(all@)[i as int], "Linux LVM"@));
            return true;
        }
        i += 1;
    }
    false
}

pub fn extract_configuration(image: &str) -> (r: Invocation)
    ensures
        r@ == call(
            UNZIP@,
            seq!["-p"@, archive_path(image@), BUILD_DIRECTORY@ + "/configuration.json"@],
        ),
{
    let r = Invocation::new(UNZIP).arg_str("-p").arg(image_archive(image)).arg(
        join2(BUILD_DIRECTORY, "/configuration.json"),
    );
    assert(r@.arguments =~= seq![
        "-p"@,
        archive_path(image@),
        BUILD_DIRECTORY@ + "/configuration.json"@,
    ]);
    r
}

/// The manifest of an image that was unpacked into a sandbox.
pub fn read_configuration(directory: &str) -> (path: String)
    ensures
        path@ == unpacked_path(directory@, "configuration.json"@),
{
    unpacked(directory, "configuration.json")
}

/// The call that lists the logical volumes of a volume group.
pub fn list_logical_volumes(vg: &str) -> (r: Invocation)
    ensures
        r@ == call(LVDISPLAY@, seq![vg@]),
{
    let r = Invocation::new(LVDISPLAY).arg_str(vg);
    assert(r@.arguments =~= seq![vg@]);
    r
}

/// The last words of the lines that hold `mark`, in the order of the lines.
pub open spec fn last_words_of(list: Seq<Seq<char>>, mark: Seq<char>) -> Seq<Seq<char>>
    decreases list.len(),
{
    if list.len() == 0 {
        seq![]
    } else if contains(list.last(), mark) && words(list.last()).len() > 0 {
        last_words_of(list.drop_last(), mark).push(words(list.last()).last())
    } else {
        last_words_of(list.drop_last(), mark)
    }
}

/// The paths of the logical volumes that the volume tool lists.
pub fn lvm_partitions(stdout: &str) -> (vec: Vec<String>)
    ensures
        texts(vec@) == last_words_of(lines(stdout@), "LV Path"@),
{
    let all = split_lines(stdout);
    let mut vec: Vec<String> = Vec::new();
    let mut i: usize = 0;
    assert(texts(vec@) =~= last_words_of(texts(all@).take(0), "LV Path"@));
    while i < all.len()
        invariant
            i <= all.len(),
            texts(vec@) == last_words_of(texts(all@).take(i as int), "LV Path"@),
        decreases all.len() - i,
    {
        let ghost before = texts(vec@);
        proof {
            let next = texts(all@).take(i + 1);
            assert(next.drop_last() =~= texts(all@).take(i as int));
            assert(next.last() == all@[i as int]@);
        }
        if str_contains(all[i].as_str(), "LV Path") {
            let found = split_whitespace(all[i].as_str());
            if found.len() > 0 {
                assert(texts(found@).len() == found@.len());
                assert(texts(found@).last() == found@[found.len() - 1]@);
                vec.push(found[found.len() - 1].clone());
                assert(texts(vec@) =~= before.push(found@[found.len() - 1]@));
            }
        }
        i += 1;
    }
    assert(texts(all@).take(i as int) =~= texts(all@));
    vec
}

/// The call that lists the physical volumes.
pub fn list_physical_volumes() -> (r: Invocation)
    ensures
        r@ == call(PVS@, seq![]),
{
    Invocation::new(PVS)
}

/// The last of the lines that hold `mark`.
pub open spec fn last_line_with(list: Seq<Seq<char>>, mark: Seq<char>) -> Option<Seq<char>>
    decreases list.len(),
{
    if list.len() == 0 {
        None
    } else if contains(list.last(), mark) {
        Some(list.last())
    } else {
        last_line_with(list.drop_last(), mark)
    }
}

/// The physical volume on a loop device and its volume group: the first two
/// words of the last line that names the loop device, where there is such a
/// line and it has two words.
pub open spec fn pv_and_vg(stdout: Seq<char>, loopdevice: Seq<char>) -> Option<
    (Seq<char>, Seq<char>),
> {
    match last_line_with(lines(stdout), loopdevice) {
        Some(line) => if words(line).len() >= 2 {
            Some((words(line)[0], words(line)[1]))
        } else {
            None
        },
        None => None,
    }
}

/// Reads the physical volume on a loop device and its volume group from the
/// list of the physical volumes.
pub fn get_pv_and_vg(stdout: &str, loopdevice: &str) -> (r: Option<(String, String)>)
    ensures
        match r {
            Some(found) => pv_and_vg(stdout@, loopdevice@) == Some((found.0@, found.1@)),
            None => pv_and_vg(stdout@, loopdevice@) is None,
        },
{
    let all = split_lines(stdout);
    let mut i: usize = all.len();
    assert(texts(all@).take(i as int) =~= texts(all@));
    while i > 0
        invariant
            i <= all.len(),
            texts(all@) == lines(stdout@),
            last_line_with(lines(stdout@), loopdevice@) == last_line_with(
                texts(all@).take(i as int),
                loopdevice@,
            ),
        decreases i,
    {
        i -= 1;
        proof {
            let next = texts(all@).take(i + 1);
            assert(next.drop_last() =~= texts(all@).take(i as int));
            assert(next.last() == all@[i as int]@);
        }
        if str_contains(all[i].as_str(), loopdevice) {
            let found = split_whitespace(all[i].as_str());
            if found.len() >= 2 {
                assert(texts(found@)[0] == found@[0]@ && texts(found@)[1] == found@[1]@);
                return Some((found[0].clone(), found[1].clone()));
            }
            return None;
        }
    }
    None
}

pub fn activate_vgs(vg: &str) -> (r: Invocation)
    ensures
        r@ == call(VGCHANGE@, seq!["-ay"@, vg@]),
{
    let r = Invocation::new(VGCHANGE).arg_str("-ay").arg_str(vg);
    assert(r@.arguments =~= seq!["-ay"@, vg@]);
    r
}

/// The two calls that release a volume group: it is taken out of use, then
/// made known as free to be taken elsewhere.
pub fn deactivate_vgs(vg: &str) -> (r: Vec<Invocation>)
    ensures
        invocation_views(r@) == seq![
            call(VGCHANGE@, seq!["-an"@, vg@]),
            call("vgexport"@, seq![vg@]),
        ],
{
    let first = Invocation::new(VGCHANGE).arg_str("-an").arg_str(vg);
    assert(first@.arguments =~= seq!["-an"@, vg@]);
    let second = Invocation::new("vgexport").arg_str(vg);
    assert(second@.arguments =~= seq![vg@]);
    let mut r: Vec<Invocation> = Vec::new();
    r.push(first);
    r.push(second);
    assert(invocation_views(r@) =~= seq![first@, second@]);
    r
}

pub fn mount_lvm_partition(directory: &str, vgname: &str, number: usize, partition: &Partition) -> (r:
    Invocation)
    ensures
        r@ == call(
            MOUNT@,
            seq![
                replaced("/dev/"@ + vgname@ + "/"@ + partition@.name, "//"@, "/"@),
                partition_path(directory@, number),
            ],
        ),
{
    let device = join4("/dev/", vgname, "/", partition.get_name().as_str());
    let r = Invocation::new(MOUNT).arg(str_replace(device.as_str(), "//", "/")).arg(
        partition_directory(directory, number),
    );
    assert(r@.arguments =~= seq![
        replaced("/dev/"@ + vgname@ + "/"@ + partition@.name, "//"@, "/"@),
        partition_path(directory@, number),
    ]);
    r
}

/// The place of the last partition of the given name, if there is one.
pub open spec fn last_named(partitions: Seq<PartitionView>, name: Seq<char>) -> Option<int>
    decreases partitions.len(),
{
    if partitions.len() == 0 {
        None
    } else if partitions.last().name == name {
        Some(partitions.len() - 1)
    } else {
        last_named(partitions.drop_last(), name)
    }
}

/// The name of a logical volume: what stands in its path behind the volume
/// group.
pub open spec fn volume_name(path: Seq<char>, vg: Seq<char>) -> Seq<char> {
    parts(path, vg + "/"@).last()
}

/// The partitions of the manifest that the logical volumes stand for, in the
/// order of the volumes: a volume stands for the partition of its name, and
/// for none where the manifest has no partition of that name.
pub open spec fn volume_partitions(
    partitions: Seq<PartitionView>,
    vg: Seq<char>,
    volumes: Seq<Seq<char>>,
) -> Seq<PartitionView>
    decreases volumes.len(),
{
    if volumes.len() == 0 {
        seq![]
    } else {
        let before = volume_partitions(partitions, vg, volumes.drop_last());
        match last_named(partitions, volume_name(volumes.last(), vg)) {
            Some(i) => before.push(partitions[i]),
            None => before,
        }
    }
}

/// Matches the logical volumes of an image to the partitions of its manifest.
pub fn handle_lvm_image(config: &Configuration, vg: &str, volumes: &Vec<String>) -> (r: Vec<Partition>)
    ensures
        partition_views(r@) == volume_partitions(config@.partitions, vg@, texts(volumes@)),
{
    let pattern = join2(vg, "/");
    let mut partitions: Vec<Partition> = Vec::new();
    let mut i: usize = 0;
    assert(partition_views(partitions@) =~= volume_partitions(
        config@.partitions,
        vg@,
        texts(volumes@).take(0),
    ));
    while i < volumes.len()
        invariant
            i <= volumes.len(),
            pattern@ == vg@ + "/"@,
            partition_views(partitions@) == volume_partitions(
                config@.partitions,
                vg@,
                texts(volumes@).take(i as int),
            ),
        decreases volumes.len() - i,
    {
        let ghost before = partition_views(partitions@);
        proof {
            let next = texts(volumes@).take(i + 1);
            assert(next.drop_last() =~= texts(volumes@).take(i as int));
            assert(next.last() == volumes@[i as int]@);
        }
        let parsed_name = split_str(volumes[i].as_str(), pattern.as_str());
        assert(texts(parsed_name@).len() == parsed_name@.len());
        assert(texts(parsed_name@).last() == parsed_name@[parsed_name.len() - 1]@);
        let name = parsed_name[parsed_name.len() - 1].as_str();
        let mut k: usize = config.partitions.len();
        let mut found: Option<usize> = None;
        assert(config@.partitions.take(k as int) =~= config@.partitions);
        while k > 0 && found.is_none()
            invariant
                k <= config.partitions.len(),
                match found {
                    Some(j) => last_named(config@.partitions, name@) == Some(j as int) && j
                        < config.partitions.len(),
                    None => last_named(config@.partitions, name@) == last_named(
                        config@.partitions.take(k as int),
                        name@,
                    ),
                },
            decreases k + if found is None { 1int } else { 0int },
        {
            k -= 1;
            assert(config@.partitions.take(k + 1).drop_last() =~= config@.partitions.take(k as int));
            assert(config@.partitions.take(k + 1).last() == config.partitions@[k as int]@);
            if str_eq(config.partitions[k].get_name().as_str(), name) {
                found = Some(k);
            }
        }
        match found {
            Some(j) => {
                let partition = config.partitions[j].clone();
                partitions.push(partition);
                assert(config@.partitions[j as int] == config.partitions@[j as int]@);
                assert(partition_views(partitions@) =~= before.push(partition@));
            },
            None => {},
        }
        i += 1;
    }
    assert(texts(volumes@).take(i as int) =~= texts(volumes@));
    partitions
}

/// One mount point for each partition, in the order of the partitions: the
/// first partition is mounted first.
pub open spec fn fallback_order(partitions: Seq<PartitionView>) -> Seq<MountpointView> {
    Seq::new(
        partitions.len(),
        |i: int|
            MountpointView {
                mount_position: (i + 1) as usize,
                partition_number: (i + 1) as usize,
                path: partitions[i].mountpoint,
            },
    )
}

/// The order in which the partitions of an image are mounted: the mount order
/// of the manifest, or, where that is empty, one mount point for each
/// partition in the order of the partitions.
pub open spec fn effective_order(config: ConfigurationView) -> Seq<MountpointView> {
    if config.mountorder.len() == 0 {
        fallback_order(config.partitions)
    } else {
        config.mountorder
    }
}

/// One mount point for each partition, in the order of the partitions.
pub fn partition_order(partitions: &Vec<Partition>) -> (order: Vec<Mountpoint>)
    ensures
        mountpoint_views(order@) == fallback_order(partition_views(partitions@)),
{
    let mut order: Vec<Mountpoint> = Vec::new();
    let mut i: usize = 0;
    while i < partitions.len()
        invariant
            i <= partitions.len(),
            mountpoint_views(order@) == fallback_order(partition_views(partitions@)).take(i as int),
        decreases partitions.len() - i,
    {
        let ghost before = mountpoint_views(order@);
        let mountpoint = Mountpoint::new(i + 1, i + 1, partitions[i].get_mountpoint());
        order.push(mountpoint);
        assert(mountpoint_views(order@) =~= before.push(mountpoint@));
        assert(fallback_order(partition_views(partitions@)).take(i + 1) =~= fallback_order(
            partition_views(partitions@),
        ).take(i as int).push(mountpoint@));
        i += 1;
    }
    assert(fallback_order(partition_views(partitions@)).take(i as int) =~= fallback_order(
        partition_views(partitions@),
    ));
    order
}

/// The order in which the partitions of an image are mounted.
pub fn mount_order(config: &Configuration) -> (order: Vec<Mountpoint>)
    ensures
        mountpoint_views(order@) == effective_order(config@),
{
    if config.mountorder.len() == 0 {
        assert(mountpoint_views(config.mountorder@).len() == 0);
        partition_order(&config.partitions)
    } else {
        let mut order: Vec<Mountpoint> = Vec::new();
        let mut i: usize = 0;
        while i < config.mountorder.len()
            invariant
                i <= config.mountorder.len(),
                mountpoint_views(order@) == mountpoint_views(config.mountorder@).take(i as int),
            decreases config.mountorder.len() - i,
        {
            let ghost before = mountpoint_views(order@);
            let mountpoint = config.mountorder[i].clone();
            order.push(mountpoint);
            assert(mountpoint_views(order@) =~= before.push(mountpoint@));
            assert(mountpoint_views(config.mountorder@).take(i + 1) =~= mountpoint_views(
                config.mountorder@,
            ).take(i as int).push(mountpoint@));
            i += 1;
        }
        assert(mountpoint_views(config.mountorder@).take(i as int) =~= mountpoint_views(
            config.mountorder@,
        ));
        assert(mountpoint_views(config.mountorder@).len() > 0);
        order
    }
}

/// An image without a mount order is mounted partition by partition: as many
/// mount points as partitions, and the partition at each place is mounted at
/// that place, at its own mount point.
pub proof fn lemma_fallback_order(config: ConfigurationView)
    requires
        config.mountorder.len() == 0,
    ensures
        effective_order(config).len() == config.partitions.len(),
        forall|i: int|
            0 <= i < config.partitions.len() ==> {
                &&& (#[trigger] effective_order(config)[i]).mount_position == (i + 1) as usize
                &&& effective_order(config)[i].partition_number == (i + 1) as usize
                &&& effective_order(config)[i].path == config.partitions[i].mountpoint
            },
{
}

/// The order in which the partitions of an image are mounted, copied and
/// unmounted: the partitions in their order where the disk holds logical
/// volumes, and else the order that the manifest asks for.
pub open spec fn mounted_order(lvm: bool, config: ConfigurationView) -> Seq<MountpointView> {
    if lvm {
        fallback_order(config.partitions)
    } else {
        effective_order(config)
    }
}

/// The order in which the partitions of an image are mounted, copied and
/// unmounted.
pub fn get_mounted_order(lvm: bool, config: &Configuration) -> (order: Vec<Mountpoint>)
    ensures
        mountpoint_views(order@) == mounted_order(lvm, config@),
{
    if lvm {
        partition_order(&config.partitions)
    } else {
        mount_order(config)
    }
}

/// The calls that mount the partitions of a plain disk image, in the given
/// order: each partition from its mapped device.
pub open spec fn plain_mounts(
    directory: Seq<char>,
    loopdevice: Seq<char>,
    order: Seq<MountpointView>,
) -> Seq<InvocationView> {
    Seq::new(
        order.len(),
        |i: int|
            call(
                MOUNT@,
                seq![
                    "/dev/mapper/"@ + loopdevice + "p"@ + decimal(order[i].partition_number as nat),
                    partition_path(directory, order[i].partition_number),
                ],
            ),
    )
}

/// The calls that mount the logical volumes of a disk image, in the order of
/// the partitions: each volume by the name of its partition, at the directory
/// of its place, counted from one.
pub open spec fn lvm_mounts(
    directory: Seq<char>,
    vg: Seq<char>,
    partitions: Seq<PartitionView>,
) -> Seq<InvocationView> {
    Seq::new(
        partitions.len(),
        |i: int|
            call(
                MOUNT@,
                seq![
                    replaced("/dev/"@ + vg + "/"@ + partitions[i].name, "//"@, "/"@),
                    partition_path(directory, (i + 1) as usize),
                ],
            ),
    )
}

/// The calls that mount the partitions of an unpacked disk image: its logical
/// volumes where it holds such, and else its partitions from the loop device,
/// in the order that the manifest asks for.
pub fn mount_partitions(
    directory: &str,
    loopdevice: &str,
    vg: &str,
    lvm: bool,
    config: &Configuration,
) -> (r: Vec<Invocation>)
    ensures
        invocation_views(r@) == if lvm {
            lvm_mounts(directory@, vg@, config@.partitions)
        } else {
            plain_mounts(directory@, loopdevice@, effective_order(config@))
        },
{
    let mut r: Vec<Invocation> = Vec::new();
    if lvm {
        let ghost wanted = lvm_mounts(directory@, vg@, config@.partitions);
        let mut i: usize = 0;
        while i < config.partitions.len()
            invariant
                i <= config.partitions.len(),
                wanted == lvm_mounts(directory@, vg@, config@.partitions),
                invocation_views(r@) == wanted.take(i as int),
            decreases config.partitions.len() - i,
        {
            let ghost before = invocation_views(r@);
            assert(config@.partitions[i as int] == config.partitions@[i as int]@);
            let mount = mount_lvm_partition(directory, vg, i + 1, &config.partitions[i]);
            r.push(mount);
            assert(invocation_views(r@) =~= before.push(mount@));
            assert(wanted.take(i + 1) =~= wanted.take(i as int).push(mount@));
            i += 1;
        }
        assert(wanted.take(i as int) =~= wanted);
    } else {
        let order = mount_order(config);
        let ghost wanted = plain_mounts(directory@, loopdevice@, effective_order(config@));
        let mut i: usize = 0;
        while i < order.len()
            invariant
                i <= order.len(),
                mountpoint_views(order@) == effective_order(config@),
                wanted == plain_mounts(directory@, loopdevice@, effective_order(config@)),
                invocation_views(r@) == wanted.take(i as int),
            decreases order.len() - i,
        {
            let ghost before = invocation_views(r@);
            assert(mountpoint_views(order@)[i as int] == order@[i as int]@);
            let mount = mount_partition(directory, loopdevice, &order[i]);
            r.push(mount);
            assert(invocation_views(r@) =~= before.push(mount@));
            assert(wanted.take(i + 1) =~= wanted.take(i as int).push(mount@));
            i += 1;
        }
        assert(wanted.take(i as int) =~= wanted);
    }
    r
}

/// Whether the file for the boot loader of a node is written when a station
/// is reached: it is at the station that is named after it, on the way of an
/// image that is booted over the network by a boot loader, and, for a node
/// that boots with a boot loader, when an image was written to its storage
/// and its file system was removed, so that the node boots from its storage.
pub fn writes_pxe_file(state: State, node: &Node) -> (written: bool)
    ensures
        written == (state == State::PxeFileWritten || (state == State::NfsRootRemoved
            && node@.pxe)),
{
    match state {
        State::PxeFileWritten => true,
        State::NfsRootRemoved => node.pxe,
        _ => false,
    }
}

/// The texts of a list of placeholders and their values.
pub open spec fn placeholder_texts(list: Seq<(String, String)>) -> Seq<(Seq<char>, Seq<char>)> {
    Seq::new(list.len(), |i: int| (list[i].0@, list[i].1@))
}

/// The content of a file after each placeholder was replaced by its value, one
/// placeholder after the other.
pub open spec fn resolved(content: Seq<char>, placeholders: Seq<(Seq<char>, Seq<char>)>) -> Seq<char>
    decreases placeholders.len(),
{
    if placeholders.len() == 0 {
        content
    } else {
        replaced_in_lines(
            resolved(content, placeholders.drop_last()),
            placeholders.last().0,
            placeholders.last().1,
        )
    }
}

/// Replaces each placeholder in a file's content by its value.
pub fn replace_placeholders(content: &str, placeholders: &Vec<(String, String)>) -> (r: String)
    ensures
        r@ == resolved(content@, placeholder_texts(placeholders@)),
{
    let mut r = String::from_str(content);
    let mut i: usize = 0;
    assert(placeholder_texts(placeholders@).take(0) =~= Seq::<(Seq<char>, Seq<char>)>::empty());
    while i < placeholders.len()
        invariant
            i <= placeholders.len(),
            r@ == resolved(content@, placeholder_texts(placeholders@).take(i as int)),
        decreases placeholders.len() - i,
    {
        proof {
            let next = placeholder_texts(placeholders@).take(i + 1);
            assert(next.drop_last() =~= placeholder_texts(placeholders@).take(i as int));
            assert(next.last() == (placeholders@[i as int].0@, placeholders@[i as int].1@));
        }
        r = replace_in_lines(r.as_str(), placeholders[i].0.as_str(), placeholders[i].1.as_str());
        i += 1;
    }
    assert(placeholder_texts(placeholders@).take(i as int) =~= placeholder_texts(placeholders@));
    r
}

/// The placeholders of the files of an image that is served to a node: the
/// address of the server, the directory from which the node's file system is
/// served, the address of the log server, and the directory from which the
/// node's boot files are served. `node` is the prefix of the node's
/// directories.
pub fn bootconfig_placeholders(server_ip: &str, log_server: &str, node: &str) -> (r: Vec<
    (String, String),
>)
    ensures
        placeholder_texts(r@) == seq![
            ("%SERVER_IP%"@, server_ip@),
            ("%NFS_ROOT%"@, nfs_root(node@)),
            ("%LOG_SERVER%"@, log_server@),
            ("%TFTP_ROOT%"@, tftp_root(node@)),
        ],
{
    let mut r: Vec<(String, String)> = Vec::new();
    r.push((String::from_str("%SERVER_IP%"), String::from_str(server_ip)));
    r.push((String::from_str("%NFS_ROOT%"), join3(NFS_BASE_DIR, "/", node)));
    r.push((String::from_str("%LOG_SERVER%"), String::from_str(log_server)));
    r.push((String::from_str("%TFTP_ROOT%"), join3(TFTP_BASE_DIR, "/", node)));
    assert(placeholder_texts(r@) =~= seq![
        ("%SERVER_IP%"@, server_ip@),
        ("%NFS_ROOT%"@, nfs_root(node@)),
        ("%LOG_SERVER%"@, log_server@),
        ("%TFTP_ROOT%"@, tftp_root(node@)),
    ]);
    r
}

/// The files of an image in which placeholders are to be replaced, as they
/// lie in the sandbox.
pub fn resolve_bootconfigs(directory: &str, bootconfigs: &BootConfig) -> (paths: Vec<String>)
    ensures
        texts(paths@) == Seq::new(
            bootconfigs@.len(),
            |i: int| result_path(directory@) + bootconfigs@[i],
        ),
{
    let files = bootconfigs.get_files();
    let ghost wanted = Seq::new(bootconfigs@.len(), |i: int| result_path(directory@) + bootconfigs@[i]);
    let mut paths: Vec<String> = Vec::new();
    let mut i: usize = 0;
    assert(texts(files@).len() == files@.len());
    while i < files.len()
        invariant
            i <= files.len(),
            files@.len() == bootconfigs@.len(),
            texts(files@) == bootconfigs@,
            wanted == Seq::new(bootconfigs@.len(), |i: int| result_path(directory@) + bootconfigs@[i]),
            texts(paths@) == wanted.take(i as int),
        decreases files.len() - i,
    {
        let ghost before = texts(paths@);
        let mut path = create_result_directory(directory);
        path.append(files[i].as_str());
        assert(texts(files@)[i as int] == files@[i as int]@);
        paths.push(path);
        assert(texts(paths@) =~= before.push(path@));
        assert(wanted.take(i + 1) =~= wanted.take(i as int).push(path@));
        i += 1;
    }
    assert(wanted.take(i as int) =~= wanted);
    paths
}

/// Whether the files of an image were resolved: there was a file, and none
/// failed.
pub fn bootconfigs_resolved(results: &Vec<bool>) -> (success: bool)
    ensures
        success == (results@.len() > 0 && forall|i: int| 0 <= i < results@.len() ==> results@[i]),
{
    let mut success = results.len() > 0;
    let mut i: usize = 0;
    while i < results.len()
        invariant
            i <= results.len(),
            success == (results@.len() > 0 && forall|k: int| 0 <= k < i ==> results@[k]),
        decreases results.len() - i,
    {
        if !results[i] {
            success = false;
        }
        i += 1;
    }
    success
}

/// The file that tells the boot loader of the node with the given hardware
/// address what to boot.
pub open spec fn pxe_path(mac_address: Seq<char>) -> Seq<char> {
    TFTP_BASE_DIR@ + "/pxelinux.cfg/01-"@ + replaced(mac_address, ":"@, "-"@)
}

/// The directory of the files that tell the boot loaders what to boot.
pub fn pxe_directory() -> (path: String)
    ensures
        path@ == TFTP_BASE_DIR@ + "/pxelinux.cfg"@,
{
    join2(TFTP_BASE_DIR, "/pxelinux.cfg")
}

pub fn pxe_file(node: &Node) -> (path: String)
    ensures
        path@ == pxe_path(node@.mac_address),
{
    let mac = str_replace(node.mac_address.as_str(), ":", "-");
    join3(TFTP_BASE_DIR, "/pxelinux.cfg/01-", mac.as_str())
}

/// What the boot loader of a node is told: to boot from the node's own
/// storage where the image was written to it, and else to load the image's
/// kernel from the node's boot files, with the image's options, in which the
/// placeholders for the server, the node's file system and its boot files are
/// replaced.
pub open spec fn pxe_content(config: ConfigurationView, node: NodeView, server_ip: Seq<char>) -> Seq<
    char,
> {
    if config.on_device {
        "DEFAULT local\nlabel local\nLOCALBOOT 0"@
    } else {
        resolved(
            "DEFAULT "@ + tftp_root(node.tftp_prefix) + "/"@ + config.pxe_kernel + " "@
                + config.pxe_options,
            seq![
                ("%SERVER_IP%"@, server_ip),
                ("%NFS_ROOT%"@, nfs_root(node.tftp_prefix)),
                ("%TFTP_ROOT%"@, tftp_root(node.tftp_prefix)),
            ],
        )
    }
}

/// The content of the file that tells the boot loader of a node what to boot.
pub fn write_pxe_file(config: &Configuration, node: &Node, server_ip: &str) -> (content: String)
    ensures
        content@ == pxe_content(config@, node@, server_ip@),
{
    if config.on_device {
        String::from_str("DEFAULT local\nlabel local\nLOCALBOOT 0")
    } else {
        let tftp_prefix = join3(TFTP_BASE_DIR, "/", node.tftp_prefix.as_str());
        let mut placeholders: Vec<(String, String)> = Vec::new();
        placeholders.push((String::from_str("%SERVER_IP%"), String::from_str(server_ip)));
        placeholders.push(
            (String::from_str("%NFS_ROOT%"), join3(NFS_BASE_DIR, "/", node.tftp_prefix.as_str())),
        );
        placeholders.push((String::from_str("%TFTP_ROOT%"), tftp_prefix.clone()));
        assert(placeholder_texts(placeholders@) =~= seq![
            ("%SERVER_IP%"@, server_ip@),
            ("%NFS_ROOT%"@, nfs_root(node@.tftp_prefix)),
            ("%TFTP_ROOT%"@, tftp_root(node@.tftp_prefix)),
        ]);
        let mut line = String::from_str("DEFAULT ");
        line.append(tftp_prefix.as_str());
        line.append("/");
        line.append(config.pxe_kernel.as_str());
        line.append(" ");
        line.append(config.pxe_options.as_str());
        replace_placeholders(line.as_str(), &placeholders)
    }
}

/// The name of the session that records the serial line of the given number
/// of a node.
pub open spec fn session_name(id: Seq<char>, index: nat) -> Seq<char> {
    id + "-"@ + decimal(index)
}

/// The call that starts the session that records a serial line of a node.
pub open spec fn session_start(id: Seq<char>, index: nat, device: Seq<char>) -> InvocationView {
    call(
        SCREEN@,
        seq![
            "-dmS"@,
            session_name(id, index),
            "-L"@,
            "-Logfile"@,
            node_logs_path(id) + "/serial"@ + decimal(index) + ".log"@,
            "/dev/"@ + device,
            "115200"@,
        ],
    )
}

/// The calls that start the sessions for the serial lines among the given log
/// sources: the serial lines are numbered from zero in their order.
pub open spec fn session_starts(id: Seq<char>, sources: Seq<LogSourceView>) -> Seq<InvocationView>
    decreases sources.len(),
{
    if sources.len() == 0 {
        seq![]
    } else {
        let before = session_starts(id, sources.drop_last());
        if sources.last().source == LogSourceTypes::SERIAL {
            before.push(session_start(id, before.len(), sources.last().path))
        } else {
            before
        }
    }
}

/// The calls that start the recording of the serial lines of a node.
pub fn open_screens_for_serial_logging(node: &Node, sources: &Vec<LogSource>) -> (r: Vec<Invocation>)
    ensures
        invocation_views(r@) == session_starts(node@.id, logsource_views(sources@)),
{
    let mut r: Vec<Invocation> = Vec::new();
    let mut i: usize = 0;
    assert(invocation_views(r@) =~= session_starts(node@.id, logsource_views(sources@).take(0)));
    while i < sources.len()
        invariant
            i <= sources.len(),
            r.len() <= i,
            invocation_views(r@) == session_starts(
                node@.id,
                logsource_views(sources@).take(i as int),
            ),
        decreases sources.len() - i,
    {
        let ghost before = invocation_views(r@);
        proof {
            let next = logsource_views(sources@).take(i + 1);
            assert(next.drop_last() =~= logsource_views(sources@).take(i as int));
            assert(next.last() == sources@[i as int]@);
        }
        match sources[i].source {
            LogSourceTypes::SERIAL => {
                let index = render_usize(r.len());
                let name = join3(node.id.as_str(), "-", index.as_str());
                let logfile = join7(
                    RESULTS_DIR,
                    "/",
                    node.id.as_str(),
                    "/logs",
                    "/serial",
                    index.as_str(),
                    ".log",
                );
                let start = Invocation::new(SCREEN).arg_str("-dmS").arg(name).arg_str("-L").arg_str(
                    "-Logfile",
                ).arg(logfile).arg(join2("/dev/", sources[i].path.as_str())).arg_str("115200");
                assert(start@.arguments =~= session_start(
                    node@.id,
                    before.len(),
                    sources@[i as int]@.path,
                ).arguments);
                r.push(start);
                assert(invocation_views(r@) =~= before.push(start@));
            },
            LogSourceTypes::HOST => {},
        }
        i += 1;
    }
    assert(logsource_views(sources@).take(i as int) =~= logsource_views(sources@));
    r
}

/// The services after the architectures that were read from their images were
/// taken in: a service that knew its architecture keeps it.
pub open spec fn with_architectures(
    services: Seq<ServiceView>,
    found: Seq<Option<Architecture>>,
) -> Seq<ServiceView> {
    Seq::new(
        services.len(),
        |i: int|
            if services[i].architecture is None {
                ServiceView { architecture: found[i], ..services[i] }
            } else {
                services[i]
            },
    )
}

/// Every service knows its architecture.
pub open spec fn architectures_known(services: Seq<ServiceView>) -> bool {
    forall|i: int| 0 <= i < services.len() ==> (#[trigger] services[i]).architecture is Some
}

/// Takes in, for each service that does not know its architecture, the one
/// that was read from its image, where one could be read. Tells whether every
/// service knows its architecture then.
pub fn associate_architectures(deployment: &mut Deployment, found: &Vec<Option<Architecture>>) -> (done:
    bool)
    requires
        found.len() == old(deployment).services.len(),
    ensures
        final(deployment)@ == (DeploymentView {
            services: with_architectures(old(deployment)@.services, found@),
            ..old(deployment)@
        }),
        done == architectures_known(final(deployment)@.services),
{
    let ghost wanted = with_architectures(deployment@.services, found@);
    let mut done = true;
    let mut i: usize = 0;
    while i < deployment.services.len()
        invariant
            i <= deployment.services.len(),
            deployment.services.len() == old(deployment).services.len(),
            found.len() == deployment.services.len(),
            wanted == with_architectures(old(deployment)@.services, found@),
            deployment.id == old(deployment).id,
            deployment.name == old(deployment).name,
            deployment.owner == old(deployment).owner,
            deployment.start == old(deployment).start,
            deployment.end == old(deployment).end,
            deployment.tasks == old(deployment).tasks,
            forall|k: int| 0 <= k < i ==> (#[trigger] deployment.services[k])@ == wanted[k],
            forall|k: int|
                i <= k < deployment.services.len() ==> (#[trigger] deployment.services[k])@
                    == old(deployment)@.services[k],
            done == forall|k: int| 0 <= k < i ==> (#[trigger] wanted[k]).architecture is Some,
        decreases deployment.services.len() - i,
    {
        assert(old(deployment)@.services[i as int] == old(deployment).services@[i as int]@);
        assert(deployment.services[i as int]@ == old(deployment)@.services[i as int]);
        assert(wanted[i as int].architecture == if old(deployment)@.services[i as int].architecture is None {
            found@[i as int]
        } else {
            old(deployment)@.services[i as int].architecture
        });
        if deployment.services[i].architecture.is_none() {
            let mut service = deployment.services[i].clone();
            service.architecture = found[i];
            if found[i].is_none() {
                done = false;
            }
            deployment.services.set(i, service);
        }
        i += 1;
    }
    assert(deployment@.services =~= wanted);
    done
}

/// The place of the first mount point at the root of the file system.
pub open spec fn root_mount(order: Seq<MountpointView>, from: int) -> Option<int>
    decreases order.len() - from,
{
    if from < 0 || from >= order.len() {
        None
    } else if order[from].full_path() == "/"@ {
        Some(from)
    } else {
        root_mount(order, from + 1)
    }
}

/// The mount point from which the results of a service are fetched when it
/// stops: the root of an image that was written to the node's storage.
pub open spec fn results_mount(config: ConfigurationView) -> Option<MountpointView> {
    if config.on_device {
        match root_mount(config.mountorder, 0) {
            Some(i) => Some(config.mountorder[i]),
            None => None,
        }
    } else {
        None
    }
}

/// The mount point from which the results of a service are fetched when it
/// stops, where there is one.
pub fn results_mountpoint(config: &Configuration) -> (r: Option<Mountpoint>)
    ensures
        match r {
            Some(mountpoint) => results_mount(config@) == Some(mountpoint@),
            None => results_mount(config@) is None,
        },
{
    if !config.on_device {
        return None;
    }
    let mut i: usize = 0;
    while i < config.mountorder.len()
        invariant
            i <= config.mountorder.len(),
            config.on_device,
            root_mount(config@.mountorder, 0) == root_mount(config@.mountorder, i as int),
        decreases config.mountorder.len() - i,
    {
        assert(config@.mountorder[i as int] == config.mountorder@[i as int]@);
        if str_eq(config.mountorder[i].get_path().as_str(), "/") {
            return Some(config.mountorder[i].clone());
        }
        i += 1;
    }
    None
}

/// The task that fetches the results of a service when it stops: it names
/// the service, its parameters tell where the results lie, and it is not
/// watched while the deployment runs.
pub fn results_task(deployment: Option<i64>, service: i64, parameters: String) -> (task: Task)
    ensures
        task@ == (TaskView {
            deployment,
            service: Some(service),
            task_type: Type::GetResults,
            parameters: parameters@,
            during_deployment: false,
            start: None,
            end: None,
        }),
{
    Task::new(deployment, Some(service), Type::GetResults, parameters, false)
}

/// The deployment of one image: one service, on the given node where one is
/// given. Deployment, service and host get fresh names.
pub fn deploy_single_image(image: &str, node: Option<Node>, now: i64) -> (deployment: Deployment)
    ensures
        deployment@.services.len() == 1,
        deployment@ == (DeploymentView {
            services: deployment@.services,
            ..DeploymentView::fresh(deployment@.name, now)
        }),
        deployment@.services[0] == (ServiceView {
            preferred_node: match node {
                Some(n) => Some(n@.id),
                None => None,
            },
            ..ServiceView::fresh(
                deployment@.services[0].name,
                image@,
                deployment@.services[0].hostname,
                now,
            )
        }),
{
    let mut deployment = Deployment::new(get_random_name().as_str(), now);
    let mut service = Service::new(
        get_random_name().as_str(),
        image,
        get_random_name().as_str(),
        now,
    );
    service.preferred_node = match node {
        Some(n) => Some(n.id),
        None => None,
    };
    deployment.services.push(service);
    assert(deployment@.services =~= seq![service@]);
    deployment
}

/// The calls that bring the results of a service, which lie on the node's
/// storage, to where the logs of the node are gathered: a directory is made,
/// the partition with the root of the image is mounted there, and the results
/// are moved to the root of the running system.
pub fn retrieve_local_logs(node: &Node, storage_device: &str, mountpoint: &Mountpoint) -> (r: Vec<
    Invocation,
>)
    ensures
        invocation_views(r@) == seq![
            call(SSH@, ssh_arguments(node@.ipv4_address, "mkdir /local"@)),
            call(
                SSH@,
                ssh_arguments(
                    node@.ipv4_address,
                    "mount /dev/"@ + storage_device@ + "p"@ + decimal(
                        mountpoint@.partition_number as nat,
                    ) + " /local"@,
                ),
            ),
            call(SSH@, ssh_arguments(node@.ipv4_address, "mv /local/results /results"@)),
        ],
{
    let first = execute_command_over_ssh(node, "mkdir /local");
    let number = render_usize(mountpoint.get_partition_number());
    let command = join5("mount /dev/", storage_device, "p", number.as_str(), " /local");
    let second = execute_command_over_ssh(node, command.as_str());
    let third = execute_command_over_ssh(node, "mv /local/results /results");
    let mut r: Vec<Invocation> = Vec::new();
    r.push(first);
    r.push(second);
    r.push(third);
    assert(invocation_views(r@) =~= seq![first@, second@, third@]);
    r
}

/// The longest wait between two probes of a node that is starting, in
/// milliseconds.
pub const PROBE_CEILING: u64 = 30000;

/// The number of probes after which a node that does not answer is given up.
pub const PROBE_LIMIT: u32 = 120;

/// How long to wait before a probe of a node that is starting: a second
/// before the first, then twice as long each time, up to the ceiling. After
/// the last probe the node is given up.
pub open spec fn probe_wait(attempt: u32) -> Option<u64> {
    if attempt >= PROBE_LIMIT {
        None
    } else if attempt >= 5 {
        Some(PROBE_CEILING)
    } else if attempt == 0 {
        Some(1000)
    } else if attempt == 1 {
        Some(2000)
    } else if attempt == 2 {
        Some(4000)
    } else if attempt == 3 {
        Some(8000)
    } else {
        Some(16000)
    }
}

/// How long to wait before the probe of the given number, or nothing where the
/// node is to be given up.
pub fn wait_for_rebooted_node(attempt: u32) -> (wait: Option<u64>)
    ensures
        wait == probe_wait(attempt),
        wait matches Some(milliseconds) ==> 1000 <= milliseconds <= PROBE_CEILING,
        wait is Some <==> attempt < PROBE_LIMIT,
{
    if attempt >= PROBE_LIMIT {
        None
    } else if attempt >= 5 {
        Some(PROBE_CEILING)
    } else {
        let mut wait: u64 = 1000;
        let mut i: u32 = 0;
        while i < attempt
            invariant
                i <= attempt < 5,
                probe_wait(i) == Some(wait),
                wait <= 16000,
            decreases attempt - i,
        {
            wait = wait * 2;
            i += 1;
        }
        Some(wait)
    }
}

/// What came of the admission of a deployment.
#[derive(Debug)]
pub enum Admission {
    /// Every replica of every service found a node: the bindings, in the
    /// order in which they were made.
    Admitted(Vec<(Service, Node)>),
    /// The image of a service could not be read, so that its architecture is
    /// not known.
    Unresolved,
    /// A replica found no node: the message names the service.
    Refused(String),
}

/// Decides on a deployment: takes in the architectures that were read from
/// the images of its services, and binds every replica of every service to an
/// idle node. Nothing is bound where the architecture of a service is not
/// known, or where a replica finds no node.
pub fn deploy(deployment: &mut Deployment, found: &Vec<Option<Architecture>>, idle: Vec<Node>) -> (r:
    Admission)
    requires
        found.len() == old(deployment).services.len(),
    ensures
        final(deployment)@ == (DeploymentView {
            services: with_architectures(old(deployment)@.services, found@),
            ..old(deployment)@
        }),
        match r {
            Admission::Admitted(bindings) => {
                &&& architectures_known(final(deployment)@.services)
                &&& admission(final(deployment)@.services, node_views(idle@)) == Ok::<
                    Seq<(ServiceView, NodeView)>,
                    Seq<char>,
                >(binding_views(bindings@))
            },
            Admission::Unresolved => !architectures_known(final(deployment)@.services),
            Admission::Refused(message) => {
                &&& architectures_known(final(deployment)@.services)
                &&& admission(final(deployment)@.services, node_views(idle@)) is Err
                &&& message@ == "No available node for "@ + admission(
                    final(deployment)@.services,
                    node_views(idle@),
                )->Err_0
            },
        },
{
    if !associate_architectures(deployment, found) {
        return Admission::Unresolved;
    }
    match check_availability(deployment.get_services(), idle) {
        Ok(bindings) => Admission::Admitted(bindings),
        Err(message) => Admission::Refused(message),
    }
}

/// What was said when a deployment was refused for want of nodes.
pub fn refusal() -> (message: &'static str)
    ensures
        message@ == "can not deploy this deployment because not enough nodes are available"@,
{
    "can not deploy this deployment because not enough nodes are available"
}

/// The bindings of a deployment after it was entered into the ledger: every
/// service names the deployment.
pub fn assign_deployment(bindings: Vec<(Service, Node)>, id: i64) -> (r: Vec<(Service, Node)>)
    ensures
        binding_views(r@) == Seq::new(
            bindings@.len(),
            |i: int| (ServiceView { deployment: Some(id), ..bindings@[i].0@ }, bindings@[i].1@),
        ),
{
    let ghost wanted = Seq::new(
        bindings@.len(),
        |i: int| (ServiceView { deployment: Some(id), ..bindings@[i].0@ }, bindings@[i].1@),
    );
    let mut r: Vec<(Service, Node)> = Vec::new();
    let mut i: usize = 0;
    while i < bindings.len()
        invariant
            i <= bindings.len(),
            wanted == Seq::new(
                bindings@.len(),
                |i: int| (ServiceView { deployment: Some(id), ..bindings@[i].0@ }, bindings@[i].1@),
            ),
            binding_views(r@) == wanted.take(i as int),
        decreases bindings.len() - i,
    {
        let ghost before = binding_views(r@);
        let mut service = bindings[i].0.clone();
        service.deployment = Some(id);
        let node = bindings[i].1.clone();
        r.push((service, node));
        assert(binding_views(r@) =~= before.push((service@, node@)));
        assert(wanted.take(i + 1) =~= wanted.take(i as int).push((service@, node@)));
        i += 1;
    }
    assert(wanted.take(i as int) =~= wanted);
    r
}

/// The way that an image takes to a node, as its manifest and its disk tell.
pub fn deploy_image(config: &Configuration, lvm: bool) -> (traits: Traits)
    ensures
        traits == (Traits {
            on_device: config@.on_device,
            x86: config@.architecture == Architecture::X86,
            lvm,
            pxe: config@.pxe,
        }),
{
    Traits {
        on_device: config.on_device,
        x86: match config.architecture {
            Architecture::X86 => true,
            _ => false,
        },
        lvm,
        pxe: config.pxe,
    }
}

/// The image with which a node is started to wipe its storage.
pub const CLEANING_IMAGE: &'static str = "raspbian";

/// The calls that wipe the storage of a node, after the node was started with
/// the cleaning image and answers: the deployer's key is let in, the storage
/// is overwritten, the node is started anew, and its boot files are
/// unmounted.
pub fn clean_node(node: &Node) -> (r: Vec<Invocation>)
    ensures
        invocation_views(r@) == seq![
            call(
                COPY@,
                seq![
                    BASE_DIR@ + "/deployer.pub"@,
                    nfs_root(node@.tftp_prefix) + "/root/.ssh/authorized_keys"@,
                ],
            ),
            call(
                SSH@,
                ssh_arguments(
                    node@.ipv4_address,
                    "dd if=/dev/urandom of=/dev/mmcblk0 bs=20M status=progress"@,
                ),
            ),
            call(SSH@, ssh_arguments(node@.ipv4_address, "reboot"@)),
            call(UMOUNT@, seq![tftp_root(node@.tftp_prefix)]),
        ],
{
    let first = allow_ssh_access_to_node(node);
    let second = prune_sd_card(node);
    let third = execute_command_over_ssh(node, "reboot");
    let fourth = Invocation::new(UMOUNT).arg(join3(TFTP_BASE_DIR, "/", node.tftp_prefix.as_str()));
    assert(fourth@.arguments =~= seq![tftp_root(node@.tftp_prefix)]);
    let mut r: Vec<Invocation> = Vec::new();
    r.push(first);
    r.push(second);
    r.push(third);
    r.push(fourth);
    assert(invocation_views(r@) =~= seq![first@, second@, third@, fourth@]);
    r
}

/// The address of a service: the one that its deployment gives it, or the one
/// that the DHCP server gives to its node.
pub fn service_address(service: &Service, read_back: Option<String>) -> (r: Option<String>)
    ensures
        opt_text(r) == match service@.ipv4_address {
            Some(address) => Some(address),
            None => opt_text(read_back),
        },
{
    match &service.ipv4_address {
        Some(address) => Some(address.clone()),
        None => read_back,
    }
}

} // verus!
