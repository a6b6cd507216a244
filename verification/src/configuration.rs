use crate::architecture::Architecture;
use crate::bootconfig::BootConfig;
use crate::mountpoint::{mountpoint_views, Mountpoint, MountpointView};
use crate::partition::{
    by_start, partition_views, sorted_by_start, starts_known, Partition, PartitionView,
};
use crate::table::{values_of, Table};
use vstd::prelude::*;

verus! {

/// The manifest that is packed with an image: what the image is and how it is
/// to be brought to a node.
#[derive(Debug)]
pub struct Configuration {
    pub name: String,
    pub architecture: Architecture,
    pub bootconfigs: Vec<BootConfig>,
    pub partitions: Vec<Partition>,
    pub mountorder: Vec<Mountpoint>,
    pub on_device: bool,
    pub prebuilt: bool,
    pub pxe: bool,
    pub pxe_kernel: String,
    pub pxe_options: String,
}

/// What a manifest holds.
pub struct ConfigurationView {
    pub name: Seq<char>,
    pub architecture: Architecture,
    pub bootconfigs: Seq<Seq<Seq<char>>>,
    pub partitions: Seq<PartitionView>,
    pub mountorder: Seq<MountpointView>,
    pub on_device: bool,
    pub prebuilt: bool,
    pub pxe: bool,
    pub pxe_kernel: Seq<char>,
    pub pxe_options: Seq<char>,
}

/// What the boot configurations of a list hold.
pub open spec fn bootconfig_views(list: Seq<BootConfig>) -> Seq<Seq<Seq<char>>> {
    Seq::new(list.len(), |i: int| list[i]@)
}

impl View for Configuration {
    type V = ConfigurationView;

    open spec fn view(&self) -> ConfigurationView {
        ConfigurationView {
            name: self.name@,
            architecture: self.architecture,
            bootconfigs: bootconfig_views(self.bootconfigs@),
            partitions: partition_views(self.partitions@),
            mountorder: mountpoint_views(self.mountorder@),
            on_device: self.on_device,
            prebuilt: self.prebuilt,
            pxe: self.pxe,
            pxe_kernel: self.pxe_kernel@,
            pxe_options: self.pxe_options@,
        }
    }
}

/// A partition of the list starts at the given sector, as the recipe wrote it.
pub open spec fn holds_start(list: Seq<PartitionView>, start_sector: Seq<char>) -> bool {
    exists|i: int| 0 <= i < list.len() && (#[trigger] list[i]).start_sector == start_sector
}

/// `mine` followed by those of `theirs` that start where no partition before
/// them does.
pub open spec fn with_new_partitions(
    mine: Seq<PartitionView>,
    theirs: Seq<PartitionView>,
) -> Seq<PartitionView>
    decreases theirs.len(),
{
    if theirs.len() == 0 {
        mine
    } else {
        let before = with_new_partitions(mine, theirs.drop_last());
        if holds_start(before, theirs.last().start_sector) {
            before
        } else {
            before.push(theirs.last())
        }
    }
}

/// `mine` followed by those of `theirs` that do not stand before them.
pub open spec fn with_new_mounts(
    mine: Seq<MountpointView>,
    theirs: Seq<MountpointView>,
) -> Seq<MountpointView>
    decreases theirs.len(),
{
    if theirs.len() == 0 {
        mine
    } else {
        let before = with_new_mounts(mine, theirs.drop_last());
        if before.contains(theirs.last()) {
            before
        } else {
            before.push(theirs.last())
        }
    }
}

impl ConfigurationView {
    /// A manifest after that of its base image was merged into it. The boot
    /// configurations, partitions and mount points of the base are added, the
    /// flags for flashing and network boot are those of the base, and kernel
    /// and options come from the base where the manifest names none.
    pub open spec fn merged(self, other: ConfigurationView) -> ConfigurationView {
        ConfigurationView {
            bootconfigs: self.bootconfigs + other.bootconfigs,
            partitions: with_new_partitions(self.partitions, other.partitions),
            mountorder: with_new_mounts(self.mountorder, other.mountorder),
            on_device: other.on_device,
            pxe: other.pxe,
            pxe_kernel: if other.pxe && self.pxe_kernel.len() == 0 {
                other.pxe_kernel
            } else {
                self.pxe_kernel
            },
            pxe_options: if other.pxe && self.pxe_options.len() == 0 {
                other.pxe_options
            } else {
                self.pxe_options
            },
            ..self
        }
    }
}

fn list_holds_start(list: &Vec<Partition>, partition: &Partition) -> (held: bool)
    ensures
        held == holds_start(partition_views(list@), partition@.start_sector),
{
    let mut i: usize = 0;
    while i < list.len()
        invariant
            i <= list.len(),
            forall|k: int|
                0 <= k < i ==> (#[trigger] partition_views(list@)[k]).start_sector
                    != partition@.start_sector,
        decreases list.len() - i,
    {
        assert(partition_views(list@)[i as int] == list@[i as int]@);
        if list[i].same_start(partition) {
            return true;
        }
        i += 1;
    }
    false
}

fn list_holds_mount(list: &Vec<Mountpoint>, mountpoint: &Mountpoint) -> (held: bool)
    ensures
        held == mountpoint_views(list@).contains(mountpoint@),
{
    let mut i: usize = 0;
    while i < list.len()
        invariant
            i <= list.len(),
            forall|k: int| 0 <= k < i ==> mountpoint_views(list@)[k] != mountpoint@,
        decreases list.len() - i,
    {
        assert(mountpoint_views(list@)[i as int] == list@[i as int]@);
        if list[i].same_as(mountpoint) {
            return true;
        }
        i += 1;
    }
    false
}

impl Configuration {
    /// Takes the mount order from a table of mount points by path. An empty
    /// table leaves the manifest as it is.
    pub fn mountorder_to_vec(&mut self, mountorder: Table<Mountpoint>) -> (taken: bool)
        ensures
            taken == (mountorder@.len() > 0),
            final(self)@ == if taken {
                ConfigurationView {
                    mountorder: mountpoint_views(values_of(mountorder@)),
                    ..old(self)@
                }
            } else {
                old(self)@
            },
    {
        if mountorder.is_empty() {
            return false;
        }
        self.mountorder = mountorder.into_values();
        true
    }

    /// Takes the partitions from a table of partitions by mount point, in the
    /// order of their start sectors. An empty table leaves the manifest as it
    /// is.
    pub fn partitions_to_vec(&mut self, partitions: &Table<Partition>) -> (taken: bool)
        requires
            starts_known(partition_views(values_of(partitions@))),
        ensures
            taken == (partitions@.len() > 0),
            final(self)@ == if taken {
                ConfigurationView {
                    partitions: by_start(partition_views(values_of(partitions@))),
                    ..old(self)@
                }
            } else {
                old(self)@
            },
    {
        if partitions.is_empty() {
            return false;
        }
        let mut values: Vec<Partition> = Vec::new();
        let mut i: usize = 0;
        while i < partitions.len()
            invariant
                i <= partitions@.len(),
                partition_views(values@) == partition_views(values_of(partitions@)).take(i as int),
            decreases partitions@.len() - i,
        {
            let ghost before = partition_views(values@);
            let value = partitions.value_at(i).clone();
            values.push(value);
            assert(partition_views(values@) =~= before.push(value@));
            assert(partition_views(values_of(partitions@)).take(i + 1) =~= partition_views(
                values_of(partitions@),
            ).take(i as int).push(value@));
            i += 1;
        }
        assert(partition_views(values_of(partitions@)).take(i as int) =~= partition_views(
            values_of(partitions@),
        ));
        self.partitions = sorted_by_start(values);
        true
    }

    /// Merges the manifest of the base image into this one.
    pub fn merge(&mut self, other: Configuration)
        ensures
            final(self)@ == old(self)@.merged(other@),
    {
        let mut more = other.bootconfigs;
        let ghost added = bootconfig_views(more@);
        let ghost mine = bootconfig_views(self.bootconfigs@);
        self.bootconfigs.append(&mut more);
        assert(bootconfig_views(self.bootconfigs@) =~= mine + added);
        let mut i: usize = 0;
        while i < other.partitions.len()
            invariant
                i <= other.partitions.len(),
                partition_views(self.partitions@) == with_new_partitions(
                    partition_views(old(self).partitions@),
                    partition_views(other.partitions@).take(i as int),
                ),
                self.name == old(self).name,
                self.architecture == old(self).architecture,
                bootconfig_views(self.bootconfigs@) == mine + added,
                self.mountorder == old(self).mountorder,
                self.prebuilt == old(self).prebuilt,
                self.pxe_kernel == old(self).pxe_kernel,
                self.pxe_options == old(self).pxe_options,
            decreases other.partitions.len() - i,
        {
            let ghost before = partition_views(self.partitions@);
            let ghost next = partition_views(other.partitions@).take(i + 1);
            proof {
                assert(next.drop_last() =~= partition_views(other.partitions@).take(i as int));
                assert(next.last() == other.partitions@[i as int]@);
            }
            if !list_holds_start(&self.partitions, &other.partitions[i]) {
                let partition = other.partitions[i].clone();
                self.partitions.push(partition);
                assert(partition_views(self.partitions@) =~= before.push(partition@));
            }
            i += 1;
        }
        assert(partition_views(other.partitions@).take(i as int) =~= partition_views(
            other.partitions@,
        ));
        let mut j: usize = 0;
        while j < other.mountorder.len()
            invariant
                j <= other.mountorder.len(),
                mountpoint_views(self.mountorder@) == with_new_mounts(
                    mountpoint_views(old(self).mountorder@),
                    mountpoint_views(other.mountorder@).take(j as int),
                ),
                self.name == old(self).name,
                self.architecture == old(self).architecture,
                bootconfig_views(self.bootconfigs@) == mine + added,
                partition_views(self.partitions@) == with_new_partitions(
                    partition_views(old(self).partitions@),
                    partition_views(other.partitions@),
                ),
                self.prebuilt == old(self).prebuilt,
                self.pxe_kernel == old(self).pxe_kernel,
                self.pxe_options == old(self).pxe_options,
            decreases other.mountorder.len() - j,
        {
            let ghost before = mountpoint_views(self.mountorder@);
            let ghost next = mountpoint_views(other.mountorder@).take(j + 1);
            proof {
                assert(next.drop_last() =~= mountpoint_views(other.mountorder@).take(j as int));
                assert(next.last() == other.mountorder@[j as int]@);
            }
            if !list_holds_mount(&self.mountorder, &other.mountorder[j]) {
                let mountpoint = other.mountorder[j].clone();
                self.mountorder.push(mountpoint);
                assert(mountpoint_views(self.mountorder@) =~= before.push(mountpoint@));
            }
            j += 1;
        }
        assert(mountpoint_views(other.mountorder@).take(j as int) =~= mountpoint_views(
            other.mountorder@,
        ));
        self.on_device = other.on_device;
        self.pxe = other.pxe;
        if self.pxe {
            if self.pxe_kernel.as_str().is_empty() {
                self.pxe_kernel = other.pxe_kernel;
            }
            if self.pxe_options.as_str().is_empty() {
                self.pxe_options = other.pxe_options;
            }
        }
    }
}

impl Default for Configuration {
    /// The manifest of an image of which nothing is known yet.
    fn default() -> (r: Self)
        ensures
            r@ == (ConfigurationView {
                name: Seq::<char>::empty(),
                architecture: Architecture::ARM64,
                bootconfigs: Seq::<Seq<Seq<char>>>::empty(),
                partitions: Seq::<PartitionView>::empty(),
                mountorder: Seq::<MountpointView>::empty(),
                on_device: false,
                prebuilt: false,
                pxe: false,
                pxe_kernel: Seq::<char>::empty(),
                pxe_options: Seq::<char>::empty(),
            }),
    {
        let r = Configuration {
            name: String::new(),
            architecture: Architecture::ARM64,
            bootconfigs: Vec::new(),
            partitions: Vec::new(),
            mountorder: Vec::new(),
            on_device: false,
            prebuilt: false,
            pxe: false,
            pxe_kernel: String::new(),
            pxe_options: String::new(),
        };
        assert(r@.bootconfigs =~= Seq::<Seq<Seq<char>>>::empty());
        assert(r@.partitions =~= Seq::<PartitionView>::empty());
        assert(r@.mountorder =~= Seq::<MountpointView>::empty());
        r
    }
}

} // verus!
