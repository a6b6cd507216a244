use crate::architecture::Architecture;
use crate::arm_preamble::ArmPreambleView;
use crate::bootconfig::{all_files, group, unique, BootConfig};
use crate::configuration::{Configuration, ConfigurationView};
use crate::mountpoint::MountpointView;
use crate::partition::{by_start, partition_views, starts_known, Partition, PartitionView};
use crate::post_provisioner::{
    post_provisioner_views, PostProvisioner, PostProvisionerView, Types,
};
use crate::preamble::{Preamble, PreambleView};
use crate::provisioner;
use crate::provisioner::{grouped, provisioner_views, Provisioner, ProvisionerView};
use crate::table::{lemma_position, lemma_position_by_keys, put, values_of, Table};
use crate::utils::{
    builder_append, builder_is_text, builder_new, builder_text, finish, ident_and_append, spaces,
};
use crate::x86_preamble::X86PreambleView;
use string_builder::Builder;
use vstd::prelude::*;

verus! {

/// An image recipe after it was read: what is built, from what, and how.
pub struct Imagefile {
    pub name: String,
    pub architecture: Architecture,
    pub preamble: Preamble,
    pub partitions: Table<Partition>,
    pub configuration: Configuration,
    pub provisioners: Vec<Provisioner>,
    pub post_provisioners: Vec<PostProvisioner>,
}

/// What a recipe holds. The partitions stand under their mount points.
pub struct ImagefileView {
    pub name: Seq<char>,
    pub architecture: Architecture,
    pub preamble: PreambleView,
    pub partitions: Seq<(Seq<char>, PartitionView)>,
    pub configuration: ConfigurationView,
    pub provisioners: Seq<ProvisionerView>,
    pub post_provisioners: Seq<PostProvisionerView>,
}

/// What the partitions of a table hold.
pub open spec fn partition_entries(entries: Seq<(Seq<char>, Partition)>) -> Seq<
    (Seq<char>, PartitionView),
> {
    Seq::new(entries.len(), |i: int| (entries[i].0, entries[i].1@))
}

/// Putting a partition into a table puts what it holds into what the table
/// holds.
pub proof fn lemma_entries_put(entries: Seq<(Seq<char>, Partition)>, key: Seq<char>, value: Partition)
    ensures
        partition_entries(put(entries, key, value)) == put(
            partition_entries(entries),
            key,
            value@,
        ),
{
    lemma_position_by_keys(entries, partition_entries(entries), key);
    lemma_position(entries, key);
    assert(partition_entries(put(entries, key, value)) =~= put(
        partition_entries(entries),
        key,
        value@,
    ));
}

/// The blocks of the given partitions, in order.
pub open spec fn partition_blocks(list: Seq<PartitionView>) -> Seq<char>
    decreases list.len(),
{
    if list.len() == 0 {
        seq![]
    } else {
        partition_blocks(list.drop_last()) + list.last().block()
    }
}

/// The blocks of the given build steps, a line feed behind each.
pub open spec fn step_blocks(list: Seq<ProvisionerView>) -> Seq<char>
    decreases list.len(),
{
    if list.len() == 0 {
        seq![]
    } else {
        step_blocks(list.drop_last()) + list.last().block() + "\n"@
    }
}

/// The blocks of the given steps after the build, a line feed behind each.
pub open spec fn post_step_blocks(list: Seq<PostProvisionerView>) -> Seq<char>
    decreases list.len(),
{
    if list.len() == 0 {
        seq![]
    } else {
        post_step_blocks(list.drop_last()) + list.last().block() + "\n"@
    }
}

/// The line of the build block that names the source block.
pub open spec fn sources_line(plugin: Seq<char>) -> Seq<char> {
    "sources = [\"source."@ + plugin + ".imagefile\"]\n\n"@
}

/// Appends the blocks of the given partitions.
fn append_partitions(builder: &mut Builder, partitions: &Vec<Partition>)
    ensures
        builder_is_text(*final(builder)) == builder_is_text(*old(builder)),
        builder_text(*final(builder)) == builder_text(*old(builder)) + partition_blocks(
            partition_views(partitions@),
        ),
{
    let mut i: usize = 0;
    while i < partitions.len()
        invariant
            i <= partitions.len(),
            builder_is_text(*builder) == builder_is_text(*old(builder)),
            builder_text(*builder) == builder_text(*old(builder)) + partition_blocks(
                partition_views(partitions@).take(i as int),
            ),
        decreases partitions.len() - i,
    {
        let block = partitions[i].to_pkr_hcl();
        builder_append(builder, block.as_str());
        proof {
            let next = partition_views(partitions@).take(i + 1);
            assert(next.drop_last() =~= partition_views(partitions@).take(i as int));
            assert(next.last() == partitions@[i as int]@);
            assert(builder_text(*builder) =~= builder_text(*old(builder)) + partition_blocks(next));
        }
        i += 1;
    }
    assert(partition_views(partitions@).take(i as int) =~= partition_views(partitions@));
}

/// Appends the blocks of the given build steps, a line feed behind each.
fn append_steps(builder: &mut Builder, steps: &Vec<Provisioner>)
    ensures
        builder_is_text(*final(builder)) == builder_is_text(*old(builder)),
        builder_text(*final(builder)) == builder_text(*old(builder)) + step_blocks(
            provisioner_views(steps@),
        ),
{
    let mut i: usize = 0;
    while i < steps.len()
        invariant
            i <= steps.len(),
            builder_is_text(*builder) == builder_is_text(*old(builder)),
            builder_text(*builder) == builder_text(*old(builder)) + step_blocks(
                provisioner_views(steps@).take(i as int),
            ),
        decreases steps.len() - i,
    {
        let block = steps[i].to_pkr_hcl();
        builder_append(builder, block.as_str());
        builder_append(builder, "\n");
        proof {
            let next = provisioner_views(steps@).take(i + 1);
            assert(next.drop_last() =~= provisioner_views(steps@).take(i as int));
            assert(next.last() == steps@[i as int]@);
            assert(builder_text(*builder) =~= builder_text(*old(builder)) + step_blocks(next));
        }
        i += 1;
    }
    assert(provisioner_views(steps@).take(i as int) =~= provisioner_views(steps@));
}

/// Appends the blocks of the given steps after the build, a line feed behind
/// each.
fn append_post_steps(builder: &mut Builder, steps: &Vec<PostProvisioner>)
    ensures
        builder_is_text(*final(builder)) == builder_is_text(*old(builder)),
        builder_text(*final(builder)) == builder_text(*old(builder)) + post_step_blocks(
            post_provisioner_views(steps@),
        ),
{
    let mut i: usize = 0;
    while i < steps.len()
        invariant
            i <= steps.len(),
            builder_is_text(*builder) == builder_is_text(*old(builder)),
            builder_text(*builder) == builder_text(*old(builder)) + post_step_blocks(
                post_provisioner_views(steps@).take(i as int),
            ),
        decreases steps.len() - i,
    {
        let block = steps[i].to_pkr_hcl();
        builder_append(builder, block.as_str());
        builder_append(builder, "\n");
        proof {
            let next = post_provisioner_views(steps@).take(i + 1);
            assert(next.drop_last() =~= post_provisioner_views(steps@).take(i as int));
            assert(next.last() == steps@[i as int]@);
            assert(builder_text(*builder) =~= builder_text(*old(builder)) + post_step_blocks(next));
        }
        i += 1;
    }
    assert(post_provisioner_views(steps@).take(i as int) =~= post_provisioner_views(steps@));
}

/// The manifest of an image of which nothing is known yet.
pub open spec fn empty_configuration() -> ConfigurationView {
    ConfigurationView {
        name: Seq::<char>::empty(),
        architecture: Architecture::ARM64,
        bootconfigs: Seq::<Seq<Seq<char>>>::empty(),
        partitions: Seq::<PartitionView>::empty(),
        mountorder: Seq::<MountpointView>::empty(),
        on_device: false,
        prebuilt: false,
        pxe: false,
        pxe_kernel: Seq::<char>::empty(),
        pxe_options: Seq::<char>::empty(),
    }
}

/// The lines that move what the x86 builder made to where the image is looked
/// for.
pub open spec fn x86_cleanup() -> Seq<Seq<char>> {
    seq![
        "mv output/${var.vmname}-disk001.vmdk generated.vmdk"@,
        "mv output/${var.vmname}.ovf generated.ovf"@,
        "rm -rf output/"@,
    ]
}

impl ImagefileView {
    /// A recipe of which only name and architecture are known. `vm_name` is
    /// the name of the machine in which an x86 image is installed.
    pub open spec fn fresh(
        name: Seq<char>,
        architecture: Architecture,
        vm_name: Seq<char>,
    ) -> ImagefileView {
        ImagefileView {
            name,
            architecture,
            preamble: match architecture {
                Architecture::X86 => PreambleView::X86(X86PreambleView::fresh(vm_name)),
                _ => PreambleView::Arm(ArmPreambleView::fresh()),
            },
            partitions: Seq::<(Seq<char>, PartitionView)>::empty(),
            configuration: empty_configuration(),
            provisioners: Seq::<ProvisionerView>::empty(),
            post_provisioners: match architecture {
                Architecture::X86 => seq![
                    PostProvisionerView { provisioner: Types::LocalShell, command: x86_cleanup() },
                ],
                _ => Seq::<PostProvisionerView>::empty(),
            },
        }
    }

    /// The name of the machine in which an x86 image is installed.
    pub open spec fn vm_name(self) -> Seq<char> {
        match self.preamble {
            PreambleView::X86(preamble) => preamble.vm_name,
            PreambleView::Arm(_) => Seq::<char>::empty(),
        }
    }

    /// The partitions of the image that is built: those that the recipe
    /// declares, in the order of their start sectors, or, where it declares
    /// none, those of the manifest.
    pub open spec fn build_partitions(self) -> Seq<PartitionView> {
        if self.partitions.len() > 0 {
            by_start(values_of(self.partitions))
        } else {
            self.configuration.partitions
        }
    }

    /// The builder input file: the source block with the partitions of an ARM
    /// image, then the build block with the steps of the build, shell steps
    /// that follow one another joined, and the steps after the build.
    pub open spec fn input_text(self) -> Seq<char> {
        self.preamble.source_text() + (match self.architecture {
            Architecture::X86 => Seq::<char>::empty(),
            _ => partition_blocks(self.build_partitions()),
        }) + "\n}\n"@ + "build {\n"@ + spaces(2) + sources_line(self.preamble.plugin())
            + step_blocks(grouped(self.provisioners)) + post_step_blocks(self.post_provisioners)
            + "\n}\n"@
    }

}

impl View for Imagefile {
    type V = ImagefileView;

    open spec fn view(&self) -> ImagefileView {
        ImagefileView {
            name: self.name@,
            architecture: self.architecture,
            preamble: self.preamble@,
            partitions: partition_entries(self.partitions@),
            configuration: self.configuration@,
            provisioners: provisioner_views(self.provisioners@),
            post_provisioners: post_provisioner_views(self.post_provisioners@),
        }
    }
}

impl Imagefile {
    pub fn new(name: String, architecture: &Architecture) -> (r: Self)
        ensures
            r@ == ImagefileView::fresh(name@, *architecture, r@.vm_name()),
    {
        let mut post_provisioners: Vec<PostProvisioner> = Vec::new();
        match architecture {
            Architecture::ARM64 | Architecture::ARM32 => {},
            Architecture::X86 => {
                let mut v: Vec<String> = Vec::new();
                v.push(String::from_str("mv output/${var.vmname}-disk001.vmdk generated.vmdk"));
                v.push(String::from_str("mv output/${var.vmname}.ovf generated.ovf"));
                v.push(String::from_str("rm -rf output/"));
                assert(crate::text::texts(v@) =~= x86_cleanup());
                post_provisioners.push(PostProvisioner::with_lines(Types::LocalShell, v));
            },
        }
        let r = Imagefile {
            name,
            architecture: *architecture,
            preamble: architecture.get_preamble(),
            partitions: Table::new(),
            configuration: Configuration::default(),
            provisioners: Vec::new(),
            post_provisioners,
        };
        assert(r@.partitions =~= Seq::<(Seq<char>, PartitionView)>::empty());
        assert(r@.provisioners =~= Seq::<ProvisionerView>::empty());
        assert(r@.post_provisioners =~= ImagefileView::fresh(
            name@,
            *architecture,
            r@.vm_name(),
        ).post_provisioners);
        r
    }

    /// Whether every partition that the recipe declares starts at a sector
    /// given as a number, so that the partitions can be put in order.
    pub fn starts_known(&self) -> (known: bool)
        ensures
            known == starts_known(values_of(self@.partitions)),
    {
        assert(partition_views(values_of(self.partitions@)) =~= values_of(self@.partitions));
        let mut i: usize = 0;
        while i < self.partitions.len()
            invariant
                i <= self.partitions@.len(),
                forall|k: int| 0 <= k < i ==> (#[trigger] values_of(self@.partitions)[k]).start() is Some,
            decreases self.partitions@.len() - i,
        {
            assert(values_of(self@.partitions)[i as int] == self.partitions@[i as int].1@);
            if self.partitions.value_at(i).start_sector().is_none() {
                return false;
            }
            i += 1;
        }
        true
    }

    /// Writes the builder input file, and takes the partitions that the recipe
    /// declares into the manifest.
    pub fn as_pkr_hcl(&mut self) -> (text: String)
        requires
            starts_known(values_of(old(self)@.partitions)),
        ensures
            text@ == old(self)@.input_text(),
            final(self)@ == (ImagefileView {
                configuration: ConfigurationView {
                    partitions: old(self)@.build_partitions(),
                    ..old(self)@.configuration
                },
                ..old(self)@
            }),
    {
        let mut builder = builder_new();
        let source = self.preamble.to_pkr_hcl();
        builder_append(&mut builder, source.as_str());
        assert(builder_text(builder) =~= old(self)@.preamble.source_text());
        assert(partition_views(values_of(self.partitions@)) =~= values_of(self@.partitions));
        self.configuration.partitions_to_vec(&self.partitions);
        assert(self@.configuration.partitions == old(self)@.build_partitions());
        match self.architecture {
            Architecture::ARM32 | Architecture::ARM64 => {
                append_partitions(&mut builder, &self.configuration.partitions);
            },
            Architecture::X86 => {
                assert(builder_text(builder) =~= builder_text(builder) + Seq::<char>::empty());
            },
        }
        builder_append(&mut builder, "\n}\n");
        builder_append(&mut builder, "build {\n");
        let mut sources = String::from_str("sources = [\"source.");
        sources.append(self.preamble.get_packer_plugin().as_str());
        sources.append(".imagefile\"]\n\n");
        ident_and_append(&mut builder, sources.as_str(), 2);
        let steps = provisioner::group(self.provisioners.as_slice());
        append_steps(&mut builder, &steps);
        append_post_steps(&mut builder, &self.post_provisioners);
        builder_append(&mut builder, "\n}\n");
        finish(builder)
    }

    pub fn get_boot_files(&self) -> (files: BootConfig)
        ensures
            files@ == unique(all_files(self.configuration.bootconfigs@)),
    {
        group(self.configuration.bootconfigs.as_slice())
    }
}

} // verus!
