use crate::architecture::Architecture;
use crate::arm_preamble::ArmPreambleView;
use crate::configuration::ConfigurationView;
use crate::imagefile::{empty_configuration, ImagefileView};
use crate::parser::{
    after_command, after_commands, architecture_of, architectures_in, command_of, commands,
    commands_in, named, supported,
};
use crate::partition::PartitionView;
use crate::post_provisioner::PostProvisionerView;
use crate::preamble::PreambleView;
use crate::provisioner::{ProvisionerView, Types};
use crate::text::{
    is_line, is_word, lemma_lines_next, lemma_lines_one, lemma_pieces_next, lemma_pieces_one,
    lemma_replaced_absent, lemma_replaced_first_prefix, lemma_words_next, lemma_words_one, lines,
    pieces, replaced, words,
};
use vstd::prelude::*;

verus! {

/// A recipe for an ARM image: a base image with the kind of its checksum, one
/// partition, a shell step, a file step, and a kernel for booting over the
/// network.
pub open spec fn recipe() -> Seq<char> {
    "ARCH ARM64\nFROM ./base.img sha256\nFS ext4 / rootfs 1G 100000 L\nRUN apt-get update\nFILE setup.sh /root/setup.sh\nPXE_KERNEL kernel.img"@
}

/// The lines of the recipe.
pub open spec fn recipe_lines() -> Seq<Seq<char>> {
    seq![
        "ARCH ARM64"@,
        "FROM ./base.img sha256"@,
        "FS ext4 / rootfs 1G 100000 L"@,
        "RUN apt-get update"@,
        "FILE setup.sh /root/setup.sh"@,
        "PXE_KERNEL kernel.img"@,
    ]
}

/// The recipe holds no line that goes on in the next, and its lines are the
/// six that it is written in.
pub proof fn lemma_recipe_lines()
    ensures
        replaced(recipe(), "\\\n"@, ""@) == recipe(),
        lines(recipe()) == recipe_lines(),
{
    reveal_strlit("ARCH ARM64\nFROM ./base.img sha256\nFS ext4 / rootfs 1G 100000 L\nRUN apt-get update\nFILE setup.sh /root/setup.sh\nPXE_KERNEL kernel.img");
    reveal_strlit("\\\n");
    reveal_strlit("\n");
    reveal_strlit("ARCH ARM64");
    reveal_strlit("FROM ./base.img sha256");
    reveal_strlit("FS ext4 / rootfs 1G 100000 L");
    reveal_strlit("RUN apt-get update");
    reveal_strlit("FILE setup.sh /root/setup.sh");
    reveal_strlit("PXE_KERNEL kernel.img");
    let l1 = "ARCH ARM64"@;
    let l2 = "FROM ./base.img sha256"@;
    let l3 = "FS ext4 / rootfs 1G 100000 L"@;
    let l4 = "RUN apt-get update"@;
    let l5 = "FILE setup.sh /root/setup.sh"@;
    let l6 = "PXE_KERNEL kernel.img"@;
    let nl = "\n"@;
    let r6 = l6;
    let r5 = l5 + nl + r6;
    let r4 = l4 + nl + r5;
    let r3 = l3 + nl + r4;
    let r2 = l2 + nl + r3;
    let r1 = l1 + nl + r2;
    assert(recipe() =~= r1);
    assert(is_line(l1) && is_line(l2) && is_line(l3) && is_line(l4) && is_line(l5) && is_line(l6));
    lemma_lines_one(l6);
    lemma_lines_next(l5, r6);
    lemma_lines_next(l4, r5);
    lemma_lines_next(l3, r4);
    lemma_lines_next(l2, r3);
    lemma_lines_next(l1, r2);
    assert(lines(r1) =~= recipe_lines());
    assert forall|m: int| 0 <= m < recipe().len() implies #[trigger] recipe()[m] != "\\\n"@[0] by {
        assert(recipe()[m] == r1[m]);
    }
    lemma_replaced_absent(recipe(), 0, "\\\n"@, ""@);
    assert(recipe().subrange(0, recipe().len() as int) =~= recipe());
}

/// A line that begins with the name of a command, a space behind it, holds
/// that command, with what follows the space as its arguments.
pub proof fn lemma_command_line(name: Seq<char>, args: Seq<char>)
    requires
        is_word(name),
        supported(name),
    ensures
        command_of(name + " "@ + args) == Some((name, args)),
        (name + " "@ + args).len() > 0,
{
    let line = name + " "@ + args;
    lemma_words_next(name, args);
    assert(words(line)[0] == name);
    lemma_replaced_first_prefix(name + " "@, args, ""@);
    assert(""@ + args =~= args) by {
        reveal_strlit("");
    }
}

/// The commands of some lines and one more line that holds a command are the
/// commands of the lines and that command.
pub proof fn lemma_commands_push(
    list: Seq<Seq<char>>,
    line: Seq<char>,
    command: (Seq<char>, Seq<char>),
)
    requires
        line.len() > 0,
        line[0] != '#',
        command_of(line) == Some(command),
    ensures
        commands_in(list.push(line)) == commands_in(list).push(command),
{
    assert(list.push(line).drop_last() =~= list);
    assert(list.push(line).last() == line);
}

/// The commands of the recipe.
pub open spec fn recipe_commands() -> Seq<(Seq<char>, Seq<char>)> {
    seq![
        ("ARCH"@, "ARM64"@),
        ("FROM"@, "./base.img sha256"@),
        ("FS"@, "ext4 / rootfs 1G 100000 L"@),
        ("RUN"@, "apt-get update"@),
        ("FILE"@, "setup.sh /root/setup.sh"@),
        ("PXE_KERNEL"@, "kernel.img"@),
    ]
}

/// Each line of the recipe holds a command.
pub proof fn lemma_recipe_command_lines()
    ensures
        forall|i: int|
            0 <= i < 6 ==> {
                &&& (#[trigger] recipe_lines()[i]).len() > 0
                &&& recipe_lines()[i][0] != '#'
                &&& command_of(recipe_lines()[i]) == Some(recipe_commands()[i])
            },
{
    reveal_strlit(" ");
    reveal_strlit("ARCH ARM64");
    reveal_strlit("FROM ./base.img sha256");
    reveal_strlit("FS ext4 / rootfs 1G 100000 L");
    reveal_strlit("RUN apt-get update");
    reveal_strlit("FILE setup.sh /root/setup.sh");
    reveal_strlit("PXE_KERNEL kernel.img");
    reveal_strlit("ARCH");
    reveal_strlit("FROM");
    reveal_strlit("FS");
    reveal_strlit("RUN");
    reveal_strlit("FILE");
    reveal_strlit("PXE_KERNEL");
    reveal_strlit("ARM64");
    reveal_strlit("./base.img sha256");
    reveal_strlit("ext4 / rootfs 1G 100000 L");
    reveal_strlit("apt-get update");
    reveal_strlit("setup.sh /root/setup.sh");
    reveal_strlit("kernel.img");
    lemma_command_line("ARCH"@, "ARM64"@);
    assert("ARCH ARM64"@ =~= "ARCH"@ + " "@ + "ARM64"@);
    lemma_command_line("FROM"@, "./base.img sha256"@);
    assert("FROM ./base.img sha256"@ =~= "FROM"@ + " "@ + "./base.img sha256"@);
    lemma_command_line("FS"@, "ext4 / rootfs 1G 100000 L"@);
    assert("FS ext4 / rootfs 1G 100000 L"@ =~= "FS"@ + " "@ + "ext4 / rootfs 1G 100000 L"@);
    lemma_command_line("RUN"@, "apt-get update"@);
    assert("RUN apt-get update"@ =~= "RUN"@ + " "@ + "apt-get update"@);
    lemma_command_line("FILE"@, "setup.sh /root/setup.sh"@);
    assert("FILE setup.sh /root/setup.sh"@ =~= "FILE"@ + " "@ + "setup.sh /root/setup.sh"@);
    lemma_command_line("PXE_KERNEL"@, "kernel.img"@);
    assert("PXE_KERNEL kernel.img"@ =~= "PXE_KERNEL"@ + " "@ + "kernel.img"@);
}

/// The recipe holds six commands, one in each line.
pub proof fn lemma_recipe_commands()
    ensures
        commands(recipe()) == recipe_commands(),
{
    lemma_recipe_lines();
    lemma_recipe_command_lines();
    let l = recipe_lines();
    let c = recipe_commands();
    let e = Seq::<Seq<char>>::empty();
    assert(commands_in(e) =~= Seq::<(Seq<char>, Seq<char>)>::empty());
    lemma_commands_push(e, l[0], c[0]);
    lemma_commands_push(e.push(l[0]), l[1], c[1]);
    lemma_commands_push(e.push(l[0]).push(l[1]), l[2], c[2]);
    lemma_commands_push(e.push(l[0]).push(l[1]).push(l[2]), l[3], c[3]);
    lemma_commands_push(e.push(l[0]).push(l[1]).push(l[2]).push(l[3]), l[4], c[4]);
    lemma_commands_push(e.push(l[0]).push(l[1]).push(l[2]).push(l[3]).push(l[4]), l[5], c[5]);
    assert(e.push(l[0]).push(l[1]).push(l[2]).push(l[3]).push(l[4]).push(l[5]) =~= l);
    assert(commands_in(l) =~= c);
}

/// The words of the declaration of the recipe's partition.
pub open spec fn recipe_partition_words() -> Seq<Seq<char>> {
    seq!["ext4"@, "/"@, "rootfs"@, "1G"@, "100000"@, "L"@]
}

/// How the arguments of the recipe's commands are made of words.
pub proof fn lemma_recipe_words()
    ensures
        words("ext4 / rootfs 1G 100000 L"@) == recipe_partition_words(),
        words("setup.sh /root/setup.sh"@) == seq!["setup.sh"@, "/root/setup.sh"@],
        pieces("./base.img sha256"@, ' ') == seq!["./base.img"@, "sha256"@],
        "apt-get update"@.len() > 0,
{
    reveal_strlit(" ");
    reveal_strlit("ext4 / rootfs 1G 100000 L");
    reveal_strlit("/ rootfs 1G 100000 L");
    reveal_strlit("rootfs 1G 100000 L");
    reveal_strlit("1G 100000 L");
    reveal_strlit("100000 L");
    reveal_strlit("ext4");
    reveal_strlit("/");
    reveal_strlit("rootfs");
    reveal_strlit("1G");
    reveal_strlit("100000");
    reveal_strlit("L");
    reveal_strlit("setup.sh /root/setup.sh");
    reveal_strlit("setup.sh");
    reveal_strlit("/root/setup.sh");
    reveal_strlit("./base.img sha256");
    reveal_strlit("./base.img");
    reveal_strlit("sha256");
    reveal_strlit("apt-get update");
    lemma_words_one("L"@);
    lemma_words_next("100000"@, "L"@);
    assert("100000 L"@ =~= "100000"@ + " "@ + "L"@);
    lemma_words_next("1G"@, "100000 L"@);
    assert("1G 100000 L"@ =~= "1G"@ + " "@ + "100000 L"@);
    lemma_words_next("rootfs"@, "1G 100000 L"@);
    assert("rootfs 1G 100000 L"@ =~= "rootfs"@ + " "@ + "1G 100000 L"@);
    lemma_words_next("/"@, "rootfs 1G 100000 L"@);
    assert("/ rootfs 1G 100000 L"@ =~= "/"@ + " "@ + "rootfs 1G 100000 L"@);
    lemma_words_next("ext4"@, "/ rootfs 1G 100000 L"@);
    assert("ext4 / rootfs 1G 100000 L"@ =~= "ext4"@ + " "@ + "/ rootfs 1G 100000 L"@);
    assert(words("ext4 / rootfs 1G 100000 L"@) =~= recipe_partition_words());
    lemma_words_one("/root/setup.sh"@);
    lemma_words_next("setup.sh"@, "/root/setup.sh"@);
    assert("setup.sh /root/setup.sh"@ =~= "setup.sh"@ + " "@ + "/root/setup.sh"@);
    assert(words("setup.sh /root/setup.sh"@) =~= seq!["setup.sh"@, "/root/setup.sh"@]);
    lemma_pieces_one("sha256"@, ' ');
    lemma_pieces_next("./base.img"@, "sha256"@, ' ');
    assert("./base.img sha256"@ =~= "./base.img"@ + seq![' '] + "sha256"@);
    assert(pieces("./base.img sha256"@, ' ') =~= seq!["./base.img"@, "sha256"@]);
}

/// The names of the recipe's commands differ from one another and from the
/// names of the other commands that they are held against.
pub proof fn lemma_recipe_names()
    ensures
        "ARCH"@ != "RUN"@ && "ARCH"@ != "FS"@ && "ARCH"@ != "FILE"@ && "ARCH"@ != "CONFIG"@
            && "ARCH"@ != "ON-DEVICE"@ && "ARCH"@ != "PREBUILT"@ && "ARCH"@ != "ENTRYPOINT"@
            && "ARCH"@ != "PXE_KERNEL"@ && "ARCH"@ != "PXE_OPTIONS"@ && "ARCH"@ != "FROM"@
            && "ARCH"@ != "CHECKSUM"@,
        "FROM"@ != "RUN"@ && "FROM"@ != "FS"@ && "FROM"@ != "FILE"@ && "FROM"@ != "CONFIG"@
            && "FROM"@ != "ON-DEVICE"@ && "FROM"@ != "PREBUILT"@ && "FROM"@ != "ENTRYPOINT"@
            && "FROM"@ != "PXE_KERNEL"@ && "FROM"@ != "PXE_OPTIONS"@,
        "FS"@ != "RUN"@ && "FS"@ != "FROM"@ && "FS"@ != "CHECKSUM"@,
        "RUN"@ != "FROM"@ && "RUN"@ != "CHECKSUM"@,
        "FILE"@ != "RUN"@ && "FILE"@ != "FS"@ && "FILE"@ != "FROM"@ && "FILE"@ != "CHECKSUM"@,
        "PXE_KERNEL"@ != "RUN"@ && "PXE_KERNEL"@ != "FS"@ && "PXE_KERNEL"@ != "FILE"@
            && "PXE_KERNEL"@ != "CONFIG"@ && "PXE_KERNEL"@ != "ON-DEVICE"@ && "PXE_KERNEL"@
            != "PREBUILT"@ && "PXE_KERNEL"@ != "ENTRYPOINT"@ && "PXE_KERNEL"@ != "FROM"@
            && "PXE_KERNEL"@ != "CHECKSUM"@,
        "ARM64"@ != "ARM32"@,
{
    reveal_strlit("ARCH");
    reveal_strlit("FROM");
    reveal_strlit("FS");
    reveal_strlit("RUN");
    reveal_strlit("FILE");
    reveal_strlit("CONFIG");
    reveal_strlit("ON-DEVICE");
    reveal_strlit("PREBUILT");
    reveal_strlit("ENTRYPOINT");
    reveal_strlit("PXE_KERNEL");
    reveal_strlit("PXE_OPTIONS");
    reveal_strlit("CHECKSUM");
    reveal_strlit("ARM64");
    reveal_strlit("ARM32");
    assert("ARCH"@.len() == 4 && "FROM"@.len() == 4 && "FILE"@.len() == 4 && "FS"@.len() == 2
        && "RUN"@.len() == 3 && "CONFIG"@.len() == 6 && "ON-DEVICE"@.len() == 9 && "PREBUILT"@.len()
        == 8 && "ENTRYPOINT"@.len() == 10 && "PXE_KERNEL"@.len() == 10 && "PXE_OPTIONS"@.len()
        == 11 && "CHECKSUM"@.len() == 8);
    assert("ARCH"@[0] == 'A' && "FROM"@[0] == 'F' && "FILE"@[1] == 'I' && "FROM"@[1] == 'R');
    assert("PXE_KERNEL"@[0] == 'P' && "ENTRYPOINT"@[0] == 'E');
    assert("ARM64"@[3] == '6' && "ARM32"@[3] == '3');
}

/// The image that reading the recipe gives: the base image and the kind of
/// its checksum, the partition under its mount point, the two steps, and the
/// kernel, with booting over the network switched on. Nothing else is changed.
pub open spec fn recipe_image() -> ImagefileView {
    ImagefileView {
        name: "generated.img"@,
        architecture: Architecture::ARM64,
        preamble: PreambleView::Arm(
            ArmPreambleView::fresh().with_base_image("./base.img sha256"@),
        ),
        partitions: seq![("/"@, PartitionView::of_words(recipe_partition_words()))],
        configuration: ConfigurationView {
            pxe: true,
            pxe_kernel: "kernel.img"@,
            ..empty_configuration()
        },
        provisioners: seq![
            ProvisionerView { provisioner: Types::SHELL, command: seq!["apt-get update"@] },
            ProvisionerView {
                provisioner: Types::FILE,
                command: seq!["setup.sh"@, "/root/setup.sh"@],
            },
        ],
        post_provisioners: Seq::<PostProvisionerView>::empty(),
    }
}

/// One more command is applied to what the commands before it gave.
pub proof fn lemma_after_push(
    image: ImagefileView,
    list: Seq<(Seq<char>, Seq<char>)>,
    command: (Seq<char>, Seq<char>),
)
    ensures
        after_commands(image, list.push(command)) == after_command(
            after_commands(image, list),
            command.0,
            command.1,
        ),
{
    assert(list.push(command).drop_last() =~= list);
    assert(list.push(command).last() == command);
}

/// The recipe selects 64-bit ARM, and no other architecture.
pub proof fn lemma_recipe_architecture()
    ensures
        architecture_of(recipe_commands()) == Some(Architecture::ARM64),
{
    lemma_recipe_names();
    let c = recipe_commands();
    let e = Seq::<(Seq<char>, Seq<char>)>::empty();
    assert(named("ARM64"@) == Some(Architecture::ARM64));
    assert(architectures_in(e) =~= Seq::<Architecture>::empty());
    let c1 = e.push(c[0]);
    assert(c1.drop_last() =~= e && c1.last() == c[0]);
    assert(architectures_in(c1) =~= seq![Architecture::ARM64]);
    let c2 = c1.push(c[1]);
    assert(c2.drop_last() =~= c1 && c2.last() == c[1]);
    assert(architectures_in(c2) == architectures_in(c1));
    let c3 = c2.push(c[2]);
    assert(c3.drop_last() =~= c2 && c3.last() == c[2]);
    assert(architectures_in(c3) == architectures_in(c2));
    let c4 = c3.push(c[3]);
    assert(c4.drop_last() =~= c3 && c4.last() == c[3]);
    assert(architectures_in(c4) == architectures_in(c3));
    let c5 = c4.push(c[4]);
    assert(c5.drop_last() =~= c4 && c5.last() == c[4]);
    assert(architectures_in(c5) == architectures_in(c4));
    let c6 = c5.push(c[5]);
    assert(c6.drop_last() =~= c5 && c6.last() == c[5]);
    assert(architectures_in(c6) == architectures_in(c5));
    assert(c6 =~= c);
    assert(architectures_in(c) =~= seq![Architecture::ARM64]);
}

/// Reading the recipe's commands into a fresh ARM image gives the image of
/// the recipe.
pub proof fn lemma_recipe_read(vm_name: Seq<char>)
    ensures
        after_commands(
            ImagefileView::fresh("generated.img"@, Architecture::ARM64, vm_name),
            recipe_commands(),
        ) == recipe_image(),
{
    lemma_recipe_names();
    lemma_recipe_words();
    let c = recipe_commands();
    let e = Seq::<(Seq<char>, Seq<char>)>::empty();
    let i0 = ImagefileView::fresh("generated.img"@, Architecture::ARM64, vm_name);
    let c1 = e.push(c[0]);
    lemma_after_push(i0, e, c[0]);
    let i1 = after_commands(i0, c1);
    assert(i1 == i0);
    let c2 = c1.push(c[1]);
    lemma_after_push(i0, c1, c[1]);
    let i2 = after_commands(i0, c2);
    assert(i2 == (ImagefileView {
        preamble: PreambleView::Arm(
            ArmPreambleView::fresh().with_base_image("./base.img sha256"@),
        ),
        ..i0
    }));
    let c3 = c2.push(c[2]);
    lemma_after_push(i0, c2, c[2]);
    let i3 = after_commands(i0, c3);
    assert(crate::table::position(i2.partitions, "/"@) is None);
    assert(i3.partitions =~= seq![("/"@, PartitionView::of_words(recipe_partition_words()))]);
    assert(i3 == (ImagefileView { partitions: i3.partitions, ..i2 }));
    let c4 = c3.push(c[3]);
    lemma_after_push(i0, c3, c[3]);
    let i4 = after_commands(i0, c4);
    assert(i4 == (ImagefileView {
        provisioners: i3.provisioners.push(
            ProvisionerView { provisioner: Types::SHELL, command: seq!["apt-get update"@] },
        ),
        ..i3
    }));
    let c5 = c4.push(c[4]);
    lemma_after_push(i0, c4, c[4]);
    let i5 = after_commands(i0, c5);
    assert(i5 == (ImagefileView {
        provisioners: i4.provisioners.push(
            ProvisionerView {
                provisioner: Types::FILE,
                command: seq!["setup.sh"@, "/root/setup.sh"@],
            },
        ),
        ..i4
    }));
    let c6 = c5.push(c[5]);
    lemma_after_push(i0, c5, c[5]);
    let i6 = after_commands(i0, c6);
    assert(c6 =~= c);
    assert(i6.provisioners =~= recipe_image().provisioners);
    assert(i6.configuration == recipe_image().configuration);
    assert(i6 == recipe_image());
}

/// What compiling the recipe gives: it selects 64-bit ARM; the base image is
/// `./base.img` with a checksum of the kind sha256; there is one partition,
/// `rootfs`, under `/`; the steps are the shell step and the file step; the
/// kernel is `kernel.img`, and the image is booted over the network and not
/// written to the node's storage.
pub proof fn lemma_recipe_compile(vm_name: Seq<char>)
    ensures
        architecture_of(commands(recipe())) == Some(Architecture::ARM64),
        after_commands(
            ImagefileView::fresh("generated.img"@, Architecture::ARM64, vm_name),
            commands(recipe()),
        ) == recipe_image(),
        recipe_image().preamble.filename() == "./base.img"@,
        recipe_image().preamble.checksum_type() == "sha256"@,
        recipe_image().partitions.len() == 1,
        recipe_image().partitions[0].0 == "/"@,
        recipe_image().partitions[0].1.name == "rootfs"@,
        recipe_image().configuration.pxe,
        recipe_image().configuration.pxe_kernel == "kernel.img"@,
        !recipe_image().configuration.on_device,
{
    lemma_recipe_commands();
    lemma_recipe_architecture();
    lemma_recipe_read(vm_name);
    lemma_recipe_words();
}

} // verus!
