use crate::architecture::{lemma_names_differ, Architecture};
use crate::arm_preamble::{ArmPreamble, ArmPreambleView};
use crate::bootconfig::BootConfig;
use crate::configuration::ConfigurationView;
use crate::imagefile::{lemma_entries_put, Imagefile, ImagefileView};
use crate::partition::{Partition, PartitionView};
use crate::preamble::{Preamble, PreambleView};
use crate::provisioner::{Provisioner, ProvisionerView, Types};
use crate::table::put;
use crate::text::{
    lines, replaced, replaced_first, split_lines, split_whitespace, str_eq, str_replace,
    str_replace_first, texts, words,
};
use crate::x86_preamble::{X86Preamble, X86PreambleView};
use vstd::prelude::*;

verus! {

/// The words that begin a line of a recipe.
pub open spec fn supported(word: Seq<char>) -> bool {
    ||| word == "FROM"@
    ||| word == "RUN"@
    ||| word == "FS"@
    ||| word == "FILE"@
    ||| word == "CONFIG"@
    ||| word == "ON-DEVICE"@
    ||| word == "PREBUILT"@
    ||| word == "ENTRYPOINT"@
    ||| word == "ARCH"@
    ||| word == "BOOTCMD"@
    ||| word == "DISKSIZE"@
    ||| word == "CHECKSUM"@
    ||| word == "PRESEED"@
    ||| word == "OBSERVE_BUILD"@
    ||| word == "VM_TYPE"@
    ||| word == "SSH_USER"@
    ||| word == "SSH_PASSWORD"@
    ||| word == "SHUTDOWN_CMD"@
    ||| word == "BOOT_TIME"@
    ||| word == "PXE_KERNEL"@
    ||| word == "PXE_OPTIONS"@
}

/// The command that a line holds: its first word, where that is the name of a
/// command, and the line without that word and the space behind it.
pub open spec fn command_of(line: Seq<char>) -> Option<(Seq<char>, Seq<char>)> {
    if words(line).len() == 0 {
        None
    } else if supported(words(line)[0]) {
        Some((words(line)[0], replaced_first(line, words(line)[0] + " "@, ""@)))
    } else {
        None
    }
}

/// The commands of the given lines, in order. Empty lines, comments, which
/// begin with a hash sign, and lines that begin with no command are passed
/// over.
pub open spec fn commands_in(list: Seq<Seq<char>>) -> Seq<(Seq<char>, Seq<char>)>
    decreases list.len(),
{
    if list.len() == 0 {
        seq![]
    } else {
        let before = commands_in(list.drop_last());
        let line = list.last();
        if line.len() == 0 || line[0] == '#' {
            before
        } else {
            match command_of(line) {
                Some(command) => before.push(command),
                None => before,
            }
        }
    }
}

/// The commands of a recipe. A line that ends in a backslash goes on in the
/// next line.
pub open spec fn commands(content: Seq<char>) -> Seq<(Seq<char>, Seq<char>)> {
    commands_in(lines(replaced(content, "\\\n"@, ""@)))
}

/// The texts of a list of commands.
pub open spec fn command_texts(list: Seq<(String, String)>) -> Seq<(Seq<char>, Seq<char>)> {
    Seq::new(list.len(), |i: int| (list[i].0@, list[i].1@))
}

/// The architecture that a text names.
pub open spec fn named(text: Seq<char>) -> Option<Architecture> {
    if text == "ARM32"@ {
        Some(Architecture::ARM32)
    } else if text == "ARM64"@ {
        Some(Architecture::ARM64)
    } else if text == "X86"@ {
        Some(Architecture::X86)
    } else {
        None
    }
}

/// The architectures that the commands select, in order.
pub open spec fn architectures_in(list: Seq<(Seq<char>, Seq<char>)>) -> Seq<Architecture>
    decreases list.len(),
{
    if list.len() == 0 {
        seq![]
    } else {
        let before = architectures_in(list.drop_last());
        if list.last().0 == "ARCH"@ && named(list.last().1) is Some {
            before.push(named(list.last().1).unwrap())
        } else {
            before
        }
    }
}

/// The architecture of a recipe: the one that it selects, where it selects
/// one and no more.
pub open spec fn architecture_of(list: Seq<(Seq<char>, Seq<char>)>) -> Option<Architecture> {
    if architectures_in(list).len() == 1 {
        Some(architectures_in(list)[0])
    } else {
        None
    }
}

/// A recipe with one more shell step, where the line is not empty.
pub open spec fn after_run(image: ImagefileView, line: Seq<char>) -> ImagefileView {
    if line.len() > 0 {
        ImagefileView {
            provisioners: image.provisioners.push(
                ProvisionerView { provisioner: Types::SHELL, command: seq![line] },
            ),
            ..image
        }
    } else {
        image
    }
}

/// A recipe with one more shell step for each of the lines that is not empty.
pub open spec fn after_runs(image: ImagefileView, list: Seq<Seq<char>>) -> ImagefileView
    decreases list.len(),
{
    if list.len() == 0 {
        image
    } else {
        after_run(after_runs(image, list.drop_last()), list.last())
    }
}

/// A recipe with one more file step, where the line holds source and
/// destination.
pub open spec fn after_file(image: ImagefileView, line: Seq<char>) -> ImagefileView {
    if words(line).len() == 2 {
        ImagefileView {
            provisioners: image.provisioners.push(
                ProvisionerView { provisioner: Types::FILE, command: words(line) },
            ),
            ..image
        }
    } else {
        image
    }
}

/// A recipe with the partition that the line declares under its mount point,
/// where the line holds six words.
pub open spec fn after_partition(image: ImagefileView, line: Seq<char>) -> ImagefileView {
    if words(line).len() == 6 {
        let partition = PartitionView::of_words(words(line));
        ImagefileView {
            partitions: put(image.partitions, partition.mountpoint, partition),
            ..image
        }
    } else {
        image
    }
}

/// A recipe with one more list of files to fill in, where the line names any.
pub open spec fn after_config(image: ImagefileView, line: Seq<char>) -> ImagefileView {
    if words(line).len() > 0 {
        ImagefileView {
            configuration: ConfigurationView {
                bootconfigs: image.configuration.bootconfigs.push(words(line)),
                ..image.configuration
            },
            ..image
        }
    } else {
        image
    }
}

/// The shell lines that make an image run a command after each boot, note
/// start and end with the log server, keep the command's exit code among the
/// results, and shut down.
pub open spec fn entrypoint_lines(command: Seq<char>) -> Seq<Seq<char>> {
    seq![
        "echo 'PATH=/sbin:/bin:/usr/sbin:/usr/bin' >> /root/cron"@,
        "echo '@reboot sh /entrypoint.sh' >> /root/cron"@,
        "/usr/bin/crontab /root/cron"@,
        "echo '#!/usr/bin/env sh' > /entrypoint.sh"@,
        "echo 'mkdir /results' >> /entrypoint.sh"@,
        "echo 'date > /results/.started' >> /entrypoint.sh"@,
        "echo 'curl --location --request POST '%LOG_SERVER%' --header 'Content-Type: text/plain' --data-raw \"started\"' >> /entrypoint.sh"@,
        "echo '"@ + command + "' >> /entrypoint.sh"@,
        "echo 'echo $? > /results/.exited' >> /entrypoint.sh"@,
        "echo 'curl --location --request POST '%LOG_SERVER%' --header 'Content-Type: text/plain' --data-raw \"exited\"' >> /entrypoint.sh"@,
        "echo 'date >> /results/.exited' >> /entrypoint.sh"@,
        "echo 'curl --location --request POST '%LOG_SERVER%' --header 'Content-Type: text/plain' --data-raw \"shutdown\"' >> /entrypoint.sh"@,
        "echo 'shutdown now' >> /entrypoint.sh"@,
    ]
}

/// A recipe after one of the commands that every architecture knows.
pub open spec fn after_common(
    image: ImagefileView,
    command: Seq<char>,
    args: Seq<char>,
) -> ImagefileView {
    if command == "RUN"@ {
        after_run(image, args)
    } else if command == "FS"@ {
        after_partition(image, args)
    } else if command == "FILE"@ {
        after_file(image, args)
    } else if command == "CONFIG"@ {
        after_config(image, args)
    } else if command == "ON-DEVICE"@ {
        ImagefileView {
            configuration: ConfigurationView { on_device: true, ..image.configuration },
            ..image
        }
    } else if command == "PREBUILT"@ {
        ImagefileView {
            configuration: ConfigurationView { prebuilt: true, ..image.configuration },
            ..image
        }
    } else if command == "ENTRYPOINT"@ {
        after_runs(image, entrypoint_lines(args))
    } else if command == "PXE_KERNEL"@ {
        ImagefileView {
            configuration: ConfigurationView { pxe: true, pxe_kernel: args, ..image.configuration },
            ..image
        }
    } else if command == "PXE_OPTIONS"@ {
        ImagefileView {
            configuration: ConfigurationView {
                pxe: true,
                pxe_options: args,
                ..image.configuration
            },
            ..image
        }
    } else {
        image
    }
}

/// The ARM builder's settings after a command.
pub open spec fn after_arm(
    preamble: ArmPreambleView,
    command: Seq<char>,
    args: Seq<char>,
) -> ArmPreambleView {
    if command == "FROM"@ {
        if ArmPreambleView::accepts(args) {
            preamble.with_base_image(args)
        } else {
            preamble
        }
    } else if command == "CHECKSUM"@ {
        ArmPreambleView { file_checksum_url: args, ..preamble }
    } else {
        preamble
    }
}

/// The x86 builder's settings after a command.
pub open spec fn after_x86(
    preamble: X86PreambleView,
    command: Seq<char>,
    args: Seq<char>,
) -> X86PreambleView {
    if command == "FROM"@ {
        if X86PreambleView::accepts(args) {
            preamble.with_base_image(args)
        } else {
            preamble
        }
    } else if command == "CHECKSUM"@ {
        X86PreambleView { iso_checksum: args, ..preamble }
    } else if command == "BOOTCMD"@ {
        X86PreambleView { boot_command: preamble.boot_command.push(args), ..preamble }
    } else if command == "PRESEED"@ {
        X86PreambleView { preseed_file: args, ..preamble }
    } else if command == "OBSERVE_BUILD"@ {
        X86PreambleView { headless: false, ..preamble }
    } else if command == "VM_TYPE"@ {
        X86PreambleView { guest_os_type: args, ..preamble }
    } else if command == "SSH_USER"@ {
        X86PreambleView { ssh_username: args, ..preamble }
    } else if command == "SSH_PASSWORD"@ {
        X86PreambleView { ssh_password: args, ..preamble }
    } else if command == "SHUTDOWN_CMD"@ {
        X86PreambleView { shutdown_command: args, ..preamble }
    } else if command == "BOOT_TIME"@ {
        X86PreambleView { boot_wait: args, ..preamble }
    } else {
        preamble
    }
}

/// A recipe after one command: what the command means for every architecture,
/// and what it means for the builder of the recipe's own.
pub open spec fn after_command(
    image: ImagefileView,
    command: Seq<char>,
    args: Seq<char>,
) -> ImagefileView {
    let common = after_common(image, command, args);
    ImagefileView {
        preamble: match common.preamble {
            PreambleView::Arm(preamble) => PreambleView::Arm(after_arm(preamble, command, args)),
            PreambleView::X86(preamble) => PreambleView::X86(after_x86(preamble, command, args)),
        },
        ..common
    }
}

/// A recipe after the given commands, in order.
pub open spec fn after_commands(
    image: ImagefileView,
    list: Seq<(Seq<char>, Seq<char>)>,
) -> ImagefileView
    decreases list.len(),
{
    if list.len() == 0 {
        image
    } else {
        after_command(after_commands(image, list.drop_last()), list.last().0, list.last().1)
    }
}

pub fn supported_commands() -> (vec: Vec<String>)
    ensures
        forall|word: Seq<char>| supported(word) <==> texts(vec@).contains(word),
{
    let mut vec: Vec<String> = Vec::new();
    vec.push(String::from_str("FROM"));
    vec.push(String::from_str("RUN"));
    vec.push(String::from_str("FS"));
    vec.push(String::from_str("FILE"));
    vec.push(String::from_str("CONFIG"));
    vec.push(String::from_str("ON-DEVICE"));
    vec.push(String::from_str("PREBUILT"));
    vec.push(String::from_str("ENTRYPOINT"));
    vec.push(String::from_str("ARCH"));
    vec.push(String::from_str("BOOTCMD"));
    vec.push(String::from_str("DISKSIZE"));
    vec.push(String::from_str("CHECKSUM"));
    vec.push(String::from_str("PRESEED"));
    vec.push(String::from_str("OBSERVE_BUILD"));
    vec.push(String::from_str("VM_TYPE"));
    vec.push(String::from_str("SSH_USER"));
    vec.push(String::from_str("SSH_PASSWORD"));
    vec.push(String::from_str("SHUTDOWN_CMD"));
    vec.push(String::from_str("BOOT_TIME"));
    vec.push(String::from_str("PXE_KERNEL"));
    vec.push(String::from_str("PXE_OPTIONS"));
    proof {
        let t = texts(vec@);
        assert(t.len() == 21);
        assert forall|word: Seq<char>| supported(word) implies t.contains(word) by {
            assert(t[0] == "FROM"@ && t[1] == "RUN"@ && t[2] == "FS"@ && t[3] == "FILE"@ && t[4]
                == "CONFIG"@ && t[5] == "ON-DEVICE"@ && t[6] == "PREBUILT"@);
            assert(t[7] == "ENTRYPOINT"@ && t[8] == "ARCH"@ && t[9] == "BOOTCMD"@ && t[10]
                == "DISKSIZE"@ && t[11] == "CHECKSUM"@ && t[12] == "PRESEED"@ && t[13]
                == "OBSERVE_BUILD"@);
            assert(t[14] == "VM_TYPE"@ && t[15] == "SSH_USER"@ && t[16] == "SSH_PASSWORD"@ && t[17]
                == "SHUTDOWN_CMD"@ && t[18] == "BOOT_TIME"@ && t[19] == "PXE_KERNEL"@ && t[20]
                == "PXE_OPTIONS"@);
        }
    }
    vec
}

/// Whether a word is the name of a command.
pub fn is_supported(word: &str) -> (known: bool)
    ensures
        known == supported(word@),
{
    let all = supported_commands();
    let mut i: usize = 0;
    while i < all.len()
        invariant
            i <= all.len(),
            forall|w: Seq<char>| supported(w) <==> texts(all@).contains(w),
            forall|k: int| 0 <= k < i ==> texts(all@)[k] != word@,
        decreases all.len() - i,
    {
        if str_eq(all[i].as_str(), word) {
            assert(texts(all@)[i as int] == word@);
            return true;
        }
        i += 1;
    }
    false
}

pub fn get_command(line: &str) -> (r: Option<(String, String)>)
    ensures
        match r {
            Some(command) => command_of(line@) == Some((command.0@, command.1@)),
            None => command_of(line@) is None,
        },
{
    let all = split_whitespace(line);
    if all.len() == 0 {
        return None;
    }
    assert(texts(all@)[0] == all@[0]@);
    let first_word = all[0].clone();
    if is_supported(first_word.as_str()) {
        let mut pattern = first_word.clone();
        pattern.append(" ");
        let args = str_replace_first(line, pattern.as_str(), "");
        return Some((first_word, args));
    }
    None
}

/// Reads the commands of a recipe.
pub fn sanitize_content(content: &str) -> (list: Vec<(String, String)>)
    ensures
        command_texts(list@) == commands(content@),
{
    let stat = str_replace(content, "\\\n", "");
    let raw_lines = split_lines(stat.as_str());
    let mut list: Vec<(String, String)> = Vec::new();
    let mut i: usize = 0;
    assert(command_texts(list@) =~= commands_in(texts(raw_lines@).take(0)));
    while i < raw_lines.len()
        invariant
            i <= raw_lines.len(),
            command_texts(list@) == commands_in(texts(raw_lines@).take(i as int)),
        decreases raw_lines.len() - i,
    {
        let line = raw_lines[i].as_str();
        let ghost before = command_texts(list@);
        proof {
            let next = texts(raw_lines@).take(i + 1);
            assert(next.drop_last() =~= texts(raw_lines@).take(i as int));
            assert(next.last() == line@);
        }
        if !line.is_empty() && line.get_char(0) != '#' {
            match get_command(line) {
                Some(command) => {
                    list.push(command);
                    assert(command_texts(list@) =~= before.push((command.0@, command.1@)));
                },
                None => {},
            }
        }
        i += 1;
    }
    assert(texts(raw_lines@).take(i as int) =~= texts(raw_lines@));
    list
}

/// Finds the architecture that a recipe selects. A recipe that selects none,
/// or more than one, has none.
pub fn get_architecture(list: &Vec<(String, String)>) -> (r: Option<Architecture>)
    ensures
        r == architecture_of(command_texts(list@)),
{
    let mut found: Vec<Architecture> = Vec::new();
    let mut i: usize = 0;
    assert(found@ =~= architectures_in(command_texts(list@).take(0)));
    while i < list.len()
        invariant
            i <= list.len(),
            found@ == architectures_in(command_texts(list@).take(i as int)),
        decreases list.len() - i,
    {
        proof {
            let next = command_texts(list@).take(i + 1);
            assert(next.drop_last() =~= command_texts(list@).take(i as int));
            assert(next.last() == (list@[i as int].0@, list@[i as int].1@));
        }
        if str_eq(list[i].0.as_str(), "ARCH") {
            match Architecture::parse(list[i].1.as_str()) {
                Ok(architecture) => {
                    proof {
                        lemma_names_differ(architecture, Architecture::ARM32);
                        lemma_names_differ(architecture, Architecture::ARM64);
                        lemma_names_differ(architecture, Architecture::X86);
                    }
                    found.push(architecture);
                },
                Err(_) => {
                    assert(list@[i as int].1@ != Architecture::ARM32.name());
                    assert(list@[i as int].1@ != Architecture::ARM64.name());
                    assert(list@[i as int].1@ != Architecture::X86.name());
                },
            }
        }
        i += 1;
    }
    assert(command_texts(list@).take(i as int) =~= command_texts(list@));
    if found.len() == 1 {
        Some(found[0])
    } else {
        None
    }
}

pub fn parse_arm_from(preamble: &mut ArmPreamble, line: &str)
    ensures
        final(preamble)@ == after_arm(old(preamble)@, "FROM"@, line@),
{
    match preamble.parse_base_image(line) {
        Ok(_) => {},
        Err(_) => {},
    }
}

pub fn parse_x86_from(preamble: &mut X86Preamble, line: &str)
    ensures
        final(preamble)@ == after_x86(old(preamble)@, "FROM"@, line@),
{
    match preamble.parse_base_image(line) {
        Ok(_) => {},
        Err(_) => {},
    }
}

pub fn parse_arm_checksum(preamble: &mut ArmPreamble, line: &str)
    ensures
        final(preamble)@ == (ArmPreambleView { file_checksum_url: line@, ..old(preamble)@ }),
{
    preamble.set_checksum(String::from_str(line));
}

pub fn parse_x86_checksum(preamble: &mut X86Preamble, line: &str)
    ensures
        final(preamble)@ == (X86PreambleView { iso_checksum: line@, ..old(preamble)@ }),
{
    preamble.set_checksum(String::from_str(line));
}

pub fn parse_boot_cmd(preamble: &mut X86Preamble, line: &str)
    ensures
        final(preamble)@ == (X86PreambleView {
            boot_command: old(preamble)@.boot_command.push(line@),
            ..old(preamble)@
        }),
{
    preamble.boot_command.push(String::from_str(line));
    assert(texts(preamble.boot_command@) =~= old(preamble)@.boot_command.push(line@));
}

pub fn parse_x86_preseed(preamble: &mut X86Preamble, line: &str)
    ensures
        final(preamble)@ == (X86PreambleView { preseed_file: line@, ..old(preamble)@ }),
{
    preamble.set_preseed_file(String::from_str(line));
}

/// Lets the build be watched: the machine gets a window.
pub fn parse_x86_set_headless(preamble: &mut X86Preamble, _line: &str)
    ensures
        final(preamble)@ == (X86PreambleView { headless: false, ..old(preamble)@ }),
{
    preamble.set_headless(false);
}

pub fn parse_x86_set_vm_type(preamble: &mut X86Preamble, line: &str)
    ensures
        final(preamble)@ == (X86PreambleView { guest_os_type: line@, ..old(preamble)@ }),
{
    preamble.set_guest_os_type(String::from_str(line));
}

pub fn parse_x86_set_ssh_username(preamble: &mut X86Preamble, line: &str)
    ensures
        final(preamble)@ == (X86PreambleView { ssh_username: line@, ..old(preamble)@ }),
{
    preamble.set_ssh_username(String::from_str(line));
}

pub fn parse_x86_set_ssh_password(preamble: &mut X86Preamble, line: &str)
    ensures
        final(preamble)@ == (X86PreambleView { ssh_password: line@, ..old(preamble)@ }),
{
    preamble.set_ssh_password(String::from_str(line));
}

pub fn parse_x86_set_boot_time(preamble: &mut X86Preamble, line: &str)
    ensures
        final(preamble)@ == (X86PreambleView { boot_wait: line@, ..old(preamble)@ }),
{
    preamble.set_boot_wait(String::from_str(line));
}

pub fn parse_x86_set_shutdown_cmd(preamble: &mut X86Preamble, line: &str)
    ensures
        final(preamble)@ == (X86PreambleView { shutdown_command: line@, ..old(preamble)@ }),
{
    preamble.set_shutdown_command(String::from_str(line));
}

pub fn parse_run(image: &mut Imagefile, line: &str)
    ensures
        final(image)@ == after_run(old(image)@, line@),
{
    match Provisioner::parse(&Types::SHELL, line) {
        Ok(provisioner) => {
            image.provisioners.push(provisioner);
            assert(image@.provisioners =~= old(image)@.provisioners.push(provisioner@));
        },
        Err(_) => {},
    }
}

pub fn parse_file(image: &mut Imagefile, line: &str)
    ensures
        final(image)@ == after_file(old(image)@, line@),
{
    match Provisioner::parse(&Types::FILE, line) {
        Ok(provisioner) => {
            image.provisioners.push(provisioner);
            assert(image@.provisioners =~= old(image)@.provisioners.push(provisioner@));
        },
        Err(_) => {},
    }
}

pub fn parse_partition(image: &mut Imagefile, line: &str)
    ensures
        final(image)@ == after_partition(old(image)@, line@),
{
    match Partition::parse(line) {
        Ok(partition) => {
            let key = partition.get_mountpoint();
            proof {
                lemma_entries_put(image.partitions@, key@, partition);
            }
            image.partitions.insert(key, partition);
        },
        Err(_) => {},
    }
}

pub fn parse_config(image: &mut Imagefile, line: &str)
    ensures
        final(image)@ == after_config(old(image)@, line@),
{
    match BootConfig::parse(line) {
        Ok(config) => {
            image.configuration.bootconfigs.push(config);
            assert(image@.configuration.bootconfigs =~= old(image)@.configuration.bootconfigs.push(
                config@,
            ));
        },
        Err(_) => {},
    }
}

pub fn parse_on_device(image: &mut Imagefile, _line: &str)
    ensures
        final(image)@ == after_common(old(image)@, "ON-DEVICE"@, _line@),
{
    proof {
        lemma_commands_differ();
    }
    image.configuration.on_device = true;
}

pub fn parse_prebuilt(image: &mut Imagefile, _line: &str)
    ensures
        final(image)@ == after_common(old(image)@, "PREBUILT"@, _line@),
{
    proof {
        lemma_commands_differ();
    }
    image.configuration.prebuilt = true;
}

pub fn parse_pxe_kernel(image: &mut Imagefile, line: &str)
    ensures
        final(image)@ == after_common(old(image)@, "PXE_KERNEL"@, line@),
{
    proof {
        lemma_commands_differ();
    }
    image.configuration.pxe = true;
    image.configuration.pxe_kernel = String::from_str(line);
}

pub fn parse_pxe_options(image: &mut Imagefile, line: &str)
    ensures
        final(image)@ == after_common(old(image)@, "PXE_OPTIONS"@, line@),
{
    proof {
        lemma_commands_differ();
    }
    image.configuration.pxe = true;
    image.configuration.pxe_options = String::from_str(line);
}

pub fn parse_entrypoint(image: &mut Imagefile, line: &str)
    ensures
        final(image)@ == after_runs(old(image)@, entrypoint_lines(line@)),
{
    let mut own = String::from_str("echo '");
    own.append(line);
    own.append("' >> /entrypoint.sh");
    let mut list: Vec<String> = Vec::new();
    list.push(String::from_str("echo 'PATH=/sbin:/bin:/usr/sbin:/usr/bin' >> /root/cron"));
    list.push(String::from_str("echo '@reboot sh /entrypoint.sh' >> /root/cron"));
    list.push(String::from_str("/usr/bin/crontab /root/cron"));
    list.push(String::from_str("echo '#!/usr/bin/env sh' > /entrypoint.sh"));
    list.push(String::from_str("echo 'mkdir /results' >> /entrypoint.sh"));
    list.push(String::from_str("echo 'date > /results/.started' >> /entrypoint.sh"));
    list.push(String::from_str("echo 'curl --location --request POST '%LOG_SERVER%' --header 'Content-Type: text/plain' --data-raw \"started\"' >> /entrypoint.sh"));
    list.push(own);
    list.push(String::from_str("echo 'echo $? > /results/.exited' >> /entrypoint.sh"));
    list.push(String::from_str("echo 'curl --location --request POST '%LOG_SERVER%' --header 'Content-Type: text/plain' --data-raw \"exited\"' >> /entrypoint.sh"));
    list.push(String::from_str("echo 'date >> /results/.exited' >> /entrypoint.sh"));
    list.push(String::from_str("echo 'curl --location --request POST '%LOG_SERVER%' --header 'Content-Type: text/plain' --data-raw \"shutdown\"' >> /entrypoint.sh"));
    list.push(String::from_str("echo 'shutdown now' >> /entrypoint.sh"));
    assert(texts(list@) =~= entrypoint_lines(line@));
    let mut i: usize = 0;
    while i < list.len()
        invariant
            i <= list.len(),
            image@ == after_runs(old(image)@, texts(list@).take(i as int)),
        decreases list.len() - i,
    {
        proof {
            let next = texts(list@).take(i + 1);
            assert(next.drop_last() =~= texts(list@).take(i as int));
            assert(next.last() == list@[i as int]@);
        }
        parse_run(image, list[i].as_str());
        i += 1;
    }
    assert(texts(list@).take(i as int) =~= texts(list@));
}

/// The names of the commands that every architecture knows differ from one
/// another.
pub proof fn lemma_commands_differ()
    ensures
        "RUN"@ != "FS"@,
        "ON-DEVICE"@ != "RUN"@ && "ON-DEVICE"@ != "FS"@ && "ON-DEVICE"@ != "FILE"@ && "ON-DEVICE"@
            != "CONFIG"@,
        "PREBUILT"@ != "RUN"@ && "PREBUILT"@ != "FS"@ && "PREBUILT"@ != "FILE"@ && "PREBUILT"@
            != "CONFIG"@ && "PREBUILT"@ != "ON-DEVICE"@,
        "PXE_KERNEL"@ != "RUN"@ && "PXE_KERNEL"@ != "FS"@ && "PXE_KERNEL"@ != "FILE"@
            && "PXE_KERNEL"@ != "CONFIG"@ && "PXE_KERNEL"@ != "ON-DEVICE"@ && "PXE_KERNEL"@
            != "PREBUILT"@ && "PXE_KERNEL"@ != "ENTRYPOINT"@,
        "PXE_OPTIONS"@ != "RUN"@ && "PXE_OPTIONS"@ != "FS"@ && "PXE_OPTIONS"@ != "FILE"@
            && "PXE_OPTIONS"@ != "CONFIG"@ && "PXE_OPTIONS"@ != "ON-DEVICE"@ && "PXE_OPTIONS"@
            != "PREBUILT"@ && "PXE_OPTIONS"@ != "ENTRYPOINT"@ && "PXE_OPTIONS"@ != "PXE_KERNEL"@,
{
    reveal_strlit("RUN");
    reveal_strlit("FS");
    reveal_strlit("FILE");
    reveal_strlit("CONFIG");
    reveal_strlit("ON-DEVICE");
    reveal_strlit("PREBUILT");
    reveal_strlit("ENTRYPOINT");
    reveal_strlit("PXE_KERNEL");
    reveal_strlit("PXE_OPTIONS");
    assert("RUN"@.len() == 3 && "FS"@.len() == 2 && "FILE"@.len() == 4);
    assert("PXE_KERNEL"@[4] != "PXE_OPTIONS"@[4]);
    assert("PXE_KERNEL"@.len() == 10 && "PXE_OPTIONS"@.len() == 11 && "ENTRYPOINT"@.len() == 10);
    assert("PXE_KERNEL"@[0] != "ENTRYPOINT"@[0]);
    assert("ON-DEVICE"@.len() == 9 && "PREBUILT"@.len() == 8 && "CONFIG"@.len() == 6);
}

/// Applies a command that every architecture knows.
pub fn apply_common(image: &mut Imagefile, command: &str, args: &str)
    ensures
        final(image)@ == after_common(old(image)@, command@, args@),
{
    if str_eq(command, "RUN") {
        parse_run(image, args);
    } else if str_eq(command, "FS") {
        parse_partition(image, args);
    } else if str_eq(command, "FILE") {
        parse_file(image, args);
    } else if str_eq(command, "CONFIG") {
        parse_config(image, args);
    } else if str_eq(command, "ON-DEVICE") {
        parse_on_device(image, args);
    } else if str_eq(command, "PREBUILT") {
        parse_prebuilt(image, args);
    } else if str_eq(command, "ENTRYPOINT") {
        parse_entrypoint(image, args);
    } else if str_eq(command, "PXE_KERNEL") {
        parse_pxe_kernel(image, args);
    } else if str_eq(command, "PXE_OPTIONS") {
        parse_pxe_options(image, args);
    }
}

/// Applies a command to the ARM builder's settings.
pub fn apply_arm(preamble: &mut ArmPreamble, command: &str, args: &str)
    ensures
        final(preamble)@ == after_arm(old(preamble)@, command@, args@),
{
    if str_eq(command, "FROM") {
        parse_arm_from(preamble, args);
    } else if str_eq(command, "CHECKSUM") {
        parse_arm_checksum(preamble, args);
    }
}

/// Applies a command to the x86 builder's settings.
pub fn apply_x86(preamble: &mut X86Preamble, command: &str, args: &str)
    ensures
        final(preamble)@ == after_x86(old(preamble)@, command@, args@),
{
    if str_eq(command, "FROM") {
        parse_x86_from(preamble, args);
    } else if str_eq(command, "CHECKSUM") {
        parse_x86_checksum(preamble, args);
    } else if str_eq(command, "BOOTCMD") {
        parse_boot_cmd(preamble, args);
    } else if str_eq(command, "PRESEED") {
        parse_x86_preseed(preamble, args);
    } else if str_eq(command, "OBSERVE_BUILD") {
        parse_x86_set_headless(preamble, args);
    } else if str_eq(command, "VM_TYPE") {
        parse_x86_set_vm_type(preamble, args);
    } else if str_eq(command, "SSH_USER") {
        parse_x86_set_ssh_username(preamble, args);
    } else if str_eq(command, "SSH_PASSWORD") {
        parse_x86_set_ssh_password(preamble, args);
    } else if str_eq(command, "SHUTDOWN_CMD") {
        parse_x86_set_shutdown_cmd(preamble, args);
    } else if str_eq(command, "BOOT_TIME") {
        parse_x86_set_boot_time(preamble, args);
    }
}

/// Reads a recipe. A recipe has to select its architecture, once; otherwise
/// nothing is read. The commands are applied in their order; what a command
/// cannot read leaves the recipe as it was.
pub fn parse(content: &str) -> (r: Option<Imagefile>)
    ensures
        match r {
            Some(image) => {
                &&& architecture_of(commands(content@)) == Some(image@.architecture)
                &&& exists|vm_name: Seq<char>|
                    image@ == after_commands(
                        #[trigger] ImagefileView::fresh(
                            "generated.img"@,
                            image@.architecture,
                            vm_name,
                        ),
                        commands(content@),
                    )
            },
            None => architecture_of(commands(content@)) is None,
        },
{
    let list = sanitize_content(content);
    let architecture = match get_architecture(&list) {
        Some(architecture) => architecture,
        None => {
            return None;
        },
    };
    let mut image = Imagefile::new(String::from_str("generated.img"), &architecture);
    let ghost start = image@;
    let mut i: usize = 0;
    assert(command_texts(list@).take(0) =~= Seq::<(Seq<char>, Seq<char>)>::empty());
    while i < list.len()
        invariant
            i <= list.len(),
            image@ == after_commands(start, command_texts(list@).take(i as int)),
        decreases list.len() - i,
    {
        proof {
            let next = command_texts(list@).take(i + 1);
            assert(next.drop_last() =~= command_texts(list@).take(i as int));
            assert(next.last() == (list@[i as int].0@, list@[i as int].1@));
        }
        let command = list[i].0.as_str();
        let args = list[i].1.as_str();
        apply_common(&mut image, command, args);
        match &mut image.preamble {
            Preamble::Arm(preamble) => apply_arm(preamble, command, args),
            Preamble::X86(preamble) => apply_x86(preamble, command, args),
        }
        i += 1;
    }
    assert(command_texts(list@).take(i as int) =~= command_texts(list@));
    assert(start == ImagefileView::fresh("generated.img"@, architecture, start.vm_name()));
    proof {
        lemma_architecture_kept(start, command_texts(list@));
    }
    Some(image)
}

/// No command changes a recipe's architecture.
pub proof fn lemma_architecture_kept(image: ImagefileView, list: Seq<(Seq<char>, Seq<char>)>)
    ensures
        after_commands(image, list).architecture == image.architecture,
    decreases list.len(),
{
    if list.len() > 0 {
        lemma_architecture_kept(image, list.drop_last());
        let before = after_commands(image, list.drop_last());
        lemma_runs_keep_architecture(before, entrypoint_lines(list.last().1));
    }
}

/// No shell step changes a recipe's architecture.
pub proof fn lemma_runs_keep_architecture(image: ImagefileView, list: Seq<Seq<char>>)
    ensures
        after_runs(image, list).architecture == image.architecture,
    decreases list.len(),
{
    if list.len() > 0 {
        lemma_runs_keep_architecture(image, list.drop_last());
    }
}

} // verus!
