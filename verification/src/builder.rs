use crate::bootconfig::{all_files, group, unique};
use crate::command::{call, Invocation, InvocationView};
use crate::configuration::{bootconfig_views, Configuration, ConfigurationView};
use crate::imagefile::{Imagefile, ImagefileView};
use crate::mountpoint::{
    get_mount_order, in_mount_order, mountpoint_views, mounts_in, mounts_well_formed, Mountpoint,
    MountpointView,
};
use crate::preamble::PreambleView;
use crate::provisioner::{provisioner_views, ProvisionerView, Types};
use crate::table::{put, put_all, values_of, Table};
use crate::text::{
    join, join2, join3, join4, join5, join6, join7, joined, lines, pieces, split_char, texts,
};
use vstd::prelude::*;

verus! {

/// The directory in which an image is built, and which is packed.
pub const BUILD_DIRECTORY: &'static str = "os-build";

/// The directory, in the build directory, that holds the base image.
pub const BASEIMAGE_DIRECTORY: &'static str = "base";

/// Whether a text is an absolute address, as the URL standard reads it.
pub uninterp spec fn is_url(text: Seq<char>) -> bool;

/// Whether a text can be read as an address (`Url::parse`): the parser takes
/// the text alone, without a base, and either gives an address or an error.
#[verifier::external_body]
pub(crate) fn parses_as_url(text: &str) -> (r: bool)
    ensures
        r == is_url(text@),
{
    url::Url::parse(text).is_ok()
}

/// Where the base image of a recipe is taken from.
#[derive(Debug, Clone, Copy, PartialEq, Eq, Structural)]
pub enum BaseImage {
    /// A file on the building machine, which is copied into the sandbox.
    Local,
    /// An address, from which the builder itself fetches the image.
    Remote,
    /// An image of the cluster, which is pulled from the image server.
    Registry,
}

/// Where a base image is taken from, given whether a file of its name exists
/// and whether the name is an address.
pub fn base_image_kind(present: bool, names_url: bool) -> (kind: BaseImage)
    ensures
        kind == if present {
            BaseImage::Local
        } else if names_url {
            BaseImage::Remote
        } else {
            BaseImage::Registry
        },
{
    if present {
        BaseImage::Local
    } else if names_url {
        BaseImage::Remote
    } else {
        BaseImage::Registry
    }
}

/// Tells where the base image of the given name is taken from: a file that
/// exists is taken as it is; otherwise an address is left to the builder, and
/// any other name is looked up on the image server.
pub fn classify_base_image(present: bool, image: &str) -> (kind: BaseImage)
    ensures
        kind == if present {
            BaseImage::Local
        } else if is_url(image@) {
            BaseImage::Remote
        } else {
            BaseImage::Registry
        },
{
    if present {
        BaseImage::Local
    } else {
        base_image_kind(false, parses_as_url(image))
    }
}

/// The mount points under their paths.
pub open spec fn by_path(list: Seq<MountpointView>) -> Seq<(Seq<char>, MountpointView)> {
    Seq::new(list.len(), |i: int| (list[i].full_path(), list[i]))
}

/// What the mount points of a table hold.
pub open spec fn mount_entries(entries: Seq<(Seq<char>, Mountpoint)>) -> Seq<
    (Seq<char>, MountpointView),
> {
    Seq::new(entries.len(), |i: int| (entries[i].0, entries[i].1@))
}

/// Puts mount points into a table, each under its path. A mount point takes
/// the place of the one that stood under its path.
pub fn merge_mount_order(base: &mut Table<Mountpoint>, found: Vec<Mountpoint>)
    ensures
        mount_entries(final(base)@) == put_all(
            mount_entries(old(base)@),
            by_path(mountpoint_views(found@)),
        ),
{
    let mut i: usize = 0;
    assert(by_path(mountpoint_views(found@)).take(0) =~= Seq::<(Seq<char>, MountpointView)>::empty());
    while i < found.len()
        invariant
            i <= found.len(),
            mount_entries(base@) == put_all(
                mount_entries(old(base)@),
                by_path(mountpoint_views(found@)).take(i as int),
            ),
        decreases found.len() - i,
    {
        let mountpoint = found[i].clone();
        let path = mountpoint.get_path();
        proof {
            let next = by_path(mountpoint_views(found@)).take(i + 1);
            assert(next.drop_last() =~= by_path(mountpoint_views(found@)).take(i as int));
            assert(next.last() == (path@, mountpoint@));
            lemma_mount_entries_put(base@, path@, mountpoint);
        }
        base.insert(path, mountpoint);
        i += 1;
    }
    assert(by_path(mountpoint_views(found@)).take(i as int) =~= by_path(mountpoint_views(found@)));
}

/// Putting a mount point into a table puts what it holds into what the table
/// holds.
pub proof fn lemma_mount_entries_put(
    entries: Seq<(Seq<char>, Mountpoint)>,
    key: Seq<char>,
    value: Mountpoint,
)
    ensures
        mount_entries(put(entries, key, value)) == put(mount_entries(entries), key, value@),
{
    crate::table::lemma_position_by_keys(entries, mount_entries(entries), key);
    crate::table::lemma_position(entries, key);
    assert(mount_entries(put(entries, key, value)) =~= put(mount_entries(entries), key, value@));
}

/// When the mount order of a base image is merged with what the builder
/// mounted, the later value wins for each path: the mount point under a path
/// is the last that the builder mounted there, or, where it mounted none
/// there, that of the base image.
pub proof fn lemma_later_mount_wins(
    base: Seq<(Seq<char>, MountpointView)>,
    found: Seq<MountpointView>,
    path: Seq<char>,
)
    ensures
        crate::table::value_of(put_all(base, by_path(found)), path) == match crate::table::last_under(
            by_path(found),
            path,
        ) {
            Some(mountpoint) => Some(mountpoint),
            None => crate::table::value_of(base, path),
        },
{
    crate::table::lemma_put_all(base, by_path(found));
}

/// The table of the mount points of a manifest, each under its path.
pub fn mount_table(configuration: &Configuration) -> (table: Table<Mountpoint>)
    ensures
        mount_entries(table@) == put_all(seq![], by_path(configuration@.mountorder)),
{
    let mut table: Table<Mountpoint> = Table::new();
    assert(mount_entries(table@) =~= Seq::<(Seq<char>, MountpointView)>::empty());
    let mut list: Vec<Mountpoint> = Vec::new();
    let mut i: usize = 0;
    while i < configuration.mountorder.len()
        invariant
            i <= configuration.mountorder.len(),
            mountpoint_views(list@) == mountpoint_views(configuration.mountorder@).take(i as int),
        decreases configuration.mountorder.len() - i,
    {
        let ghost before = mountpoint_views(list@);
        let mountpoint = configuration.mountorder[i].clone();
        list.push(mountpoint);
        assert(mountpoint_views(list@) =~= before.push(mountpoint@));
        assert(mountpoint_views(configuration.mountorder@).take(i + 1) =~= mountpoint_views(
            configuration.mountorder@,
        ).take(i as int).push(mountpoint@));
        i += 1;
    }
    assert(mountpoint_views(configuration.mountorder@).take(i as int) =~= mountpoint_views(
        configuration.mountorder@,
    ));
    merge_mount_order(&mut table, list);
    table
}

/// Takes the manifest of a base image from the image server into a recipe:
/// the manifests are merged, and the base image is looked for where it was
/// unpacked. Gives the mount points of the merged manifest under their paths.
/// A base image without a mount order is an error, and only the manifest is
/// merged then.
pub fn handle_repo_base_image(imagefile: &mut Imagefile, configuration: Configuration, sandbox: &str) -> (r:
    Result<Table<Mountpoint>, &'static str>)
    requires
        old(imagefile)@.preamble.names_base_image(),
    ensures
        ({
            let merged = old(imagefile)@.configuration.merged(configuration@);
            match r {
                Ok(table) => {
                    &&& merged.mountorder.len() > 0
                    &&& final(imagefile)@ == (ImagefileView {
                        configuration: merged,
                        preamble: old(imagefile)@.preamble.with_filepath(unpacked_base(sandbox@)),
                        ..old(imagefile)@
                    })
                    &&& mount_entries(table@) == put_all(seq![], by_path(merged.mountorder))
                },
                Err(message) => {
                    &&& merged.mountorder.len() == 0
                    &&& message@ == "No Mountorder found"@
                    &&& final(imagefile)@ == (ImagefileView {
                        configuration: merged,
                        ..old(imagefile)@
                    })
                },
            }
        }),
{
    imagefile.configuration.merge(configuration);
    if imagefile.configuration.mountorder.len() == 0 {
        assert(imagefile@.configuration.mountorder.len() == 0);
        Err("No Mountorder found")
    } else {
        assert(imagefile@.configuration.mountorder.len() > 0);
        let path = join7(
            "./",
            BASEIMAGE_DIRECTORY,
            "/",
            sandbox,
            "/",
            BUILD_DIRECTORY,
            "/generated.img",
        );
        imagefile.preamble.set_filepath(path.as_str());
        Ok(mount_table(&imagefile.configuration))
    }
}

/// The disk image of a base image that was unpacked in the given sandbox, as
/// the builder sees it.
pub open spec fn unpacked_base(sandbox: Seq<char>) -> Seq<char> {
    "./"@ + BASEIMAGE_DIRECTORY@ + "/"@ + sandbox + "/"@ + BUILD_DIRECTORY@ + "/generated.img"@
}

/// Takes what the builder printed into a recipe: the mount points that it
/// names are merged into those of the base image, and the merged mount points
/// become the mount order of the manifest. Tells whether there was any mount
/// point; where there was none the manifest stays as it is.
pub fn take_mount_order(imagefile: &mut Imagefile, base: Table<Mountpoint>, stdout: &str) -> (taken: bool)
    requires
        mounts_well_formed(lines(stdout@)),
    ensures
        ({
            let merged = put_all(
                mount_entries(base@),
                by_path(in_mount_order(mounts_in(lines(stdout@)))),
            );
            &&& taken == (merged.len() > 0)
            &&& final(imagefile)@ == if taken {
                ImagefileView {
                    configuration: ConfigurationView {
                        mountorder: values_of(merged),
                        ..old(imagefile)@.configuration
                    },
                    ..old(imagefile)@
                }
            } else {
                old(imagefile)@
            }
        }),
{
    let mut table = base;
    let found = get_mount_order(stdout);
    merge_mount_order(&mut table, found);
    assert(mountpoint_views(values_of(table@)) =~= values_of(mount_entries(table@)));
    assert(mount_entries(table@).len() == table@.len());
    imagefile.configuration.mountorder_to_vec(table)
}

/// Makes the manifest of a recipe ready to be written: it gets the recipe's
/// architecture, and its lists of files to fill in become one list that holds
/// each file once.
pub fn write_configuration(imagefile: &mut Imagefile)
    ensures
        final(imagefile)@ == (ImagefileView {
            configuration: ConfigurationView {
                architecture: old(imagefile)@.architecture,
                bootconfigs: seq![unique(all_files(old(imagefile).configuration.bootconfigs@))],
                ..old(imagefile)@.configuration
            },
            ..old(imagefile)@
        }),
{
    imagefile.configuration.architecture = imagefile.architecture;
    let bootconfig = group(imagefile.configuration.bootconfigs.as_slice());
    imagefile.configuration.bootconfigs.clear();
    imagefile.configuration.bootconfigs.push(bootconfig);
    assert(imagefile@.configuration.bootconfigs =~= seq![bootconfig@]);
}

/// The call that puts an image that is built already into the build
/// directory.
pub fn move_prebuilt_image_to_sandbox(imagefile: &Imagefile) -> (r: Invocation)
    requires
        imagefile@.preamble.names_base_image(),
    ensures
        r@ == call(
            "cp"@,
            seq![imagefile@.preamble.filename(), "./"@ + BUILD_DIRECTORY@ + "/generated.img"@],
        ),
{
    let r = Invocation::new("cp").arg_str(imagefile.preamble.get_filename()).arg(
        join3("./", BUILD_DIRECTORY, "/generated.img"),
    );
    assert(r@.arguments =~= seq![
        imagefile@.preamble.filename(),
        "./"@ + BUILD_DIRECTORY@ + "/generated.img"@,
    ]);
    r
}

/// The build directory.
pub fn build_directory() -> (path: String)
    ensures
        path@ == "./"@ + BUILD_DIRECTORY@,
{
    join2("./", BUILD_DIRECTORY)
}

/// The directory of the base image in the build directory.
pub fn base_directory() -> (path: String)
    ensures
        path@ == "./"@ + BUILD_DIRECTORY@ + "/"@ + BASEIMAGE_DIRECTORY@,
{
    join4("./", BUILD_DIRECTORY, "/", BASEIMAGE_DIRECTORY)
}

/// The directory in which the builder keeps what it fetched.
pub fn packer_cache() -> (path: String)
    ensures
        path@ == "./"@ + BUILD_DIRECTORY@ + "/"@ + "packer_cache"@,
{
    join4("./", BUILD_DIRECTORY, "/", "packer_cache")
}

/// The file into which the builder input is written.
pub fn write_pkr_hcl(filename: &str) -> (path: String)
    ensures
        path@ == "./"@ + BUILD_DIRECTORY@ + "/"@ + filename@,
{
    join4("./", BUILD_DIRECTORY, "/", filename)
}

/// The file into which the manifest is written.
pub fn configuration_file() -> (path: String)
    ensures
        path@ == BUILD_DIRECTORY@ + "/configuration.json"@,
{
    join2(BUILD_DIRECTORY, "/configuration.json")
}

/// The call that builds an ARM image: the builder runs in a container that
/// may do everything, sees the devices of the machine, and finds the build
/// directory under /build.
pub fn docker_packer(file: &str, current_directory: &str, name: &str) -> (r: Invocation)
    ensures
        r@ == call(
            "docker"@,
            seq![
                "run"@,
                "--rm"@,
                "--name"@,
                name@,
                "--privileged"@,
                "-v"@,
                "/dev:/dev"@,
                "-v"@,
                current_directory@ + "/"@ + BUILD_DIRECTORY@ + ":/build"@,
                "mkaczanowski/packer-builder-arm"@,
                "build"@,
                file@,
            ],
        ),
{
    let r = Invocation::new("docker").arg_str("run").arg_str("--rm").arg_str("--name").arg_str(
        name,
    ).arg_str("--privileged").arg_str("-v").arg_str("/dev:/dev").arg_str("-v").arg(
        join4(current_directory, "/", BUILD_DIRECTORY, ":/build"),
    ).arg_str("mkaczanowski/packer-builder-arm").arg_str("build").arg_str(file);
    assert(r@.arguments =~= seq![
        "run"@,
        "--rm"@,
        "--name"@,
        name@,
        "--privileged"@,
        "-v"@,
        "/dev:/dev"@,
        "-v"@,
        current_directory@ + "/"@ + BUILD_DIRECTORY@ + ":/build"@,
        "mkaczanowski/packer-builder-arm"@,
        "build"@,
        file@,
    ]);
    r
}

/// The call that reads what the container of the given name has printed.
pub fn docker_logs(name: &str) -> (r: Invocation)
    ensures
        r@ == call("docker"@, seq!["logs"@, "-f"@, name@]),
{
    let r = Invocation::new("docker").arg_str("logs").arg_str("-f").arg_str(name);
    assert(r@.arguments =~= seq!["logs"@, "-f"@, name@]);
    r
}

/// What to do after the log of the building container was asked for.
#[derive(Debug, Clone, Copy, PartialEq, Eq, Structural)]
pub enum Poll {
    /// The builder has printed something: the log is taken, and asked for no
    /// more.
    Finished,
    /// The builder has printed nothing yet, but errors: they are shown, and
    /// the log is asked for again.
    ShowErrors,
    /// Nothing was printed yet: the log is asked for again.
    Again,
    /// The log could not be had: that is said, and the log is asked for again.
    ShowFailure,
}

/// What to do after the log of the building container was asked for, given
/// whether the call succeeded and whether it gave any output or errors.
pub fn docker_poll(succeeded: bool, output_empty: bool, errors_empty: bool) -> (poll: Poll)
    ensures
        poll == if !succeeded {
            Poll::ShowFailure
        } else if !output_empty {
            Poll::Finished
        } else if !errors_empty {
            Poll::ShowErrors
        } else {
            Poll::Again
        },
{
    if !succeeded {
        Poll::ShowFailure
    } else if !output_empty {
        Poll::Finished
    } else if !errors_empty {
        Poll::ShowErrors
    } else {
        Poll::Again
    }
}

/// What came of a build in a container: what the builder printed, where it
/// ended well and printed anything, and an error else.
pub fn docker_outcome(success: bool, stdout: String) -> (r: Result<String, String>)
    ensures
        match r {
            Ok(text) => success && stdout@.len() > 0 && text == stdout,
            Err(message) => !(success && stdout@.len() > 0) && message@
                == "Could not execute docker command, check if docker is installed and running"@,
        },
{
    if success && !stdout.as_str().is_empty() {
        return Ok(stdout);
    }
    Err(
        String::from_str(
            "Could not execute docker command, check if docker is installed and running",
        ),
    )
}

/// The call that builds an x86 image: the builder runs in the build
/// directory.
pub fn native_packer(file: &str, pwd: &str) -> (r: Invocation)
    ensures
        r@ == (InvocationView {
            program: "packer"@,
            arguments: seq!["build"@, pwd@ + "/"@ + BUILD_DIRECTORY@ + "/"@ + file@],
            directory: Some(pwd@ + "/"@ + BUILD_DIRECTORY@ + "/"@),
        }),
{
    let r = Invocation::new("packer").arg_str("build").arg(
        join5(pwd, "/", BUILD_DIRECTORY, "/", file),
    ).current_dir(join4(pwd, "/", BUILD_DIRECTORY, "/"));
    assert(r@.arguments =~= seq!["build"@, pwd@ + "/"@ + BUILD_DIRECTORY@ + "/"@ + file@]);
    r
}

/// The call that packs the build directory into the archive of the given tag.
pub fn zip_image(tag: &str) -> (r: Invocation)
    ensures
        r@ == call("zip"@, seq!["-r"@, tag@ + ".zip"@, "./"@ + BUILD_DIRECTORY@]),
{
    let r = Invocation::new("zip").arg_str("-r").arg(join2(tag, ".zip")).arg(
        join2("./", BUILD_DIRECTORY),
    );
    assert(r@.arguments =~= seq!["-r"@, tag@ + ".zip"@, "./"@ + BUILD_DIRECTORY@]);
    r
}

/// The archive of a base image from the image server, in the build directory.
pub open spec fn base_archive(image: Seq<char>) -> Seq<char> {
    "./"@ + BUILD_DIRECTORY@ + "/"@ + BASEIMAGE_DIRECTORY@ + "/"@ + image + ".zip"@
}

/// The archive into which a base image is pulled from the image server.
pub fn get_base_image_from_repo(image: &str) -> (path: String)
    ensures
        path@ == base_archive(image@),
{
    join6("./", BUILD_DIRECTORY, "/", BASEIMAGE_DIRECTORY, "/", join2(image, ".zip").as_str())
}

/// The sandbox in which a base image is unpacked.
pub fn create_base_image_tmp_directory(directory: &str) -> (path: String)
    ensures
        path@ == "./"@ + BUILD_DIRECTORY@ + "/"@ + BASEIMAGE_DIRECTORY@ + "/"@ + directory@,
{
    join6("./", BUILD_DIRECTORY, "/", BASEIMAGE_DIRECTORY, "/", directory)
}

/// The call that unpacks a base image into its sandbox.
pub fn unpack_base_image(image: &str, sandbox: &str) -> (r: Invocation)
    ensures
        r@ == call(
            "unzip"@,
            seq![
                base_archive(image@),
                "-d"@,
                "./"@ + BUILD_DIRECTORY@ + "/"@ + BASEIMAGE_DIRECTORY@ + "/"@ + sandbox@,
            ],
        ),
{
    let archive = get_base_image_from_repo(image);
    let r = Invocation::new("unzip").arg(archive).arg_str("-d").arg(
        create_base_image_tmp_directory(sandbox),
    );
    assert(r@.arguments =~= seq![
        base_archive(image@),
        "-d"@,
        "./"@ + BUILD_DIRECTORY@ + "/"@ + BASEIMAGE_DIRECTORY@ + "/"@ + sandbox@,
    ]);
    r
}

/// The manifest of a base image that was unpacked in the given sandbox.
pub fn read_configuration_of_base_image(directory: &str) -> (path: String)
    ensures
        path@ == "./"@ + BUILD_DIRECTORY@ + "/"@ + BASEIMAGE_DIRECTORY@ + "/"@ + directory@
            + "/os-build/configuration.json"@,
{
    join7(
        "./",
        BUILD_DIRECTORY,
        "/",
        BASEIMAGE_DIRECTORY,
        "/",
        directory,
        "/os-build/configuration.json",
    )
}

/// The file that holds the checksum of an image, and what is written into it.
pub fn generate_sha256(filename: &str, sum: &str) -> (r: (String, String))
    ensures
        r.0@ == filename@ + ".sha256"@,
        r.1@ == sum@ + " generated.img\n"@,
{
    (join2(filename, ".sha256"), join2(sum, " generated.img\n"))
}

/// Takes a base image that lies on the building machine into a recipe: the
/// builder finds it in the directory of the base image. Gives the call that
/// copies it there, and the file beside it that may hold its checksum.
pub fn move_base_image_to_sandbox(image: &str, imagefile: &mut Imagefile) -> (r: (Invocation, String))
    requires
        old(imagefile)@.preamble.names_base_image(),
    ensures
        r.0@ == call("cp"@, seq![image@, "./"@ + BUILD_DIRECTORY@ + "/"@ + BASEIMAGE_DIRECTORY@]),
        r.1@ == image@ + "."@ + old(imagefile)@.preamble.checksum_type(),
        final(imagefile)@ == (ImagefileView {
            preamble: old(imagefile)@.preamble.with_filepath(
                "./"@ + BASEIMAGE_DIRECTORY@ + "/"@ + image@,
            ),
            ..old(imagefile)@
        }),
{
    let copy = Invocation::new("cp").arg_str(image).arg(base_directory());
    assert(copy@.arguments =~= seq![image@, "./"@ + BUILD_DIRECTORY@ + "/"@ + BASEIMAGE_DIRECTORY@]);
    let checksum = join3(image, ".", imagefile.preamble.get_checksum_type().as_str());
    imagefile.preamble.set_filepath(join4("./", BASEIMAGE_DIRECTORY, "/", image).as_str());
    (copy, checksum)
}

/// The file to copy and the place in the build directory to copy it to.
pub open spec fn staged(source: Seq<char>) -> (Seq<char>, Seq<char>) {
    (source, "./"@ + BUILD_DIRECTORY@ + "/"@ + source)
}

/// The sources of the file steps of a recipe, each with its place in the build
/// directory, in the order of the steps.
pub open spec fn staged_files(steps: Seq<ProvisionerView>) -> Seq<(Seq<char>, Seq<char>)>
    decreases steps.len(),
{
    if steps.len() == 0 {
        seq![]
    } else if steps.last().provisioner == Types::FILE && steps.last().command.len() == 2 {
        staged_files(steps.drop_last()).push(staged(steps.last().command[0]))
    } else {
        staged_files(steps.drop_last())
    }
}

/// The files that the file steps of a recipe copy into the image, each with
/// the place in the build directory at which the builder looks for it.
pub fn move_files_to_sandbox(imagefile: &Imagefile) -> (r: Vec<(String, String)>)
    ensures
        crate::deployer::placeholder_texts(r@) == staged_files(imagefile@.provisioners),
{
    let mut r: Vec<(String, String)> = Vec::new();
    let mut i: usize = 0;
    assert(crate::deployer::placeholder_texts(r@) =~= staged_files(imagefile@.provisioners.take(0)));
    while i < imagefile.provisioners.len()
        invariant
            i <= imagefile.provisioners.len(),
            crate::deployer::placeholder_texts(r@) == staged_files(
                imagefile@.provisioners.take(i as int),
            ),
        decreases imagefile.provisioners.len() - i,
    {
        let ghost before = crate::deployer::placeholder_texts(r@);
        proof {
            let next = imagefile@.provisioners.take(i + 1);
            assert(next.drop_last() =~= imagefile@.provisioners.take(i as int));
            assert(next.last() == imagefile.provisioners@[i as int]@);
        }
        match imagefile.provisioners[i].get_type() {
            Types::FILE => {
                let cmd = imagefile.provisioners[i].get_command();
                assert(texts(cmd@).len() == cmd@.len());
                assert(texts(cmd@)[0] == cmd@[0]@);
                let source = cmd[0].clone();
                let path = join4("./", BUILD_DIRECTORY, "/", source.as_str());
                r.push((source, path));
                assert(crate::deployer::placeholder_texts(r@) =~= before.push((source@, path@)));
            },
            Types::SHELL => {},
        }
        i += 1;
    }
    assert(imagefile@.provisioners.take(i as int) =~= imagefile@.provisioners);
    r
}

/// The directory of a path: the path without what follows its last slash.
pub open spec fn parent(path: Seq<char>) -> Seq<char> {
    joined(pieces(path, '/').drop_last(), "/"@)
}

/// The directory in which a file lies.
pub fn parent_directory(path: &str) -> (directory: String)
    ensures
        directory@ == parent(path@),
{
    let mut items = split_char(path, '/');
    proof {
        crate::text::lemma_pieces_len(path@, '/');
        assert(texts(items@).len() == items@.len());
    }
    let ghost all = texts(items@);
    let n = items.len();
    items.truncate(n - 1);
    assert(texts(items@) =~= all.drop_last());
    join(&items, "/")
}

/// The place in the build directory from which the preseed file is served to
/// the installer: the directory http, under the file's own name.
pub open spec fn preseed_place(source: Seq<char>) -> Seq<char> {
    "./"@ + BUILD_DIRECTORY@ + "/http/"@ + pieces(source, '/').last()
}

/// Where the preseed file of a recipe goes, where the recipe names one: the
/// file, and its place in the build directory.
pub fn move_preseed_file(imagefile: &Imagefile) -> (r: Option<(String, String)>)
    ensures
        match r {
            Some(moved) => imagefile@.preamble.preseed_file().len() > 0 && moved.0@
                == imagefile@.preamble.preseed_file() && moved.1@ == preseed_place(
                imagefile@.preamble.preseed_file(),
            ),
            None => imagefile@.preamble.preseed_file().len() == 0,
        },
{
    let source_path = imagefile.preamble.get_preseed_file();
    if !source_path.as_str().is_empty() {
        let directory = split_char(source_path.as_str(), '/');
        proof {
            crate::text::lemma_pieces_len(source_path@, '/');
            assert(texts(directory@).len() == directory@.len());
            assert(texts(directory@).last() == directory@[directory.len() - 1]@);
        }
        let path = join4("./", BUILD_DIRECTORY, "/http/", directory[directory.len() - 1].as_str());
        return Some((source_path, path));
    }
    None
}

/// The steps of building an image.
#[derive(Debug, Clone, Copy, PartialEq, Eq, Structural)]
pub enum BuildStep {
    /// The build directory is removed, if it is there, and made anew.
    CleanDirectory,
    /// The image that is built already is copied into the build directory.
    CopyPrebuilt,
    /// The base image is looked for: on this machine, at an address, or on
    /// the image server.
    ResolveBaseImage,
    /// The files that are copied into the image are staged.
    StageFiles,
    /// The builder input file is written.
    WriteBuilderInput,
    /// The preseed file is staged, where there is one.
    StagePreseed,
    /// The builder runs.
    RunBuilder,
    /// The mount order is read from what the builder printed.
    TakeMountOrder,
    /// The manifest is written.
    WriteConfiguration,
    /// Base image and builder cache are removed.
    Cleanup,
    /// The build directory is packed into the archive of the image.
    Compress,
    /// The build directory is removed.
    RemoveDirectory,
}

/// The steps by which an image is built that is built already: it is copied,
/// and packed with its manifest.
pub open spec fn prebuilt_steps() -> Seq<BuildStep> {
    seq![
        BuildStep::CleanDirectory,
        BuildStep::CopyPrebuilt,
        BuildStep::WriteConfiguration,
        BuildStep::Cleanup,
        BuildStep::Compress,
        BuildStep::RemoveDirectory,
    ]
}

/// The steps by which an image is built from a recipe.
pub open spec fn recipe_steps() -> Seq<BuildStep> {
    seq![
        BuildStep::CleanDirectory,
        BuildStep::ResolveBaseImage,
        BuildStep::StageFiles,
        BuildStep::WriteBuilderInput,
        BuildStep::StagePreseed,
        BuildStep::RunBuilder,
        BuildStep::TakeMountOrder,
        BuildStep::WriteConfiguration,
        BuildStep::Cleanup,
        BuildStep::Compress,
        BuildStep::RemoveDirectory,
    ]
}

/// Begins the build of an image: the recipe gets the tag as the name of its
/// image. Gives the steps of the build, in order. An image that is built
/// already is carried through as it is.
pub fn build(imagefile: &mut Imagefile, tag: &str) -> (steps: Vec<BuildStep>)
    ensures
        final(imagefile)@ == (ImagefileView {
            configuration: ConfigurationView { name: tag@, ..old(imagefile)@.configuration },
            ..old(imagefile)@
        }),
        steps@ == if old(imagefile)@.configuration.prebuilt {
            prebuilt_steps()
        } else {
            recipe_steps()
        },
{
    set_tag(imagefile, tag);
    let mut steps: Vec<BuildStep> = Vec::new();
    steps.push(BuildStep::CleanDirectory);
    if imagefile.configuration.prebuilt {
        steps.push(BuildStep::CopyPrebuilt);
    } else {
        steps.push(BuildStep::ResolveBaseImage);
        steps.push(BuildStep::StageFiles);
        steps.push(BuildStep::WriteBuilderInput);
        steps.push(BuildStep::StagePreseed);
        steps.push(BuildStep::RunBuilder);
        steps.push(BuildStep::TakeMountOrder);
    }
    steps.push(BuildStep::WriteConfiguration);
    steps.push(BuildStep::Cleanup);
    steps.push(BuildStep::Compress);
    steps.push(BuildStep::RemoveDirectory);
    assert(steps@ =~= if old(imagefile)@.configuration.prebuilt {
        prebuilt_steps()
    } else {
        recipe_steps()
    });
    steps
}

/// Gives a recipe the name under which its image is known.
pub fn set_tag(imagefile: &mut Imagefile, tag: &str)
    ensures
        final(imagefile)@ == (ImagefileView {
            configuration: ConfigurationView { name: tag@, ..old(imagefile)@.configuration },
            ..old(imagefile)@
        }),
{
    imagefile.configuration.name = String::from_str(tag);
}

} // verus!
