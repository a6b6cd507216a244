use vstd::prelude::*;

verus! {

/// The stations of bringing an image to a node. Each is named after what has
/// been done when it is reached.
#[derive(Debug, Clone, Copy, PartialEq, Eq, Structural)]
pub enum State {
    Start,
    SandboxCreated,
    ImageUnpacked,
    ConfigRead,
    DefaultOsProvisioned,
    NodeRebooted,
    ImageCopiedToNode,
    SshAccessGranted,
    NodeUp,
    Flashed,
    RebootIssued,
    TftpUnmounted,
    NfsRootRemoved,
    VmdkConvertedToImg,
    LoopdevAttached,
    LvmActivated,
    PartitionsMounted,
    ResultDirCreated,
    PartitionsCopiedToResult,
    PartitionsUnmounted,
    VgsDeactivated,
    LoopdevDetached,
    BootconfigsResolved,
    PxeFileWritten,
    OldTftpUnmounted,
    ResultMovedToNfs,
    BootPartitionBindMountedInTftp,
    Done,
    SandboxDestroyed,
}

/// What decides the way of an image to a node: whether it is written to the
/// node's storage, whether it is an x86 image, whether its disk holds logical
/// volumes, and whether it is booted over the network by a boot loader.
#[derive(Debug, Clone, Copy, PartialEq, Eq, Structural)]
pub struct Traits {
    pub on_device: bool,
    pub x86: bool,
    pub lvm: bool,
    pub pxe: bool,
}

/// What a run holds on the server and has to give back.
#[derive(Debug, Clone, Copy, PartialEq, Eq, Structural)]
pub struct Holdings {
    pub sandbox: bool,
    pub loop_device: bool,
    pub volume_group: bool,
    pub mounts: bool,
}

/// The station that follows a station. A step that fails does not end the
/// run: the stations follow one another whatever comes of them, so that what
/// was taken is given back.
pub open spec fn successor(state: State, traits: Traits) -> Option<State> {
    match state {
        State::Start => Some(State::SandboxCreated),
        State::SandboxCreated => Some(State::ImageUnpacked),
        State::ImageUnpacked => Some(State::ConfigRead),
        State::ConfigRead => if traits.on_device {
            Some(State::DefaultOsProvisioned)
        } else if traits.x86 {
            Some(State::VmdkConvertedToImg)
        } else {
            Some(State::LoopdevAttached)
        },
        State::DefaultOsProvisioned => Some(State::NodeRebooted),
        State::NodeRebooted => Some(State::ImageCopiedToNode),
        State::ImageCopiedToNode => Some(State::SshAccessGranted),
        State::SshAccessGranted => Some(State::NodeUp),
        State::NodeUp => Some(State::Flashed),
        State::Flashed => Some(State::RebootIssued),
        State::RebootIssued => Some(State::TftpUnmounted),
        State::TftpUnmounted => Some(State::NfsRootRemoved),
        State::NfsRootRemoved => Some(State::Done),
        State::VmdkConvertedToImg => Some(State::LoopdevAttached),
        State::LoopdevAttached => if traits.lvm {
            Some(State::LvmActivated)
        } else {
            Some(State::PartitionsMounted)
        },
        State::LvmActivated => Some(State::PartitionsMounted),
        State::PartitionsMounted => Some(State::ResultDirCreated),
        State::ResultDirCreated => Some(State::PartitionsCopiedToResult),
        State::PartitionsCopiedToResult => Some(State::PartitionsUnmounted),
        State::PartitionsUnmounted => if traits.lvm {
            Some(State::VgsDeactivated)
        } else {
            Some(State::LoopdevDetached)
        },
        State::VgsDeactivated => Some(State::LoopdevDetached),
        State::LoopdevDetached => Some(State::BootconfigsResolved),
        State::BootconfigsResolved => if traits.pxe {
            Some(State::PxeFileWritten)
        } else {
            Some(State::OldTftpUnmounted)
        },
        State::PxeFileWritten => Some(State::OldTftpUnmounted),
        State::OldTftpUnmounted => Some(State::ResultMovedToNfs),
        State::ResultMovedToNfs => Some(State::BootPartitionBindMountedInTftp),
        State::BootPartitionBindMountedInTftp => Some(State::Done),
        State::Done => Some(State::SandboxDestroyed),
        State::SandboxDestroyed => None,
    }
}

/// How far a station is from the start.
pub open spec fn rank(state: State) -> nat {
    match state {
        State::Start => 0,
        State::SandboxCreated => 1,
        State::ImageUnpacked => 2,
        State::ConfigRead => 3,
        State::DefaultOsProvisioned => 4,
        State::NodeRebooted => 5,
        State::ImageCopiedToNode => 6,
        State::SshAccessGranted => 7,
        State::NodeUp => 8,
        State::Flashed => 9,
        State::RebootIssued => 10,
        State::TftpUnmounted => 11,
        State::NfsRootRemoved => 12,
        State::VmdkConvertedToImg => 4,
        State::LoopdevAttached => 5,
        State::LvmActivated => 6,
        State::PartitionsMounted => 7,
        State::ResultDirCreated => 8,
        State::PartitionsCopiedToResult => 9,
        State::PartitionsUnmounted => 10,
        State::VgsDeactivated => 11,
        State::LoopdevDetached => 12,
        State::BootconfigsResolved => 13,
        State::PxeFileWritten => 14,
        State::OldTftpUnmounted => 15,
        State::ResultMovedToNfs => 16,
        State::BootPartitionBindMountedInTftp => 17,
        State::Done => 18,
        State::SandboxDestroyed => 19,
    }
}

/// What a run holds after what a station is named after was done. The
/// sandbox is made first and destroyed last; the loop device is attached
/// before the partitions are mounted and detached after they are unmounted;
/// a volume group is taken into use after the loop device is attached and
/// released before it is detached.
pub open spec fn after(state: State, before: Holdings) -> Holdings {
    match state {
        State::SandboxCreated => Holdings { sandbox: true, ..before },
        State::LoopdevAttached => Holdings { loop_device: true, ..before },
        State::LvmActivated => Holdings { volume_group: true, ..before },
        State::PartitionsMounted => Holdings { mounts: true, ..before },
        State::PartitionsUnmounted => Holdings { mounts: false, ..before },
        State::VgsDeactivated => Holdings { volume_group: false, ..before },
        State::LoopdevDetached => Holdings { loop_device: false, ..before },
        State::SandboxDestroyed => Holdings { sandbox: false, ..before },
        _ => before,
    }
}

/// Nothing is held.
pub open spec fn nothing() -> Holdings {
    Holdings { sandbox: false, loop_device: false, volume_group: false, mounts: false }
}

/// What a run that began at the start, holding nothing, holds at a station.
pub open spec fn held(state: State, traits: Traits) -> Holdings {
    Holdings {
        sandbox: state != State::Start && state != State::SandboxDestroyed,
        loop_device: state == State::LoopdevAttached || state == State::LvmActivated || state
            == State::PartitionsMounted || state == State::ResultDirCreated || state
            == State::PartitionsCopiedToResult || state == State::PartitionsUnmounted || state
            == State::VgsDeactivated,
        volume_group: traits.lvm && (state == State::LvmActivated || state
            == State::PartitionsMounted || state == State::ResultDirCreated || state
            == State::PartitionsCopiedToResult || state == State::PartitionsUnmounted),
        mounts: state == State::PartitionsMounted || state == State::ResultDirCreated || state
            == State::PartitionsCopiedToResult,
    }
}

/// The station that a run reaches from a station in the given number of
/// steps, or the last station where the run ends before.
pub open spec fn reached(state: State, traits: Traits, steps: nat) -> State
    decreases steps,
{
    if steps == 0 {
        state
    } else {
        match successor(state, traits) {
            Some(next) => reached(next, traits, (steps - 1) as nat),
            None => state,
        }
    }
}

/// The station that follows a station, or nothing at the last station.
pub fn next_state(state: State, traits: Traits) -> (next: Option<State>)
    ensures
        next == successor(state, traits),
{
    match state {
        State::Start => Some(State::SandboxCreated),
        State::SandboxCreated => Some(State::ImageUnpacked),
        State::ImageUnpacked => Some(State::ConfigRead),
        State::ConfigRead => if traits.on_device {
            Some(State::DefaultOsProvisioned)
        } else if traits.x86 {
            Some(State::VmdkConvertedToImg)
        } else {
            Some(State::LoopdevAttached)
        },
        State::DefaultOsProvisioned => Some(State::NodeRebooted),
        State::NodeRebooted => Some(State::ImageCopiedToNode),
        State::ImageCopiedToNode => Some(State::SshAccessGranted),
        State::SshAccessGranted => Some(State::NodeUp),
        State::NodeUp => Some(State::Flashed),
        State::Flashed => Some(State::RebootIssued),
        State::RebootIssued => Some(State::TftpUnmounted),
        State::TftpUnmounted => Some(State::NfsRootRemoved),
        State::NfsRootRemoved => Some(State::Done),
        State::VmdkConvertedToImg => Some(State::LoopdevAttached),
        State::LoopdevAttached => if traits.lvm {
            Some(State::LvmActivated)
        } else {
            Some(State::PartitionsMounted)
        },
        State::LvmActivated => Some(State::PartitionsMounted),
        State::PartitionsMounted => Some(State::ResultDirCreated),
        State::ResultDirCreated => Some(State::PartitionsCopiedToResult),
        State::PartitionsCopiedToResult => Some(State::PartitionsUnmounted),
        State::PartitionsUnmounted => if traits.lvm {
            Some(State::VgsDeactivated)
        } else {
            Some(State::LoopdevDetached)
        },
        State::VgsDeactivated => Some(State::LoopdevDetached),
        State::LoopdevDetached => Some(State::BootconfigsResolved),
        State::BootconfigsResolved => if traits.pxe {
            Some(State::PxeFileWritten)
        } else {
            Some(State::OldTftpUnmounted)
        },
        State::PxeFileWritten => Some(State::OldTftpUnmounted),
        State::OldTftpUnmounted => Some(State::ResultMovedToNfs),
        State::ResultMovedToNfs => Some(State::BootPartitionBindMountedInTftp),
        State::BootPartitionBindMountedInTftp => Some(State::Done),
        State::Done => Some(State::SandboxDestroyed),
        State::SandboxDestroyed => None,
    }
}

/// The stations of a run, from the start to the destruction of the sandbox.
pub fn stations(traits: Traits) -> (path: Vec<State>)
    ensures
        path@.len() >= 2,
        path@[0] == State::Start,
        path@.last() == State::SandboxDestroyed,
        forall|i: int|
            0 <= i < path@.len() - 1 ==> successor(#[trigger] path@[i], traits) == Some(path@[i + 1]),
        forall|i: int| 0 <= i < path@.len() ==> #[trigger] path@[i] == reached(State::Start, traits, i as nat),
{
    let mut path: Vec<State> = Vec::new();
    let mut state = State::Start;
    path.push(state);
    loop
        invariant
            path@.len() >= 1,
            path@.last() == state,
            path@[0] == State::Start,
            forall|i: int|
                0 <= i < path@.len() - 1 ==> successor(#[trigger] path@[i], traits) == Some(
                    path@[i + 1],
                ),
            forall|i: int|
                0 <= i < path@.len() ==> #[trigger] path@[i] == reached(State::Start, traits, i as nat),
        decreases 19 - rank(state),
    {
        proof {
            lemma_successor(state, traits);
        }
        match next_state(state, traits) {
            Some(next) => {
                proof {
                    lemma_reached_step(State::Start, traits, (path@.len() - 1) as nat);
                }
                state = next;
                path.push(state);
            },
            None => {
                return path;
            },
        }
    }
}

/// One more step from where a run has come leads to the successor of that
/// station.
pub proof fn lemma_reached_step(state: State, traits: Traits, steps: nat)
    ensures
        successor(reached(state, traits, steps), traits) matches Some(next) ==> reached(
            state,
            traits,
            steps + 1,
        ) == next,
    decreases steps,
{
    assert(reached(state, traits, steps + 1) == match successor(state, traits) {
        Some(next) => reached(next, traits, steps),
        None => state,
    });
    if steps > 0 {
        match successor(state, traits) {
            Some(next) => {
                lemma_reached_step(next, traits, (steps - 1) as nat);
                assert(reached(next, traits, steps) == match successor(
                    reached(next, traits, (steps - 1) as nat),
                    traits,
                ) {
                    Some(then) => then,
                    None => reached(next, traits, steps),
                });
            },
            None => {},
        }
    } else {
        assert(reached(state, traits, 0) == state);
        match successor(state, traits) {
            Some(next) => {
                assert(reached(next, traits, 0) == next);
            },
            None => {},
        }
    }
}

/// Every station but the last has a successor, which lies further from the
/// start; the destruction of the sandbox comes after the run is done, and
/// after nothing else.
pub proof fn lemma_successor(state: State, traits: Traits)
    ensures
        successor(state, traits) is None <==> state == State::SandboxDestroyed,
        successor(state, traits) matches Some(next) ==> rank(next) > rank(state) && rank(next)
            <= 19,
        successor(state, traits) == Some(State::SandboxDestroyed) <==> state == State::Done,
{
}

/// What a run holds changes from station to station as the stations say:
/// what is taken at one station is held until the station that gives it back.
pub proof fn lemma_holdings_follow(state: State, traits: Traits)
    requires
        held(state, traits).volume_group ==> traits.lvm,
    ensures
        held(State::Start, traits) == nothing(),
        successor(state, traits) matches Some(next) ==> held(next, traits) == after(
            next,
            held(state, traits),
        ),
{
}

/// A run gives back what it took: when it is done, no loop device, mount or
/// volume group of the run is left, and after the station that follows, the
/// sandbox is gone as well. Every run comes to that station.
pub proof fn lemma_run_gives_back(traits: Traits)
    ensures
        !held(State::Done, traits).loop_device,
        !held(State::Done, traits).mounts,
        !held(State::Done, traits).volume_group,
        held(State::SandboxDestroyed, traits) == nothing(),
        reached(State::Start, traits, 19) == State::SandboxDestroyed,
        exists|steps: nat|
            steps < 19 && #[trigger] reached(State::Start, traits, steps) == State::Done && reached(
                State::Start,
                traits,
                steps + 1,
            ) == State::SandboxDestroyed,
{
    reveal_with_fuel(reached, 20);
    if traits.on_device {
        assert(reached(State::Start, traits, 13) == State::Done);
        assert(reached(State::Start, traits, 14) == State::SandboxDestroyed);
    } else {
        let base: nat = 14;
        let x: nat = if traits.x86 { 1 } else { 0 };
        let l: nat = if traits.lvm { 2 } else { 0 };
        let p: nat = if traits.pxe { 1 } else { 0 };
        assert(reached(State::Start, traits, base + x + l + p) == State::Done);
        assert(reached(State::Start, traits, base + x + l + p + 1) == State::SandboxDestroyed);
    }
}

/// The station that follows the reading of the manifest. Where the manifest
/// could be read, the run goes on as the image asks. Where it could not, the
/// run is given up before anything on the server or the node is changed: the
/// sandbox is destroyed next.
pub open spec fn after_reading(manifest: Option<Traits>) -> State {
    match manifest {
        Some(traits) => if traits.on_device {
            State::DefaultOsProvisioned
        } else if traits.x86 {
            State::VmdkConvertedToImg
        } else {
            State::LoopdevAttached
        },
        None => State::SandboxDestroyed,
    }
}

/// The station that follows the reading of the manifest, given what the
/// manifest tells of the image's way, or nothing where it could not be read.
pub fn after_manifest(manifest: Option<Traits>) -> (next: State)
    ensures
        next == after_reading(manifest),
        manifest matches Some(traits) ==> Some(next) == successor(State::ConfigRead, traits),
        manifest is None ==> next == State::SandboxDestroyed,
{
    match manifest {
        Some(traits) => if traits.on_device {
            State::DefaultOsProvisioned
        } else if traits.x86 {
            State::VmdkConvertedToImg
        } else {
            State::LoopdevAttached
        },
        None => State::SandboxDestroyed,
    }
}

/// Whether a run has brought the image to the node: it has where the archive
/// of the image was there and its manifest could be read. Steps that fail on
/// the way are reported, and do not make the run fail.
pub fn run_succeeded(archive_present: bool, manifest_read: bool) -> (succeeded: bool)
    ensures
        succeeded == (archive_present && manifest_read),
{
    archive_present && manifest_read
}

/// The stations of a run whose manifest cannot be read: the sandbox is made,
/// the image unpacked, the manifest looked at, and the sandbox destroyed.
pub fn aborted_stations() -> (path: Vec<State>)
    ensures
        path@ == seq![
            State::Start,
            State::SandboxCreated,
            State::ImageUnpacked,
            State::ConfigRead,
            State::SandboxDestroyed,
        ],
{
    let mut path: Vec<State> = Vec::new();
    path.push(State::Start);
    path.push(State::SandboxCreated);
    path.push(State::ImageUnpacked);
    path.push(State::ConfigRead);
    path.push(after_manifest(None));
    assert(path@ =~= seq![
        State::Start,
        State::SandboxCreated,
        State::ImageUnpacked,
        State::ConfigRead,
        State::SandboxDestroyed,
    ]);
    path
}

/// A run that is given up because the manifest cannot be read has taken
/// nothing but its sandbox, whatever the image is, and has given that back
/// when it ends.
pub proof fn lemma_abort_gives_back(traits: Traits)
    ensures
        held(State::ConfigRead, traits) == (Holdings { sandbox: true, ..nothing() }),
        after(after_reading(None), held(State::ConfigRead, traits)) == nothing(),
        reached(State::Start, traits, 3) == State::ConfigRead,
{
    reveal_with_fuel(reached, 4);
}

} // verus!
