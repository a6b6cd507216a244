use crate::order::{lemma_inserted_at, lemma_stable_sorted, ordered, stable_sorted};
use crate::text::{
    contains, join, joined, lines, parse_usize, parsed_usize, pieces, split_char, split_lines,
    split_whitespace, starts_with, str_contains, str_starts_with, texts, words,
};
use crate::utils::{remove_colors, uncoloured};
use std::cmp::Ordering;
use vstd::prelude::*;

verus! {

/// Where a partition of an image is mounted, and when.
#[derive(Debug)]
pub struct Mountpoint {
    mount_position: usize,
    pub partition_number: usize,
    path: String,
}

/// What a mount point holds.
pub struct MountpointView {
    pub mount_position: usize,
    pub partition_number: usize,
    pub path: Seq<char>,
}

impl MountpointView {
    /// The path at which the partition is mounted: it begins with a slash, and
    /// an empty path stands for the root.
    pub open spec fn full_path(self) -> Seq<char> {
        if self.path.len() == 0 {
            "/"@
        } else if !starts_with(self.path, "/"@) {
            "/"@ + self.path
        } else {
            self.path
        }
    }
}

impl View for Mountpoint {
    type V = MountpointView;

    closed spec fn view(&self) -> MountpointView {
        MountpointView {
            mount_position: self.mount_position,
            partition_number: self.partition_number,
            path: self.path@,
        }
    }
}

impl Clone for Mountpoint {
    fn clone(&self) -> (r: Self)
        ensures
            r@ == self@,
    {
        Mountpoint {
            mount_position: self.mount_position,
            partition_number: self.partition_number,
            path: self.path.clone(),
        }
    }
}

impl PartialEq for Mountpoint {
    /// Two mount points are equal where they hold the same position,
    /// partition and path.
    fn eq(&self, other: &Self) -> (r: bool) {
        self.mount_position == other.mount_position && self.path == other.path
            && self.partition_number == other.partition_number
    }
}

impl vstd::std_specs::cmp::PartialEqSpecImpl for Mountpoint {
    open spec fn obeys_eq_spec() -> bool {
        true
    }

    open spec fn eq_spec(&self, other: &Self) -> bool {
        self@ == other@
    }
}

/// What the mount points of a list hold.
pub open spec fn mountpoint_views(list: Seq<Mountpoint>) -> Seq<MountpointView> {
    Seq::new(list.len(), |i: int| list[i]@)
}

/// The mount points in the order in which they are mounted; those of equal
/// position keep their order.
pub open spec fn in_mount_order(list: Seq<MountpointView>) -> Seq<MountpointView> {
    stable_sorted(list, |m: MountpointView| m.mount_position as int)
}

impl Mountpoint {
    pub fn new(mount_position: usize, partition_number: usize, path: String) -> (r: Self)
        ensures
            r@ == (MountpointView { mount_position, partition_number, path: path@ }),
    {
        Mountpoint { mount_position, partition_number, path }
    }

    /// Compares two mount points by the position at which they are mounted.
    pub fn sort(a: &Mountpoint, b: &Mountpoint) -> (o: Ordering)
        ensures
            o == if a@.mount_position < b@.mount_position {
                Ordering::Less
            } else if a@.mount_position == b@.mount_position {
                Ordering::Equal
            } else {
                Ordering::Greater
            },
    {
        if a.mount_position < b.mount_position {
            Ordering::Less
        } else if a.mount_position == b.mount_position {
            Ordering::Equal
        } else {
            Ordering::Greater
        }
    }

    pub fn get_path(&self) -> (path: String)
        ensures
            path@ == self@.full_path(),
    {
        if self.path.as_str().is_empty() {
            return String::from_str("/");
        } else if !str_starts_with(self.path.as_str(), "/") {
            let mut path = String::from_str("/");
            path.append(self.path.as_str());
            return path;
        }
        self.path.clone()
    }

    /// The path as it was given, which may lack the slash at its beginning.
    pub fn get_raw_path(&self) -> (path: String)
        ensures
            path@ == self@.path,
    {
        self.path.clone()
    }

    pub fn get_partition_number(&self) -> (number: usize)
        ensures
            number == self@.partition_number,
    {
        self.partition_number
    }

    pub fn get_mount_position(&self) -> (position: usize)
        ensures
            position == self@.mount_position,
    {
        self.mount_position
    }

    /// Whether two mount points hold the same position, partition and path.
    pub fn same_as(&self, other: &Mountpoint) -> (same: bool)
        ensures
            same == (self@ == other@),
    {
        self.mount_position == other.mount_position && self.path == other.path
            && self.partition_number == other.partition_number
    }
}

/// A line of the image builder's output that reports a mount.
pub open spec fn is_mount_line(line: Seq<char>) -> bool {
    contains(line, "mounting"@) && contains(line, " to "@)
}

/// The words of a line, freed of colour marks, that hold a slash.
pub open spec fn path_words(line: Seq<char>) -> Seq<Seq<char>> {
    words(uncoloured(line)).filter(|w: Seq<char>| contains(w, "/"@))
}

/// A line that reports a mount and names two paths: the device and the
/// directory it is mounted to.
pub open spec fn names_mount(line: Seq<char>) -> bool {
    is_mount_line(line) && path_words(line).len() == 2
}

/// The pieces of a mounted directory's path without the two that name the
/// builder's working directory.
pub open spec fn kept_pieces(target: Seq<char>) -> Seq<Seq<char>> {
    pieces(target, '/').take(1) + pieces(target, '/').skip(3)
}

/// A device and a directory from which a mount point can be read: the
/// directory lies below the builder's working directory, and the device's name
/// ends in the letter p and the partition's number.
pub open spec fn entry_well_formed(device: Seq<char>, target: Seq<char>) -> bool {
    &&& pieces(target, '/').len() >= 3
    &&& pieces(device, 'p').len() >= 3
    &&& parsed_usize(pieces(device, 'p')[2]) is Some
}

/// The mount point that a device and a directory stand for: the path inside
/// the image, its depth as the position, and the partition's number.
pub open spec fn entry_of(device: Seq<char>, target: Seq<char>) -> MountpointView {
    let path = joined(kept_pieces(target), "/"@);
    MountpointView {
        mount_position: kept_pieces(target).len() as usize,
        partition_number: parsed_usize(pieces(device, 'p')[2]).unwrap(),
        path: if path.len() == 0 {
            "/"@
        } else {
            path
        },
    }
}

/// Every line that names a mount can be read.
pub open spec fn mounts_well_formed(output: Seq<Seq<char>>) -> bool {
    forall|i: int|
        0 <= i < output.len() && names_mount(#[trigger] output[i]) ==> entry_well_formed(
            path_words(output[i])[0],
            path_words(output[i])[1],
        )
}

/// The mount points that the lines name, in the order of the lines.
pub open spec fn mounts_in(output: Seq<Seq<char>>) -> Seq<MountpointView>
    decreases output.len(),
{
    if output.len() == 0 {
        seq![]
    } else {
        let before = mounts_in(output.drop_last());
        let line = output.last();
        if names_mount(line) {
            before.push(entry_of(path_words(line)[0], path_words(line)[1]))
        } else {
            before
        }
    }
}

/// The words of a line, freed of colour marks, that hold a slash.
fn path_words_of(line: &str) -> (found: Vec<String>)
    ensures
        texts(found@) == path_words(line@),
{
    let clean = remove_colors(line);
    let all = split_whitespace(clean.as_str());
    let ghost pred = |w: Seq<char>| contains(w, "/"@);
    let mut found: Vec<String> = Vec::new();
    let mut i: usize = 0;
    proof {
        reveal(Seq::filter);
    }
    while i < all.len()
        invariant
            i <= all.len(),
            pred == |w: Seq<char>| contains(w, "/"@),
            texts(found@) == texts(all@).take(i as int).filter(pred),
        decreases all.len() - i,
    {
        let ghost before = texts(found@);
        proof {
            reveal(Seq::filter);
            let next = texts(all@).take(i + 1);
            assert(next.drop_last() =~= texts(all@).take(i as int));
            assert(next.last() == all@[i as int]@);
        }
        if str_contains(all[i].as_str(), "/") {
            found.push(all[i].clone());
            assert(texts(found@) =~= before.push(all@[i as int]@));
        }
        i += 1;
    }
    assert(texts(all@).take(i as int) =~= texts(all@));
    found
}

/// Reads a mount point from a device and the directory it is mounted to.
fn read_entry(device: &str, target: &str) -> (r: Option<Mountpoint>)
    ensures
        match r {
            Some(m) => entry_well_formed(device@, target@) && m@ == entry_of(device@, target@),
            None => !entry_well_formed(device@, target@),
        },
{
    let parts = split_char(target, '/');
    let names = split_char(device, 'p');
    if parts.len() < 3 || names.len() < 3 {
        return None;
    }
    let number = match parse_usize(names[2].as_str()) {
        Some(n) => n,
        None => {
            return None;
        },
    };
    let mut kept: Vec<String> = Vec::new();
    kept.push(parts[0].clone());
    assert(texts(kept@) =~= texts(parts@).take(1));
    let mut i: usize = 3;
    while i < parts.len()
        invariant
            3 <= i <= parts.len(),
            texts(kept@) == texts(parts@).take(1) + texts(parts@).subrange(3, i as int),
        decreases parts.len() - i,
    {
        let ghost before = texts(kept@);
        kept.push(parts[i].clone());
        assert(texts(kept@) =~= before.push(parts@[i as int]@));
        assert(texts(parts@).subrange(3, i + 1) =~= texts(parts@).subrange(3, i as int).push(
            parts@[i as int]@,
        ));
        i += 1;
    }
    assert(texts(parts@).subrange(3, i as int) =~= texts(parts@).skip(3));
    let mut path = join(&kept, "/");
    if path.as_str().is_empty() {
        path = String::from_str("/");
    }
    Some(Mountpoint::new(kept.len(), number, path))
}

/// Puts mount points in the order in which they are mounted.
pub fn arrange(list: Vec<Mountpoint>) -> (out: Vec<Mountpoint>)
    ensures
        mountpoint_views(out@) == in_mount_order(mountpoint_views(list@)),
{
    let ghost key = |m: MountpointView| m.mount_position as int;
    let mut out: Vec<Mountpoint> = Vec::new();
    let mut i: usize = 0;
    assert(mountpoint_views(list@).take(0) =~= Seq::<MountpointView>::empty());
    assert(mountpoint_views(out@) =~= Seq::<MountpointView>::empty());
    while i < list.len()
        invariant
            i <= list.len(),
            key == |m: MountpointView| m.mount_position as int,
            mountpoint_views(out@) == stable_sorted(mountpoint_views(list@).take(i as int), key),
        decreases list.len() - i,
    {
        let x = list[i].clone();
        let ghost before = mountpoint_views(out@);
        proof {
            lemma_stable_sorted(mountpoint_views(list@).take(i as int), key);
        }
        let mut at: usize = out.len();
        while at > 0 && out[at - 1].mount_position > x.mount_position
            invariant
                at <= out.len(),
                i < list.len(),
                key == |m: MountpointView| m.mount_position as int,
                before == mountpoint_views(out@),
                x@ == list@[i as int]@,
                forall|k: int| at <= k < out.len() ==> key(before[k]) > key(x@),
            decreases at,
        {
            at -= 1;
            assert(before[at as int] == out@[at as int]@);
        }
        proof {
            assert forall|k: int| 0 <= k < at implies key(before[k]) <= key(x@) by {
                assert(key(before[at - 1]) <= key(x@));
                assert(ordered(before, key));
            }
            lemma_inserted_at(before, x@, key, at as int);
            let next = mountpoint_views(list@).take(i + 1);
            assert(next.drop_last() =~= mountpoint_views(list@).take(i as int));
            assert(next.last() == x@);
        }
        out.insert(at, x);
        assert(mountpoint_views(out@) =~= before.take(at as int).push(x@) + before.skip(at as int));
        i += 1;
    }
    assert(mountpoint_views(list@).take(i as int) =~= mountpoint_views(list@));
    out
}

/// Reads the mount points that the image builder's output names, in the order
/// of the lines. Nothing is read where a line that names a mount cannot be
/// read.
pub fn scan_mounts(output: &str) -> (r: Option<Vec<Mountpoint>>)
    ensures
        match r {
            Some(list) => {
                &&& mounts_well_formed(lines(output@))
                &&& mountpoint_views(list@) == mounts_in(lines(output@))
            },
            None => !mounts_well_formed(lines(output@)),
        },
{
    let all = split_lines(output);
    let mut list: Vec<Mountpoint> = Vec::new();
    let mut i: usize = 0;
    assert(mountpoint_views(list@) =~= mounts_in(texts(all@).take(0)));
    while i < all.len()
        invariant
            i <= all.len(),
            texts(all@) == lines(output@),
            mounts_well_formed(texts(all@).take(i as int)),
            mountpoint_views(list@) == mounts_in(texts(all@).take(i as int)),
        decreases all.len() - i,
    {
        let line = all[i].as_str();
        let ghost before = mountpoint_views(list@);
        let ghost next = texts(all@).take(i + 1);
        proof {
            assert(next.drop_last() =~= texts(all@).take(i as int));
            assert(next.last() == line@);
            assert(texts(all@)[i as int] == line@);
        }
        if str_contains(line, "mounting") && str_contains(line, " to ") {
            let found = path_words_of(line);
            if found.len() == 2 {
                assert(texts(found@)[0] == found@[0]@ && texts(found@)[1] == found@[1]@);
                match read_entry(found[0].as_str(), found[1].as_str()) {
                    Some(m) => {
                        list.push(m);
                        assert(mountpoint_views(list@) =~= before.push(m@));
                    },
                    None => {
                        return None;
                    },
                }
            }
        }
        proof {
            assert forall|k: int| 0 <= k < next.len() && names_mount(#[trigger] next[k]) implies entry_well_formed(
                path_words(next[k])[0],
                path_words(next[k])[1],
            ) by {
                if k < i {
                    assert(next[k] == texts(all@).take(i as int)[k]);
                }
            }
        }
        i += 1;
    }
    assert(texts(all@).take(i as int) =~= texts(all@));
    Some(list)
}

/// Reads the mount order from the image builder's output: one mount point for
/// each line that names a mount, in the order in which they are mounted.
pub fn get_mount_order(output: &str) -> (list: Vec<Mountpoint>)
    requires
        mounts_well_formed(lines(output@)),
    ensures
        mountpoint_views(list@) == in_mount_order(mounts_in(lines(output@))),
{
    match scan_mounts(output) {
        Some(list) => arrange(list),
        None => Vec::new(),
    }
}

/// Reads the mount order from the image builder's output, or nothing where a
/// line that names a mount cannot be read.
pub fn try_get_mount_order(output: &str) -> (r: Option<Vec<Mountpoint>>)
    ensures
        match r {
            Some(list) => {
                &&& mounts_well_formed(lines(output@))
                &&& mountpoint_views(list@) == in_mount_order(mounts_in(lines(output@)))
            },
            None => !mounts_well_formed(lines(output@)),
        },
{
    match scan_mounts(output) {
        Some(list) => Some(arrange(list)),
        None => None,
    }
}

/// The mount order is an order: the mount points that the builder named are
/// all there, and none is mounted before one that stands in front of it.
pub proof fn lemma_mount_order(list: Seq<MountpointView>)
    ensures
        in_mount_order(list).len() == list.len(),
        in_mount_order(list).to_multiset() == list.to_multiset(),
        ordered(in_mount_order(list), |m: MountpointView| m.mount_position as int),
{
    lemma_stable_sorted(list, |m: MountpointView| m.mount_position as int);
}

} // verus!
