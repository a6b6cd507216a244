use crate::order::{
    distinct_keys, lemma_sorted_strict, lemma_stable_sorted, ordered, stable_sorted, strictly_ordered,
};
use crate::text::{parse_usize, parsed_usize, split_whitespace, words};
use crate::utils::{
    append_key_values, builder_append, builder_new, builder_text, finish, ident_and_append,
    key_value_lines, pairs, quote, quoted, spaces,
};
use itertools::Itertools;
use vstd::prelude::*;

verus! {

/// One partition of an image's disk, as a recipe declares it.
#[derive(Debug)]
pub struct Partition {
    filesystem: String,
    mountpoint: String,
    name: String,
    size: String,
    start_sector: String,
    partition_type: String,
}

/// What a partition holds.
pub struct PartitionView {
    pub filesystem: Seq<char>,
    pub mountpoint: Seq<char>,
    pub name: Seq<char>,
    pub size: Seq<char>,
    pub start_sector: Seq<char>,
    pub partition_type: Seq<char>,
}

impl PartitionView {
    /// The partition that six words declare.
    pub open spec fn of_words(parts: Seq<Seq<char>>) -> PartitionView {
        PartitionView {
            filesystem: parts[0],
            mountpoint: parts[1],
            name: parts[2],
            size: parts[3],
            start_sector: parts[4],
            partition_type: parts[5],
        }
    }

    /// The sector at which the partition starts, where the recipe gave a number.
    pub open spec fn start(self) -> Option<usize> {
        parsed_usize(self.start_sector)
    }

    /// The key by which partitions are ordered: the start sector.
    pub open spec fn start_key(self) -> int {
        match self.start() {
            Some(n) => n as int,
            None => 0,
        }
    }

    /// The keys and quoted values of the partition's block in a builder input
    /// file.
    pub open spec fn values(self) -> Seq<(Seq<char>, Seq<char>)> {
        seq![
            ("filesystem"@, quoted(self.filesystem)),
            ("mountpoint"@, quoted(self.mountpoint)),
            ("name"@, quoted(self.name)),
            ("size"@, quoted(self.size)),
            ("start_sector"@, quoted(self.start_sector)),
            ("type"@, quoted(self.partition_type)),
        ]
    }

    /// The partition's block in a builder input file.
    pub open spec fn block(self) -> Seq<char> {
        spaces(2) + "image_partitions {\n"@ + key_value_lines(self.values(), 4, 20) + spaces(2)
            + "}\n"@
    }
}

impl View for Partition {
    type V = PartitionView;

    closed spec fn view(&self) -> PartitionView {
        PartitionView {
            filesystem: self.filesystem@,
            mountpoint: self.mountpoint@,
            name: self.name@,
            size: self.size@,
            start_sector: self.start_sector@,
            partition_type: self.partition_type@,
        }
    }
}

impl Clone for Partition {
    fn clone(&self) -> (r: Self)
        ensures
            r@ == self@,
    {
        Partition {
            filesystem: self.filesystem.clone(),
            mountpoint: self.mountpoint.clone(),
            name: self.name.clone(),
            size: self.size.clone(),
            start_sector: self.start_sector.clone(),
            partition_type: self.partition_type.clone(),
        }
    }
}

impl PartialEq for Partition {
    /// Two partitions count as equal where they start at the same sector, as
    /// the recipe wrote it.
    fn eq(&self, other: &Self) -> (r: bool) {
        self.start_sector == other.start_sector
    }
}

impl vstd::std_specs::cmp::PartialEqSpecImpl for Partition {
    open spec fn obeys_eq_spec() -> bool {
        true
    }

    open spec fn eq_spec(&self, other: &Self) -> bool {
        self@.start_sector == other@.start_sector
    }
}

/// What the partitions of a list hold.
pub open spec fn partition_views(partitions: Seq<Partition>) -> Seq<PartitionView> {
    Seq::new(partitions.len(), |i: int| partitions[i]@)
}

/// Every partition of the list starts at a sector that the recipe gave as a
/// number.
pub open spec fn starts_known(partitions: Seq<PartitionView>) -> bool {
    forall|i: int| 0 <= i < partitions.len() ==> (#[trigger] partitions[i]).start() is Some
}

/// The partitions in the order of their start sectors.
pub open spec fn by_start(partitions: Seq<PartitionView>) -> Seq<PartitionView> {
    stable_sorted(partitions, |p: PartitionView| p.start_key())
}

impl Partition {
    /// Reads a partition from the six words of a declaration: file system,
    /// mount point, name, size, start sector and type. A line with more or
    /// fewer words is refused.
    pub fn parse(line: &str) -> (r: Result<Partition, &'static str>)
        ensures
            match r {
                Ok(partition) => {
                    &&& words(line@).len() == 6
                    &&& partition@ == PartitionView::of_words(words(line@))
                },
                Err(message) => {
                    &&& words(line@).len() != 6
                    &&& message@ == "Could not parse Partition"@
                },
            },
    {
        let parts = split_whitespace(line);
        if parts.len() == 6 {
            return Ok(
                Partition {
                    filesystem: parts[0].clone(),
                    mountpoint: parts[1].clone(),
                    name: parts[2].clone(),
                    size: parts[3].clone(),
                    start_sector: parts[4].clone(),
                    partition_type: parts[5].clone(),
                },
            );
        }
        Err("Could not parse Partition")
    }

    /// The partition of the given settings.
    pub fn new(
        filesystem: String,
        mountpoint: String,
        name: String,
        size: String,
        start_sector: String,
        partition_type: String,
    ) -> (r: Self)
        ensures
            r@ == (PartitionView {
                filesystem: filesystem@,
                mountpoint: mountpoint@,
                name: name@,
                size: size@,
                start_sector: start_sector@,
                partition_type: partition_type@,
            }),
    {
        Partition { filesystem, mountpoint, name, size, start_sector, partition_type }
    }

    pub fn get_filesystem(&self) -> (filesystem: String)
        ensures
            filesystem@ == self@.filesystem,
    {
        self.filesystem.clone()
    }

    pub fn get_size(&self) -> (size: String)
        ensures
            size@ == self@.size,
    {
        self.size.clone()
    }

    /// The start sector as the recipe wrote it.
    pub fn get_start_sector(&self) -> (start_sector: String)
        ensures
            start_sector@ == self@.start_sector,
    {
        self.start_sector.clone()
    }

    pub fn get_partition_type(&self) -> (partition_type: String)
        ensures
            partition_type@ == self@.partition_type,
    {
        self.partition_type.clone()
    }

    pub fn get_values(&self) -> (fields: Vec<(&'static str, String)>)
        ensures
            pairs(fields@) == self@.values(),
    {
        let mut fields: Vec<(&'static str, String)> = Vec::new();
        fields.push(("filesystem", quote(self.filesystem.as_str())));
        fields.push(("mountpoint", quote(self.mountpoint.as_str())));
        fields.push(("name", quote(self.name.as_str())));
        fields.push(("size", quote(self.size.as_str())));
        fields.push(("start_sector", quote(self.start_sector.as_str())));
        fields.push(("type", quote(self.partition_type.as_str())));
        assert(pairs(fields@) =~= self@.values());
        fields
    }

    pub fn to_pkr_hcl(&self) -> (block: String)
        ensures
            block@ == self@.block(),
    {
        let mut builder = builder_new();
        ident_and_append(&mut builder, "image_partitions {\n", 2);
        let values = self.get_values();
        append_key_values(&mut builder, &values, 4, 20);
        ident_and_append(&mut builder, "}\n", 2);
        assert(builder_text(builder) =~= self@.block());
        finish(builder)
    }

    pub fn get_mountpoint(&self) -> (mountpoint: String)
        ensures
            mountpoint@ == self@.mountpoint,
    {
        self.mountpoint.clone()
    }

    pub fn get_name(&self) -> (name: String)
        ensures
            name@ == self@.name,
    {
        self.name.clone()
    }

    /// The start sector, where the recipe gave a number that fits the
    /// machine's word.
    pub fn start_sector(&self) -> (start: Option<usize>)
        ensures
            start == self@.start(),
    {
        parse_usize(self.start_sector.as_str())
    }

    /// The start sector of a partition whose recipe gave it as a number.
    pub fn get_start(&self) -> (start: usize)
        requires
            self@.start() is Some,
        ensures
            Some(start) == self@.start(),
    {
        match parse_usize(self.start_sector.as_str()) {
            Some(start) => start,
            None => 0,
        }
    }

    /// Whether two partitions start at the same sector, as the recipe wrote it.
    pub fn same_start(&self, other: &Partition) -> (same: bool)
        ensures
            same == (self@.start_sector == other@.start_sector),
    {
        self.start_sector == other.start_sector
    }
}

/// Puts partitions in the order of their start sectors (`Itertools::sorted_by`,
/// which sorts with the standard stable sort, then collected): the same
/// partitions, those that start earlier first, and those that start at the same
/// sector in the order they came in.
#[verifier::external_body]
pub(crate) fn sorted_by_start(partitions: Vec<Partition>) -> (r: Vec<Partition>)
    requires
        starts_known(partition_views(partitions@)),
    ensures
        partition_views(r@) == by_start(partition_views(partitions@)),
{
    partitions.into_iter().sorted_by(|a, b| a.get_start().cmp(&b.get_start())).collect()
}

/// Whether every partition of the list starts at a sector that the recipe gave
/// as a number.
pub fn all_starts_known(partitions: &Vec<Partition>) -> (known: bool)
    ensures
        known == starts_known(partition_views(partitions@)),
{
    let mut i: usize = 0;
    while i < partitions.len()
        invariant
            i <= partitions.len(),
            forall|k: int| 0 <= k < i ==> (#[trigger] partition_views(partitions@)[k]).start() is Some,
        decreases partitions.len() - i,
    {
        if partitions[i].start_sector().is_none() {
            assert(partition_views(partitions@)[i as int] == partitions@[i as int]@);
            return false;
        }
        assert(partition_views(partitions@)[i as int] == partitions@[i as int]@);
        i += 1;
    }
    true
}

/// The partitions of a manifest stand in the order of their start sectors:
/// none starts before the one in front of it, all that were declared are
/// there, and where no two start at the same sector each starts behind the one
/// in front of it.
pub proof fn lemma_by_start(partitions: Seq<PartitionView>)
    ensures
        by_start(partitions).len() == partitions.len(),
        by_start(partitions).to_multiset() == partitions.to_multiset(),
        ordered(by_start(partitions), |p: PartitionView| p.start_key()),
        distinct_keys(partitions, |p: PartitionView| p.start_key()) ==> strictly_ordered(
            by_start(partitions),
            |p: PartitionView| p.start_key(),
        ),
{
    let key = |p: PartitionView| p.start_key();
    lemma_stable_sorted(partitions, key);
    if distinct_keys(partitions, key) {
        lemma_sorted_strict(partitions, key);
    }
}

} // verus!
