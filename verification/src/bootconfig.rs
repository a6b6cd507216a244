use crate::text::{clone_strings, split_whitespace, texts, words};
use itertools::Itertools;
use vstd::prelude::*;

verus! {

/// The files of an image that hold placeholders to be filled in when the image
/// is brought to a node.
#[derive(Debug)]
pub struct BootConfig {
    files: Vec<String>,
}

impl View for BootConfig {
    type V = Seq<Seq<char>>;

    /// The paths of the files, in order.
    closed spec fn view(&self) -> Seq<Seq<char>> {
        texts(self.files@)
    }
}

/// `s` without the items that stood in it before: of equal items the first
/// stays, and the order is kept.
pub open spec fn unique(s: Seq<Seq<char>>) -> Seq<Seq<char>>
    decreases s.len(),
{
    if s.len() == 0 {
        seq![]
    } else {
        let before = unique(s.drop_last());
        if before.contains(s.last()) {
            before
        } else {
            before.push(s.last())
        }
    }
}

/// The files of all the given boot configurations, one list after the other.
pub open spec fn all_files(bootconfigs: Seq<BootConfig>) -> Seq<Seq<char>>
    decreases bootconfigs.len(),
{
    if bootconfigs.len() == 0 {
        seq![]
    } else {
        all_files(bootconfigs.drop_last()) + bootconfigs.last()@
    }
}

/// Drops the strings that stood in the list before (`Itertools::unique`, then
/// collected): the adaptor hands on, in their order, the items that it has not
/// handed on yet, so of equal strings the first stays.
#[verifier::external_body]
fn unique_strings(files: Vec<String>) -> (r: Vec<String>)
    ensures
        texts(r@) == unique(texts(files@)),
{
    files.into_iter().unique().collect()
}

impl BootConfig {
    pub fn new() -> (r: Self)
        ensures
            r@ == Seq::<Seq<char>>::empty(),
    {
        let r = BootConfig { files: Vec::new() };
        assert(r@ =~= Seq::<Seq<char>>::empty());
        r
    }

    /// Reads a list of files: the words of the line. A line without a word is
    /// refused.
    pub fn parse(line: &str) -> (r: Result<BootConfig, &'static str>)
        ensures
            match r {
                Ok(config) => config@ == words(line@) && words(line@).len() > 0,
                Err(message) => {
                    &&& message@ == "Could not parse BootConfig"@
                    &&& words(line@).len() == 0
                },
            },
    {
        let files = split_whitespace(line);
        if files.len() > 0 {
            return Ok(BootConfig { files });
        }
        Err("Could not parse BootConfig")
    }

    /// The boot configuration of the given files.
    pub fn from_files(files: Vec<String>) -> (r: Self)
        ensures
            r@ == texts(files@),
    {
        BootConfig { files }
    }

    pub fn get_files(&self) -> (files: Vec<String>)
        ensures
            texts(files@) == self@,
    {
        clone_strings(&self.files)
    }
}

impl Default for BootConfig {
    fn default() -> (r: Self)
        ensures
            r@ == Seq::<Seq<char>>::empty(),
    {
        Self::new()
    }
}

/// Gathers the files of several boot configurations into one, each file once.
pub fn group(bootconfigs: &[BootConfig]) -> (r: BootConfig)
    ensures
        r@ == unique(all_files(bootconfigs@)),
{
    let mut files: Vec<String> = Vec::new();
    let mut i: usize = 0;
    while i < bootconfigs.len()
        invariant
            i <= bootconfigs.len(),
            texts(files@) == all_files(bootconfigs@.take(i as int)),
        decreases bootconfigs.len() - i,
    {
        let ghost before = texts(files@);
        let mut more = clone_strings(&bootconfigs[i].files);
        let ghost added = texts(more@);
        files.append(&mut more);
        proof {
            assert(texts(files@) =~= before + added);
            assert(bootconfigs@.take(i + 1).drop_last() =~= bootconfigs@.take(i as int));
        }
        i += 1;
    }
    assert(bootconfigs@.take(i as int) =~= bootconfigs@);
    BootConfig { files: unique_strings(files) }
}

/// What `unique` keeps stood in the list.
pub proof fn lemma_unique_within(s: Seq<Seq<char>>, x: Seq<char>)
    ensures
        unique(s).contains(x) <==> s.contains(x),
    decreases s.len(),
{
    if s.len() > 0 {
        let before = unique(s.drop_last());
        lemma_unique_within(s.drop_last(), x);
        if s.contains(x) {
            let i = choose|i: int| 0 <= i < s.len() && s[i] == x;
            if i < s.len() - 1 {
                assert(s.drop_last()[i] == x);
            }
        }
        if unique(s).contains(x) && !before.contains(x) {
            assert(x == s.last());
            assert(s[s.len() - 1] == x);
        }
        if before.contains(x) {
            let i = choose|i: int| 0 <= i < before.len() && before[i] == x;
            assert(unique(s)[i] == x);
            let j = choose|j: int| 0 <= j < s.drop_last().len() && s.drop_last()[j] == x;
            assert(s[j] == x);
        }
        if x == s.last() && !before.contains(x) {
            assert(unique(s)[before.len() as int] == x);
        }
    }
}

/// No file stands twice in what `unique` keeps.
pub proof fn lemma_unique_no_duplicates(s: Seq<Seq<char>>)
    ensures
        unique(s).no_duplicates(),
    decreases s.len(),
{
    if s.len() > 0 {
        lemma_unique_no_duplicates(s.drop_last());
    }
}

/// A list without duplicates is what `unique` keeps of it.
pub proof fn lemma_unique_fixed(s: Seq<Seq<char>>)
    requires
        s.no_duplicates(),
    ensures
        unique(s) == s,
    decreases s.len(),
{
    if s.len() > 0 {
        lemma_unique_fixed(s.drop_last());
        lemma_unique_within(s.drop_last(), s.last());
        if s.drop_last().contains(s.last()) {
            let i = choose|i: int| 0 <= i < s.drop_last().len() && s.drop_last()[i] == s.last();
            assert(s[i] == s[s.len() - 1]);
        }
        assert(unique(s) =~= s);
    }
}

/// Grouping is idempotent: a grouped list holds no file twice, and grouping it
/// once more gives the same list.
pub proof fn lemma_group_idempotent(bootconfigs: Seq<BootConfig>, grouped: BootConfig)
    requires
        grouped@ == unique(all_files(bootconfigs)),
    ensures
        grouped@.no_duplicates(),
        unique(all_files(seq![grouped])) == grouped@,
{
    lemma_unique_no_duplicates(all_files(bootconfigs));
    lemma_unique_fixed(grouped@);
    assert(seq![grouped].drop_last() =~= Seq::<BootConfig>::empty());
    assert(all_files(seq![grouped].drop_last()) =~= Seq::<Seq<char>>::empty());
    assert(seq![grouped].last() == grouped);
    assert(all_files(seq![grouped]) =~= grouped@);
}

} // verus!
