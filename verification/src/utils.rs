use crate::text::{
    contains, join, joined, lines, replaced, split_lines, str_contains, str_eq, str_replace, texts,
};
use string_builder::Builder;
use vstd::prelude::*;

verus! {

/// The string builder of the crate `string_builder`: a buffer of bytes that
/// grows by what is appended to it.
#[verifier::external_type_specification]
#[verifier::external_body]
pub struct ExBuilder(Builder);

/// The text that a builder has gathered so far.
pub uninterp spec fn builder_text(builder: Builder) -> Seq<char>;

/// Whether what a builder has gathered is text, so that it can hand it out as a
/// string.
pub uninterp spec fn builder_is_text(builder: Builder) -> bool;

/// A fresh builder (`Builder::default`): it holds the empty text.
#[verifier::external_body]
pub(crate) fn builder_new() -> (builder: Builder)
    ensures
        builder_is_text(builder),
        builder_text(builder) == Seq::<char>::empty(),
{
    Builder::default()
}

/// Appends a string slice to a builder (`Builder::append`): the builder copies
/// the slice's bytes behind what it holds, so its text grows by the slice's
/// text and stays text where it was.
#[verifier::external_body]
pub(crate) fn builder_append(builder: &mut Builder, s: &str)
    ensures
        builder_is_text(*final(builder)) == builder_is_text(*old(builder)),
        builder_text(*final(builder)) == builder_text(*old(builder)) + s@,
{
    builder.append(s)
}

/// Hands out what a builder holds (`Builder::string`): the gathered text, or
/// nothing where the builder does not hold text.
#[verifier::external_body]
pub(crate) fn builder_string(builder: Builder) -> (r: Option<String>)
    ensures
        r is Some == builder_is_text(builder),
        r matches Some(s) ==> s@ == builder_text(builder),
{
    builder.string().ok()
}

/// A fresh name made of an adjective and a noun (`names::Generator`). Each call
/// draws the words at random, so nothing is promised of the result.
#[verifier::external_body]
pub fn get_random_name() -> String {
    let mut generator = names::Generator::default();
    generator.next().unwrap_or_default()
}

/// The text of a finished builder.
pub fn finish(builder: Builder) -> (s: String)
    requires
        builder_is_text(builder),
    ensures
        s@ == builder_text(builder),
{
    match builder_string(builder) {
        Some(s) => s,
        None => String::new(),
    }
}

/// A value between double quotes, fit for a builder input file: each double
/// quote in it gets a backslash before it, and where it had one already, that
/// one is not doubled.
pub open spec fn quoted(value: Seq<char>) -> Seq<char> {
    "\""@ + replaced(replaced(value, "\""@, "\\\""@), "\\\\\""@, "\\\""@) + "\""@
}

pub fn quote(value: &str) -> (s: String)
    ensures
        s@ == quoted(value@),
{
    let escaped = str_replace(value, "\"", "\\\"");
    let result = str_replace(escaped.as_str(), "\\\\\"", "\\\"");
    let mut s = String::from_str("\"");
    s.append(result.as_str());
    s.append("\"");
    s
}

/// The items as they stand in a list: quoted or plain.
pub open spec fn list_items(items: Seq<Seq<char>>, quotes: bool) -> Seq<Seq<char>> {
    Seq::new(
        items.len(),
        |i: int|
            if quotes {
                quoted(items[i])
            } else {
                items[i]
            },
    )
}

/// A list in square brackets, its items separated by a comma and a space.
pub open spec fn list_text(items: Seq<Seq<char>>, quotes: bool) -> Seq<char> {
    "["@ + joined(list_items(items, quotes), ", "@) + "]"@
}

pub fn vec_to_string(vec: &[String], quotes: bool) -> (s: String)
    ensures
        s@ == list_text(texts(vec@), quotes),
{
    let mut builder = builder_new();
    builder_append(&mut builder, "[");
    let ghost items = list_items(texts(vec@), quotes);
    let mut i: usize = 0;
    while i < vec.len()
        invariant
            i <= vec.len(),
            items == list_items(texts(vec@), quotes),
            builder_is_text(builder),
            builder_text(builder) == "["@ + joined(items.take(i as int), ", "@),
        decreases vec.len() - i,
    {
        if i > 0 {
            builder_append(&mut builder, ", ");
        }
        if quotes {
            let item = quote(vec[i].as_str());
            builder_append(&mut builder, item.as_str());
        } else {
            builder_append(&mut builder, vec[i].as_str());
        }
        proof {
            let next = items.take(i + 1);
            assert(next.drop_last() =~= items.take(i as int));
            assert(builder_text(builder) =~= "["@ + joined(next, ", "@));
        }
        i += 1;
    }
    assert(items.take(i as int) =~= items);
    builder_append(&mut builder, "]");
    finish(builder)
}

/// How many spaces bring a content of `content_size` up to `preferred_size`.
pub fn align_content(preferred_size: usize, content_size: usize) -> (n: usize)
    ensures
        n == if preferred_size < content_size {
            0
        } else {
            preferred_size - content_size
        },
{
    if preferred_size < content_size {
        return 0;
    }
    preferred_size - content_size
}

/// `n` spaces.
pub open spec fn spaces(n: nat) -> Seq<char> {
    Seq::new(n, |i: int| ' ')
}

fn add_whitespaces(builder: &mut Builder, indentation: usize)
    ensures
        builder_is_text(*final(builder)) == builder_is_text(*old(builder)),
        builder_text(*final(builder)) == builder_text(*old(builder)) + spaces(indentation as nat),
{
    proof {
        reveal_strlit(" ");
    }
    let mut j: usize = 0;
    while j < indentation
        invariant
            j <= indentation,
            " "@ == seq![' '],
            builder_is_text(*builder) == builder_is_text(*old(builder)),
            builder_text(*builder) == builder_text(*old(builder)) + spaces(j as nat),
        decreases indentation - j,
    {
        builder_append(builder, " ");
        assert(spaces((j + 1) as nat) =~= spaces(j as nat) + seq![' ']);
        j += 1;
    }
}

pub fn ident_and_append(builder: &mut Builder, string: &str, indentation: usize)
    ensures
        builder_is_text(*final(builder)) == builder_is_text(*old(builder)),
        builder_text(*final(builder)) == builder_text(*old(builder)) + spaces(indentation as nat)
            + string@,
{
    add_whitespaces(builder, indentation);
    builder_append(builder, string);
}

/// One line of a block: the key after `indentation` spaces, filled up with
/// spaces to `preferred_size` bytes where it is shorter, then an equals sign
/// between two spaces, the value and a line feed.
pub open spec fn key_value_line(
    indentation: nat,
    preferred_size: nat,
    key: Seq<char>,
    value: Seq<char>,
) -> Seq<char> {
    let size = vstd::utf8::encode_utf8(key).len() as usize;
    let fill = if preferred_size < size {
        0
    } else {
        (preferred_size - size) as nat
    };
    spaces(indentation) + key + spaces(fill) + " = "@ + value + "\n"@
}

pub fn add_indented_aligned_key_value(
    builder: &mut Builder,
    indentation: usize,
    preferred_size: usize,
    key: &str,
    value: &str,
)
    ensures
        builder_is_text(*final(builder)) == builder_is_text(*old(builder)),
        builder_text(*final(builder)) == builder_text(*old(builder)) + key_value_line(
            indentation as nat,
            preferred_size as nat,
            key@,
            value@,
        ),
{
    ident_and_append(builder, key, indentation);
    add_whitespaces(builder, align_content(preferred_size, key.len()));
    builder_append(builder, " = ");
    builder_append(builder, value);
    builder_append(builder, "\n");
    assert(builder_text(*builder) =~= builder_text(*old(builder)) + key_value_line(
        indentation as nat,
        preferred_size as nat,
        key@,
        value@,
    ));
}

/// The mark that opens a report line: success or failure.
pub open spec fn status_label(result: bool) -> Seq<char> {
    if result {
        "[  OK  ]"@
    } else {
        "[FAILED]"@
    }
}

pub fn get_ok_or_error(result: bool) -> (s: String)
    ensures
        s@ == status_label(result),
{
    if result {
        return String::from_str("[  OK  ]");
    }
    String::from_str("[FAILED]")
}

/// A line of a report: the mark of success or failure, a colon and the
/// message.
pub fn print_message(message: &str, status: bool) -> (line: String)
    ensures
        line@ == status_label(status) + ": "@ + message@,
{
    let mut line = get_ok_or_error(status);
    line.append(": ");
    line.append(message);
    line
}

/// A line of a report that tells something.
pub fn print_information(message: &str) -> (line: String)
    ensures
        line@ == "[ INFO ]: "@ + message@,
{
    let mut line = String::from_str("[ INFO ]: ");
    line.append(message);
    line
}

/// A line of a report that goes on from the line before.
pub fn print_with_offset(message: &str) -> (line: String)
    ensures
        line@ == "[      ]: "@ + message@,
{
    let mut line = String::from_str("[      ]: ");
    line.append(message);
    line
}

/// Keeps the lines that hold `needle`, in their order.
pub fn filter_lines_by_substring(lines: &[String], needle: &str) -> (kept: Vec<String>)
    ensures
        texts(kept@) == texts(lines@).filter(|line: Seq<char>| contains(line, needle@)),
{
    let ghost pred = |line: Seq<char>| contains(line, needle@);
    let mut kept: Vec<String> = Vec::new();
    let mut i: usize = 0;
    proof {
        reveal(Seq::filter);
    }
    while i < lines.len()
        invariant
            i <= lines.len(),
            pred == |line: Seq<char>| contains(line, needle@),
            texts(kept@) == texts(lines@).take(i as int).filter(pred),
        decreases lines.len() - i,
    {
        let ghost before = texts(kept@);
        proof {
            reveal(Seq::filter);
            let next = texts(lines@).take(i + 1);
            assert(next.drop_last() =~= texts(lines@).take(i as int));
            assert(next.last() == lines@[i as int]@);
        }
        if str_contains(lines[i].as_str(), needle) {
            kept.push(lines[i].clone());
            assert(texts(kept@) =~= before.push(lines@[i as int]@));
        }
        i += 1;
    }
    assert(texts(lines@).take(i as int) =~= texts(lines@));
    kept
}

/// A line of the image builder's output without the marks that colour it.
pub open spec fn uncoloured(line: Seq<char>) -> Seq<char> {
    replaced(replaced(replaced(line, "\u{1b}[0m"@, ""@), "\u{1b}[0;32m"@, ""@), "\u{1b}[1;32m"@, ""@)
}

pub fn remove_colors(line: &str) -> (s: String)
    ensures
        s@ == uncoloured(line@),
{
    let first = str_replace(line, "\u{1b}[0m", "");
    let second = str_replace(first.as_str(), "\u{1b}[0;32m", "");
    str_replace(second.as_str(), "\u{1b}[1;32m", "")
}

/// The texts of a list of keys and values.
pub open spec fn pairs(values: Seq<(&'static str, String)>) -> Seq<(Seq<char>, Seq<char>)> {
    Seq::new(values.len(), |i: int| (values[i].0@, values[i].1@))
}

/// One line for each key and value, in order.
pub open spec fn key_value_lines(
    values: Seq<(Seq<char>, Seq<char>)>,
    indentation: nat,
    preferred_size: nat,
) -> Seq<char>
    decreases values.len(),
{
    if values.len() == 0 {
        seq![]
    } else {
        key_value_lines(values.drop_last(), indentation, preferred_size) + key_value_line(
            indentation,
            preferred_size,
            values.last().0,
            values.last().1,
        )
    }
}

/// Appends one line for each key and value.
pub fn append_key_values(
    builder: &mut Builder,
    values: &Vec<(&'static str, String)>,
    indentation: usize,
    preferred_size: usize,
)
    ensures
        builder_is_text(*final(builder)) == builder_is_text(*old(builder)),
        builder_text(*final(builder)) == builder_text(*old(builder)) + key_value_lines(
            pairs(values@),
            indentation as nat,
            preferred_size as nat,
        ),
{
    let mut i: usize = 0;
    while i < values.len()
        invariant
            i <= values.len(),
            builder_is_text(*builder) == builder_is_text(*old(builder)),
            builder_text(*builder) == builder_text(*old(builder)) + key_value_lines(
                pairs(values@).take(i as int),
                indentation as nat,
                preferred_size as nat,
            ),
        decreases values.len() - i,
    {
        let ghost before = builder_text(*builder);
        add_indented_aligned_key_value(
            builder,
            indentation,
            preferred_size,
            values[i].0,
            values[i].1.as_str(),
        );
        proof {
            let next = pairs(values@).take(i + 1);
            assert(next.drop_last() =~= pairs(values@).take(i as int));
            assert(next.last() == (values@[i as int].0@, values@[i as int].1@));
            assert(builder_text(*builder) =~= builder_text(*old(builder)) + key_value_lines(
                next,
                indentation as nat,
                preferred_size as nat,
            ));
        }
        i += 1;
    }
    assert(pairs(values@).take(i as int) =~= pairs(values@));
}

/// The lines with every occurrence of `needle` replaced.
pub open spec fn replaced_each(list: Seq<Seq<char>>, needle: Seq<char>, replacement: Seq<char>) -> Seq<
    Seq<char>,
> {
    Seq::new(list.len(), |i: int| replaced(list[i], needle, replacement))
}

/// The content of a file after `needle` was replaced in each of its lines.
/// The lines are written back with a line feed between each two.
pub open spec fn replaced_in_lines(
    content: Seq<char>,
    needle: Seq<char>,
    replacement: Seq<char>,
) -> Seq<char> {
    joined(replaced_each(lines(content), needle, replacement), "\n"@)
}

/// Replaces `needle` in each line of a file's content.
pub fn replace_in_lines(content: &str, needle: &str, replacement: &str) -> (r: String)
    ensures
        r@ == replaced_in_lines(content@, needle@, replacement@),
{
    let all = split_lines(content);
    let mut changed: Vec<String> = Vec::new();
    let mut i: usize = 0;
    while i < all.len()
        invariant
            i <= all.len(),
            texts(changed@) == replaced_each(texts(all@), needle@, replacement@).take(i as int),
        decreases all.len() - i,
    {
        let ghost before = texts(changed@);
        let line = str_replace(all[i].as_str(), needle, replacement);
        changed.push(line);
        assert(texts(changed@) =~= before.push(line@));
        assert(replaced_each(texts(all@), needle@, replacement@).take(i + 1) =~= replaced_each(
            texts(all@),
            needle@,
            replacement@,
        ).take(i as int).push(line@));
        i += 1;
    }
    assert(replaced_each(texts(all@), needle@, replacement@).take(i as int) =~= replaced_each(
        texts(all@),
        needle@,
        replacement@,
    ));
    join(&changed, "\n")
}

/// The content of a file of the given lines: a line feed stands between each
/// two.
pub fn write_lines(list: &Vec<String>) -> (content: String)
    ensures
        content@ == joined(texts(list@), "\n"@),
{
    join(list, "\n")
}

/// The lines of a file after one more line was added at its end.
pub fn append_line(list: Vec<String>, line: String) -> (r: Vec<String>)
    ensures
        texts(r@) == texts(list@).push(line@),
{
    let mut r = list;
    r.push(line);
    assert(texts(r@) =~= texts(list@).push(line@));
    r
}

/// Passes the texts that are not `line`.
pub open spec fn is_not(line: Seq<char>) -> spec_fn(Seq<char>) -> bool {
    |l: Seq<char>| l != line
}

/// Passes the texts that do not hold `substring`.
pub open spec fn holds_not(substring: Seq<char>) -> spec_fn(Seq<char>) -> bool {
    |l: Seq<char>| !contains(l, substring)
}

/// Keeps the lines that are not `line`, in their order.
pub fn remove_line(list: &Vec<String>, line: &str) -> (kept: Vec<String>)
    ensures
        texts(kept@) == texts(list@).filter(is_not(line@)),
{
    let ghost pred = is_not(line@);
    let mut kept: Vec<String> = Vec::new();
    let mut i: usize = 0;
    proof {
        reveal(Seq::filter);
    }
    while i < list.len()
        invariant
            i <= list.len(),
            pred == is_not(line@),
            texts(kept@) == texts(list@).take(i as int).filter(pred),
        decreases list.len() - i,
    {
        let ghost before = texts(kept@);
        proof {
            reveal(Seq::filter);
            let next = texts(list@).take(i + 1);
            assert(next.drop_last() =~= texts(list@).take(i as int));
            assert(next.last() == list@[i as int]@);
        }
        if !str_eq(list[i].as_str(), line) {
            kept.push(list[i].clone());
            assert(texts(kept@) =~= before.push(list@[i as int]@));
        }
        i += 1;
    }
    assert(texts(list@).take(i as int) =~= texts(list@));
    kept
}

/// Keeps the lines that do not hold `substring`, in their order.
pub fn remove_line_with_substring(list: &Vec<String>, substring: &str) -> (kept: Vec<String>)
    ensures
        texts(kept@) == texts(list@).filter(holds_not(substring@)),
{
    let ghost pred = holds_not(substring@);
    let mut kept: Vec<String> = Vec::new();
    let mut i: usize = 0;
    proof {
        reveal(Seq::filter);
    }
    while i < list.len()
        invariant
            i <= list.len(),
            pred == holds_not(substring@),
            texts(kept@) == texts(list@).take(i as int).filter(pred),
        decreases list.len() - i,
    {
        let ghost before = texts(kept@);
        proof {
            reveal(Seq::filter);
            let next = texts(list@).take(i + 1);
            assert(next.drop_last() =~= texts(list@).take(i as int));
            assert(next.last() == list@[i as int]@);
        }
        if !str_contains(list[i].as_str(), substring) {
            kept.push(list[i].clone());
            assert(texts(kept@) =~= before.push(list@[i as int]@));
        }
        i += 1;
    }
    assert(texts(list@).take(i as int) =~= texts(list@));
    kept
}

/// Adding a line to a file that does not hold it and removing it again leaves
/// the lines that were there.
pub proof fn lemma_add_remove_line(list: Seq<Seq<char>>, line: Seq<char>)
    requires
        !list.contains(line),
    ensures
        list.push(line).filter(is_not(line)) == list,
{
    reveal(Seq::filter);
    let pred = is_not(line);
    assert forall|i: int| 0 <= i < list.len() implies pred(#[trigger] list[i]) by {
        assert(list.contains(list[i]));
    }
    assert(list.push(line).drop_last() =~= list);
    lemma_filter_keeps_all(list, pred);
}

/// A filter that every item passes keeps the list as it is.
pub proof fn lemma_filter_keeps_all(list: Seq<Seq<char>>, pred: spec_fn(Seq<char>) -> bool)
    requires
        forall|i: int| 0 <= i < list.len() ==> pred(#[trigger] list[i]),
    ensures
        list.filter(pred) == list,
    decreases list.len(),
{
    reveal(Seq::filter);
    if list.len() > 0 {
        lemma_filter_keeps_all(list.drop_last(), pred);
        assert(list.drop_last().push(list.last()) =~= list);
    }
}

/// Adding a line to a file of which no line holds `substring`, and removing
/// the lines that hold it, leaves the lines that were there, where the added
/// line holds it.
pub proof fn lemma_add_remove_substring(list: Seq<Seq<char>>, line: Seq<char>, substring: Seq<char>)
    requires
        contains(line, substring),
        forall|i: int| 0 <= i < list.len() ==> !contains(#[trigger] list[i], substring),
    ensures
        list.push(line).filter(holds_not(substring)) == list,
{
    reveal(Seq::filter);
    let pred = holds_not(substring);
    assert(list.push(line).drop_last() =~= list);
    lemma_filter_keeps_all(list, pred);
}

/// The text of a file of the given lines, without line feeds between them.
pub fn read_file(list: &Vec<String>) -> (content: String)
    ensures
        content@ == joined(texts(list@), ""@),
{
    join(list, "")
}

/// The checksum that the checksum tool printed: what stands before the first
/// space.
pub fn sha256sum_of_output(stdout: &str) -> (sum: String)
    ensures
        sum@ == crate::text::pieces(stdout@, ' ')[0],
{
    let found = crate::text::split_char(stdout, ' ');
    proof {
        crate::text::lemma_pieces_len(stdout@, ' ');
        assert(texts(found@).len() == found@.len());
        assert(texts(found@)[0] == found@[0]@);
    }
    found[0].clone()
}

/// Whether a file has the given checksum. A file of which no checksum could
/// be had has none.
pub fn sha256sum_matches(sum: Option<&str>, checksum: &str) -> (same: bool)
    ensures
        same == match sum {
            Some(sum) => sum@ == checksum@,
            None => false,
        },
{
    match sum {
        Some(sum) => str_eq(sum, checksum),
        None => false,
    }
}

} // verus!
