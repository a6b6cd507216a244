use vstd::prelude::*;

verus! {

/// Appends one character to a string (`String::push`): the text afterwards is
/// the text before followed by `c`.
#[verifier::external_body]
pub(crate) fn push_char(s: &mut String, c: char)
    ensures
        final(s)@ == old(s)@.push(c),
{
    s.push(c)
}

/// The characters of a string slice, in order.
pub fn to_chars(s: &str) -> (v: Vec<char>)
    ensures
        v@ == s@,
{
    let mut v: Vec<char> = Vec::new();
    for c in it: s.chars()
        invariant
            v@ == it.seq().take(it.index() as int),
            it.seq() == s@,
    {
        v.push(c);
    }
    v
}

/// The string made of the characters `v[from..to]`, in order.
pub fn from_chars(v: &Vec<char>, from: usize, to: usize) -> (s: String)
    requires
        from <= to <= v.len(),
    ensures
        s@ == v@.subrange(from as int, to as int),
{
    let mut s = String::new();
    let mut i: usize = from;
    while i < to
        invariant
            from <= i <= to <= v.len(),
            s@ == v@.subrange(from as int, i as int),
        decreases to - i,
    {
        push_char(&mut s, v[i]);
        i += 1;
    }
    s
}

/// The texts of a list of strings.
pub open spec fn texts(v: Seq<String>) -> Seq<Seq<char>> {
    Seq::new(v.len(), |i: int| v[i]@)
}

/// Unicode's `White_Space` characters.
pub open spec fn is_whitespace(c: char) -> bool {
    let n = c as u32;
    ||| 0x09 <= n <= 0x0d
    ||| n == 0x20
    ||| n == 0x85
    ||| n == 0xa0
    ||| n == 0x1680
    ||| 0x2000 <= n <= 0x200a
    ||| n == 0x2028
    ||| n == 0x2029
    ||| n == 0x202f
    ||| n == 0x205f
    ||| n == 0x3000
}

/// Whether a character is white space.
pub fn is_whitespace_char(c: char) -> (b: bool)
    ensures
        b == is_whitespace(c),
{
    let n: u32 = c as u32;
    (0x09 <= n && n <= 0x0d) || n == 0x20 || n == 0x85 || n == 0xa0 || n == 0x1680 || (0x2000 <= n
        && n <= 0x200a) || n == 0x2028 || n == 0x2029 || n == 0x202f || n == 0x205f || n == 0x3000
}

/// The word in progress, as a list of at most one word: empty words are not
/// words.
pub open spec fn word(cur: Seq<char>) -> Seq<Seq<char>> {
    if cur.len() > 0 {
        seq![cur]
    } else {
        seq![]
    }
}

/// The words of `s[i..]`, where `cur` holds the characters of the word that was
/// begun before position `i`.
pub open spec fn words_from(s: Seq<char>, i: int, cur: Seq<char>) -> Seq<Seq<char>>
    decreases s.len() - i,
{
    if i < 0 || i >= s.len() {
        word(cur)
    } else if is_whitespace(s[i]) {
        word(cur) + words_from(s, i + 1, seq![])
    } else {
        words_from(s, i + 1, cur.push(s[i]))
    }
}

/// The maximal runs of characters of `s` that hold no white space, in order.
pub open spec fn words(s: Seq<char>) -> Seq<Seq<char>> {
    words_from(s, 0, seq![])
}

/// Splits a text at white space; no word is empty.
pub fn split_whitespace(s: &str) -> (parts: Vec<String>)
    ensures
        texts(parts@) == words(s@),
{
    let mut parts: Vec<String> = Vec::new();
    let mut cur = String::new();
    for c in it: s.chars()
        invariant
            it.seq() == s@,
            texts(parts@) + words_from(s@, it.index() as int, cur@) == words(s@),
    {
        let ghost before = texts(parts@);
        if is_whitespace_char(c) {
            if !cur.as_str().is_empty() {
                parts.push(cur);
                assert(texts(parts@) =~= before + word(cur@));
            }
            cur = String::new();
        } else {
            push_char(&mut cur, c);
        }
    }
    if !cur.as_str().is_empty() {
        let ghost before = texts(parts@);
        parts.push(cur);
        assert(texts(parts@) =~= before + word(cur@));
    }
    parts
}

/// The pieces of `s[i..]` between occurrences of `sep`, where `cur` holds the
/// characters of the piece that was begun before position `i`.
pub open spec fn pieces_from(s: Seq<char>, i: int, cur: Seq<char>, sep: char) -> Seq<Seq<char>>
    decreases s.len() - i,
{
    if i < 0 || i >= s.len() {
        seq![cur]
    } else if s[i] == sep {
        seq![cur] + pieces_from(s, i + 1, seq![], sep)
    } else {
        pieces_from(s, i + 1, cur.push(s[i]), sep)
    }
}

/// The pieces of `s` between occurrences of `sep`: one more than there are
/// occurrences, empty pieces included.
pub open spec fn pieces(s: Seq<char>, sep: char) -> Seq<Seq<char>> {
    pieces_from(s, 0, seq![], sep)
}

/// The piece in progress and what follows it make at least one piece.
pub proof fn lemma_pieces_from_len(s: Seq<char>, i: int, cur: Seq<char>, sep: char)
    ensures
        pieces_from(s, i, cur, sep).len() >= 1,
    decreases s.len() - i,
{
    if 0 <= i < s.len() {
        if s[i] == sep {
            lemma_pieces_from_len(s, i + 1, seq![], sep);
        } else {
            lemma_pieces_from_len(s, i + 1, cur.push(s[i]), sep);
        }
    }
}

/// A text has at least one piece.
pub proof fn lemma_pieces_len(s: Seq<char>, sep: char)
    ensures
        pieces(s, sep).len() >= 1,
{
    lemma_pieces_from_len(s, 0, seq![], sep);
}

/// Splits a text at every occurrence of `sep`.
pub fn split_char(s: &str, sep: char) -> (parts: Vec<String>)
    ensures
        texts(parts@) == pieces(s@, sep),
{
    let mut parts: Vec<String> = Vec::new();
    let mut cur = String::new();
    for c in it: s.chars()
        invariant
            it.seq() == s@,
            texts(parts@) + pieces_from(s@, it.index() as int, cur@, sep) == pieces(s@, sep),
    {
        let ghost before = texts(parts@);
        if c == sep {
            parts.push(cur);
            assert(texts(parts@) =~= before + seq![cur@]);
            cur = String::new();
        } else {
            push_char(&mut cur, c);
        }
    }
    let ghost before = texts(parts@);
    parts.push(cur);
    assert(texts(parts@) =~= before + seq![cur@]);
    parts
}

/// A line without the carriage return that may end it.
pub open spec fn without_cr(line: Seq<char>) -> Seq<char> {
    if line.len() > 0 && line.last() == '\r' {
        line.drop_last()
    } else {
        line
    }
}

/// The lines of `s[i..]`, where `cur` holds the characters of the line that was
/// begun before position `i`.
pub open spec fn lines_from(s: Seq<char>, i: int, cur: Seq<char>) -> Seq<Seq<char>>
    decreases s.len() - i,
{
    if i < 0 || i >= s.len() {
        word(cur)
    } else if s[i] == '\n' {
        seq![without_cr(cur)] + lines_from(s, i + 1, seq![])
    } else {
        lines_from(s, i + 1, cur.push(s[i]))
    }
}

/// The lines of a text. A line ends at a line feed, or at a carriage return
/// followed by a line feed; the last line needs no ending.
pub open spec fn lines(s: Seq<char>) -> Seq<Seq<char>> {
    lines_from(s, 0, seq![])
}

/// Splits a text into its lines, without their endings.
pub fn split_lines(s: &str) -> (parts: Vec<String>)
    ensures
        texts(parts@) == lines(s@),
{
    let mut parts: Vec<String> = Vec::new();
    let mut cur: Vec<char> = Vec::new();
    for c in it: s.chars()
        invariant
            it.seq() == s@,
            texts(parts@) + lines_from(s@, it.index() as int, cur@) == lines(s@),
    {
        let ghost before = texts(parts@);
        if c == '\n' {
            let n = cur.len();
            let end = if n > 0 && cur[n - 1] == '\r' {
                n - 1
            } else {
                n
            };
            let line = from_chars(&cur, 0, end);
            assert(line@ =~= without_cr(cur@));
            parts.push(line);
            assert(texts(parts@) =~= before + seq![without_cr(cur@)]);
            cur = Vec::new();
        } else {
            cur.push(c);
        }
    }
    if cur.len() > 0 {
        let ghost before = texts(parts@);
        let line = from_chars(&cur, 0, cur.len());
        assert(line@ =~= cur@);
        parts.push(line);
        assert(texts(parts@) =~= before + word(cur@));
    }
    parts
}

/// The parts with `sep` between each two neighbours.
pub open spec fn joined(parts: Seq<Seq<char>>, sep: Seq<char>) -> Seq<char>
    decreases parts.len(),
{
    if parts.len() == 0 {
        seq![]
    } else if parts.len() == 1 {
        parts[0]
    } else {
        joined(parts.drop_last(), sep) + sep + parts.last()
    }
}

/// Joins the parts, with `sep` between each two neighbours.
pub fn join(parts: &Vec<String>, sep: &str) -> (s: String)
    ensures
        s@ == joined(texts(parts@), sep@),
{
    let mut s = String::new();
    let mut i: usize = 0;
    while i < parts.len()
        invariant
            i <= parts.len(),
            s@ == joined(texts(parts@).take(i as int), sep@),
        decreases parts.len() - i,
    {
        if i > 0 {
            s.append(sep);
        }
        s.append(parts[i].as_str());
        proof {
            let next = texts(parts@).take(i + 1);
            assert(next.drop_last() =~= texts(parts@).take(i as int));
            assert(next.last() == parts@[i as int]@);
        }
        i += 1;
    }
    assert(texts(parts@).take(i as int) =~= texts(parts@));
    s
}

/// `needle` stands in `s` at position `i`.
pub open spec fn occurs_at(s: Seq<char>, needle: Seq<char>, i: int) -> bool {
    &&& 0 <= i
    &&& i + needle.len() <= s.len()
    &&& s.subrange(i, i + needle.len()) == needle
}

/// `needle` stands somewhere in `s`.
pub open spec fn contains(s: Seq<char>, needle: Seq<char>) -> bool {
    exists|i: int| occurs_at(s, needle, i)
}

/// `s` begins with `prefix`.
pub open spec fn starts_with(s: Seq<char>, prefix: Seq<char>) -> bool {
    occurs_at(s, prefix, 0)
}

/// `s` ends with `suffix`.
pub open spec fn ends_with(s: Seq<char>, suffix: Seq<char>) -> bool {
    occurs_at(s, suffix, s.len() - suffix.len())
}

/// Whether `needle` stands in `s` at position `i`.
pub fn matches_at(s: &Vec<char>, needle: &Vec<char>, i: usize) -> (b: bool)
    ensures
        b == occurs_at(s@, needle@, i as int),
{
    if needle.len() > s.len() || i > s.len() - needle.len() {
        return false;
    }
    let mut k: usize = 0;
    while k < needle.len()
        invariant
            k <= needle.len(),
            i + needle.len() <= s.len(),
            s@.subrange(i as int, i + k) == needle@.take(k as int),
        decreases needle.len() - k,
    {
        if s[i + k] != needle[k] {
            proof {
                if occurs_at(s@, needle@, i as int) {
                    assert(s@.subrange(i as int, i + needle.len())[k as int] == needle@[k as int]);
                }
            }
            return false;
        }
        proof {
            assert(s@.subrange(i as int, i + k + 1) =~= s@.subrange(i as int, i + k).push(
                s@[i + k],
            ));
            assert(needle@.take(k + 1) =~= needle@.take(k as int).push(needle@[k as int]));
        }
        k += 1;
    }
    assert(needle@.take(k as int) =~= needle@);
    true
}

/// The first position from `from` on at which `needle` stands in `s`.
pub open spec fn first_from(s: Seq<char>, needle: Seq<char>, from: int) -> Option<int>
    decreases s.len() - from,
{
    if from < 0 || from + needle.len() > s.len() {
        None
    } else if occurs_at(s, needle, from) {
        Some(from)
    } else if from >= s.len() {
        None
    } else {
        first_from(s, needle, from + 1)
    }
}

/// What `first_from` finds is the first occurrence from `from` on, and where it
/// finds none there is none.
pub proof fn lemma_first_from(s: Seq<char>, needle: Seq<char>, from: int)
    requires
        0 <= from,
    ensures
        match first_from(s, needle, from) {
            Some(i) => from <= i && occurs_at(s, needle, i) && forall|j: int|
                from <= j < i ==> !occurs_at(s, needle, j),
            None => forall|j: int| from <= j ==> !occurs_at(s, needle, j),
        },
    decreases s.len() - from,
{
    if from + needle.len() > s.len() {
    } else if occurs_at(s, needle, from) {
    } else if from >= s.len() {
    } else {
        lemma_first_from(s, needle, from + 1);
    }
}

/// Finds the first position from `from` on at which `needle` stands in `s`.
pub fn find_from(s: &Vec<char>, needle: &Vec<char>, from: usize) -> (r: Option<usize>)
    ensures
        match r {
            Some(i) => first_from(s@, needle@, from as int) == Some(i as int) && i <= s.len(),
            None => first_from(s@, needle@, from as int) is None,
        },
{
    if needle.len() > s.len() {
        proof {
            lemma_first_from(s@, needle@, from as int);
        }
        return None;
    }
    let last: usize = s.len() - needle.len();
    let mut i: usize = from;
    while i <= last
        invariant
            from <= i,
            last == s.len() - needle.len(),
            first_from(s@, needle@, from as int) == first_from(s@, needle@, i as int),
        decreases last + 1 - i,
    {
        if matches_at(s, needle, i) {
            return Some(i);
        }
        if i == last {
            assert(first_from(s@, needle@, i + 1) is None);
            return None;
        }
        i += 1;
    }
    None
}

/// Whether `needle` stands somewhere in `s`.
pub fn contains_chars(s: &Vec<char>, needle: &Vec<char>) -> (b: bool)
    ensures
        b == contains(s@, needle@),
{
    proof {
        lemma_first_from(s@, needle@, 0);
    }
    find_from(s, needle, 0).is_some()
}

/// Whether `needle` stands somewhere in `s`.
pub fn str_contains(s: &str, needle: &str) -> (b: bool)
    ensures
        b == contains(s@, needle@),
{
    let hay = to_chars(s);
    let pin = to_chars(needle);
    contains_chars(&hay, &pin)
}

/// Whether `s` begins with `prefix`.
pub fn str_starts_with(s: &str, prefix: &str) -> (b: bool)
    ensures
        b == starts_with(s@, prefix@),
{
    let hay = to_chars(s);
    let pin = to_chars(prefix);
    matches_at(&hay, &pin, 0)
}

/// Whether `s` ends with `suffix`.
pub fn str_ends_with(s: &str, suffix: &str) -> (b: bool)
    ensures
        b == ends_with(s@, suffix@),
{
    let hay = to_chars(s);
    let pin = to_chars(suffix);
    if pin.len() > hay.len() {
        return false;
    }
    matches_at(&hay, &pin, hay.len() - pin.len())
}

/// Appends the characters of `more` to `out`.
pub fn push_all(out: &mut Vec<char>, more: &Vec<char>)
    ensures
        final(out)@ == old(out)@ + more@,
{
    let mut k: usize = 0;
    while k < more.len()
        invariant
            k <= more.len(),
            out@ == old(out)@ + more@.take(k as int),
        decreases more.len() - k,
    {
        out.push(more[k]);
        assert(more@.take(k + 1) =~= more@.take(k as int).push(more@[k as int]));
        k += 1;
    }
    assert(more@.take(k as int) =~= more@);
}

/// `s[i..]` with every occurrence of `from` replaced by `to`, the occurrences
/// taken from the left and not overlapping. An empty `from` occurs before every
/// character and at the end.
pub open spec fn replaced_from(s: Seq<char>, i: int, from: Seq<char>, to: Seq<char>) -> Seq<char>
    decreases s.len() - i,
{
    if i < 0 || i >= s.len() {
        if from.len() == 0 {
            to
        } else {
            seq![]
        }
    } else if from.len() == 0 {
        to + seq![s[i]] + replaced_from(s, i + 1, from, to)
    } else if occurs_at(s, from, i) {
        to + replaced_from(s, i + from.len(), from, to)
    } else {
        seq![s[i]] + replaced_from(s, i + 1, from, to)
    }
}

/// `s` with every occurrence of `from` replaced by `to`.
pub open spec fn replaced(s: Seq<char>, from: Seq<char>, to: Seq<char>) -> Seq<char> {
    replaced_from(s, 0, from, to)
}

/// Replaces every occurrence of `from` in `s` by `to`.
pub fn replace_chars(s: &Vec<char>, from: &Vec<char>, to: &Vec<char>) -> (out: Vec<char>)
    ensures
        out@ == replaced(s@, from@, to@),
{
    let mut out: Vec<char> = Vec::new();
    let mut i: usize = 0;
    while i < s.len()
        invariant
            i <= s.len(),
            out@ + replaced_from(s@, i as int, from@, to@) == replaced(s@, from@, to@),
        decreases s.len() - i,
    {
        let ghost before = out@;
        let ghost rest = replaced_from(s@, i as int, from@, to@);
        if from.len() == 0 {
            push_all(&mut out, to);
            out.push(s[i]);
            assert(out@ + replaced_from(s@, i + 1, from@, to@) =~= before + rest);
            i += 1;
        } else if matches_at(s, from, i) {
            push_all(&mut out, to);
            assert(out@ + replaced_from(s@, i + from.len(), from@, to@) =~= before + rest);
            i += from.len();
        } else {
            out.push(s[i]);
            assert(out@ + replaced_from(s@, i + 1, from@, to@) =~= before + rest);
            i += 1;
        }
    }
    let ghost before = out@;
    if from.len() == 0 {
        push_all(&mut out, to);
    }
    assert(out@ =~= before + replaced_from(s@, i as int, from@, to@));
    out
}

/// Replaces every occurrence of `from` in `s` by `to`.
pub fn str_replace(s: &str, from: &str, to: &str) -> (out: String)
    ensures
        out@ == replaced(s@, from@, to@),
{
    let out = replace_chars(&to_chars(s), &to_chars(from), &to_chars(to));
    let text = from_chars(&out, 0, out.len());
    assert(out@.subrange(0, out.len() as int) =~= out@);
    text
}

/// `s` with its first occurrence of `from`, if it has one, replaced by `to`.
pub open spec fn replaced_first(s: Seq<char>, from: Seq<char>, to: Seq<char>) -> Seq<char> {
    match first_from(s, from, 0) {
        Some(i) => s.subrange(0, i) + to + s.subrange(i + from.len(), s.len() as int),
        None => s,
    }
}

/// Replaces the first occurrence of `from` in `s`, if there is one, by `to`.
pub fn str_replace_first(s: &str, from: &str, to: &str) -> (out: String)
    ensures
        out@ == replaced_first(s@, from@, to@),
{
    let hay = to_chars(s);
    let pin = to_chars(from);
    proof {
        lemma_first_from(hay@, pin@, 0);
    }
    match find_from(&hay, &pin, 0) {
        Some(i) => {
            let mut out = from_chars(&hay, 0, i);
            out.append(to);
            let tail = from_chars(&hay, i + pin.len(), hay.len());
            out.append(tail.as_str());
            out
        },
        None => {
            let out = from_chars(&hay, 0, hay.len());
            assert(hay@.subrange(0, hay.len() as int) =~= hay@);
            out
        },
    }
}

/// The decimal digit for a number below ten.
pub open spec fn digit_char(d: int) -> char {
    if d == 0 {
        '0'
    } else if d == 1 {
        '1'
    } else if d == 2 {
        '2'
    } else if d == 3 {
        '3'
    } else if d == 4 {
        '4'
    } else if d == 5 {
        '5'
    } else if d == 6 {
        '6'
    } else if d == 7 {
        '7'
    } else if d == 8 {
        '8'
    } else {
        '9'
    }
}

/// The number that a decimal digit stands for.
pub open spec fn digit_value(c: char) -> Option<nat> {
    if c == '0' {
        Some(0)
    } else if c == '1' {
        Some(1)
    } else if c == '2' {
        Some(2)
    } else if c == '3' {
        Some(3)
    } else if c == '4' {
        Some(4)
    } else if c == '5' {
        Some(5)
    } else if c == '6' {
        Some(6)
    } else if c == '7' {
        Some(7)
    } else if c == '8' {
        Some(8)
    } else if c == '9' {
        Some(9)
    } else {
        None
    }
}

/// A number in decimal notation, without leading zeros.
pub open spec fn decimal(n: nat) -> Seq<char>
    decreases n,
{
    if n < 10 {
        seq![digit_char(n as int)]
    } else {
        decimal(n / 10).push(digit_char((n % 10) as int))
    }
}

/// The digits that are still to be written in front of those that stand
/// already, where `m` is what is left of the number: none where nothing is
/// left.
pub open spec fn decimal_rest(m: nat) -> Seq<char> {
    if m == 0 {
        seq![]
    } else {
        decimal(m)
    }
}

fn digit_of(d: usize) -> (c: char)
    requires
        d < 10,
    ensures
        c == digit_char(d as int),
{
    if d == 0 {
        '0'
    } else if d == 1 {
        '1'
    } else if d == 2 {
        '2'
    } else if d == 3 {
        '3'
    } else if d == 4 {
        '4'
    } else if d == 5 {
        '5'
    } else if d == 6 {
        '6'
    } else if d == 7 {
        '7'
    } else if d == 8 {
        '8'
    } else {
        '9'
    }
}

fn value_of(c: char) -> (d: Option<usize>)
    ensures
        match d {
            Some(v) => digit_value(c) == Some(v as nat) && v < 10,
            None => digit_value(c) is None,
        },
{
    if c == '0' {
        Some(0)
    } else if c == '1' {
        Some(1)
    } else if c == '2' {
        Some(2)
    } else if c == '3' {
        Some(3)
    } else if c == '4' {
        Some(4)
    } else if c == '5' {
        Some(5)
    } else if c == '6' {
        Some(6)
    } else if c == '7' {
        Some(7)
    } else if c == '8' {
        Some(8)
    } else if c == '9' {
        Some(9)
    } else {
        None
    }
}

/// Writes a number in decimal notation.
pub fn render_usize(n: usize) -> (s: String)
    ensures
        s@ == decimal(n as nat),
{
    let mut out: Vec<char> = Vec::new();
    out.push(digit_of(n % 10));
    let mut m: usize = n / 10;
    assert(decimal_rest(m as nat) + out@ =~= decimal(n as nat));
    while m > 0
        invariant
            decimal_rest(m as nat) + out@ == decimal(n as nat),
        decreases m,
    {
        let ghost before = out@;
        out.insert(0, digit_of(m % 10));
        assert(decimal_rest((m / 10) as nat) + out@ =~= decimal_rest(m as nat) + before);
        m = m / 10;
    }
    let s = from_chars(&out, 0, out.len());
    assert(out@.subrange(0, out.len() as int) =~= out@);
    s
}

/// The number that a run of decimal digits stands for, if they all are digits.
pub open spec fn digits_value(s: Seq<char>) -> Option<nat>
    decreases s.len(),
{
    if s.len() == 0 {
        Some(0)
    } else {
        match (digits_value(s.drop_last()), digit_value(s.last())) {
            (Some(high), Some(d)) => Some(10 * high + d),
            _ => None,
        }
    }
}

/// The number that a text stands for: decimal digits, at least one, after an
/// optional plus sign.
pub open spec fn parsed_nat(s: Seq<char>) -> Option<nat> {
    let body = if s.len() > 0 && s[0] == '+' {
        s.subrange(1, s.len() as int)
    } else {
        s
    };
    if body.len() == 0 {
        None
    } else {
        digits_value(body)
    }
}

/// The number that a text stands for, if it fits the machine's word.
pub open spec fn parsed_usize(s: Seq<char>) -> Option<usize> {
    match parsed_nat(s) {
        Some(n) => if n <= usize::MAX {
            Some(n as usize)
        } else {
            None
        },
        None => None,
    }
}

/// Where a run of digits has a value, each of its beginnings has one, and none
/// is larger.
pub proof fn lemma_digits_prefix(s: Seq<char>, k: int)
    requires
        0 <= k <= s.len(),
        digits_value(s) is Some,
    ensures
        digits_value(s.take(k)) is Some,
        digits_value(s.take(k))->0 <= digits_value(s)->0,
    decreases s.len(),
{
    if k == s.len() {
        assert(s.take(k) =~= s);
    } else {
        lemma_digits_prefix(s.drop_last(), k);
        assert(s.drop_last().take(k) =~= s.take(k));
    }
}

/// Reads a number in decimal notation.
pub fn parse_usize(s: &str) -> (r: Option<usize>)
    ensures
        r == parsed_usize(s@),
{
    let v = to_chars(s);
    let start: usize = if v.len() > 0 && v[0] == '+' {
        1
    } else {
        0
    };
    if start == v.len() {
        return None;
    }
    let ghost body = v@.subrange(start as int, v.len() as int);
    let mut acc: usize = 0;
    let mut i: usize = start;
    while i < v.len()
        invariant
            start <= i <= v.len(),
            start < v.len(),
            v@ == s@,
            start == if v.len() > 0 && v[0] == '+' {
                1usize
            } else {
                0usize
            },
            body == v@.subrange(start as int, v.len() as int),
            digits_value(body.take(i - start)) == Some(acc as nat),
        decreases v.len() - i,
    {
        let ghost next = body.take(i - start + 1);
        proof {
            assert(start == 0 ==> body =~= v@);
            assert(next.drop_last() =~= body.take(i - start));
            assert(next.last() == v@[i as int]);
            if digits_value(body) is Some {
                lemma_digits_prefix(body, i - start + 1);
            }
        }
        match value_of(v[i]) {
            Some(d) => {
                if acc > (usize::MAX - d) / 10 {
                    return None;
                }
                acc = acc * 10 + d;
            },
            None => {
                return None;
            },
        }
        i += 1;
    }
    assert(body.take(i - start) =~= body);
    assert(start == 0 ==> body =~= v@);
    Some(acc)
}

/// Whether two string slices hold the same text.
pub fn str_eq(a: &str, b: &str) -> (r: bool)
    ensures
        r == (a@ == b@),
{
    let left = String::from_str(a);
    let right = String::from_str(b);
    left == right
}

/// Copies of the given strings, in order.
pub fn clone_strings(v: &Vec<String>) -> (r: Vec<String>)
    ensures
        texts(r@) == texts(v@),
        r@.len() == v@.len(),
{
    let mut r: Vec<String> = Vec::new();
    let mut i: usize = 0;
    while i < v.len()
        invariant
            i <= v.len(),
            texts(r@) == texts(v@).take(i as int),
        decreases v.len() - i,
    {
        let ghost before = texts(r@);
        r.push(v[i].clone());
        assert(texts(r@) =~= before.push(v@[i as int]@));
        assert(texts(v@).take(i + 1) =~= texts(v@).take(i as int).push(v@[i as int]@));
        i += 1;
    }
    assert(texts(v@).take(i as int) =~= texts(v@));
    assert(texts(r@).len() == r@.len() && texts(v@).len() == v@.len());
    r
}

/// The text of a string that may be absent.
pub open spec fn opt_text(s: Option<String>) -> Option<Seq<char>> {
    match s {
        Some(s) => Some(s@),
        None => None,
    }
}

/// A copy of a string that may be absent.
pub fn clone_opt(s: &Option<String>) -> (r: Option<String>)
    ensures
        opt_text(r) == opt_text(*s),
{
    match s {
        Some(s) => Some(s.clone()),
        None => None,
    }
}

/// Two texts, one after the other.
pub fn join2(a: &str, b: &str) -> (s: String)
    ensures
        s@ == a@ + b@,
{
    let mut s = String::from_str(a);
    s.append(b);
    s
}

/// Three texts, one after the other.
pub fn join3(a: &str, b: &str, c: &str) -> (s: String)
    ensures
        s@ == a@ + b@ + c@,
{
    let mut s = join2(a, b);
    s.append(c);
    s
}

/// Four texts, one after the other.
pub fn join4(a: &str, b: &str, c: &str, d: &str) -> (s: String)
    ensures
        s@ == a@ + b@ + c@ + d@,
{
    let mut s = join3(a, b, c);
    s.append(d);
    s
}

/// Five texts, one after the other.
pub fn join5(a: &str, b: &str, c: &str, d: &str, e: &str) -> (s: String)
    ensures
        s@ == a@ + b@ + c@ + d@ + e@,
{
    let mut s = join4(a, b, c, d);
    s.append(e);
    s
}

/// Six texts, one after the other.
pub fn join6(a: &str, b: &str, c: &str, d: &str, e: &str, f: &str) -> (s: String)
    ensures
        s@ == a@ + b@ + c@ + d@ + e@ + f@,
{
    let mut s = join5(a, b, c, d, e);
    s.append(f);
    s
}

/// Seven texts, one after the other.
pub fn join7(a: &str, b: &str, c: &str, d: &str, e: &str, f: &str, g: &str) -> (s: String)
    ensures
        s@ == a@ + b@ + c@ + d@ + e@ + f@ + g@,
{
    let mut s = join6(a, b, c, d, e, f);
    s.append(g);
    s
}

/// The parts of `s[i..]` between the occurrences of `pattern`, taken from the
/// left and not overlapping, where `cur` holds the characters of the part that
/// was begun before position `i`. An empty pattern occurs nowhere.
pub open spec fn parts_from(s: Seq<char>, i: int, cur: Seq<char>, pattern: Seq<char>) -> Seq<
    Seq<char>,
>
    decreases s.len() - i,
{
    if i < 0 || i >= s.len() {
        seq![cur]
    } else if pattern.len() > 0 && occurs_at(s, pattern, i) {
        seq![cur] + parts_from(s, i + pattern.len(), seq![], pattern)
    } else {
        parts_from(s, i + 1, cur.push(s[i]), pattern)
    }
}

/// The parts of `s` between the occurrences of `pattern`.
pub open spec fn parts(s: Seq<char>, pattern: Seq<char>) -> Seq<Seq<char>> {
    parts_from(s, 0, seq![], pattern)
}

/// Splits a text at every occurrence of `pattern`.
pub fn split_str(s: &str, pattern: &str) -> (found: Vec<String>)
    ensures
        texts(found@) == parts(s@, pattern@),
        found@.len() >= 1,
{
    let hay = to_chars(s);
    let pin = to_chars(pattern);
    let mut found: Vec<String> = Vec::new();
    let mut cur = String::new();
    let mut i: usize = 0;
    while i < hay.len()
        invariant
            i <= hay.len(),
            hay@ == s@,
            pin@ == pattern@,
            texts(found@) + parts_from(s@, i as int, cur@, pattern@) == parts(s@, pattern@),
        decreases hay.len() - i,
    {
        let ghost before = texts(found@);
        if pin.len() > 0 && matches_at(&hay, &pin, i) {
            found.push(cur);
            assert(texts(found@) =~= before + seq![cur@]);
            cur = String::new();
            i += pin.len();
        } else {
            push_char(&mut cur, hay[i]);
            i += 1;
        }
    }
    let ghost before = texts(found@);
    found.push(cur);
    assert(texts(found@) =~= before + seq![cur@]);
    found
}

/// Whether a list of texts holds the given text.
pub fn list_contains(list: &Vec<String>, item: &str) -> (held: bool)
    ensures
        held == texts(list@).contains(item@),
{
    let mut i: usize = 0;
    while i < list.len()
        invariant
            i <= list.len(),
            forall|k: int| 0 <= k < i ==> texts(list@)[k] != item@,
        decreases list.len() - i,
    {
        if str_eq(list[i].as_str(), item) {
            assert(texts(list@)[i as int] == item@);
            return true;
        }
        i += 1;
    }
    false
}

/// A whole number in decimal notation, with a minus sign where it is below
/// zero.
pub open spec fn signed_decimal(n: int) -> Seq<char> {
    if n < 0 {
        "-"@ + decimal((-n) as nat)
    } else {
        decimal(n as nat)
    }
}

/// Writes a number in decimal notation.
pub fn render_u64(n: u64) -> (s: String)
    ensures
        s@ == decimal(n as nat),
{
    let mut out: Vec<char> = Vec::new();
    out.push(digit_of((n % 10) as usize));
    let mut m: u64 = n / 10;
    assert(decimal_rest(m as nat) + out@ =~= decimal(n as nat));
    while m > 0
        invariant
            decimal_rest(m as nat) + out@ == decimal(n as nat),
        decreases m,
    {
        let ghost before = out@;
        out.insert(0, digit_of((m % 10) as usize));
        assert(decimal_rest((m / 10) as nat) + out@ =~= decimal_rest(m as nat) + before);
        m = m / 10;
    }
    let s = from_chars(&out, 0, out.len());
    assert(out@.subrange(0, out.len() as int) =~= out@);
    s
}

/// Writes a whole number in decimal notation.
pub fn render_i64(n: i64) -> (s: String)
    ensures
        s@ == signed_decimal(n as int),
{
    if n >= 0 {
        render_u64(n as u64)
    } else {
        let magnitude: u64 = if n == i64::MIN {
            9223372036854775808u64
        } else {
            (-n) as u64
        };
        let digits = render_u64(magnitude);
        join2("-", digits.as_str())
    }
}

/// No character of the text is white space.
pub open spec fn is_word(w: Seq<char>) -> bool {
    w.len() > 0 && forall|i: int| 0 <= i < w.len() ==> !is_whitespace(#[trigger] w[i])
}

/// The words of a text from a place on depend on what stands from that place
/// on, and on the word in progress, alone.
pub proof fn lemma_words_suffix(s: Seq<char>, i: int, t: Seq<char>, j: int, cur: Seq<char>)
    requires
        0 <= i <= s.len(),
        0 <= j <= t.len(),
        s.subrange(i, s.len() as int) == t.subrange(j, t.len() as int),
    ensures
        words_from(s, i, cur) == words_from(t, j, cur),
    decreases s.len() - i,
{
    let a = s.subrange(i, s.len() as int);
    let b = t.subrange(j, t.len() as int);
    assert(a.len() == b.len());
    if i < s.len() {
        assert(a[0] == b[0]);
        assert(s.subrange(i + 1, s.len() as int) =~= a.subrange(1, a.len() as int));
        assert(t.subrange(j + 1, t.len() as int) =~= b.subrange(1, b.len() as int));
        if is_whitespace(s[i]) {
            lemma_words_suffix(s, i + 1, t, j + 1, seq![]);
        } else {
            lemma_words_suffix(s, i + 1, t, j + 1, cur.push(s[i]));
        }
    }
}

/// Reading on through characters that are no white space gathers them into
/// the word in progress.
pub proof fn lemma_words_scan(s: Seq<char>, i: int, k: int, cur: Seq<char>)
    requires
        0 <= i <= k <= s.len(),
        forall|m: int| i <= m < k ==> !is_whitespace(#[trigger] s[m]),
    ensures
        words_from(s, i, cur) == words_from(s, k, cur + s.subrange(i, k)),
    decreases k - i,
{
    if i < k {
        lemma_words_scan(s, i + 1, k, cur.push(s[i]));
        assert(cur.push(s[i]) + s.subrange(i + 1, k) =~= cur + s.subrange(i, k));
    } else {
        assert(cur + s.subrange(i, k) =~= cur);
    }
}

/// A text that is one word has that word, and no other.
pub proof fn lemma_words_one(w: Seq<char>)
    requires
        is_word(w),
    ensures
        words(w) == seq![w],
{
    lemma_words_scan(w, 0, w.len() as int, seq![]);
    assert(seq![] + w.subrange(0, w.len() as int) =~= w);
}

/// A word, a space, and more text: the words are the word and the words of
/// the text behind the space.
pub proof fn lemma_words_next(w: Seq<char>, rest: Seq<char>)
    requires
        is_word(w),
    ensures
        words(w + " "@ + rest) == seq![w] + words(rest),
{
    reveal_strlit(" ");
    let s = w + " "@ + rest;
    let n = w.len() as int;
    assert forall|m: int| 0 <= m < n implies !is_whitespace(#[trigger] s[m]) by {
        assert(s[m] == w[m]);
    }
    lemma_words_scan(s, 0, n, seq![]);
    assert(seq![] + s.subrange(0, n) =~= w);
    assert(s[n] == ' ');
    assert(is_whitespace(s[n]));
    assert(s.subrange(n + 1, s.len() as int) =~= rest.subrange(0, rest.len() as int));
    lemma_words_suffix(s, n + 1, rest, 0, seq![]);
}

/// The pieces of a text from a place on depend on what stands from that place
/// on, and on the piece in progress, alone.
pub proof fn lemma_pieces_suffix(
    s: Seq<char>,
    i: int,
    t: Seq<char>,
    j: int,
    cur: Seq<char>,
    sep: char,
)
    requires
        0 <= i <= s.len(),
        0 <= j <= t.len(),
        s.subrange(i, s.len() as int) == t.subrange(j, t.len() as int),
    ensures
        pieces_from(s, i, cur, sep) == pieces_from(t, j, cur, sep),
    decreases s.len() - i,
{
    let a = s.subrange(i, s.len() as int);
    let b = t.subrange(j, t.len() as int);
    assert(a.len() == b.len());
    if i < s.len() {
        assert(a[0] == b[0]);
        assert(s.subrange(i + 1, s.len() as int) =~= a.subrange(1, a.len() as int));
        assert(t.subrange(j + 1, t.len() as int) =~= b.subrange(1, b.len() as int));
        if s[i] == sep {
            lemma_pieces_suffix(s, i + 1, t, j + 1, seq![], sep);
        } else {
            lemma_pieces_suffix(s, i + 1, t, j + 1, cur.push(s[i]), sep);
        }
    }
}

/// Reading on through characters that are not the separator gathers them into
/// the piece in progress.
pub proof fn lemma_pieces_scan(s: Seq<char>, i: int, k: int, cur: Seq<char>, sep: char)
    requires
        0 <= i <= k <= s.len(),
        forall|m: int| i <= m < k ==> #[trigger] s[m] != sep,
    ensures
        pieces_from(s, i, cur, sep) == pieces_from(s, k, cur + s.subrange(i, k), sep),
    decreases k - i,
{
    if i < k {
        lemma_pieces_scan(s, i + 1, k, cur.push(s[i]), sep);
        assert(cur.push(s[i]) + s.subrange(i + 1, k) =~= cur + s.subrange(i, k));
    } else {
        assert(cur + s.subrange(i, k) =~= cur);
    }
}

/// A text without the separator is one piece.
pub proof fn lemma_pieces_one(p: Seq<char>, sep: char)
    requires
        forall|m: int| 0 <= m < p.len() ==> #[trigger] p[m] != sep,
    ensures
        pieces(p, sep) == seq![p],
{
    lemma_pieces_scan(p, 0, p.len() as int, seq![], sep);
    assert(seq![] + p.subrange(0, p.len() as int) =~= p);
}

/// A text without the separator, the separator, and more text: the pieces
/// are the text and the pieces of what stands behind the separator.
pub proof fn lemma_pieces_next(p: Seq<char>, rest: Seq<char>, sep: char)
    requires
        forall|m: int| 0 <= m < p.len() ==> #[trigger] p[m] != sep,
    ensures
        pieces(p + seq![sep] + rest, sep) == seq![p] + pieces(rest, sep),
{
    let s = p + seq![sep] + rest;
    let n = p.len() as int;
    assert forall|m: int| 0 <= m < n implies #[trigger] s[m] != sep by {
        assert(s[m] == p[m]);
    }
    lemma_pieces_scan(s, 0, n, seq![], sep);
    assert(seq![] + s.subrange(0, n) =~= p);
    assert(s[n] == sep);
    assert(s.subrange(n + 1, s.len() as int) =~= rest.subrange(0, rest.len() as int));
    lemma_pieces_suffix(s, n + 1, rest, 0, seq![], sep);
}

/// A line of text: it is not empty, holds no line feed, and does not end in a
/// carriage return.
pub open spec fn is_line(l: Seq<char>) -> bool {
    &&& l.len() > 0
    &&& l.last() != '\r'
    &&& forall|i: int| 0 <= i < l.len() ==> #[trigger] l[i] != '\n'
}

/// The lines of a text from a place on depend on what stands from that place
/// on, and on the line in progress, alone.
pub proof fn lemma_lines_suffix(s: Seq<char>, i: int, t: Seq<char>, j: int, cur: Seq<char>)
    requires
        0 <= i <= s.len(),
        0 <= j <= t.len(),
        s.subrange(i, s.len() as int) == t.subrange(j, t.len() as int),
    ensures
        lines_from(s, i, cur) == lines_from(t, j, cur),
    decreases s.len() - i,
{
    let a = s.subrange(i, s.len() as int);
    let b = t.subrange(j, t.len() as int);
    assert(a.len() == b.len());
    if i < s.len() {
        assert(a[0] == b[0]);
        assert(s.subrange(i + 1, s.len() as int) =~= a.subrange(1, a.len() as int));
        assert(t.subrange(j + 1, t.len() as int) =~= b.subrange(1, b.len() as int));
        if s[i] == '\n' {
            lemma_lines_suffix(s, i + 1, t, j + 1, seq![]);
        } else {
            lemma_lines_suffix(s, i + 1, t, j + 1, cur.push(s[i]));
        }
    }
}

/// Reading on through characters that are no line feed gathers them into the
/// line in progress.
pub proof fn lemma_lines_scan(s: Seq<char>, i: int, k: int, cur: Seq<char>)
    requires
        0 <= i <= k <= s.len(),
        forall|m: int| i <= m < k ==> #[trigger] s[m] != '\n',
    ensures
        lines_from(s, i, cur) == lines_from(s, k, cur + s.subrange(i, k)),
    decreases k - i,
{
    if i < k {
        lemma_lines_scan(s, i + 1, k, cur.push(s[i]));
        assert(cur.push(s[i]) + s.subrange(i + 1, k) =~= cur + s.subrange(i, k));
    } else {
        assert(cur + s.subrange(i, k) =~= cur);
    }
}

/// A text that is one line has that line, and no other.
pub proof fn lemma_lines_one(l: Seq<char>)
    requires
        is_line(l),
    ensures
        lines(l) == seq![l],
{
    lemma_lines_scan(l, 0, l.len() as int, seq![]);
    assert(seq![] + l.subrange(0, l.len() as int) =~= l);
}

/// A line, a line feed, and more text: the lines are the line and the lines
/// of the text behind the line feed.
pub proof fn lemma_lines_next(l: Seq<char>, rest: Seq<char>)
    requires
        is_line(l),
    ensures
        lines(l + "\n"@ + rest) == seq![l] + lines(rest),
{
    reveal_strlit("\n");
    let s = l + "\n"@ + rest;
    let n = l.len() as int;
    assert forall|m: int| 0 <= m < n implies #[trigger] s[m] != '\n' by {
        assert(s[m] == l[m]);
    }
    lemma_lines_scan(s, 0, n, seq![]);
    assert(seq![] + s.subrange(0, n) =~= l);
    assert(s[n] == '\n');
    assert(s.subrange(n + 1, s.len() as int) =~= rest.subrange(0, rest.len() as int));
    lemma_lines_suffix(s, n + 1, rest, 0, seq![]);
}

/// A text in which the first character of `from` does not stand holds no
/// occurrence of `from`, so that replacing leaves it as it is.
pub proof fn lemma_replaced_absent(s: Seq<char>, i: int, from: Seq<char>, to: Seq<char>)
    requires
        0 <= i <= s.len(),
        from.len() > 0,
        forall|m: int| 0 <= m < s.len() ==> #[trigger] s[m] != from[0],
    ensures
        replaced_from(s, i, from, to) == s.subrange(i, s.len() as int),
    decreases s.len() - i,
{
    if i < s.len() {
        if occurs_at(s, from, i) {
            assert(s.subrange(i, i + from.len())[0] == from[0]);
        }
        lemma_replaced_absent(s, i + 1, from, to);
        assert(seq![s[i]] + s.subrange(i + 1, s.len() as int) =~= s.subrange(i, s.len() as int));
    } else {
        assert(s.subrange(i, s.len() as int) =~= Seq::<char>::empty());
    }
}

/// A text that begins with `from` has its first occurrence of `from` at its
/// beginning: replacing the first occurrence replaces that one.
pub proof fn lemma_replaced_first_prefix(from: Seq<char>, rest: Seq<char>, to: Seq<char>)
    ensures
        replaced_first(from + rest, from, to) == to + rest,
{
    let s = from + rest;
    assert(s.subrange(0, from.len() as int) =~= from);
    assert(occurs_at(s, from, 0));
    assert(first_from(s, from, 0) == Some(0int));
    assert(s.subrange(0, 0) + to + s.subrange(from.len() as int, s.len() as int) =~= to + rest);
}

} // verus!
