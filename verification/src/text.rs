//! Scanning text: lines, the leading word of a line, and the fields of a
//! record.
//!
//! Text is handled as a sequence of characters. A *blank* is one of the five
//! ASCII whitespace characters, a *separator* is a blank or a comma.

use vstd::prelude::*;

verus! {

/// Whether `c` is a space, a tab, a line feed, a form feed or a carriage
/// return.
pub open spec fn is_blank(c: char) -> bool {
    c == ' ' || c == '\t' || c == '\n' || c == '\x0c' || c == '\r'
}

/// Whether `c` separates two fields: a blank or a comma.
pub open spec fn is_separator(c: char) -> bool {
    is_blank(c) || c == ','
}

/// The view of each vector of characters, in order.
pub open spec fn texts(parts: Seq<Vec<char>>) -> Seq<Seq<char>> {
    Seq::new(parts.len(), |i: int| parts[i]@)
}

/// The index of the first blank of `s` at or after `from`, or the length of
/// `s` where none follows.
pub open spec fn word_end(s: Seq<char>, from: int) -> int
    decreases s.len() - from,
{
    if from < s.len() && !is_blank(s[from]) {
        word_end(s, from + 1)
    } else {
        from
    }
}

/// The index of the first character of `s` at or after `from` that is not a
/// blank, or the length of `s` where none follows.
pub open spec fn blanks_end(s: Seq<char>, from: int) -> int
    decreases s.len() - from,
{
    if from < s.len() && is_blank(s[from]) {
        blanks_end(s, from + 1)
    } else {
        from
    }
}

/// The leading word of a line: what stands before its first blank, the whole
/// line where it holds none.
pub open spec fn leading_word(line: Seq<char>) -> Seq<char> {
    line.take(word_end(line, 0))
}

/// What follows the first run of blanks of a line; empty where the line
/// holds no blank.
pub open spec fn after_leading_word(line: Seq<char>) -> Seq<char> {
    line.skip(blanks_end(line, word_end(line, 0)))
}

/// The fields of `s` that end at or after `i`, where `start..i` is the part
/// of the current field that was read already (`start == i`: no field is
/// open).
pub open spec fn fields_scan(s: Seq<char>, start: int, i: int) -> Seq<Seq<char>>
    decreases s.len() - i,
{
    let open: Seq<Seq<char>> = if start < i {
        seq![s.subrange(start, i)]
    } else {
        Seq::empty()
    };
    if i >= s.len() {
        open
    } else if is_separator(s[i]) {
        open + fields_scan(s, i + 1, i + 1)
    } else {
        fields_scan(s, start, i + 1)
    }
}

/// The fields of a record: its longest stretches without a separator, in
/// order. Separators that follow one another, and those at either end, stand
/// for no field.
pub open spec fn fields(s: Seq<char>) -> Seq<Seq<char>> {
    fields_scan(s, 0, 0)
}

/// The lines of `s` that end at or after `i`, where `start..i` is the part of
/// the current line that was read already.
pub open spec fn lines_scan(s: Seq<char>, start: int, i: int) -> Seq<Seq<char>>
    decreases s.len() - i,
{
    if i >= s.len() {
        if start < i {
            seq![s.subrange(start, i)]
        } else {
            Seq::empty()
        }
    } else if s[i] == '\n' {
        seq![s.subrange(start, i)] + lines_scan(s, i + 1, i + 1)
    } else {
        lines_scan(s, start, i + 1)
    }
}

/// The lines of a text. Each line feed ends a line and is not part of it;
/// what follows the last line feed is a line of its own unless it is empty.
/// A carriage return in front of a line feed stays in its line, where it
/// counts as a blank.
pub open spec fn lines(s: Seq<char>) -> Seq<Seq<char>> {
    lines_scan(s, 0, 0)
}

/// A stretch of `s` without a blank, from `from` up to a blank or the end of
/// `s`, is where the word that starts at `from` ends.
pub proof fn lemma_word_end(s: Seq<char>, from: int, end: int)
    requires
        0 <= from <= end <= s.len(),
        forall|k: int| from <= k < end ==> !is_blank(#[trigger] s[k]),
        end == s.len() || is_blank(s[end]),
    ensures
        word_end(s, from) == end,
    decreases end - from,
{
    if from < end {
        lemma_word_end(s, from + 1, end);
    }
}

/// A stretch of blanks of `s`, from `from` up to a character that is none or
/// the end of `s`, is where the blanks that start at `from` end.
pub proof fn lemma_blanks_end(s: Seq<char>, from: int, end: int)
    requires
        0 <= from <= end <= s.len(),
        forall|k: int| from <= k < end ==> is_blank(#[trigger] s[k]),
        end == s.len() || !is_blank(s[end]),
    ensures
        blanks_end(s, from) == end,
    decreases end - from,
{
    if from < end {
        lemma_blanks_end(s, from + 1, end);
    }
}

/// A line made of a word without blanks, one space, and a rest that does not
/// start with a blank has that word as its leading word and that rest behind
/// it.
pub proof fn lemma_leading_word(word: Seq<char>, rest: Seq<char>)
    requires
        forall|k: int| 0 <= k < word.len() ==> !is_blank(#[trigger] word[k]),
        rest.len() == 0 || !is_blank(rest[0]),
    ensures
        leading_word(word + seq![' '] + rest) == word,
        after_leading_word(word + seq![' '] + rest) == rest,
{
    let line: Seq<char> = word + seq![' '] + rest;
    let n: int = word.len() as int;
    lemma_word_end(line, 0, n);
    lemma_blanks_end(line, n, n + 1);
}

/// The fields that a scan finds depend only on what stands at and after the
/// start of the field that is open.
pub proof fn lemma_fields_shift(s: Seq<char>, k: int, start: int, i: int)
    requires
        0 <= k,
        0 <= start <= i,
        i + k <= s.len(),
    ensures
        fields_scan(s, start + k, i + k) == fields_scan(s.skip(k), start, i),
    decreases s.len() - k - i,
{
    let t: Seq<char> = s.skip(k);
    if start < i {
        assert(s.subrange(start + k, i + k) =~= t.subrange(start, i));
    }
    if i < t.len() {
        if is_separator(t[i]) {
            lemma_fields_shift(s, k, i + 1, i + 1);
        } else {
            lemma_fields_shift(s, k, start, i + 1);
        }
    }
}

/// A scan that has a field open finds that field first, all of it, and goes
/// on behind the separator that ends it.
pub proof fn lemma_field(s: Seq<char>, start: int, i: int, end: int)
    requires
        0 <= start <= i <= end <= s.len(),
        start < end,
        forall|k: int| start <= k < end ==> !is_separator(#[trigger] s[k]),
        end == s.len() || is_separator(s[end]),
    ensures
        fields_scan(s, start, i) == seq![s.subrange(start, end)] + (if end == s.len() {
            Seq::<Seq<char>>::empty()
        } else {
            fields_scan(s, end + 1, end + 1)
        }),
    decreases end - i,
{
    if i < end {
        lemma_field(s, start, i + 1, end);
    }
}

/// A field alone is a record of one field; a field, a separator and a record
/// make a record that holds the field first and the fields of the record
/// after it.
pub proof fn lemma_fields_cons(field: Seq<char>, separator: char, rest: Seq<char>)
    requires
        field.len() > 0,
        forall|k: int| 0 <= k < field.len() ==> !is_separator(#[trigger] field[k]),
        is_separator(separator),
    ensures
        fields(field) == seq![field],
        fields(field + seq![separator] + rest) == seq![field] + fields(rest),
{
    let n: int = field.len() as int;
    lemma_field(field, 0, 0, n);
    assert(field.subrange(0, n) =~= field);
    let s: Seq<char> = field + seq![separator] + rest;
    lemma_field(s, 0, 0, n);
    assert(s.subrange(0, n) =~= field);
    lemma_fields_shift(s, n + 1, 0, 0);
    assert(s.skip(n + 1) =~= rest);
}

/// An empty record has no field, and a separator in front of a record adds
/// none.
pub proof fn lemma_fields_separator(separator: char, rest: Seq<char>)
    requires
        is_separator(separator),
    ensures
        fields(Seq::<char>::empty()) == Seq::<Seq<char>>::empty(),
        fields(seq![separator] + rest) == fields(rest),
{
    let s: Seq<char> = seq![separator] + rest;
    lemma_fields_shift(s, 1, 0, 0);
    assert(s.skip(1) =~= rest);
}

/// The lines that a scan finds depend only on what stands at and after the
/// start of the line that is open.
pub proof fn lemma_lines_shift(s: Seq<char>, k: int, start: int, i: int)
    requires
        0 <= k,
        0 <= start <= i,
        i + k <= s.len(),
    ensures
        lines_scan(s, start + k, i + k) == lines_scan(s.skip(k), start, i),
    decreases s.len() - k - i,
{
    let t: Seq<char> = s.skip(k);
    assert(s.subrange(start + k, i + k) =~= t.subrange(start, i));
    if i < t.len() {
        if t[i] == '\n' {
            lemma_lines_shift(s, k, i + 1, i + 1);
        } else {
            lemma_lines_shift(s, k, start, i + 1);
        }
    }
}

/// A scan finds the line that is open first, up to the next line feed, and
/// goes on behind that line feed.
pub proof fn lemma_line(s: Seq<char>, start: int, i: int, end: int)
    requires
        0 <= start <= i <= end < s.len(),
        forall|k: int| start <= k < end ==> #[trigger] s[k] != '\n',
        s[end] == '\n',
    ensures
        lines_scan(s, start, i) == seq![s.subrange(start, end)] + lines_scan(s, end + 1, end + 1),
    decreases end - i,
{
    if i < end {
        lemma_line(s, start, i + 1, end);
    }
}

/// A scan of a text that holds no further line feed finds the line that is
/// open, if it is not empty, and nothing more.
pub proof fn lemma_last_line(s: Seq<char>, start: int, i: int)
    requires
        0 <= start <= i <= s.len(),
        forall|k: int| start <= k < s.len() ==> #[trigger] s[k] != '\n',
    ensures
        lines_scan(s, start, i) == if start < s.len() {
            seq![s.subrange(start, s.len() as int)]
        } else {
            Seq::<Seq<char>>::empty()
        },
    decreases s.len() - i,
{
    if i < s.len() {
        lemma_last_line(s, start, i + 1);
    }
}

/// The empty text has no line. A text without a line feed is one line, unless
/// it is empty. A text without a line feed, a line feed and a rest make a
/// text that holds the first as a line and the lines of the rest after it.
pub proof fn lemma_lines_cons(line: Seq<char>, rest: Seq<char>)
    requires
        forall|k: int| 0 <= k < line.len() ==> #[trigger] line[k] != '\n',
    ensures
        lines(Seq::<char>::empty()) == Seq::<Seq<char>>::empty(),
        line.len() > 0 ==> lines(line) == seq![line],
        lines(line + seq!['\n'] + rest) == seq![line] + lines(rest),
{
    let n: int = line.len() as int;
    lemma_last_line(line, 0, 0);
    assert(line.subrange(0, n) =~= line);
    let s: Seq<char> = line + seq!['\n'] + rest;
    lemma_line(s, 0, 0, n);
    assert(s.subrange(0, n) =~= line);
    lemma_lines_shift(s, n + 1, 0, 0);
    assert(s.skip(n + 1) =~= rest);
}

/// Decides [`is_blank`].
pub fn blank(c: char) -> (b: bool)
    ensures
        b == is_blank(c),
{
    c == ' ' || c == '\t' || c == '\n' || c == '\x0c' || c == '\r'
}

/// Decides [`is_separator`].
pub fn separator(c: char) -> (b: bool)
    ensures
        b == is_separator(c),
{
    blank(c) || c == ','
}

/// The characters of a string.
pub fn chars_of(s: &str) -> (chars: Vec<char>)
    ensures
        chars@ == s@,
{
    broadcast use vstd::string::group_string_axioms;

    let mut chars: Vec<char> = Vec::new();
    for c in it: s.chars()
        invariant
            it.seq() == s@,
            chars@ == s@.take(it.index() as int),
    {
        chars.push(c);
    }
    chars
}

/// Whether two sequences of characters are the same.
pub fn same_chars(a: &Vec<char>, b: &Vec<char>) -> (same: bool)
    ensures
        same == (a@ == b@),
{
    if a.len() != b.len() {
        return false;
    }
    let mut i: usize = 0;
    while i < a.len()
        invariant
            i <= a.len(),
            a.len() == b.len(),
            forall|k: int| 0 <= k < i ==> a@[k] == b@[k],
        decreases a.len() - i,
    {
        if a[i] != b[i] {
            return false;
        }
        i += 1;
    }
    assert(a@ =~= b@);
    true
}

/// Whether `chars` spells `word`.
pub fn spells(chars: &Vec<char>, word: &str) -> (same: bool)
    ensures
        same == (chars@ == word@),
{
    let other = chars_of(word);
    same_chars(chars, &other)
}

/// The characters of `chars` from index `from` up to, not including, `to`.
pub(crate) fn copy_range(chars: &Vec<char>, from: usize, to: usize) -> (part: Vec<char>)
    requires
        from <= to <= chars.len(),
    ensures
        part@ == chars@.subrange(from as int, to as int),
{
    let mut part: Vec<char> = Vec::new();
    let mut i: usize = from;
    while i < to
        invariant
            from <= i <= to <= chars.len(),
            part@ == chars@.subrange(from as int, i as int),
        decreases to - i,
    {
        part.push(chars[i]);
        i += 1;
    }
    part
}

/// Computes [`word_end`].
pub(crate) fn find_word_end(chars: &Vec<char>, from: usize) -> (end: usize)
    requires
        from <= chars.len(),
    ensures
        end == word_end(chars@, from as int),
        from <= end <= chars.len(),
{
    let mut i: usize = from;
    while i < chars.len() && !blank(chars[i])
        invariant
            from <= i <= chars.len(),
            word_end(chars@, i as int) == word_end(chars@, from as int),
        decreases chars.len() - i,
    {
        i += 1;
    }
    i
}

/// Computes [`blanks_end`].
pub(crate) fn find_blanks_end(chars: &Vec<char>, from: usize) -> (end: usize)
    requires
        from <= chars.len(),
    ensures
        end == blanks_end(chars@, from as int),
        from <= end <= chars.len(),
{
    let mut i: usize = from;
    while i < chars.len() && blank(chars[i])
        invariant
            from <= i <= chars.len(),
            blanks_end(chars@, i as int) == blanks_end(chars@, from as int),
        decreases chars.len() - i,
    {
        i += 1;
    }
    i
}

/// Splits a record into its fields.
pub fn split_fields(chars: &Vec<char>) -> (parts: Vec<Vec<char>>)
    ensures
        texts(parts@) == fields(chars@),
{
    let mut parts: Vec<Vec<char>> = Vec::new();
    let mut start: usize = 0;
    let mut i: usize = 0;
    while i < chars.len()
        invariant
            start <= i <= chars.len(),
            texts(parts@) + fields_scan(chars@, start as int, i as int) == fields(chars@),
        decreases chars.len() - i,
    {
        if separator(chars[i]) {
            if start < i {
                let part = copy_range(chars, start, i);
                parts.push(part);
            }
            start = i + 1;
        }
        i += 1;
    }
    if start < i {
        let part = copy_range(chars, start, i);
        parts.push(part);
    }
    parts
}

/// Splits a text into its lines.
pub fn split_lines(chars: &Vec<char>) -> (parts: Vec<Vec<char>>)
    ensures
        texts(parts@) == lines(chars@),
{
    let mut parts: Vec<Vec<char>> = Vec::new();
    let mut start: usize = 0;
    let mut i: usize = 0;
    while i < chars.len()
        invariant
            start <= i <= chars.len(),
            texts(parts@) + lines_scan(chars@, start as int, i as int) == lines(chars@),
        decreases chars.len() - i,
    {
        if chars[i] == '\n' {
            let part = copy_range(chars, start, i);
            parts.push(part);
            start = i + 1;
        }
        i += 1;
    }
    if start < i {
        let part = copy_range(chars, start, i);
        parts.push(part);
    }
    parts
}

} // verus!
