//! The line grammar of the toolchain's output: from text to an ordered list of entries.
//!
//! The output is a sequence of lines. A line that holds an equals sign is an entry, the key
//! before the first equals sign and the value after it; any other line is a bare flag and
//! carries no value.

use crate::text::{
    chars_of, find, first_index, lemma_first_index, lemma_first_index_concat, occurs, strip_cr,
    unquote, unquote_range,
};
use vstd::prelude::*;
use vstd::string::*;

verus! {

/// One `key=value` line of the output: the key as written, the value without its quotes.
#[derive(Clone, Debug, PartialEq, Eq)]
pub struct Entry {
    pub key: String,
    pub value: String,
}

/// What an `Entry` stands for: its key and its value as sequences of characters.
pub struct EntryView {
    pub key: Seq<char>,
    pub value: Seq<char>,
}

impl View for Entry {
    type V = EntryView;

    open spec fn view(&self) -> EntryView {
        EntryView { key: self.key@, value: self.value@ }
    }
}

impl DeepView for Entry {
    type V = EntryView;

    open spec fn deep_view(&self) -> EntryView {
        self@
    }
}

/// The lines of `text`. A line feed ends a line, and a carriage return directly before that
/// line feed is part of the line ending. What follows the last line feed is a line too, taken
/// as it stands, unless nothing follows.
pub open spec fn lines(text: Seq<char>) -> Seq<Seq<char>>
    decreases text.len(),
{
    if text.len() == 0 {
        Seq::empty()
    } else {
        let n = first_index(text, '\n');
        if 0 <= n < text.len() {
            seq![strip_cr(text.take(n))] + lines(text.skip(n + 1))
        } else {
            seq![text]
        }
    }
}

/// The entry that `line` holds, if it holds one. The line is split at its first equals sign
/// only: later equals signs belong to the value. The key is kept as written; the value loses
/// the pair of double quotes that encloses it, where one does.
pub open spec fn entry_of(line: Seq<char>) -> Option<EntryView> {
    let n = first_index(line, '=');
    if 0 <= n < line.len() {
        Some(EntryView { key: line.take(n), value: unquote(line.skip(n + 1)) })
    } else {
        None
    }
}

/// The entries of one line: one or none.
pub open spec fn line_entries(line: Seq<char>) -> Seq<EntryView> {
    match entry_of(line) {
        Some(entry) => seq![entry],
        None => Seq::empty(),
    }
}

/// The entries that `lines` hold, in the order of the lines.
pub open spec fn entries_of(lines: Seq<Seq<char>>) -> Seq<EntryView>
    decreases lines.len(),
{
    if lines.len() == 0 {
        Seq::empty()
    } else {
        line_entries(lines.first()) + entries_of(lines.drop_first())
    }
}

/// The entries of `text`, in the order in which the text gives them.
pub open spec fn entries(text: Seq<char>) -> Seq<EntryView> {
    entries_of(lines(text))
}

/// The entries of a text are those of its first line followed by those of the rest.
pub proof fn lemma_entries_unfold(text: Seq<char>)
    requires
        text.len() > 0,
    ensures
        ({
            let n = first_index(text, '\n');
            entries(text) == if n < text.len() {
                line_entries(strip_cr(text.take(n))) + entries(text.skip(n + 1))
            } else {
                line_entries(text)
            }
        }),
{
    lemma_first_index(text, '\n');
    let n = first_index(text, '\n');
    if n < text.len() {
        let head = strip_cr(text.take(n));
        let tail = lines(text.skip(n + 1));
        assert((seq![head] + tail).drop_first() =~= tail);
    } else {
        assert(entries_of(seq![text].drop_first()) =~= Seq::<EntryView>::empty());
    }
}

/// A text that starts with a line and its line feed has that line first, without the
/// carriage return that may end it, and then the lines of what follows.
pub proof fn lemma_lines_first(line: Seq<char>, rest: Seq<char>)
    requires
        !occurs(line, '\n'),
    ensures
        lines(line + seq!['\n'] + rest) == seq![strip_cr(line)] + lines(rest),
{
    let text = line + seq!['\n'] + rest;
    lemma_first_index(line, '\n');
    lemma_first_index_concat(line, seq!['\n'] + rest, '\n');
    assert(text =~= line + (seq!['\n'] + rest));
    assert(text.take(line.len() as int) =~= line);
    assert(text.skip(line.len() as int + 1) =~= rest);
}

/// Where a text ends in a line feed, or is empty, the lines of what is appended to it come
/// after its own.
pub proof fn lemma_lines_concat(a: Seq<char>, b: Seq<char>)
    requires
        a.len() == 0 || a.last() == '\n',
    ensures
        lines(a + b) == lines(a) + lines(b),
    decreases a.len(),
{
    if a.len() > 0 {
        lemma_first_index(a, '\n');
        let n = first_index(a, '\n');
        let line = a.take(n);
        let rest = a.skip(n + 1);
        assert(!occurs(line, '\n'));
        lemma_lines_concat(rest, b);
        lemma_lines_first(line, rest);
        lemma_lines_first(line, rest + b);
        assert(a =~= line + seq!['\n'] + rest);
        assert(a + b =~= line + seq!['\n'] + (rest + b));
    } else {
        assert(a + b =~= b);
    }
}

/// The entries of lines put one after the other are their entries put one after the other.
pub proof fn lemma_entries_of_concat(first: Seq<Seq<char>>, second: Seq<Seq<char>>)
    ensures
        entries_of(first + second) == entries_of(first) + entries_of(second),
    decreases first.len(),
{
    if first.len() > 0 {
        lemma_entries_of_concat(first.drop_first(), second);
        assert((first + second).drop_first() =~= first.drop_first() + second);
    } else {
        assert(first + second =~= second);
    }
}

/// Where a text ends in a line feed, or is empty, the entries of what is appended to it come
/// after its own.
pub proof fn lemma_entries_concat(a: Seq<char>, b: Seq<char>)
    requires
        a.len() == 0 || a.last() == '\n',
    ensures
        entries(a + b) == entries(a) + entries(b),
{
    lemma_lines_concat(a, b);
    lemma_entries_of_concat(lines(a), lines(b));
}

/// Reads the entries of `text`: every line that holds an equals sign, in order, whatever its
/// key. Lines without an equals sign, empty lines among them, are skipped.
pub fn parse_entries(text: &str) -> (found: Vec<Entry>)
    ensures
        found.deep_view() == entries(text@),
{
    let chars = chars_of(text);
    let n = chars.len();
    let mut found: Vec<Entry> = Vec::new();
    let mut pos: usize = 0;
    assert(text@.skip(0) =~= text@);
    while pos < n
        invariant
            pos <= n,
            n == chars@.len(),
            chars@ == text@,
            entries(text@) == found.deep_view() + entries(text@.skip(pos as int)),
        decreases n - pos,
    {
        let ghost rest = text@.skip(pos as int);
        let nl = find(&chars, pos, n, '\n');
        let end: usize = if nl < n && pos < nl && chars[nl - 1] == '\r' {
            nl - 1
        } else {
            nl
        };
        let ghost line = chars@.subrange(pos as int, end as int);
        proof {
            lemma_entries_unfold(rest);
            if nl < n {
                assert(line =~= strip_cr(rest.take(nl - pos)));
                assert(rest.skip(nl - pos + 1) =~= text@.skip(nl + 1));
            } else {
                assert(line =~= rest);
            }
        }
        let eq = find(&chars, pos, end, '=');
        if eq < end {
            let kept = unquote_range(&chars, eq + 1, end);
            let key = String::from_str(text.substring_char(pos, eq));
            let value = String::from_str(text.substring_char(kept.0, kept.1));
            proof {
                assert(line.take(eq - pos) =~= chars@.subrange(pos as int, eq as int));
                assert(line.skip(eq - pos + 1) =~= chars@.subrange(eq + 1, end as int));
            }
            found.push(Entry { key, value });
        }
        pos = if nl < n {
            nl + 1
        } else {
            n
        };
    }
    found
}

} // verus!
