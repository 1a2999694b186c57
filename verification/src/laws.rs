//! What holds of every text and every run: the laws that callers may rely on.

use crate::entry::{
    entries, entries_of, entry_of, lemma_entries_concat, lemma_lines_first, lines, EntryView,
};
use crate::error::ErrorView;
use crate::key::{lemma_lookup_is, Key};
use crate::record::{
    last_value, lemma_values_concat, lemma_values_hold, required_keys, values, Cfg, CfgView,
};
use crate::text::{lemma_first_index, lemma_first_index_concat, occurs, strip_cr};
use vstd::prelude::*;
use vstd::utf8::{encode_utf8, encode_utf8_decode_utf8, encode_utf8_valid_utf8};

verus! {

/// An entry that can be written on one line and read back: its key holds neither an equals
/// sign nor a line feed, and its value holds no line feed.
pub open spec fn writable(entry: EntryView) -> bool {
    &&& !occurs(entry.key, '=')
    &&& !occurs(entry.key, '\n')
    &&& !occurs(entry.value, '\n')
}

/// An entry as the toolchain writes it, without the line feed: the key, an equals sign, and
/// the value between double quotes.
pub open spec fn written(entry: EntryView) -> Seq<char> {
    entry.key + seq!['=', '"'] + entry.value + seq!['"']
}

/// Entries as the toolchain writes them: one line each, every line ended by a line feed.
pub open spec fn written_all(entries: Seq<EntryView>) -> Seq<char>
    decreases entries.len(),
{
    if entries.len() == 0 {
        Seq::empty()
    } else {
        written(entries.first()) + seq!['\n'] + written_all(entries.drop_first())
    }
}

/// A written entry is read back as it was: the key unchanged, the value without the quotes
/// that were put around it.
pub proof fn written_entry_reads_back(entry: EntryView)
    requires
        !occurs(entry.key, '='),
    ensures
        entry_of(written(entry)) == Some(entry),
        strip_cr(written(entry)) == written(entry),
{
    let line = written(entry);
    let tail = seq!['=', '"'] + entry.value + seq!['"'];
    let n = entry.key.len() as int;
    assert(line =~= entry.key + tail);
    lemma_first_index(entry.key, '=');
    lemma_first_index_concat(entry.key, tail, '=');
    assert(line.take(n) =~= entry.key);
    assert(line.skip(n + 1) =~= seq!['"'] + entry.value + seq!['"']);
    assert(line.skip(n + 1).subrange(1, entry.value.len() as int + 1) =~= entry.value);
}

/// Reading what was written gives back the entries that were written, in their order.
pub proof fn written_entries_read_back(given: Seq<EntryView>)
    requires
        forall|i: int| 0 <= i < given.len() ==> writable(#[trigger] given[i]),
    ensures
        entries(written_all(given)) == given,
    decreases given.len(),
{
    if given.len() > 0 {
        let entry = given.first();
        let rest = given.drop_first();
        let line = written(entry);
        assert(writable(given[0]));
        assert forall|i: int| 0 <= i < rest.len() implies writable(#[trigger] rest[i]) by {
            assert(rest[i] == given[i + 1]);
        }
        written_entries_read_back(rest);
        written_entry_reads_back(entry);
        assert(!occurs(line, '\n'));
        lemma_lines_first(line, written_all(rest));
        assert((seq![line] + lines(written_all(rest))).drop_first() =~= lines(written_all(rest)));
        assert(seq![entry] + rest =~= given);
    }
}

/// Round trip. Take any entries that can be written, with one value for each required key,
/// and write them as the toolchain does. Reading that text succeeds, and each field for a
/// key given once holds the value that was written for it, without the quotes. Each
/// repeatable field holds the values written for its key, all of them and in their order.
pub proof fn well_formed_output_reads_back(given: Seq<EntryView>)
    requires
        forall|i: int| 0 <= i < given.len() ==> writable(#[trigger] given[i]),
        forall|key: Key| key.is_required() ==> (#[trigger] values(given, key)).len() == 1,
    ensures
        Cfg::spec_parse(written_all(given)) is Ok,
        forall|i: int, key: Key|
            #![trigger given[i], key.spec_name()]
            0 <= i < given.len() && given[i].key == key.spec_name() && !key.is_repeatable()
                && values(given, key).len() == 1 ==> Cfg::spec_parse(
                written_all(given),
            )->Ok_0.single(key) == Some(given[i].value),
        forall|key: Key|
            key.is_repeatable() ==> Cfg::spec_parse(written_all(given))->Ok_0.repeated(key)
                == #[trigger] values(given, key),
{
    written_entries_read_back(given);
    required_keys_have_values(given);
    let cfg = Cfg::spec_parse(written_all(given))->Ok_0;
    assert forall|i: int, key: Key|
        #![trigger given[i], key.spec_name()]
        0 <= i < given.len() && given[i].key == key.spec_name() && !key.is_repeatable() && values(
            given,
            key,
        ).len() == 1 implies cfg.single(key) == Some(given[i].value) by {
        lemma_values_hold(given, key, i);
    }
}

/// Accumulation. A repeatable field holds every value that the entries give for its key, in
/// the order of the entries; a field for any other key holds the value that the last entry
/// for its key gives, and is absent where there is none.
pub proof fn fields_follow_entries(given: Seq<EntryView>, key: Key)
    requires
        Cfg::spec_assemble(given) is Ok,
    ensures
        key.is_repeatable() ==> Cfg::spec_assemble(given)->Ok_0.repeated(key) == values(
            given,
            key,
        ),
        !key.is_repeatable() ==> Cfg::spec_assemble(given)->Ok_0.single(key) == last_value(
            given,
            key,
        ),
{
}

/// Last wins. Where an entry for a key is followed by no other entry for that key, its value
/// is the one that counts, whatever was given for the key before.
pub proof fn last_entry_wins(
    before: Seq<EntryView>,
    entry: EntryView,
    after: Seq<EntryView>,
    key: Key,
)
    requires
        entry.key == key.spec_name(),
        values(after, key).len() == 0,
    ensures
        last_value(before + seq![entry] + after, key) == Some(entry.value),
{
    lemma_values_concat(before + seq![entry], after, key);
    lemma_values_concat(before, seq![entry], key);
    lemma_values_hold(seq![entry], key, 0);
    assert(values(before + seq![entry] + after, key) =~= values(before, key) + values(
        seq![entry],
        key,
    ));
}

/// Unknown keys. An entry whose key spells none of the record's keys counts for nothing: the
/// entries amount to the same record, or the same error, with it and without it.
pub proof fn unknown_key_is_ignored(before: Seq<EntryView>, entry: EntryView, after: Seq<EntryView>)
    requires
        Key::spec_lookup(entry.key) is None,
    ensures
        forall|key: Key| #[trigger]
            values(before + seq![entry] + after, key) == values(before + after, key),
        Cfg::spec_assemble(before + seq![entry] + after) == Cfg::spec_assemble(before + after),
{
    assert forall|key: Key| #[trigger]
        values(before + seq![entry] + after, key) == values(before + after, key) by {
        lemma_lookup_is(entry.key, key);
        lemma_values_concat(before + seq![entry], after, key);
        lemma_values_concat(before, seq![entry], key);
        lemma_values_concat(before, after, key);
        assert(values(seq![entry].drop_last(), key).len() == 0);
        assert(values(before, key) + values(seq![entry], key) =~= values(before, key));
    }
}

/// A text gives a key no value exactly where none of its entries is under that key.
pub proof fn no_entry_no_value(entries: Seq<EntryView>, key: Key)
    ensures
        values(entries, key).len() == 0 <==> forall|i: int|
            0 <= i < entries.len() ==> #[trigger] entries[i].key != key.spec_name(),
    decreases entries.len(),
{
    if entries.len() > 0 {
        let earlier = entries.drop_last();
        no_entry_no_value(earlier, key);
        if values(entries, key).len() == 0 {
            assert forall|i: int| 0 <= i < entries.len() implies #[trigger] entries[i].key
                != key.spec_name() by {
                if i < earlier.len() {
                    assert(earlier[i].key != key.spec_name());
                }
            }
        } else if entries.last().key != key.spec_name() {
            let i = choose|i: int|
                0 <= i < earlier.len() && #[trigger] earlier[i].key == key.spec_name();
            assert(entries[i].key == key.spec_name());
        }
    }
}

/// A key is required exactly where it is one of `required_keys`.
pub proof fn required_keys_are_the_required(key: Key)
    ensures
        key.is_required() <==> exists|j: int|
            0 <= j < required_keys().len() && #[trigger] required_keys()[j] == key,
{
    if key.is_required() {
        let j: int = match key {
            Key::TargetOs => 0,
            Key::TargetArch => 1,
            Key::TargetEndian => 2,
            Key::TargetPointerWidth => 3,
            _ => 4,
        };
        assert(required_keys()[j] == key);
    }
}

/// Entries are assembled into a record exactly where they give a value for every required
/// key. Where they do not, the error names a required key for which they give none.
pub proof fn required_keys_have_values(given: Seq<EntryView>)
    ensures
        Cfg::spec_assemble(given) is Ok <==> forall|key: Key|
            key.is_required() ==> #[trigger] last_value(given, key) is Some,
        Cfg::spec_assemble(given) matches Err(error) ==> error matches ErrorView::MissingField(key)
            && key.is_required() && last_value(given, key) is None,
{
    if forall|key: Key| key.is_required() ==> #[trigger] last_value(given, key) is Some {
        assert(last_value(given, Key::TargetOs) is Some);
        assert(last_value(given, Key::TargetArch) is Some);
        assert(last_value(given, Key::TargetEndian) is Some);
        assert(last_value(given, Key::TargetPointerWidth) is Some);
        assert(last_value(given, Key::TargetEnv) is Some);
    }
}

/// Missing field. A text that gives no value for a required key, and gives one for every
/// required key before it, is refused with an error that names that key, whatever else the
/// text holds.
pub proof fn missing_required_key_is_named(text: Seq<char>, j: int)
    requires
        0 <= j < required_keys().len(),
        last_value(entries(text), required_keys()[j]) is None,
        forall|i: int|
            0 <= i < j ==> last_value(entries(text), #[trigger] required_keys()[i]) is Some,
    ensures
        Cfg::spec_parse(text) == Err::<CfgView, ErrorView>(
            ErrorView::MissingField(required_keys()[j]),
        ),
{
    let keys = required_keys();
    assert(forall|i: int| 0 <= i < j ==> last_value(entries(text), #[trigger] keys[i]) is Some);
    assert(keys[0] == Key::TargetOs && keys[1] == Key::TargetArch && keys[2] == Key::TargetEndian
        && keys[3] == Key::TargetPointerWidth && keys[4] == Key::TargetEnv);
}

/// A text that gives no value for some required key is refused, whatever else it holds, and
/// the error names a required key that has no value.
pub proof fn missing_required_key_fails(text: Seq<char>, key: Key)
    requires
        key.is_required(),
        last_value(entries(text), key) is None,
    ensures
        Cfg::spec_parse(text) matches Err(ErrorView::MissingField(named)) && named.is_required()
            && last_value(entries(text), named) is None,
{
    required_keys_have_values(entries(text));
}

/// Optional fields. A text that gives no value for `target_family`, or none for
/// `target_vendor`, is read like any other: whether it yields a record depends on the
/// required keys alone, and in the record that it yields the field is absent, not empty.
pub proof fn absent_optional_key_is_absent(text: Seq<char>, key: Key)
    requires
        key == Key::TargetFamily || key == Key::TargetVendor,
        last_value(entries(text), key) is None,
    ensures
        Cfg::spec_parse(text) is Ok <==> forall|required: Key|
            required.is_required() ==> #[trigger] last_value(entries(text), required) is Some,
        Cfg::spec_parse(text) matches Ok(cfg) ==> cfg.single(key) is None,
{
    required_keys_have_values(entries(text));
}

/// Failure of the toolchain. Whatever text the toolchain wrote to standard error before it
/// reported failure is the error, character for character, and what it wrote to standard
/// output counts for nothing.
pub proof fn failure_is_passed_on_verbatim(stdout: Seq<u8>, message: Seq<char>)
    ensures
        Cfg::spec_from_output(false, stdout, encode_utf8(message)) == Err::<CfgView, ErrorView>(
            ErrorView::Toolchain(message),
        ),
        ErrorView::Toolchain(message).message() == message,
{
    encode_utf8_valid_utf8(message);
    encode_utf8_decode_utf8(message);
}

/// Bare flags. A line without an equals sign adds no entry, so the text reads the same with
/// it and without it: the same record, or the same error. This holds of a line among others
/// and of a last line that no line feed ends.
pub proof fn bare_line_is_ignored(before: Seq<char>, line: Seq<char>, after: Seq<char>)
    requires
        before.len() == 0 || before.last() == '\n',
        !occurs(line, '='),
        !occurs(line, '\n'),
    ensures
        entries(before + line + seq!['\n'] + after) == entries(before + after),
        Cfg::spec_parse(before + line + seq!['\n'] + after) == Cfg::spec_parse(before + after),
        entries(before + line) == entries(before),
        Cfg::spec_parse(before + line) == Cfg::spec_parse(before),
{
    let bare = strip_cr(line);
    assert(!occurs(bare, '='));
    lemma_first_index(bare, '=');
    lemma_first_index(line, '=');
    lemma_first_index(line, '\n');

    // The line among others: it is the first line of what follows `before`.
    lemma_lines_first(line, after);
    assert((seq![bare] + lines(after)).drop_first() =~= lines(after));
    assert(entries(line + seq!['\n'] + after) =~= entries(after));
    lemma_entries_concat(before, line + seq!['\n'] + after);
    lemma_entries_concat(before, after);
    assert(before + line + seq!['\n'] + after =~= before + (line + seq!['\n'] + after));

    // The last line: it is the only line of what follows `before`, or there is none.
    if line.len() > 0 {
        assert(lines(line) == seq![line]);
        assert(entries_of(seq![line].drop_first()).len() == 0);
    }
    assert(entries(line).len() == 0);
    lemma_entries_concat(before, line);
    assert(entries(before) + entries(line) =~= entries(before));
}

} // verus!
