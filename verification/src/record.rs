//! The typed record, and how it is assembled from the entries of the toolchain's output.

use crate::entry::{entries, parse_entries, Entry, EntryView};
use crate::error::{Error, ErrorView};
use crate::key::{lemma_lookup_is, Key};
use vstd::prelude::*;

verus! {

/// The result of parsing the output of `rustc --print cfg`
#[derive(Clone, Debug, PartialEq, Eq)]
#[non_exhaustive]
pub struct Cfg {
    /// Equivalent to `cfg(target_os = "..")`
    pub target_os: String,
    /// Equivalent to `cfg(unix)` or `cfg(windows)`
    pub target_family: Option<String>,
    /// Equivalent to `cfg(target_arch = "..")`
    pub target_arch: String,
    /// Equivalent to `cfg(target_endian = "..")`
    pub target_endian: String,
    /// Equivalent to `cfg(target_pointer_width = "..")`
    pub target_pointer_width: String,
    /// Equivalent to `cfg(target_env = "..")`
    pub target_env: String,
    /// Equivalent to `cfg(target_vendor = "..")`.
    pub target_vendor: Option<String>,
    /// Equivalent to `cfg(target_has_atomic = "..")`
    pub target_has_atomic: Vec<String>,
    /// Equivalent to `cfg(target_feature = "..")`
    pub target_feature: Vec<String>,
}

/// What a `Cfg` stands for: each field as a sequence of characters, an optional one, or a
/// sequence of such sequences.
pub struct CfgView {
    pub target_os: Seq<char>,
    pub target_family: Option<Seq<char>>,
    pub target_arch: Seq<char>,
    pub target_endian: Seq<char>,
    pub target_pointer_width: Seq<char>,
    pub target_env: Seq<char>,
    pub target_vendor: Option<Seq<char>>,
    pub target_has_atomic: Seq<Seq<char>>,
    pub target_feature: Seq<Seq<char>>,
}

impl View for Cfg {
    type V = CfgView;

    open spec fn view(&self) -> CfgView {
        CfgView {
            target_os: self.target_os@,
            target_family: self.target_family.deep_view(),
            target_arch: self.target_arch@,
            target_endian: self.target_endian@,
            target_pointer_width: self.target_pointer_width@,
            target_env: self.target_env@,
            target_vendor: self.target_vendor.deep_view(),
            target_has_atomic: self.target_has_atomic.deep_view(),
            target_feature: self.target_feature.deep_view(),
        }
    }
}

/// The values that `entries` give for `key`, in the order of the entries. Nothing is merged:
/// a value given twice is listed twice.
pub open spec fn values(entries: Seq<EntryView>, key: Key) -> Seq<Seq<char>>
    decreases entries.len(),
{
    if entries.len() == 0 {
        Seq::empty()
    } else {
        let earlier = values(entries.drop_last(), key);
        if entries.last().key == key.spec_name() {
            earlier.push(entries.last().value)
        } else {
            earlier
        }
    }
}

/// The value that the last entry for `key` gives, if there is an entry for `key`.
pub open spec fn last_value(entries: Seq<EntryView>, key: Key) -> Option<Seq<char>> {
    let given = values(entries, key);
    if given.len() == 0 {
        None
    } else {
        Some(given.last())
    }
}

/// The first required key, in the order of the record's fields, for which `entries` give no
/// value.
pub open spec fn first_missing(entries: Seq<EntryView>) -> Option<Key> {
    if last_value(entries, Key::TargetOs) is None {
        Some(Key::TargetOs)
    } else if last_value(entries, Key::TargetArch) is None {
        Some(Key::TargetArch)
    } else if last_value(entries, Key::TargetEndian) is None {
        Some(Key::TargetEndian)
    } else if last_value(entries, Key::TargetPointerWidth) is None {
        Some(Key::TargetPointerWidth)
    } else if last_value(entries, Key::TargetEnv) is None {
        Some(Key::TargetEnv)
    } else {
        None
    }
}

/// The required keys, in the order in which a missing one is reported.
pub open spec fn required_keys() -> Seq<Key> {
    seq![
        Key::TargetOs,
        Key::TargetArch,
        Key::TargetEndian,
        Key::TargetPointerWidth,
        Key::TargetEnv,
    ]
}

/// A result of the library by its views.
pub open spec fn outcome(result: Result<Cfg, Error>) -> Result<CfgView, ErrorView> {
    match result {
        Ok(cfg) => Ok(cfg@),
        Err(error) => Err(error@),
    }
}

/// An entry put at the end adds its value to the values of the key that it spells, and
/// changes the values of no other key.
pub proof fn lemma_values_push(entries: Seq<EntryView>, entry: EntryView)
    ensures
        forall|key: Key| #[trigger]
            values(entries.push(entry), key) == if Key::spec_lookup(entry.key) == Some(key) {
                values(entries, key).push(entry.value)
            } else {
                values(entries, key)
            },
{
    assert(entries.push(entry).drop_last() =~= entries);
    assert forall|key: Key|
        Key::spec_lookup(entry.key) == Some(key) <==> entry.key == key.spec_name() by {
        lemma_lookup_is(entry.key, key);
    }
}

/// The values of a key in entries put one after the other are its values in each, put one
/// after the other.
pub proof fn lemma_values_concat(first: Seq<EntryView>, second: Seq<EntryView>, key: Key)
    ensures
        values(first + second, key) == values(first, key) + values(second, key),
    decreases second.len(),
{
    if second.len() > 0 {
        let earlier = second.drop_last();
        lemma_values_concat(first, earlier, key);
        assert((first + second).drop_last() =~= first + earlier);
    } else {
        assert(first + second =~= first);
    }
}

/// The value of an entry is among the values of its key; where the key has one value only,
/// it is that one.
pub proof fn lemma_values_hold(entries: Seq<EntryView>, key: Key, i: int)
    requires
        0 <= i < entries.len(),
        entries[i].key == key.spec_name(),
    ensures
        values(entries, key).len() >= 1,
        values(entries, key).len() == 1 ==> values(entries, key)[0] == entries[i].value,
{
    let before = entries.take(i);
    let after = entries.skip(i + 1);
    let own = seq![entries[i]];
    assert(entries =~= before + own + after);
    lemma_values_concat(before + own, after, key);
    lemma_values_concat(before, own, key);
    assert(values(own.drop_last(), key).len() == 0);
}

impl CfgView {
    /// The field for `key`, where `key` takes one value at most: absent where the record has
    /// no value for it. A repeatable key has no such field.
    pub open spec fn single(self, key: Key) -> Option<Seq<char>> {
        match key {
            Key::TargetOs => Some(self.target_os),
            Key::TargetFamily => self.target_family,
            Key::TargetArch => Some(self.target_arch),
            Key::TargetEndian => Some(self.target_endian),
            Key::TargetPointerWidth => Some(self.target_pointer_width),
            Key::TargetEnv => Some(self.target_env),
            Key::TargetVendor => self.target_vendor,
            Key::TargetHasAtomic | Key::TargetFeature => None,
        }
    }

    /// The field for `key`, where `key` is repeatable. Any other key has no such field.
    pub open spec fn repeated(self, key: Key) -> Seq<Seq<char>> {
        match key {
            Key::TargetHasAtomic => self.target_has_atomic,
            Key::TargetFeature => self.target_feature,
            _ => Seq::empty(),
        }
    }
}

impl Cfg {
    /// The record that `entries` amount to. A key with one value at most takes the last
    /// value given, a repeatable key takes all of them in order, and entries under other keys
    /// count for nothing. Without a value for a required key there is no record.
    pub open spec fn spec_assemble(entries: Seq<EntryView>) -> Result<CfgView, ErrorView> {
        match first_missing(entries) {
            Some(key) => Err(ErrorView::MissingField(key)),
            None => Ok(
                CfgView {
                    target_os: last_value(entries, Key::TargetOs).unwrap(),
                    target_family: last_value(entries, Key::TargetFamily),
                    target_arch: last_value(entries, Key::TargetArch).unwrap(),
                    target_endian: last_value(entries, Key::TargetEndian).unwrap(),
                    target_pointer_width: last_value(entries, Key::TargetPointerWidth).unwrap(),
                    target_env: last_value(entries, Key::TargetEnv).unwrap(),
                    target_vendor: last_value(entries, Key::TargetVendor),
                    target_has_atomic: values(entries, Key::TargetHasAtomic),
                    target_feature: values(entries, Key::TargetFeature),
                },
            ),
        }
    }

    /// The record that `text` describes.
    pub open spec fn spec_parse(text: Seq<char>) -> Result<CfgView, ErrorView> {
        Cfg::spec_assemble(entries(text))
    }

    /// Builds the record from entries, or names the first required key that has no entry.
    pub fn assemble(entries: &Vec<Entry>) -> (result: Result<Cfg, Error>)
        ensures
            outcome(result) == Cfg::spec_assemble(entries.deep_view()),
    {
        let ghost all = entries.deep_view();
        let mut target_os: Option<String> = None;
        let mut target_family: Option<String> = None;
        let mut target_arch: Option<String> = None;
        let mut target_endian: Option<String> = None;
        let mut target_pointer_width: Option<String> = None;
        let mut target_env: Option<String> = None;
        let mut target_vendor: Option<String> = None;
        let mut target_has_atomic: Vec<String> = Vec::new();
        let mut target_feature: Vec<String> = Vec::new();
        let mut i: usize = 0;
        while i < entries.len()
            invariant
                i <= entries.len(),
                all == entries.deep_view(),
                target_os.deep_view() == last_value(all.take(i as int), Key::TargetOs),
                target_family.deep_view() == last_value(all.take(i as int), Key::TargetFamily),
                target_arch.deep_view() == last_value(all.take(i as int), Key::TargetArch),
                target_endian.deep_view() == last_value(all.take(i as int), Key::TargetEndian),
                target_pointer_width.deep_view() == last_value(
                    all.take(i as int),
                    Key::TargetPointerWidth,
                ),
                target_env.deep_view() == last_value(all.take(i as int), Key::TargetEnv),
                target_vendor.deep_view() == last_value(all.take(i as int), Key::TargetVendor),
                target_has_atomic.deep_view() == values(all.take(i as int), Key::TargetHasAtomic),
                target_feature.deep_view() == values(all.take(i as int), Key::TargetFeature),
            decreases entries.len() - i,
        {
            let entry = &entries[i];
            proof {
                assert(all.take(i + 1) =~= all.take(i as int).push(entry@));
                lemma_values_push(all.take(i as int), entry@);
            }
            match Key::lookup(entry.key.as_str()) {
                Some(Key::TargetOs) => target_os = Some(entry.value.clone()),
                Some(Key::TargetFamily) => target_family = Some(entry.value.clone()),
                Some(Key::TargetArch) => target_arch = Some(entry.value.clone()),
                Some(Key::TargetEndian) => target_endian = Some(entry.value.clone()),
                Some(Key::TargetPointerWidth) => target_pointer_width = Some(entry.value.clone()),
                Some(Key::TargetEnv) => target_env = Some(entry.value.clone()),
                Some(Key::TargetVendor) => target_vendor = Some(entry.value.clone()),
                Some(Key::TargetHasAtomic) => target_has_atomic.push(entry.value.clone()),
                Some(Key::TargetFeature) => target_feature.push(entry.value.clone()),
                None => {},
            }
            i += 1;
        }
        assert(all.take(entries.len() as int) =~= all);
        let target_os = match target_os {
            Some(value) => value,
            None => return Err(Error::MissingField(Key::TargetOs)),
        };
        let target_arch = match target_arch {
            Some(value) => value,
            None => return Err(Error::MissingField(Key::TargetArch)),
        };
        let target_endian = match target_endian {
            Some(value) => value,
            None => return Err(Error::MissingField(Key::TargetEndian)),
        };
        let target_pointer_width = match target_pointer_width {
            Some(value) => value,
            None => return Err(Error::MissingField(Key::TargetPointerWidth)),
        };
        let target_env = match target_env {
            Some(value) => value,
            None => return Err(Error::MissingField(Key::TargetEnv)),
        };
        Ok(
            Cfg {
                target_os,
                target_family,
                target_arch,
                target_endian,
                target_pointer_width,
                target_env,
                target_vendor,
                target_has_atomic,
                target_feature,
            },
        )
    }

    /// Parses the text that the toolchain printed into a record.
    pub fn parse(text: &str) -> (result: Result<Cfg, Error>)
        ensures
            outcome(result) == Cfg::spec_parse(text@),
    {
        let entries = parse_entries(text);
        Cfg::assemble(&entries)
    }
}

} // verus!
