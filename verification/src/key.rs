//! The configuration keys that the record is built from.

use crate::text::same_text;
use vstd::prelude::*;

verus! {

/// A key of the toolchain's output that the record has a field for.
#[derive(Clone, Copy, Debug, PartialEq, Eq, Hash, Structural)]
pub enum Key {
    TargetOs,
    TargetFamily,
    TargetArch,
    TargetEndian,
    TargetPointerWidth,
    TargetEnv,
    TargetVendor,
    TargetHasAtomic,
    TargetFeature,
}

impl Key {
    /// The key as the toolchain spells it.
    pub open spec fn spec_name(self) -> Seq<char> {
        match self {
            Key::TargetOs => "target_os"@,
            Key::TargetFamily => "target_family"@,
            Key::TargetArch => "target_arch"@,
            Key::TargetEndian => "target_endian"@,
            Key::TargetPointerWidth => "target_pointer_width"@,
            Key::TargetEnv => "target_env"@,
            Key::TargetVendor => "target_vendor"@,
            Key::TargetHasAtomic => "target_has_atomic"@,
            Key::TargetFeature => "target_feature"@,
        }
    }

    /// The key with the given spelling, compared character by character.
    pub open spec fn spec_lookup(name: Seq<char>) -> Option<Key> {
        if name == Key::TargetOs.spec_name() {
            Some(Key::TargetOs)
        } else if name == Key::TargetFamily.spec_name() {
            Some(Key::TargetFamily)
        } else if name == Key::TargetArch.spec_name() {
            Some(Key::TargetArch)
        } else if name == Key::TargetEndian.spec_name() {
            Some(Key::TargetEndian)
        } else if name == Key::TargetPointerWidth.spec_name() {
            Some(Key::TargetPointerWidth)
        } else if name == Key::TargetEnv.spec_name() {
            Some(Key::TargetEnv)
        } else if name == Key::TargetVendor.spec_name() {
            Some(Key::TargetVendor)
        } else if name == Key::TargetHasAtomic.spec_name() {
            Some(Key::TargetHasAtomic)
        } else if name == Key::TargetFeature.spec_name() {
            Some(Key::TargetFeature)
        } else {
            None
        }
    }

    /// Whether a record cannot be built without a value for this key.
    pub open spec fn is_required(self) -> bool {
        match self {
            Key::TargetOs
            | Key::TargetArch
            | Key::TargetEndian
            | Key::TargetPointerWidth
            | Key::TargetEnv => true,
            _ => false,
        }
    }

    /// Whether every value given for this key is kept, rather than the last one only.
    pub open spec fn is_repeatable(self) -> bool {
        match self {
            Key::TargetHasAtomic | Key::TargetFeature => true,
            _ => false,
        }
    }

    /// The key as the toolchain spells it.
    pub fn name(self) -> (name: &'static str)
        ensures
            name@ == self.spec_name(),
    {
        match self {
            Key::TargetOs => "target_os",
            Key::TargetFamily => "target_family",
            Key::TargetArch => "target_arch",
            Key::TargetEndian => "target_endian",
            Key::TargetPointerWidth => "target_pointer_width",
            Key::TargetEnv => "target_env",
            Key::TargetVendor => "target_vendor",
            Key::TargetHasAtomic => "target_has_atomic",
            Key::TargetFeature => "target_feature",
        }
    }

    /// Finds the key that `name` spells. The comparison is exact: case matters, and so does
    /// surrounding white space.
    pub fn lookup(name: &str) -> (key: Option<Key>)
        ensures
            key == Key::spec_lookup(name@),
    {
        if same_text(name, Key::TargetOs.name()) {
            Some(Key::TargetOs)
        } else if same_text(name, Key::TargetFamily.name()) {
            Some(Key::TargetFamily)
        } else if same_text(name, Key::TargetArch.name()) {
            Some(Key::TargetArch)
        } else if same_text(name, Key::TargetEndian.name()) {
            Some(Key::TargetEndian)
        } else if same_text(name, Key::TargetPointerWidth.name()) {
            Some(Key::TargetPointerWidth)
        } else if same_text(name, Key::TargetEnv.name()) {
            Some(Key::TargetEnv)
        } else if same_text(name, Key::TargetVendor.name()) {
            Some(Key::TargetVendor)
        } else if same_text(name, Key::TargetHasAtomic.name()) {
            Some(Key::TargetHasAtomic)
        } else if same_text(name, Key::TargetFeature.name()) {
            Some(Key::TargetFeature)
        } else {
            None
        }
    }
}

/// No two keys are spelled alike.
pub proof fn lemma_names_distinct(a: Key, b: Key)
    ensures
        a.spec_name() == b.spec_name() <==> a == b,
{
    reveal_strlit("target_os");
    reveal_strlit("target_family");
    reveal_strlit("target_arch");
    reveal_strlit("target_endian");
    reveal_strlit("target_pointer_width");
    reveal_strlit("target_env");
    reveal_strlit("target_vendor");
    reveal_strlit("target_has_atomic");
    reveal_strlit("target_feature");
    assert("target_os"@.len() == 9);
    assert("target_family"@.len() == 13 && "target_family"@[7] == 'f');
    assert("target_arch"@.len() == 11);
    assert("target_endian"@.len() == 13 && "target_endian"@[7] == 'e');
    assert("target_pointer_width"@.len() == 20);
    assert("target_env"@.len() == 10);
    assert("target_vendor"@.len() == 13 && "target_vendor"@[7] == 'v');
    assert("target_has_atomic"@.len() == 17);
    assert("target_feature"@.len() == 14);
}

/// Looking up a key's spelling finds that key.
pub proof fn lemma_lookup_name(key: Key)
    ensures
        Key::spec_lookup(key.spec_name()) == Some(key),
{
    lemma_names_distinct(key, Key::TargetOs);
    lemma_names_distinct(key, Key::TargetFamily);
    lemma_names_distinct(key, Key::TargetArch);
    lemma_names_distinct(key, Key::TargetEndian);
    lemma_names_distinct(key, Key::TargetPointerWidth);
    lemma_names_distinct(key, Key::TargetEnv);
    lemma_names_distinct(key, Key::TargetVendor);
    lemma_names_distinct(key, Key::TargetHasAtomic);
    lemma_names_distinct(key, Key::TargetFeature);
}

/// A spelling is found as a key exactly when it is that key's spelling.
pub proof fn lemma_lookup_is(name: Seq<char>, key: Key)
    ensures
        Key::spec_lookup(name) == Some(key) <==> name == key.spec_name(),
{
    if name == key.spec_name() {
        lemma_lookup_name(key);
    }
}

} // verus!
