//! Settings by connector name.

use vstd::prelude::*;
use crate::kms::color::ColorPolicy;
use crate::kms::modes::ModeSpec;
use crate::text::text_equal;

verus! {

/// A setting that can be compared with another.
pub trait Setting: Sized {
    /// Whether two settings say the same.
    spec fn agrees(self, other: Self) -> bool;

    /// Whether two settings say the same.
    fn same(&self, other: &Self) -> (same: bool)
        ensures
            same == self.agrees(*other),
    ;
}

impl Setting for ModeSpec {
    open spec fn agrees(self, other: ModeSpec) -> bool {
        self == other
    }

    fn same(&self, other: &ModeSpec) -> (same: bool) {
        *self == *other
    }
}

impl Setting for ColorPolicy {
    open spec fn agrees(self, other: ColorPolicy) -> bool {
        self == other
    }

    fn same(&self, other: &ColorPolicy) -> (same: bool) {
        *self == *other
    }
}

impl Setting for String {
    open spec fn agrees(self, other: String) -> bool {
        self@ == other@
    }

    fn same(&self, other: &String) -> (same: bool) {
        text_equal(self.as_str(), other.as_str())
    }
}

/// Settings by connector name. Where a name occurs twice, the first setting
/// counts.
#[derive(Debug)]
pub struct ConnectorSettings<T> {
    pub entries: Vec<(String, T)>,
}

/// The setting for `name` among entries.
pub open spec fn setting_for<T>(entries: Seq<(String, T)>, name: Seq<char>) -> Option<T>
    decreases entries.len(),
{
    if entries.len() == 0 {
        None
    } else if entries[0].0@ == name {
        Some(entries[0].1)
    } else {
        setting_for(entries.skip(1), name)
    }
}

/// Whether two optional settings say the same.
pub open spec fn both_agree<T: Setting>(left: Option<T>, right: Option<T>) -> bool {
    match (left, right) {
        (None, None) => true,
        (Some(l), Some(r)) => l.agrees(r),
        _ => false,
    }
}

impl<T: Setting> ConnectorSettings<T> {
    /// Settings for no connector.
    pub fn new() -> (settings: ConnectorSettings<T>)
        ensures
            settings.entries@.len() == 0,
    {
        ConnectorSettings { entries: Vec::new() }
    }

    /// The setting for `name`.
    pub open spec fn setting(self, name: Seq<char>) -> Option<T> {
        setting_for(self.entries@, name)
    }

    /// The setting for `name`.
    pub fn get(&self, name: &str) -> (setting: Option<&T>)
        ensures
            match setting {
                Some(value) => self.setting(name@) == Some(*value),
                None => self.setting(name@) is None,
            },
    {
        let mut index: usize = 0;
        assert(self.entries@.skip(0) =~= self.entries@);
        while index < self.entries.len()
            invariant
                index <= self.entries.len(),
                self.setting(name@) == setting_for(self.entries@.skip(index as int), name@),
            decreases self.entries.len() - index,
        {
            assert(self.entries@.skip(index as int).skip(1) =~= self.entries@.skip(index + 1));
            if text_equal(self.entries[index].0.as_str(), name) {
                return Some(&self.entries[index].1);
            }
            index += 1;
        }
        None
    }

    /// Whether both sets of settings say the same of every connector.
    pub open spec fn agrees_with(self, other: ConnectorSettings<T>) -> bool {
        forall|name: Seq<char>| both_agree(#[trigger] self.setting(name), other.setting(name))
    }

    /// Whether `other` says the same as these settings of every connector named
    /// here.
    fn agrees_on_own_names(&self, other: &ConnectorSettings<T>, swapped: bool) -> (agree: bool)
        ensures
            agree == forall|i: int|
                0 <= i < self.entries@.len() ==> {
                    let name = (#[trigger] self.entries@[i]).0@;
                    if swapped {
                        both_agree(other.setting(name), self.setting(name))
                    } else {
                        both_agree(self.setting(name), other.setting(name))
                    }
                },
    {
        let mut index: usize = 0;
        while index < self.entries.len()
            invariant
                index <= self.entries.len(),
                forall|i: int|
                    0 <= i < index ==> {
                        let name = (#[trigger] self.entries@[i]).0@;
                        if swapped {
                            both_agree(other.setting(name), self.setting(name))
                        } else {
                            both_agree(self.setting(name), other.setting(name))
                        }
                    },
            decreases self.entries.len() - index,
        {
            let name = self.entries[index].0.as_str();
            let agree = match (self.get(name), other.get(name)) {
                (Some(mine), Some(theirs)) => if swapped {
                    theirs.same(mine)
                } else {
                    mine.same(theirs)
                },
                (None, None) => true,
                _ => false,
            };
            if !agree {
                assert(self.entries@[index as int].0@ == name@);
                return false;
            }
            index += 1;
        }
        true
    }

    /// Whether both sets of settings say the same of every connector.
    pub fn same_as(&self, other: &ConnectorSettings<T>) -> (same: bool)
        ensures
            same == self.agrees_with(*other),
    {
        let forward = self.agrees_on_own_names(other, false);
        let backward = other.agrees_on_own_names(self, true);
        proof {
            if forward && backward {
                assert forall|name: Seq<char>| both_agree(
                    #[trigger] self.setting(name),
                    other.setting(name),
                ) by {
                    if self.setting(name) is Some {
                        lemma_named(self.entries@, name);
                        let i = choose|i: int|
                            0 <= i < self.entries@.len() && (#[trigger] self.entries@[i]).0@
                                == name;
                    } else if other.setting(name) is Some {
                        lemma_named(other.entries@, name);
                        let i = choose|i: int|
                            0 <= i < other.entries@.len() && (#[trigger] other.entries@[i]).0@
                                == name;
                    }
                }
            } else if self.agrees_with(*other) {
                assert forall|i: int| 0 <= i < self.entries@.len() implies both_agree(
                    self.setting((#[trigger] self.entries@[i]).0@),
                    other.setting(self.entries@[i].0@),
                ) by {}
                assert forall|i: int| 0 <= i < other.entries@.len() implies both_agree(
                    self.setting((#[trigger] other.entries@[i]).0@),
                    other.setting(other.entries@[i].0@),
                ) by {}
                assert(false);
            }
        }
        forward && backward
    }
}

/// A name with a setting occurs among the entries.
proof fn lemma_named<T>(entries: Seq<(String, T)>, name: Seq<char>)
    requires
        setting_for(entries, name) is Some,
    ensures
        exists|i: int| 0 <= i < entries.len() && (#[trigger] entries[i]).0@ == name,
    decreases entries.len(),
{
    if entries[0].0@ != name {
        let rest = entries.skip(1);
        lemma_named(rest, name);
        let i = choose|i: int| 0 <= i < rest.len() && (#[trigger] rest[i]).0@ == name;
        assert(entries[i + 1].0@ == name);
    }
}

proof fn lemma_setting_for<T>(entries: Seq<(String, T)>, name: Seq<char>, index: int)
    requires
        0 <= index < entries.len(),
        entries[index].0@ == name,
        forall|i: int| 0 <= i < index ==> (#[trigger] entries[i]).0@ != name,
    ensures
        setting_for(entries, name) == Some(entries[index].1),
    decreases entries.len(),
{
    if index > 0 {
        assert(entries[0].0@ != name);
        let rest = entries.skip(1);
        assert(rest[index - 1] == entries[index]);
        assert forall|i: int| 0 <= i < index - 1 implies (#[trigger] rest[i]).0@ != name by {
            assert(rest[i] == entries[i + 1]);
        }
        lemma_setting_for(rest, name, index - 1);
    }
}

/// The setting of a connector is the first that is listed under its name; a name that is
/// not listed has none.
pub proof fn settings_go_by_the_first_entry<T: Setting>(
    settings: ConnectorSettings<T>,
    name: &str,
    setting: Option<&T>,
    index: int,
)
    requires
        call_ensures(ConnectorSettings::<T>::get, (&settings, name), setting),
    ensures
        0 <= index < settings.entries@.len() && settings.entries@[index].0@ == name@ && (forall|
            i: int,
        |
            0 <= i < index ==> (#[trigger] settings.entries@[i]).0@ != name@) ==> setting is Some
            && *setting->0 == settings.entries@[index].1,
        setting is Some ==> exists|i: int|
            0 <= i < settings.entries@.len() && (#[trigger] settings.entries@[i]).0@ == name@,
{
    if 0 <= index < settings.entries@.len() && settings.entries@[index].0@ == name@
        && (forall|i: int|
        0 <= i < index ==> (#[trigger] settings.entries@[i]).0@ != name@) {
        lemma_setting_for(settings.entries@, name@, index);
    }
    if setting is Some {
        lemma_named(settings.entries@, name@);
    }
}

} // verus!
