//! Package references: a name and the overrides to apply when the package is
//! materialised.

use crate::string_map::StringMap;
use vstd::prelude::*;

verus! {

/// What a package reference stands for.
pub struct PkgView {
    pub name: Seq<char>,
    pub overrides: Map<Seq<char>, Seq<char>>,
}

/// A package reference.
#[derive(Debug)]
pub struct Pkg {
    pub name: String,
    pub overrides: StringMap,
}

impl View for Pkg {
    type V = PkgView;

    open spec fn view(&self) -> PkgView {
        PkgView { name: self.name@, overrides: self.overrides@ }
    }
}

impl DeepView for Pkg {
    type V = PkgView;

    open spec fn deep_view(&self) -> PkgView {
        self@
    }
}

/// The package `name` without overrides.
pub open spec fn plain_pkg(name: Seq<char>) -> PkgView {
    PkgView { name, overrides: Map::empty() }
}

impl PkgView {
    /// The same package with the override `key` set to `value`.
    pub open spec fn with_override(self, key: Seq<char>, value: Seq<char>) -> PkgView {
        PkgView { name: self.name, overrides: self.overrides.insert(key, value) }
    }
}

impl Pkg {
    /// The package `name` without overrides.
    pub fn new(name: &str) -> (r: Pkg)
        ensures
            r@ == plain_pkg(name@),
    {
        Pkg { name: name.to_owned(), overrides: StringMap::new() }
    }

    /// This package with the override `key` set to `value`; an earlier value
    /// under `key` is replaced and every other override stays.
    pub fn set_override(self, key: &str, value: &str) -> (r: Pkg)
        ensures
            r@ == self@.with_override(key@, value@),
    {
        let mut overrides = self.overrides;
        overrides.insert(key.to_owned(), value.to_owned());
        Pkg { name: self.name, overrides }
    }

    /// Whether both references name the same package with the same overrides.
    pub fn same_as(&self, other: &Pkg) -> (r: bool)
        ensures
            r == (self@ == other@),
    {
        self.name == other.name && self.overrides.same_as(&other.overrides)
    }
}

impl Clone for Pkg {
    fn clone(&self) -> (r: Pkg)
        ensures
            r@ == self@,
    {
        Pkg { name: self.name.clone(), overrides: self.overrides.clone() }
    }
}

impl PartialEq for Pkg {
    fn eq(&self, other: &Pkg) -> (r: bool) {
        self.same_as(other)
    }
}

impl vstd::std_specs::cmp::PartialEqSpecImpl for Pkg {
    open spec fn obeys_eq_spec() -> bool {
        true
    }

    open spec fn eq_spec(&self, other: &Pkg) -> bool {
        self@ == other@
    }
}

/// Setting an override leaves the name alone, puts the value under the key,
/// and keeps every other key as it was: present with its old value, or absent.
pub proof fn set_override_changes_one_entry(
    p: PkgView,
    key: Seq<char>,
    value: Seq<char>,
    other: Seq<char>,
)
    requires
        other != key,
    ensures
        p.with_override(key, value).name == p.name,
        p.with_override(key, value).overrides.contains_key(key),
        p.with_override(key, value).overrides[key] == value,
        p.with_override(key, value).overrides.contains_key(other) == p.overrides.contains_key(
            other,
        ),
        p.overrides.contains_key(other) ==> p.with_override(key, value).overrides[other]
            == p.overrides[other],
{
}

} // verus!
