//! The variables that planning can see: the process environment overlaid with
//! the `KEY=VALUE` entries given on the command line.

use crate::error::Error;
use crate::string_map::StringMap;
use crate::text::{chars_of, string_of_range};
use vstd::prelude::*;

verus! {

/// `at` is where the first `=` of `entry` stands.
pub open spec fn first_equals_at(entry: Seq<char>, at: int) -> bool {
    &&& 0 <= at < entry.len()
    &&& entry[at] == '='
    &&& forall|t: int| 0 <= t < at ==> entry[t] != '='
}

/// The name and the value that an entry `NAME=VALUE` sets: what stands before
/// and after its first `=`. `None` where the entry has no `=` or no name.
pub open spec fn entry_pair(entry: Seq<char>) -> Option<(Seq<char>, Seq<char>)> {
    if exists|at: int| first_equals_at(entry, at) {
        let at = choose|at: int| first_equals_at(entry, at);
        if at == 0 {
            None
        } else {
            Some((entry.take(at), entry.skip(at + 1)))
        }
    } else {
        None
    }
}

/// The variables that a list of entries sets on top of `base`, a later entry
/// overriding an earlier one; a parse error where some entry sets nothing.
pub open spec fn with_entries(base: Map<Seq<char>, Seq<char>>, entries: Seq<Seq<char>>) -> Result<
    Map<Seq<char>, Seq<char>>,
    Error,
>
    decreases entries.len(),
{
    if entries.len() == 0 {
        Ok(base)
    } else {
        match (with_entries(base, entries.drop_last()), entry_pair(entries.last())) {
            (Ok(map), Some((name, value))) => Ok(map.insert(name, value)),
            _ => Err(Error::Parse),
        }
    }
}

/// The prefix of the variables that configure planning.
pub open spec fn config_prefix() -> Seq<char> {
    "NIXPACKS_"@
}

/// The name and the value that `entry` sets; a parse error where it has no
/// `=` or nothing before it.
pub fn parse_entry(entry: &str) -> (r: Result<(String, String), Error>)
    ensures
        match entry_pair(entry@) {
            Some((name, value)) => r is Ok && r->Ok_0.0@ == name && r->Ok_0.1@ == value,
            None => r == Err::<(String, String), Error>(Error::Parse),
        },
{
    let chars = chars_of(entry);
    let mut at: usize = 0;
    while at < chars.len()
        invariant
            at <= chars.len(),
            chars@ == entry@,
            forall|t: int| 0 <= t < at ==> chars@[t] != '=',
        decreases chars.len() - at,
    {
        if chars[at] == '=' {
            proof {
                assert(first_equals_at(entry@, at as int));
                let chosen = choose|k: int| first_equals_at(entry@, k);
                assert(chosen == at);
            }
            if at == 0 {
                return Err(Error::Parse);
            }
            let name = string_of_range(&chars, 0, at);
            let value = string_of_range(&chars, at + 1, chars.len());
            proof {
                assert(chars@.subrange(0, at as int) =~= entry@.take(at as int));
                assert(chars@.subrange(at + 1, chars.len() as int) =~= entry@.skip(at + 1));
            }
            return Ok((name, value));
        }
        at += 1;
    }
    Err(Error::Parse)
}

/// Adds to `base` the variables that `entries` set, a later entry overriding
/// an earlier one; a parse error where some entry sets nothing.
pub fn apply_entries(base: StringMap, entries: &Vec<String>) -> (r: Result<StringMap, Error>)
    ensures
        match with_entries(base@, entries.deep_view()) {
            Ok(map) => r is Ok && r->Ok_0@ == map,
            Err(e) => r == Err::<StringMap, Error>(e),
        },
{
    let ghost all = entries.deep_view();
    let ghost start = base@;
    let mut map = base;
    let mut i: usize = 0;
    proof {
        assert(all.take(0) =~= seq![]);
    }
    while i < entries.len()
        invariant
            i <= entries.len(),
            all == entries.deep_view(),
            start == base@,
            with_entries(start, all.take(i as int)) == Ok::<Map<Seq<char>, Seq<char>>, Error>(map@),
        decreases entries.len() - i,
    {
        proof {
            assert(all.take(i + 1).drop_last() =~= all.take(i as int));
            assert(all.take(i + 1).last() == entries[i as int]@);
        }
        match parse_entry(entries[i].as_str()) {
            Ok((name, value)) => {
                map.insert(name, value);
            },
            Err(e) => {
                proof {
                    lemma_with_entries_prefix(start, all, i + 1);
                }
                return Err(e);
            },
        }
        i += 1;
    }
    proof {
        assert(all.take(i as int) =~= all);
    }
    Ok(map)
}

/// A list of entries whose prefix fails to parse fails itself.
pub proof fn lemma_with_entries_prefix(
    base: Map<Seq<char>, Seq<char>>,
    entries: Seq<Seq<char>>,
    n: int,
)
    requires
        0 <= n <= entries.len(),
        with_entries(base, entries.take(n)) is Err,
    ensures
        with_entries(base, entries) == Err::<Map<Seq<char>, Seq<char>>, Error>(Error::Parse),
    decreases entries.len() - n,
{
    if n < entries.len() {
        assert(entries.take(n + 1).drop_last() =~= entries.take(n));
        lemma_with_entries_prefix(base, entries, n + 1);
    } else {
        assert(entries.take(n) =~= entries);
    }
}

/// The variables that planning can see.
#[derive(Debug, Clone, PartialEq)]
pub struct Environment {
    variables: StringMap,
}

impl View for Environment {
    type V = Map<Seq<char>, Seq<char>>;

    closed spec fn view(&self) -> Map<Seq<char>, Seq<char>> {
        self.variables@
    }
}

impl Default for Environment {
    fn default() -> (r: Environment)
        ensures
            r@ == Map::<Seq<char>, Seq<char>>::empty(),
    {
        Environment { variables: StringMap::new() }
    }
}

impl Environment {
    /// The environment that holds `variables`.
    pub fn new(variables: StringMap) -> (r: Environment)
        ensures
            r@ == variables@,
    {
        Environment { variables }
    }

    /// The environment that holds `base` overlaid with what the `NAME=VALUE`
    /// entries set; an entry without `=` or without a name is a parse error.
    pub fn from_envs(base: StringMap, entries: &Vec<String>) -> (r: Result<Environment, Error>)
        ensures
            match with_entries(base@, entries.deep_view()) {
                Ok(map) => r is Ok && r->Ok_0@ == map,
                Err(e) => r == Err::<Environment, Error>(e),
            },
    {
        match apply_entries(base, entries) {
            Ok(variables) => Ok(Environment { variables }),
            Err(e) => Err(e),
        }
    }

    /// The value of the variable `name`.
    pub fn get(&self, name: &str) -> (r: Option<&String>)
        ensures
            r.deep_view() == (if self@.contains_key(name@) {
                Some(self@[name@])
            } else {
                None
            }),
    {
        self.variables.get(name)
    }

    /// The value of the configuration variable `name`: the variable
    /// `NIXPACKS_` followed by `name`.
    pub fn get_config_variable(&self, name: &str) -> (r: Option<&String>)
        ensures
            r.deep_view() == config_variable(self@, name@),
    {
        let mut full = "NIXPACKS_".to_owned();
        full.append(name);
        self.variables.get(full.as_str())
    }

    /// All variables.
    pub fn variables(&self) -> (r: &StringMap)
        ensures
            r@ == self@,
    {
        &self.variables
    }
}

/// The value of the configuration variable `name` among `variables`.
pub open spec fn config_variable(variables: Map<Seq<char>, Seq<char>>, name: Seq<char>) -> Option<
    Seq<char>,
> {
    if variables.contains_key(config_prefix() + name) {
        Some(variables[config_prefix() + name])
    } else {
        None
    }
}

} // verus!
