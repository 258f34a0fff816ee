//! The catalog of wordlists and the lookups on it.

use crate::units::{get_unit, unit_named, UnitError, Units};
use vstd::prelude::*;
use vstd::string::*;

verus! {

/// One downloadable wordlist as the catalog states it.
#[derive(Debug, PartialEq, Eq)]
pub struct Wordlist {
    pub url: String,
    /// Size in bytes.
    pub size: usize,
    /// Name of the unit the catalog states the size in.
    pub unit: String,
    pub group: String,
}

/// A wordlist under the name the catalog lists it by.
#[derive(Debug, PartialEq, Eq)]
pub struct CatalogEntry {
    pub name: String,
    pub wordlist: Wordlist,
}

/// The catalog: its entries in the order they were written.
#[derive(Debug, PartialEq, Eq)]
pub struct Repo {
    pub wordlists: Vec<CatalogEntry>,
}

/// What a download needs to know of a resource.
#[derive(Debug, PartialEq, Eq)]
pub struct ResourceDescriptor {
    pub url: String,
    /// Size in bytes.
    pub total_size: usize,
    /// The unit the catalog states the size in; it plays no part in planning.
    pub size_unit: Units,
}

/// Why a lookup gave nothing.
#[derive(Clone, Copy, Debug, PartialEq, Eq, Structural)]
pub enum LookupError {
    /// No entry has the name asked for.
    NotFound,
}

/// The wordlists of `entries` whose group is `group`, in catalog order.
pub open spec fn in_group(entries: Seq<CatalogEntry>, group: Seq<char>) -> Seq<Wordlist>
    decreases entries.len(),
{
    if entries.len() == 0 {
        Seq::empty()
    } else {
        let earlier = in_group(entries.drop_last(), group);
        if entries.last().wordlist.group@ == group {
            earlier.push(entries.last().wordlist)
        } else {
            earlier
        }
    }
}

/// Whether entry `i` is named `name` and no entry before it is.
pub open spec fn is_first_named(entries: Seq<CatalogEntry>, name: Seq<char>, i: int) -> bool {
    &&& 0 <= i < entries.len()
    &&& entries[i].name@ == name
    &&& forall|j: int| 0 <= j < i ==> (#[trigger] entries[j]).name@ != name
}

/// Whether no entry is named `name`.
pub open spec fn none_named(entries: Seq<CatalogEntry>, name: Seq<char>) -> bool {
    forall|i: int| 0 <= i < entries.len() ==> (#[trigger] entries[i]).name@ != name
}

impl Clone for Wordlist {
    fn clone(&self) -> (copy: Wordlist)
        ensures
            copy == *self,
    {
        Wordlist {
            url: self.url.clone(),
            size: self.size,
            unit: self.unit.clone(),
            group: self.group.clone(),
        }
    }
}

impl Wordlist {
    /// The descriptor of this wordlist: its URL, its size, and the unit its
    /// unit name stands for. Fails exactly when the unit name is unknown.
    pub fn descriptor(&self) -> (result: Result<ResourceDescriptor, UnitError>)
        ensures
            result == match unit_named(self.unit@) {
                Some(unit) => Ok::<ResourceDescriptor, UnitError>(
                    ResourceDescriptor { url: self.url, total_size: self.size, size_unit: unit },
                ),
                None => Err::<ResourceDescriptor, UnitError>(UnitError::UnknownUnit),
            },
    {
        match get_unit(self.unit.as_str()) {
            Ok(unit) => Ok(
                ResourceDescriptor { url: self.url.clone(), total_size: self.size, size_unit: unit },
            ),
            Err(e) => Err(e),
        }
    }
}

/// The wordlists of the group `group`, in catalog order. A group that no
/// entry belongs to gives an empty list.
pub fn get_wordlist_by_group(repo: &Repo, group: &str) -> (found: Vec<Wordlist>)
    ensures
        found@ == in_group(repo.wordlists@, group@),
{
    let wanted = group.to_owned();
    let count: usize = repo.wordlists.len();
    let mut found: Vec<Wordlist> = Vec::new();
    let mut i: usize = 0;
    while i < count
        invariant
            i <= count,
            count == repo.wordlists@.len(),
            wanted@ == group@,
            found@ == in_group(repo.wordlists@.subrange(0, i as int), group@),
        decreases count - i,
    {
        proof {
            assert(repo.wordlists@.subrange(0, i + 1).drop_last() =~= repo.wordlists@.subrange(
                0,
                i as int,
            ));
        }
        let entry = &repo.wordlists[i];
        if entry.wordlist.group == wanted {
            found.push(entry.wordlist.clone());
        }
        i = i + 1;
    }
    proof {
        assert(repo.wordlists@.subrange(0, count as int) =~= repo.wordlists@);
    }
    found
}

/// The wordlist of the first entry named `name`. Fails exactly when no entry
/// has that name.
pub fn get_wordlist_by_name(repo: &Repo, name: &str) -> (result: Result<Wordlist, LookupError>)
    ensures
        result is Err <==> none_named(repo.wordlists@, name@),
        result matches Err(e) ==> e == LookupError::NotFound,
        result matches Ok(wordlist) ==> exists|i: int|
            is_first_named(repo.wordlists@, name@, i) && wordlist == (
            #[trigger] repo.wordlists@[i]).wordlist,
{
    let wanted = name.to_owned();
    let count: usize = repo.wordlists.len();
    let mut i: usize = 0;
    while i < count
        invariant
            i <= count,
            count == repo.wordlists@.len(),
            wanted@ == name@,
            forall|j: int| 0 <= j < i ==> (#[trigger] repo.wordlists@[j]).name@ != name@,
        decreases count - i,
    {
        let entry = &repo.wordlists[i];
        if entry.name == wanted {
            proof {
                assert(is_first_named(repo.wordlists@, name@, i as int));
            }
            return Ok(entry.wordlist.clone());
        }
        i = i + 1;
    }
    Err(LookupError::NotFound)
}

} // verus!
