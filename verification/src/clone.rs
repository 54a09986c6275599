//! The choice of the repositories that are still to be cloned.
//!
//! A listing of remote repositories is narrowed in two steps: by whether
//! forks are wanted, and by a list of repositories that are there already.

use crate::text::{chars_of, ends_with, texts_of};
use vstd::hash_set::StringHashSet;
use vstd::prelude::*;
use vstd::string::*;

verus! {

/// Whose repositories are listed.
#[derive(Clone, Copy, Debug, PartialEq, Eq, Structural)]
pub enum RepositoryGroupType {
    Org,
    User,
}

/// Where the repositories are listed.
#[derive(Debug, PartialEq, Eq)]
pub enum Platform {
    Github { group_type: RepositoryGroupType, input: String },
}

/// What is asked of one run of the cloning tool.
#[derive(Debug, PartialEq, Eq)]
pub struct CloneParams {
    /// Where the repositories are listed.
    pub platform: Platform,
    /// A file of repositories that are there already, one on each line.
    pub compare_file: Option<String>,
    /// Leave forks out.
    pub filter_forks: bool,
    /// Keep forks only.
    pub only_forks: bool,
    /// Take submodules along.
    pub include_submodules: bool,
    /// Write the list of repositories to this file.
    pub output_file: Option<String>,
    /// What is written before each repository of the list.
    pub prepand_command: String,
}

/// One listed repository.
#[derive(Debug, PartialEq, Eq)]
pub struct Entry {
    pub clone_url: String,
    pub is_fork: bool,
}

/// A listed repository, as plain values.
pub ghost struct EntryView {
    pub clone_url: Seq<char>,
    pub is_fork: bool,
}

impl View for Entry {
    type V = EntryView;

    open spec fn view(&self) -> EntryView {
        EntryView { clone_url: self.clone_url@, is_fork: self.is_fork }
    }
}

impl Clone for Entry {
    fn clone(&self) -> (r: Self)
        ensures
            r == *self,
    {
        Entry { clone_url: self.clone_url.clone(), is_fork: self.is_fork }
    }
}

/// The repositories that are there already.
pub struct CompareList {
    urls: StringHashSet,
}

impl View for CompareList {
    type V = Set<Seq<char>>;

    closed spec fn view(&self) -> Set<Seq<char>> {
        self.urls@
    }
}

impl CompareList {
    /// The list without any repository.
    pub fn new() -> (list: Self)
        ensures
            list@ == Set::<Seq<char>>::empty(),
    {
        CompareList { urls: StringHashSet::new() }
    }

    /// Adds one address, as it is written.
    pub fn insert(&mut self, url: &str)
        ensures
            final(self)@ == old(self)@.insert(url@),
    {
        self.urls.insert(url.to_owned());
    }

    /// The list of the given lines, each taken as it is written.
    pub fn from_lines(lines: &[String]) -> (list: Self)
        ensures
            list@ == texts_of(lines@).to_set(),
    {
        let ghost texts = texts_of(lines@);
        let mut list = CompareList::new();
        let mut i: usize = 0;
        while i < lines.len()
            invariant
                i <= lines@.len(),
                texts == texts_of(lines@),
                list@ == texts.take(i as int).to_set(),
            decreases lines.len() - i,
        {
            list.insert(lines[i].as_str());
            proof {
                assert(texts.take(i + 1) =~= texts.take(i as int).push(lines@[i as int]@));
                texts.take(i as int).lemma_push_to_set_commute(lines@[i as int]@);
            }
            i += 1;
        }
        assert(texts.take(i as int) =~= texts);
        list
    }

    /// Whether the address stands in the list, letter for letter.
    pub fn contains(&self, url: &str) -> (r: bool)
        ensures
            r == self@.contains(url@),
    {
        self.urls.contains(url)
    }
}

/// Whether `url` is among `compare` as it is written or in its other
/// spelling: without the suffix `.git` where it has it, with it where it has
/// not.
pub open spec fn in_compare_list(url: Seq<char>, compare: Set<Seq<char>>) -> bool {
    ||| compare.contains(url)
    ||| if ".git"@.is_suffix_of(url) {
        compare.contains(url.take(url.len() - ".git"@.len()))
    } else {
        compare.contains(url + ".git"@)
    }
}

/// Whether the repository at `url` is there already, under either spelling
/// of its address. Schemes are not reconciled.
pub fn is_in_compare_list(url: &str, compare: &CompareList) -> (r: bool)
    ensures
        r == in_compare_list(url@, compare@),
{
    if compare.contains(url) {
        return true;
    }
    let chars = chars_of(url);
    let suffix = chars_of(".git");
    if ends_with(chars.as_slice(), suffix.as_slice()) {
        let stripped = url.substring_char(0, chars.len() - suffix.len());
        compare.contains(stripped)
    } else {
        let other = url.to_owned().concat(".git");
        compare.contains(other.as_str())
    }
}

/// The views of some listed repositories.
pub open spec fn listing_of(listed: Seq<Entry>) -> Seq<EntryView> {
    listed.map_values(|e: Entry| e@)
}

/// Whether a repository passes the choice between forks and others: with
/// `filter_forks` only what is no fork, else with `only_forks` only forks,
/// else everything.
pub open spec fn fork_wanted(filter_forks: bool, only_forks: bool, is_fork: bool) -> bool {
    if filter_forks {
        !is_fork
    } else if only_forks {
        is_fork
    } else {
        true
    }
}

impl CloneParams {
    /// Whether `entry` passes the choice between forks and others.
    pub fn wants(&self, entry: &Entry) -> (r: bool)
        ensures
            r == fork_wanted(self.filter_forks, self.only_forks, entry.is_fork),
    {
        if self.filter_forks {
            !entry.is_fork
        } else if self.only_forks {
            entry.is_fork
        } else {
            true
        }
    }
}

/// What is left of a listing.
#[derive(Debug, PartialEq, Eq)]
pub struct Selection {
    /// How many repositories passed the choice between forks and others.
    pub total: usize,
    /// How many of them were passed over because they are there already.
    pub skipped: usize,
    /// The others, in the order of the listing.
    pub chosen: Vec<Entry>,
}

/// Narrows a listing: first by the choice between forks and others, then by
/// the list of what is there already.
pub fn select(params: &CloneParams, listed: &[Entry], compare: &CompareList) -> (selection:
    Selection)
    ensures
        selection.total == listing_of(listed@).filter(
            |e: EntryView| fork_wanted(params.filter_forks, params.only_forks, e.is_fork),
        ).len(),
        listing_of(selection.chosen@) == listing_of(listed@).filter(
            |e: EntryView| fork_wanted(params.filter_forks, params.only_forks, e.is_fork),
        ).filter(|e: EntryView| !in_compare_list(e.clone_url, compare@)),
        selection.skipped == selection.total - selection.chosen@.len(),
{
    let ghost all = listing_of(listed@);
    let ghost wanted = |e: EntryView| fork_wanted(params.filter_forks, params.only_forks, e.is_fork);
    let ghost fresh = |e: EntryView| !in_compare_list(e.clone_url, compare@);
    let mut total: usize = 0;
    let mut chosen: Vec<Entry> = Vec::new();
    let mut i: usize = 0;
    proof {
        reveal(Seq::filter);
    }
    while i < listed.len()
        invariant
            i <= listed@.len(),
            all == listing_of(listed@),
            wanted == |e: EntryView|
                fork_wanted(params.filter_forks, params.only_forks, e.is_fork),
            fresh == |e: EntryView| !in_compare_list(e.clone_url, compare@),
            total == all.take(i as int).filter(wanted).len(),
            total <= i,
            listing_of(chosen@) == all.take(i as int).filter(wanted).filter(fresh),
            chosen@.len() <= total,
        decreases listed.len() - i,
    {
        let entry = &listed[i];
        let ghost before = all.take(i as int);
        proof {
            assert(all.take(i + 1) =~= before.push(entry@));
            before.lemma_filter_push(entry@, wanted);
        }
        if params.wants(entry) {
            total += 1;
            proof {
                before.filter(wanted).lemma_filter_push(entry@, fresh);
            }
            if !is_in_compare_list(entry.clone_url.as_str(), compare) {
                chosen.push(entry.clone());
            }
        }
        i += 1;
    }
    assert(all.take(i as int) =~= all);
    let skipped: usize = total - chosen.len();
    Selection { total, skipped, chosen }
}

/// The line that is written for one chosen repository: the command, a
/// space, the address.
pub fn command_line(prepand_command: &str, clone_url: &str) -> (line: String)
    ensures
        line@ == prepand_command@ + " "@ + clone_url@,
{
    prepand_command.to_owned().concat(" ").concat(clone_url)
}

/// A repository of a listing is taken only where the listing tells both its
/// address and whether it is a fork.
pub fn entry_of(clone_url: Option<String>, fork: Option<bool>) -> (r: Option<Entry>)
    ensures
        match (clone_url, fork) {
            (Some(url), Some(is_fork)) => r matches Some(entry) && entry@ == (EntryView {
                clone_url: url@,
                is_fork,
            }),
            _ => r is None,
        },
{
    match (clone_url, fork) {
        (Some(url), Some(is_fork)) => Some(Entry { clone_url: url, is_fork }),
        _ => None,
    }
}

/// The page of a listing that is fetched after page `current`, where
/// `pages` pages are announced: the next one, until the last is reached.
pub fn next_page(current: u32, pages: u32) -> (next: Option<u32>)
    ensures
        next == if current < pages {
            Some((current + 1) as u32)
        } else {
            None
        },
{
    if current < pages {
        Some(current + 1)
    } else {
        None
    }
}

} // verus!
