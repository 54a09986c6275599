//! What the scanner of local mirrors decides, and the lines it writes.
//!
//! The scanner walks a directory and finds one entry for each mirror. Two
//! entries with the same remote address are duplicates of each other. Each
//! entry becomes one line of the archive of git repositories.

use crate::archive::{join, lemma_join_split, record_of};
use crate::index::RepoRecordView;
use crate::text::texts_of;
use vstd::prelude::*;
use vstd::string::*;

verus! {

/// What is asked of one run of the scanner.
#[derive(Debug, PartialEq, Eq)]
pub struct ScanParams {
    /// The directory to scan.
    pub directory: String,
    /// The file to write the archive to.
    pub output_file: Option<String>,
    /// Print the remote addresses that were found.
    pub print_output: bool,
    /// Print the duplicates.
    pub print_duplicates: bool,
    /// Print what is no directory.
    pub print_irrelevant: bool,
    /// How many levels of directories are scanned.
    pub depth: usize,
}

impl ScanParams {
    /// The deepest level at which a directory that is no mirror is still
    /// entered, the scanned directory being level 0.
    pub fn max_depth(&self) -> (deepest: usize)
        requires
            self.depth >= 1,
        ensures
            deepest == self.depth - 1,
    {
        self.depth - 1
    }
}

/// One mirror that the scanner found.
#[derive(Debug, PartialEq, Eq)]
pub struct Entry {
    pub path: String,
    pub remote_url: String,
    pub last_commit_hash: String,
    pub last_commit_date: String,
    pub last_repo_fetch: String,
}

/// A found mirror, as plain texts.
pub ghost struct EntryView {
    pub path: Seq<char>,
    pub remote_url: Seq<char>,
    pub last_commit_hash: Seq<char>,
    pub last_commit_date: Seq<char>,
    pub last_repo_fetch: Seq<char>,
}

impl View for Entry {
    type V = EntryView;

    open spec fn view(&self) -> EntryView {
        EntryView {
            path: self.path@,
            remote_url: self.remote_url@,
            last_commit_hash: self.last_commit_hash@,
            last_commit_date: self.last_commit_date@,
            last_repo_fetch: self.last_repo_fetch@,
        }
    }
}

impl Clone for Entry {
    fn clone(&self) -> (r: Self)
        ensures
            r == *self,
    {
        Entry {
            path: self.path.clone(),
            remote_url: self.remote_url.clone(),
            last_commit_hash: self.last_commit_hash.clone(),
            last_commit_date: self.last_commit_date.clone(),
            last_repo_fetch: self.last_repo_fetch.clone(),
        }
    }
}

/// The views of some entries.
pub open spec fn found_of(entries: Seq<Entry>) -> Seq<EntryView> {
    entries.map_values(|e: Entry| e@)
}

/// The entries with the remote address `url`, in their order.
pub open spec fn with_remote(entries: Seq<EntryView>, url: Seq<char>) -> Seq<EntryView> {
    entries.filter(|e: EntryView| e.remote_url == url)
}

/// No entry before entry `k` has its remote address.
pub open spec fn is_first_with_remote(entries: Seq<EntryView>, k: int) -> bool {
    forall|j: int| 0 <= j < k ==> (#[trigger] entries[j]).remote_url != entries[k].remote_url
}

/// The duplicates among the first `n` remote addresses of `entries`: for
/// each address that occurs more than once, all entries with it, the
/// addresses in the order in which they first occur.
pub open spec fn duplicates_upto(entries: Seq<EntryView>, n: int) -> Seq<EntryView>
    decreases n,
{
    if n <= 0 {
        Seq::empty()
    } else {
        let before = duplicates_upto(entries, n - 1);
        let group = with_remote(entries, entries[n - 1].remote_url);
        if is_first_with_remote(entries, n - 1) && group.len() > 1 {
            before + group
        } else {
            before
        }
    }
}

/// The duplicates among `entries`.
pub open spec fn duplicates_of(entries: Seq<EntryView>) -> Seq<EntryView> {
    duplicates_upto(entries, entries.len() as int)
}

/// Whether no entry before entry `k` has its remote address.
fn first_with_remote(entries: &[Entry], k: usize) -> (r: bool)
    requires
        k < entries@.len(),
    ensures
        r == is_first_with_remote(found_of(entries@), k as int),
{
    let ghost all = found_of(entries@);
    let mut j: usize = 0;
    while j < k
        invariant
            j <= k < entries@.len(),
            all == found_of(entries@),
            forall|i: int| 0 <= i < j ==> (#[trigger] all[i]).remote_url != all[k as int].remote_url,
        decreases k - j,
    {
        if entries[j].remote_url == entries[k].remote_url {
            assert(all[j as int].remote_url == all[k as int].remote_url);
            return false;
        }
        j += 1;
    }
    true
}

/// The entries with the remote address `url`, in their order.
fn collect_with_remote(entries: &[Entry], url: &String) -> (group: Vec<Entry>)
    ensures
        found_of(group@) == with_remote(found_of(entries@), url@),
{
    let ghost all = found_of(entries@);
    let ghost same = |e: EntryView| e.remote_url == url@;
    let mut group: Vec<Entry> = Vec::new();
    let mut i: usize = 0;
    proof {
        reveal(Seq::filter);
    }
    while i < entries.len()
        invariant
            i <= entries@.len(),
            all == found_of(entries@),
            same == |e: EntryView| e.remote_url == url@,
            found_of(group@) == all.take(i as int).filter(same),
        decreases entries.len() - i,
    {
        proof {
            assert(all.take(i + 1) =~= all.take(i as int).push(entries@[i as int]@));
            all.take(i as int).lemma_filter_push(entries@[i as int]@, same);
        }
        if entries[i].remote_url == *url {
            group.push(entries[i].clone());
        }
        i += 1;
    }
    assert(all.take(i as int) =~= all);
    group
}

/// The entries whose remote address occurs more than once. They come
/// grouped by address, the addresses in the order in which they first occur,
/// the entries of one address in their order.
pub fn find_duplicates(entries: &[Entry]) -> (duplicates: Vec<Entry>)
    ensures
        found_of(duplicates@) == duplicates_of(found_of(entries@)),
{
    let ghost all = found_of(entries@);
    let mut duplicates: Vec<Entry> = Vec::new();
    let mut i: usize = 0;
    while i < entries.len()
        invariant
            i <= entries@.len(),
            all == found_of(entries@),
            found_of(duplicates@) == duplicates_upto(all, i as int),
        decreases entries.len() - i,
    {
        if first_with_remote(entries, i) {
            let mut group = collect_with_remote(entries, &entries[i].remote_url);
            if group.len() > 1 {
                duplicates.append(&mut group);
            }
        }
        i += 1;
    }
    duplicates
}

/// The five fields of the archive line of an entry, whose path is written
/// as `path`.
pub open spec fn fields_of(entry: EntryView, path: Seq<char>) -> Seq<Seq<char>> {
    seq![
        entry.remote_url,
        path,
        entry.last_commit_hash,
        entry.last_commit_date,
        entry.last_repo_fetch,
    ]
}

/// The line of the archive for one entry: remote address, path, commit
/// hash, commit date and last fetch, with commas between them. The path is
/// given apart, since it is written relative to the scanned directory.
pub fn archive_line(entry: &Entry, path: &str) -> (line: String)
    ensures
        line@ == join(fields_of(entry@, path@), ','),
{
    let mut line = entry.remote_url.clone();
    line.append(",");
    line.append(path);
    line.append(",");
    line.append(entry.last_commit_hash.as_str());
    line.append(",");
    line.append(entry.last_commit_date.as_str());
    line.append(",");
    line.append(entry.last_repo_fetch.as_str());
    proof {
        reveal_strlit(",");
        // The line grows field by field, as the joined fields do.
        let fields = fields_of(entry@, path@);
        let four = fields.drop_last();
        let three = four.drop_last();
        let two = three.drop_last();
        assert(join(two.drop_last(), ',') == entry.remote_url@);
        assert(join(two, ',') =~= entry.remote_url@ + ","@ + path@);
        assert(join(three, ',') =~= join(two, ',') + ","@ + entry.last_commit_hash@);
        assert(join(four, ',') =~= join(three, ',') + ","@ + entry.last_commit_date@);
        assert(join(fields, ',') =~= join(four, ',') + ","@ + entry.last_repo_fetch@);
    }
    line
}

/// The line that is written for an entry is read back as the same five
/// fields, where none of them holds a comma. A field with a comma in it
/// spoils the line: the format has no escaping.
pub proof fn lemma_archive_line_round_trip(entry: EntryView, path: Seq<char>)
    requires
        forall|k: int| 0 <= k < 5 ==> !(#[trigger] fields_of(entry, path)[k]).contains(','),
    ensures
        record_of(join(fields_of(entry, path), ',')) == Some(
            RepoRecordView {
                url: entry.remote_url,
                path,
                commit_hash: entry.last_commit_hash,
                commit_date: entry.last_commit_date,
                last_fetch: entry.last_repo_fetch,
            },
        ),
{
    lemma_join_split(fields_of(entry, path), ',');
}

/// The remote whose address stands for a mirror: `origin` where there is
/// one of that name, else the first remote, else none.
pub open spec fn chosen_remote(remotes: Seq<Seq<char>>) -> Option<Seq<char>> {
    if remotes.contains("origin"@) {
        Some("origin"@)
    } else if remotes.len() > 0 {
        Some(remotes[0])
    } else {
        None
    }
}

/// The remote whose address stands for a mirror.
pub fn choose_remote(remotes: &[String]) -> (name: Option<String>)
    ensures
        match name {
            Some(n) => chosen_remote(texts_of(remotes@)) == Some(n@),
            None => chosen_remote(texts_of(remotes@)) is None,
        },
{
    let ghost names = texts_of(remotes@);
    let origin = String::from_str("origin");
    let mut i: usize = 0;
    while i < remotes.len()
        invariant
            i <= remotes@.len(),
            names == texts_of(remotes@),
            origin@ == "origin"@,
            forall|k: int| 0 <= k < i ==> names[k] != "origin"@,
        decreases remotes.len() - i,
    {
        if remotes[i] == origin {
            assert(names[i as int] == "origin"@);
            return Some(origin);
        }
        i += 1;
    }
    if remotes.len() > 0 {
        Some(remotes[0].clone())
    } else {
        None
    }
}

/// What the scanner does with a directory that is no mirror.
#[derive(Clone, Copy, Debug, PartialEq, Eq, Structural)]
pub enum Descent {
    /// Scan the directories in it.
    Enter,
    /// Leave it alone.
    Pass,
}

/// A directory that is no mirror is entered as long as the deepest level is
/// not reached.
pub fn descent(current_depth: usize, max_depth: usize) -> (d: Descent)
    ensures
        d == if current_depth < max_depth {
            Descent::Enter
        } else {
            Descent::Pass
        },
{
    if current_depth < max_depth {
        Descent::Enter
    } else {
        Descent::Pass
    }
}

/// The text of the instant that lies `seconds` after the beginning of 1970,
/// in universal time and written after `pattern`; nothing where the instant
/// is out of the range of the calendar.
pub uninterp spec fn instant_text(seconds: int, pattern: Seq<char>) -> Option<Seq<char>>;

/// The pattern after which dates are written.
pub open spec fn date_pattern() -> Seq<char> {
    "%Y-%m-%d %H:%M:%S"@
}

/// Calls `chrono::DateTime::from_timestamp` with no nanoseconds and, where
/// that gives an instant, `format` with the pattern and `to_string` on it.
/// Nothing is proved of the calendar: the result is only given the name
/// `instant_text`. The pattern is held to the one that the library writes,
/// which is well formed; `to_string` would panic on a malformed one.
#[verifier::external_body]
fn format_instant(seconds: i64, pattern: &str) -> (r: Option<String>)
    requires
        pattern@ == date_pattern(),
    ensures
        match r {
            Some(text) => instant_text(seconds as int, pattern@) == Some(text@),
            None => instant_text(seconds as int, pattern@) is None,
        },
{
    match chrono::DateTime::from_timestamp(seconds, 0) {
        Some(instant) => Some(instant.format(pattern).to_string()),
        None => None,
    }
}

/// The text of a date that was named, or `unknown`.
pub open spec fn text_or_unknown(text: Option<Seq<char>>) -> Seq<char> {
    match text {
        Some(t) => t,
        None => "unknown"@,
    }
}

/// The date of the instant `seconds` after the beginning of 1970, or
/// `unknown` where the calendar does not reach it.
pub fn date_text(seconds: i64) -> (text: String)
    ensures
        text@ == text_or_unknown(instant_text(seconds as int, date_pattern())),
{
    match format_instant(seconds, "%Y-%m-%d %H:%M:%S") {
        Some(text) => text,
        None => String::from_str("unknown"),
    }
}

/// Hash and date of the last commit of a mirror, as they are written to the
/// archive: those of the commit that `HEAD` names, given by its hash and
/// the seconds of its time, or `unknown` twice where `HEAD` names none.
pub fn commit_texts(head: Option<(String, i64)>) -> (texts: (String, String))
    ensures
        match head {
            Some((hash, seconds)) => texts.0@ == hash@ && texts.1@ == text_or_unknown(
                instant_text(seconds as int, date_pattern()),
            ),
            None => texts.0@ == "unknown"@ && texts.1@ == "unknown"@,
        },
{
    match head {
        Some((hash, seconds)) => (hash, date_text(seconds)),
        None => (String::from_str("unknown"), String::from_str("unknown")),
    }
}

/// What is known of the last fetch of a mirror.
#[derive(Clone, Copy, Debug, PartialEq, Eq, Structural)]
pub enum FetchHead {
    /// The mirror was never fetched.
    Missing,
    /// The time of the last fetch cannot be read.
    Unreadable,
    /// The last fetch was so many seconds after the beginning of 1970.
    ModifiedAt(i64),
}

/// The last fetch of a mirror, as it is written to the archive: `never`,
/// `unknown`, or its date.
pub fn fetch_text(fetch_head: FetchHead) -> (text: String)
    ensures
        text@ == match fetch_head {
            FetchHead::Missing => "never"@,
            FetchHead::Unreadable => "unknown"@,
            FetchHead::ModifiedAt(seconds) => text_or_unknown(
                instant_text(seconds as int, date_pattern()),
            ),
        },
{
    match fetch_head {
        FetchHead::Missing => String::from_str("never"),
        FetchHead::Unreadable => String::from_str("unknown"),
        FetchHead::ModifiedAt(seconds) => date_text(seconds),
    }
}

} // verus!
