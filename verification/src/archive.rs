//! The archive files and their parser.
//!
//! An archive is a text of lines. A line is trimmed; a blank line is passed
//! over. In the archive of git repositories every other line holds five
//! fields between commas: address, path, commit hash, commit date, last
//! fetch. In the archive of model repositories every other line is one
//! identifier.

use crate::index::{
    GitArchiveIndex, HuggingfaceArchiveIndex, RepoRecord, RepoRecordView, keyed_by_lowercase,
};
use crate::text::{chars_of, is_white_space, lowercase_of, rows_of, text_of, white_space};
use vstd::prelude::*;
use vstd::slice::slice_subrange;
use vstd::string::*;

verus! {

/// The pieces of `s` between the occurrences of `sep`: one more piece than
/// there are separators, none of which holds a separator.
pub open spec fn split(s: Seq<char>, sep: char) -> Seq<Seq<char>>
    decreases s.len(),
{
    if s.len() == 0 {
        seq![Seq::<char>::empty()]
    } else {
        let before = split(s.drop_last(), sep);
        if s.last() == sep {
            before.push(Seq::<char>::empty())
        } else {
            before.drop_last().push(before.last().push(s.last()))
        }
    }
}

/// `pieces` with `sep` between each two of them.
pub open spec fn join(pieces: Seq<Seq<char>>, sep: char) -> Seq<char>
    decreases pieces.len(),
{
    if pieces.len() == 0 {
        Seq::<char>::empty()
    } else if pieces.len() == 1 {
        pieces[0]
    } else {
        join(pieces.drop_last(), sep).push(sep) + pieces.last()
    }
}

/// `s` without the white space at its beginning.
pub open spec fn trim_start(s: Seq<char>) -> Seq<char>
    decreases s.len(),
{
    if s.len() > 0 && white_space(s.first()) {
        trim_start(s.drop_first())
    } else {
        s
    }
}

/// `s` without the white space at its end.
pub open spec fn trim_end(s: Seq<char>) -> Seq<char>
    decreases s.len(),
{
    if s.len() > 0 && white_space(s.last()) {
        trim_end(s.drop_last())
    } else {
        s
    }
}

/// `s` without the white space at both ends.
pub open spec fn trimmed(s: Seq<char>) -> Seq<char> {
    trim_end(trim_start(s))
}

/// The entries among `lines`: each line trimmed, the blank ones left out.
pub open spec fn entries_among(lines: Seq<Seq<char>>) -> Seq<Seq<char>> {
    lines.map_values(|line: Seq<char>| trimmed(line)).filter(|line: Seq<char>| line.len() > 0)
}

/// The entries of an archive, in the order of the file.
pub open spec fn entries_of(content: Seq<char>) -> Seq<Seq<char>> {
    entries_among(split(content, '\n'))
}

/// The record that an entry holds, if it has exactly five fields.
pub open spec fn record_of(entry: Seq<char>) -> Option<RepoRecordView> {
    let fields = split(entry, ',');
    if fields.len() == 5 {
        Some(
            RepoRecordView {
                url: fields[0],
                path: fields[1],
                commit_hash: fields[2],
                commit_date: fields[3],
                last_fetch: fields[4],
            },
        )
    } else {
        None
    }
}

/// Every entry holds a record.
pub open spec fn all_well_formed(entries: Seq<Seq<char>>) -> bool {
    forall|k: int| 0 <= k < entries.len() ==> record_of(#[trigger] entries[k]) is Some
}

/// Entry `k` is the first that holds no record.
pub open spec fn is_first_malformed(entries: Seq<Seq<char>>, k: int) -> bool {
    &&& 0 <= k < entries.len()
    &&& record_of(entries[k]) is None
    &&& forall|j: int| 0 <= j < k ==> record_of(#[trigger] entries[j]) is Some
}

/// The records of the entries, in their order.
pub open spec fn records_of(entries: Seq<Seq<char>>) -> Seq<RepoRecordView> {
    entries.map_values(|entry: Seq<char>| record_of(entry).unwrap())
}

/// The index that the records make when they are entered one after the
/// other, each under the lowercase form of its address: where two records
/// share a key, the later one stays.
pub open spec fn index_of(records: Seq<RepoRecordView>) -> Map<Seq<char>, RepoRecordView>
    decreases records.len(),
{
    if records.len() == 0 {
        Map::empty()
    } else {
        index_of(records.drop_last()).insert(lowercase_of(records.last().url), records.last())
    }
}

/// An archive of git repositories holds a line that does not consist of
/// five fields.
#[derive(Debug, PartialEq, Eq)]
pub struct ParseError {
    /// The offending line, trimmed.
    pub line: String,
}

impl ParseError {
    /// The message that names the offending line.
    pub fn message(&self) -> (m: String)
        ensures
            m@ == "bad line: "@ + self.line@,
    {
        String::from_str("bad line: ").concat(self.line.as_str())
    }
}

/// The pieces of `s` between the occurrences of `sep`.
pub fn split_chars(s: &[char], sep: char) -> (pieces: Vec<Vec<char>>)
    ensures
        rows_of(pieces@) == split(s@, sep),
{
    let mut pieces: Vec<Vec<char>> = Vec::new();
    let mut current: Vec<char> = Vec::new();
    let mut i: usize = 0;
    while i < s.len()
        invariant
            i <= s@.len(),
            rows_of(pieces@).push(current@) == split(s@.take(i as int), sep),
        decreases s.len() - i,
    {
        let ghost done = rows_of(pieces@);
        let ghost piece = current@;
        assert(s@.take(i + 1).drop_last() =~= s@.take(i as int));
        if s[i] == sep {
            pieces.push(current);
            current = Vec::new();
        } else {
            current.push(s[i]);
            assert(rows_of(pieces@).push(current@) =~= done.push(piece).drop_last().push(
                piece.push(s@[i as int]),
            ));
        }
        i += 1;
    }
    assert(s@.take(i as int) =~= s@);
    pieces.push(current);
    pieces
}

/// Where the trimmed part of `s` begins and ends.
pub fn trim_bounds(s: &[char]) -> (bounds: (usize, usize))
    ensures
        bounds.0 <= bounds.1 <= s@.len(),
        s@.subrange(bounds.0 as int, bounds.1 as int) == trimmed(s@),
{
    let mut from: usize = 0;
    assert(s@.skip(0) =~= s@);
    while from < s.len() && is_white_space(s[from])
        invariant
            from <= s@.len(),
            trim_start(s@) == trim_start(s@.skip(from as int)),
        decreases s.len() - from,
    {
        assert(s@.skip(from as int).drop_first() =~= s@.skip(from + 1));
        from += 1;
    }
    let ghost rest = s@.skip(from as int);
    let mut to: usize = s.len();
    while to > from && is_white_space(s[to - 1])
        invariant
            from <= to <= s@.len(),
            trim_end(rest) == trim_end(s@.subrange(from as int, to as int)),
        decreases to,
    {
        assert(s@.subrange(from as int, to as int).drop_last() =~= s@.subrange(
            from as int,
            to - 1,
        ));
        to -= 1;
    }
    (from, to)
}

/// The record that an entry holds, if it has exactly five fields.
pub fn parse_record(entry: &[char]) -> (r: Option<RepoRecord>)
    ensures
        match r {
            Some(record) => record_of(entry@) == Some(record@),
            None => record_of(entry@) is None,
        },
{
    let fields = split_chars(entry, ',');
    if fields.len() != 5 {
        return None;
    }
    let record = RepoRecord {
        url: text_of(fields[0].as_slice(), 0, fields[0].len()),
        path: text_of(fields[1].as_slice(), 0, fields[1].len()),
        commit_hash: text_of(fields[2].as_slice(), 0, fields[2].len()),
        commit_date: text_of(fields[3].as_slice(), 0, fields[3].len()),
        last_fetch: text_of(fields[4].as_slice(), 0, fields[4].len()),
    };
    proof {
        assert(fields@[0]@.subrange(0, fields@[0]@.len() as int) =~= fields@[0]@);
        assert(fields@[1]@.subrange(0, fields@[1]@.len() as int) =~= fields@[1]@);
        assert(fields@[2]@.subrange(0, fields@[2]@.len() as int) =~= fields@[2]@);
        assert(fields@[3]@.subrange(0, fields@[3]@.len() as int) =~= fields@[3]@);
        assert(fields@[4]@.subrange(0, fields@[4]@.len() as int) =~= fields@[4]@);
    }
    Some(record)
}

/// The entries among some lines and one more line.
proof fn lemma_entries_among_push(lines: Seq<Seq<char>>, line: Seq<char>)
    ensures
        entries_among(lines.push(line)) == if trimmed(line).len() > 0 {
            entries_among(lines).push(trimmed(line))
        } else {
            entries_among(lines)
        },
{
    let trim = |line: Seq<char>| trimmed(line);
    let filled = |line: Seq<char>| line.len() > 0;
    assert(lines.push(line).map_values(trim) =~= lines.map_values(trim).push(trimmed(line)));
    lines.map_values(trim).lemma_filter_push(trimmed(line), filled);
}

/// The entries among two runs of lines are those of the first run, then
/// those of the second.
proof fn lemma_entries_among_add(first: Seq<Seq<char>>, second: Seq<Seq<char>>)
    ensures
        entries_among(first + second) == entries_among(first) + entries_among(second),
{
    let trim = |line: Seq<char>| trimmed(line);
    let filled = |line: Seq<char>| line.len() > 0;
    assert((first + second).map_values(trim) =~= first.map_values(trim) + second.map_values(trim));
    Seq::filter_distributes_over_add(first.map_values(trim), second.map_values(trim), filled);
}

/// Parses an archive of git repositories. Every entry must hold five fields;
/// the first one that does not makes the whole parse fail, and no index is
/// made. Otherwise the records are entered in the order of the file, each
/// under the lowercase form of its address, so that of two records with one
/// key the later one stays.
pub fn parse_git_archive(content: &str) -> (r: Result<GitArchiveIndex, ParseError>)
    ensures
        match r {
            Ok(index) => {
                &&& all_well_formed(entries_of(content@))
                &&& index.wf()
                &&& index@ == index_of(records_of(entries_of(content@)))
            },
            Err(e) => exists|k: int|
                is_first_malformed(entries_of(content@), k) && e.line@ == entries_of(content@)[k],
        },
{
    let chars = chars_of(content);
    let lines = split_chars(chars.as_slice(), '\n');
    let ghost all = rows_of(lines@);
    let mut index = GitArchiveIndex::new();
    let mut i: usize = 0;
    assert(entries_among(all.take(0)) =~= Seq::<Seq<char>>::empty()) by {
        reveal(Seq::filter);
    }
    while i < lines.len()
        invariant
            i <= lines@.len(),
            all == rows_of(lines@),
            all == split(content@, '\n'),
            all_well_formed(entries_among(all.take(i as int))),
            index.wf(),
            index@ == index_of(records_of(entries_among(all.take(i as int)))),
        decreases lines.len() - i,
    {
        let ghost done = entries_among(all.take(i as int));
        let line = lines[i].as_slice();
        let (from, to) = trim_bounds(line);
        proof {
            assert(all.take(i + 1) =~= all.take(i as int).push(line@));
            lemma_entries_among_push(all.take(i as int), line@);
        }
        if from < to {
            let entry = slice_subrange(line, from, to);
            match parse_record(entry) {
                Some(record) => {
                    index.insert(record);
                    assert(records_of(done.push(entry@)).drop_last() =~= records_of(done));
                },
                None => {
                    proof {
                        assert(all =~= all.take(i + 1) + all.skip(i + 1));
                        lemma_entries_among_add(all.take(i + 1), all.skip(i + 1));
                        // The entries so far hold records; this one is the
                        // first that does not.
                        assert(is_first_malformed(entries_of(content@), done.len() as int));
                    }
                    let bad = text_of(entry, 0, entry.len());
                    return Err(ParseError { line: bad });
                },
            }
        }
        i += 1;
    }
    assert(all.take(i as int) =~= all);
    Ok(index)
}

/// Parses an archive of model repositories: the set of its entries, each
/// kept as it is written.
pub fn parse_huggingface_archive(content: &str) -> (index: HuggingfaceArchiveIndex)
    ensures
        index.wf(),
        index@ == entries_of(content@).to_set(),
{
    let chars = chars_of(content);
    let lines = split_chars(chars.as_slice(), '\n');
    let ghost all = rows_of(lines@);
    let mut index = HuggingfaceArchiveIndex::new();
    let mut i: usize = 0;
    assert(entries_among(all.take(0)) =~= Seq::<Seq<char>>::empty()) by {
        reveal(Seq::filter);
    }
    while i < lines.len()
        invariant
            i <= lines@.len(),
            all == rows_of(lines@),
            all == split(content@, '\n'),
            index.wf(),
            index@ == entries_among(all.take(i as int)).to_set(),
        decreases lines.len() - i,
    {
        let ghost done = entries_among(all.take(i as int));
        let line = lines[i].as_slice();
        let (from, to) = trim_bounds(line);
        proof {
            assert(all.take(i + 1) =~= all.take(i as int).push(line@));
            lemma_entries_among_push(all.take(i as int), line@);
        }
        if from < to {
            let entry = slice_subrange(line, from, to);
            let id = text_of(entry, 0, entry.len());
            assert(entry@.subrange(0, entry@.len() as int) =~= entry@);
            index.insert(id.as_str());
            proof {
                done.lemma_push_to_set_commute(entry@);
            }
        }
        i += 1;
    }
    assert(all.take(i as int) =~= all);
    index
}

/// Splitting loses nothing: there is at least one piece, no piece holds the
/// separator, and the pieces joined by the separator are the text again.
pub proof fn lemma_split_join(s: Seq<char>, sep: char)
    ensures
        split(s, sep).len() >= 1,
        forall|k: int| 0 <= k < split(s, sep).len() ==> !(#[trigger] split(s, sep)[k]).contains(sep),
        join(split(s, sep), sep) == s,
    decreases s.len(),
{
    if s.len() > 0 {
        let before = split(s.drop_last(), sep);
        lemma_split_join(s.drop_last(), sep);
        if s.last() == sep {
            assert(before.push(Seq::<char>::empty()).drop_last() =~= before);
        } else {
            // The last piece grows by one character that is no separator.
            let grown = before.last().push(s.last());
            let now = before.drop_last().push(grown);
            assert(now.drop_last() =~= before.drop_last());
            assert(!grown.contains(sep)) by {
                if grown.contains(sep) {
                    let at = choose|at: int| 0 <= at < grown.len() && grown[at] == sep;
                    assert(before.last()[at] == sep);
                }
            }
            assert(s =~= s.drop_last().push(s.last()));
        }
    }
}

/// A text followed by a piece without separator splits as the text does,
/// with the piece added to its last piece.
proof fn lemma_split_append(s: Seq<char>, piece: Seq<char>, sep: char)
    requires
        !piece.contains(sep),
    ensures
        split(s, sep).len() >= 1,
        split(s + piece, sep) == split(s, sep).drop_last().push(split(s, sep).last() + piece),
    decreases piece.len(),
{
    lemma_split_join(s, sep);
    if piece.len() > 0 {
        let shorter = piece.drop_last();
        assert(!shorter.contains(sep)) by {
            if shorter.contains(sep) {
                let at = choose|at: int| 0 <= at < shorter.len() && shorter[at] == sep;
                assert(piece[at] == sep);
            }
        }
        lemma_split_append(s, shorter, sep);
        assert((s + piece).drop_last() =~= s + shorter);
        assert(split(s + shorter, sep).last().push(piece.last()) =~= split(s, sep).last() + piece);
    }
}

/// Pieces without separator that are joined and split again are the same
/// pieces.
pub proof fn lemma_join_split(pieces: Seq<Seq<char>>, sep: char)
    requires
        pieces.len() >= 1,
        forall|k: int| 0 <= k < pieces.len() ==> !(#[trigger] pieces[k]).contains(sep),
    ensures
        split(join(pieces, sep), sep) == pieces,
    decreases pieces.len(),
{
    if pieces.len() == 1 {
        lemma_split_append(Seq::<char>::empty(), pieces[0], sep);
    } else {
        let before = pieces.drop_last();
        lemma_join_split(before, sep);
        let head = join(before, sep).push(sep);
        assert(head.drop_last() =~= join(before, sep));
        lemma_split_append(head, pieces.last(), sep);
    }
}

/// The index made of any records is keyed by the lowercase forms of their
/// addresses, and holds a key exactly when some record has it.
pub proof fn lemma_index_of_keys(records: Seq<RepoRecordView>)
    ensures
        keyed_by_lowercase(index_of(records)),
        forall|key: Seq<char>| #[trigger]
            index_of(records).contains_key(key) <==> exists|k: int|
                0 <= k < records.len() && key == lowercase_of(#[trigger] records[k].url),
    decreases records.len(),
{
    if records.len() > 0 {
        let before = records.drop_last();
        lemma_index_of_keys(before);
        assert forall|key: Seq<char>| #[trigger]
            index_of(records).contains_key(key) <==> exists|k: int|
                0 <= k < records.len() && key == lowercase_of(#[trigger] records[k].url) by {
            if index_of(records).contains_key(key) && key != lowercase_of(records.last().url) {
                // The key was there before, by a record that is still there.
                let k = choose|k: int|
                    0 <= k < before.len() && key == lowercase_of(#[trigger] before[k].url);
                assert(key == lowercase_of(records[k].url));
            }
            if exists|k: int|
                0 <= k < records.len() && key == lowercase_of(#[trigger] records[k].url) {
                let k = choose|k: int|
                    0 <= k < records.len() && key == lowercase_of(#[trigger] records[k].url);
                if k < before.len() {
                    assert(key == lowercase_of(before[k].url));
                }
            }
        }
    }
}

/// Of the records that share a key the last one stays: a record after which
/// no record has the same key is the one found under that key.
pub proof fn lemma_later_record_stays(records: Seq<RepoRecordView>, k: int)
    requires
        0 <= k < records.len(),
        forall|j: int|
            k < j < records.len() ==> lowercase_of(#[trigger] records[j].url) != lowercase_of(
                records[k].url,
            ),
    ensures
        index_of(records).contains_key(lowercase_of(records[k].url)),
        index_of(records)[lowercase_of(records[k].url)] == records[k],
    decreases records.len(),
{
    if k < records.len() - 1 {
        lemma_later_record_stays(records.drop_last(), k);
    }
}

} // verus!
