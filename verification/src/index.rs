//! The two indexes of known repositories, and the questions asked of them.
//!
//! The index of git repositories maps the lowercased address of a repository
//! to its record. The index of model repositories is a set of identifiers,
//! kept as they were written and compared without regard to case.

use crate::text::{lowercase, lowercase_of, texts_of};
use vstd::hash_map::StringHashMap;
use vstd::hash_set::StringHashSet;
use vstd::prelude::*;

verus! {

/// One recorded git repository.
#[derive(Debug, PartialEq, Eq)]
pub struct RepoRecord {
    /// The remote address, as it was recorded.
    pub url: String,
    /// Where the mirror lies.
    pub path: String,
    /// The hash of the last commit.
    pub commit_hash: String,
    /// The date of the last commit.
    pub commit_date: String,
    /// When the mirror was last fetched.
    pub last_fetch: String,
}

/// What a record holds, as plain texts.
pub ghost struct RepoRecordView {
    pub url: Seq<char>,
    pub path: Seq<char>,
    pub commit_hash: Seq<char>,
    pub commit_date: Seq<char>,
    pub last_fetch: Seq<char>,
}

impl View for RepoRecord {
    type V = RepoRecordView;

    open spec fn view(&self) -> RepoRecordView {
        RepoRecordView {
            url: self.url@,
            path: self.path@,
            commit_hash: self.commit_hash@,
            commit_date: self.commit_date@,
            last_fetch: self.last_fetch@,
        }
    }
}

impl Clone for RepoRecord {
    fn clone(&self) -> (r: Self)
        ensures
            r == *self,
    {
        RepoRecord {
            url: self.url.clone(),
            path: self.path.clone(),
            commit_hash: self.commit_hash.clone(),
            commit_date: self.commit_date.clone(),
            last_fetch: self.last_fetch.clone(),
        }
    }
}

impl RepoRecord {
    /// A record of the five given fields.
    pub fn new(url: &str, path: &str, commit_hash: &str, commit_date: &str, last_fetch: &str) -> (r:
        Self)
        ensures
            r@ == (RepoRecordView {
                url: url@,
                path: path@,
                commit_hash: commit_hash@,
                commit_date: commit_date@,
                last_fetch: last_fetch@,
            }),
    {
        RepoRecord {
            url: url.to_owned(),
            path: path.to_owned(),
            commit_hash: commit_hash.to_owned(),
            commit_date: commit_date.to_owned(),
            last_fetch: last_fetch.to_owned(),
        }
    }
}

/// Every record of `index` stands under the lowercase form of its own
/// address.
pub open spec fn keyed_by_lowercase(index: Map<Seq<char>, RepoRecordView>) -> bool {
    forall|key: Seq<char>| #[trigger]
        index.contains_key(key) ==> key == lowercase_of(index[key].url)
}

/// The records found under `variants`, in the order of the variants.
pub open spec fn matches_in(
    index: Map<Seq<char>, RepoRecordView>,
    variants: Seq<Seq<char>>,
) -> Seq<RepoRecordView> {
    variants.filter(|v: Seq<char>| index.contains_key(v)).map_values(|v: Seq<char>| index[v])
}

/// What is answered to the question whether a git repository is known.
#[derive(Debug, PartialEq, Eq)]
pub struct GitRepoAnswer {
    /// Whether any variant of the candidate is recorded.
    pub exists: bool,
    /// The recorded addresses of all matches, as they were written.
    pub existing: Vec<String>,
    /// The record of the first match, if there is one.
    pub metadata: Option<RepoRecord>,
}

/// An answer, as plain values.
pub ghost struct GitRepoAnswerView {
    pub exists: bool,
    pub existing: Seq<Seq<char>>,
    pub metadata: Option<RepoRecordView>,
}

impl View for GitRepoAnswer {
    type V = GitRepoAnswerView;

    open spec fn view(&self) -> GitRepoAnswerView {
        GitRepoAnswerView {
            exists: self.exists,
            existing: texts_of(self.existing@),
            metadata: match self.metadata {
                Some(record) => Some(record@),
                None => None,
            },
        }
    }
}

/// The answer that `index` gives for the variants of a candidate: the
/// candidate exists if some variant is a key; all addresses recorded under
/// the variants are listed in the order of the variants; the metadata are
/// the record of the first of them.
pub open spec fn answer_of(
    index: Map<Seq<char>, RepoRecordView>,
    variants: Seq<Seq<char>>,
) -> GitRepoAnswerView {
    let found = matches_in(index, variants);
    GitRepoAnswerView {
        exists: found.len() > 0,
        existing: found.map_values(|r: RepoRecordView| r.url),
        metadata: if found.len() > 0 {
            Some(found[0])
        } else {
            None
        },
    }
}

/// A candidate exists exactly when one of its variants is a key of the
/// index. Then, and only then, addresses are listed and metadata are given;
/// no more addresses are listed than there are variants.
pub proof fn lemma_answer_shape(index: Map<Seq<char>, RepoRecordView>, variants: Seq<Seq<char>>)
    ensures
        answer_of(index, variants).exists <==> exists|i: int|
            0 <= i < variants.len() && index.contains_key(#[trigger] variants[i]),
        answer_of(index, variants).exists <==> answer_of(index, variants).existing.len() > 0,
        answer_of(index, variants).exists <==> answer_of(index, variants).metadata is Some,
        answer_of(index, variants).existing.len() <= variants.len(),
{
    let present = |v: Seq<char>| index.contains_key(v);
    let kept = variants.filter(present);
    variants.lemma_filter_len(present);
    if kept.len() > 0 {
        // What was kept is a variant, and a key.
        variants.lemma_filter_pred(present, 0);
        variants.lemma_filter_contains_rev(present, kept[0]);
    }
    if exists|i: int| 0 <= i < variants.len() && index.contains_key(#[trigger] variants[i]) {
        let i = choose|i: int| 0 <= i < variants.len() && index.contains_key(#[trigger] variants[i]);
        variants.lemma_filter_contains(present, i);
    }
}

/// A record whose key is one of the variants is among the matches: its
/// address is listed.
pub proof fn lemma_key_among_variants_is_listed(
    index: Map<Seq<char>, RepoRecordView>,
    variants: Seq<Seq<char>>,
    key: Seq<char>,
)
    requires
        index.contains_key(key),
        variants.contains(key),
    ensures
        answer_of(index, variants).exists,
        answer_of(index, variants).existing.contains(index[key].url),
{
    let present = |v: Seq<char>| index.contains_key(v);
    let kept = variants.filter(present);
    let i = choose|i: int| 0 <= i < variants.len() && variants[i] == key;
    variants.lemma_filter_contains(present, i);
    let k = choose|k: int| 0 <= k < kept.len() && kept[k] == key;
    assert(answer_of(index, variants).existing[k] == index[key].url);
}

/// What is kept of a sequence without repetitions has no repetitions.
proof fn lemma_filter_keeps_distinct<A>(s: Seq<A>, keep: spec_fn(A) -> bool)
    requires
        s.no_duplicates(),
    ensures
        s.filter(keep).no_duplicates(),
    decreases s.len(),
{
    reveal(Seq::filter);
    if s.len() > 0 {
        let before = s.drop_last();
        lemma_filter_keeps_distinct(before, keep);
        if keep(s.last()) {
            assert forall|i: int| 0 <= i < before.filter(keep).len() implies before.filter(
                keep,
            )[i] != s.last() by {
                let kept = before.filter(keep)[i];
                assert(before.filter(keep).contains(kept));
                before.lemma_filter_contains_rev(keep, kept);
                let j = choose|j: int| 0 <= j < before.len() && before[j] == kept;
                assert(s[j] == kept);
            }
        }
    }
}

/// No address is listed twice: where the index is keyed by the lowercase
/// forms of its addresses and no variant is repeated, the listed addresses
/// are all different.
pub proof fn lemma_listed_addresses_differ(
    index: Map<Seq<char>, RepoRecordView>,
    variants: Seq<Seq<char>>,
)
    requires
        keyed_by_lowercase(index),
        variants.no_duplicates(),
    ensures
        answer_of(index, variants).existing.no_duplicates(),
{
    let present = |v: Seq<char>| index.contains_key(v);
    let kept = variants.filter(present);
    let listed = answer_of(index, variants).existing;
    lemma_filter_keeps_distinct(variants, present);
    assert forall|a: int, b: int| 0 <= a < listed.len() && 0 <= b < listed.len() && a
        != b implies listed[a] != listed[b] by {
        // Each address lowercases to the variant it was found under.
        variants.lemma_filter_pred(present, a);
        variants.lemma_filter_pred(present, b);
        assert(kept[a] == lowercase_of(index[kept[a]].url));
        assert(kept[b] == lowercase_of(index[kept[b]].url));
    }
}

/// The index of recorded git repositories: at most one record under each
/// lowercased address.
pub struct GitArchiveIndex {
    records: StringHashMap<RepoRecord>,
}

impl View for GitArchiveIndex {
    type V = Map<Seq<char>, RepoRecordView>;

    closed spec fn view(&self) -> Map<Seq<char>, RepoRecordView> {
        self.records@.map_values(|r: RepoRecord| r@)
    }
}

impl GitArchiveIndex {
    /// Every record stands under the lowercase form of its own address.
    /// The index is built by `new` and `insert` alone, which keep it so.
    pub open spec fn wf(&self) -> bool {
        keyed_by_lowercase(self@)
    }

    /// The index without any record.
    pub fn new() -> (index: Self)
        ensures
            index.wf(),
            index@ == Map::<Seq<char>, RepoRecordView>::empty(),
    {
        GitArchiveIndex { records: StringHashMap::new() }
    }

    /// Records `record` under the lowercase form of its address. A record
    /// that stood there before is replaced.
    pub fn insert(&mut self, record: RepoRecord)
        ensures
            final(self)@ == old(self)@.insert(lowercase_of(record.url@), record@),
            old(self).wf() ==> final(self).wf(),
    {
        let key = lowercase(record.url.as_str());
        let ghost before = self.records@;
        self.records.insert(key, record);
        assert(self@ =~= before.map_values(|r: RepoRecord| r@).insert(
            lowercase_of(record.url@),
            record@,
        ));
    }

    /// The number of records.
    pub fn len(&self) -> (n: usize)
        ensures
            n == self@.len(),
    {
        assert(self@.dom() =~= self.records@.dom());
        self.records.len()
    }

    /// The record under `key`, which is compared as it is.
    pub fn get(&self, key: &str) -> (r: Option<&RepoRecord>)
        ensures
            match r {
                Some(record) => self@.contains_key(key@) && record@ == self@[key@],
                None => !self@.contains_key(key@),
            },
    {
        self.records.get(key)
    }

    /// Looks each variant up and collects what is found, in the order of the
    /// variants.
    pub fn find(&self, variants: &[String]) -> (answer: GitRepoAnswer)
        ensures
            answer@ == answer_of(self@, texts_of(variants@)),
    {
        let ghost index = self@;
        let ghost wanted = texts_of(variants@);
        let ghost present = |v: Seq<char>| index.contains_key(v);
        let mut existing: Vec<String> = Vec::new();
        let mut metadata: Option<RepoRecord> = None;
        let mut i: usize = 0;
        while i < variants.len()
            invariant
                i <= variants@.len(),
                index == self@,
                wanted == texts_of(variants@),
                present == |v: Seq<char>| index.contains_key(v),
                texts_of(existing@) == matches_in(index, wanted.take(i as int)).map_values(
                    |r: RepoRecordView| r.url,
                ),
                match metadata {
                    Some(record) => matches_in(index, wanted.take(i as int)).len() > 0
                        && record@ == matches_in(index, wanted.take(i as int))[0],
                    None => matches_in(index, wanted.take(i as int)).len() == 0,
                },
            decreases variants.len() - i,
        {
            let ghost before = wanted.take(i as int);
            proof {
                assert(wanted.take(i + 1) =~= before.push(wanted[i as int]));
                before.lemma_filter_push(wanted[i as int], present);
            }
            if let Some(record) = self.records.get(variants[i].as_str()) {
                let ghost listed = existing@;
                existing.push(record.url.clone());
                if metadata.is_none() {
                    metadata = Some(record.clone());
                }
                proof {
                    assert(texts_of(existing@) =~= texts_of(listed).push(record.url@));
                    assert(texts_of(existing@) =~= matches_in(index, wanted.take(i + 1)).map_values(
                        |r: RepoRecordView| r.url,
                    ));
                }
            }
            i += 1;
        }
        assert(wanted.take(i as int) =~= wanted);
        GitRepoAnswer { exists: !existing.is_empty(), existing, metadata }
    }
}

/// Whether some identifier of `ids` equals `repo` once both are lowercased.
pub open spec fn known_ignoring_case(ids: Set<Seq<char>>, repo: Seq<char>) -> bool {
    exists|id: Seq<char>| #[trigger] ids.contains(id) && lowercase_of(id) == lowercase_of(repo)
}

/// Case does not matter: two identifiers with the same lowercase form are
/// known or unknown together, whatever the index holds.
pub proof fn lemma_case_does_not_matter(ids: Set<Seq<char>>, one: Seq<char>, other: Seq<char>)
    requires
        lowercase_of(one) == lowercase_of(other),
    ensures
        known_ignoring_case(ids, one) == known_ignoring_case(ids, other),
{
}

/// The index of recorded model repositories: a set of identifiers, each kept
/// as it was written.
pub struct HuggingfaceArchiveIndex {
    ids: Vec<String>,
    seen: StringHashSet,
}

impl View for HuggingfaceArchiveIndex {
    type V = Set<Seq<char>>;

    closed spec fn view(&self) -> Set<Seq<char>> {
        texts_of(self.ids@).to_set()
    }
}

impl HuggingfaceArchiveIndex {
    /// The identifiers are kept once each, in the order in which they came.
    /// The index is built by `new` and `insert` alone, which keep it so.
    pub closed spec fn wf(&self) -> bool {
        &&& texts_of(self.ids@).no_duplicates()
        &&& self.seen@ =~= texts_of(self.ids@).to_set()
    }

    /// The index without any identifier.
    pub fn new() -> (index: Self)
        ensures
            index.wf(),
            index@ == Set::<Seq<char>>::empty(),
    {
        HuggingfaceArchiveIndex { ids: Vec::new(), seen: StringHashSet::new() }
    }

    /// Adds `id` as it is written. An identifier that is there already is
    /// not added again.
    pub fn insert(&mut self, id: &str)
        requires
            old(self).wf(),
        ensures
            final(self).wf(),
            final(self)@ == old(self)@.insert(id@),
    {
        if !self.seen.contains(id) {
            let ghost before = texts_of(self.ids@);
            self.seen.insert(id.to_owned());
            self.ids.push(id.to_owned());
            proof {
                assert(texts_of(self.ids@) =~= before.push(id@));
                before.lemma_push_to_set_commute(id@);
            }
        }
    }

    /// The number of different identifiers.
    pub fn len(&self) -> (n: usize)
        requires
            self.wf(),
        ensures
            n == self@.len(),
    {
        proof {
            texts_of(self.ids@).unique_seq_to_set();
        }
        self.ids.len()
    }

    /// Whether `repo` is recorded, compared without regard to case: some
    /// recorded identifier and `repo` have the same lowercase form.
    pub fn contains_ignoring_case(&self, repo: &str) -> (known: bool)
        ensures
            known == known_ignoring_case(self@, repo@),
    {
        let wanted = lowercase(repo);
        let ghost ids = texts_of(self.ids@);
        let mut i: usize = 0;
        while i < self.ids.len()
            invariant
                i <= self.ids@.len(),
                ids == texts_of(self.ids@),
                wanted@ == lowercase_of(repo@),
                forall|k: int| 0 <= k < i ==> lowercase_of(#[trigger] ids[k]) != lowercase_of(repo@),
            decreases self.ids.len() - i,
        {
            let candidate = lowercase(self.ids[i].as_str());
            if candidate == wanted {
                assert(ids.to_set().contains(ids[i as int]));
                return true;
            }
            i += 1;
        }
        false
    }
}

} // verus!
