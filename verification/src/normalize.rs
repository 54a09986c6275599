//! The normalization of repository addresses.
//!
//! One repository is written in many ways: with or without a scheme, with or
//! without the `.git` suffix, in any case. A candidate address is lowercased,
//! reduced to its bare form (no suffix, no scheme), and expanded again into
//! the seven spellings under which the repository may have been recorded.

use crate::text::{chars_of, ends_with, lowercase, lowercase_of, slices_of, starts_with, texts_of};
use vstd::prelude::*;
use vstd::string::*;

verus! {

/// A candidate matched more than one recognized suffix, or more than one
/// recognized scheme, at once.
#[derive(Clone, Copy, Debug, PartialEq, Eq, Structural)]
pub enum NormalizeError {
    AmbiguousSuffix,
    AmbiguousScheme,
}

impl NormalizeError {
    /// The message that is reported to the caller of a request.
    pub fn message(&self) -> (m: String)
        ensures
            m@ == "logic error"@,
    {
        String::from_str("logic error")
    }
}

/// The recognized suffixes, in the order in which they are tried.
pub open spec fn suffixes() -> Seq<Seq<char>> {
    seq![".git"@]
}

/// The recognized schemes, in the order in which they are tried.
pub open spec fn schemes() -> Seq<Seq<char>> {
    seq!["http://"@, "https://"@, "git://"@]
}

/// Whether `s` carries a recognized scheme.
pub open spec fn has_scheme(s: Seq<char>) -> bool {
    "http://"@.is_prefix_of(s) || "https://"@.is_prefix_of(s) || "git://"@.is_prefix_of(s)
}

/// Whether `s` carries the recognized suffix.
pub open spec fn has_suffix(s: Seq<char>) -> bool {
    ".git"@.is_suffix_of(s)
}

/// `s` without the recognized suffix, if it ends with it; stripped once.
pub open spec fn without_suffix(s: Seq<char>) -> Seq<char> {
    if ".git"@.is_suffix_of(s) {
        s.take(s.len() - ".git"@.len())
    } else {
        s
    }
}

/// `s` without its recognized scheme, if it begins with one.
pub open spec fn without_scheme(s: Seq<char>) -> Seq<char> {
    if "http://"@.is_prefix_of(s) {
        s.skip("http://"@.len() as int)
    } else if "https://"@.is_prefix_of(s) {
        s.skip("https://"@.len() as int)
    } else if "git://"@.is_prefix_of(s) {
        s.skip("git://"@.len() as int)
    } else {
        s
    }
}

/// The bare form of a lowercased address: first the suffix goes, then the
/// scheme.
pub open spec fn bare_form(lower: Seq<char>) -> Seq<char> {
    without_scheme(without_suffix(lower))
}

/// The seven spellings of a bare form: under each scheme with and without the
/// suffix, and last the bare form itself.
pub open spec fn variants_around(bare: Seq<char>) -> Seq<Seq<char>> {
    seq![
        "http://"@ + bare + ".git"@,
        "http://"@ + bare,
        "https://"@ + bare + ".git"@,
        "https://"@ + bare,
        "git://"@ + bare + ".git"@,
        "git://"@ + bare,
        bare,
    ]
}

/// The variants of a lowercased address.
pub open spec fn variants_of(lower: Seq<char>) -> Seq<Seq<char>> {
    variants_around(bare_form(lower))
}

/// Two different entries of `prefixes` are both a prefix of `s`.
pub open spec fn ambiguous_prefix(s: Seq<char>, prefixes: Seq<Seq<char>>) -> bool {
    exists|i: int, j: int|
        0 <= i < j < prefixes.len() && (#[trigger] prefixes[i]).is_prefix_of(s) && (
        #[trigger] prefixes[j]).is_prefix_of(s)
}

/// Two different entries of `suffixes` are both a suffix of `s`.
pub open spec fn ambiguous_suffix(s: Seq<char>, suffixes: Seq<Seq<char>>) -> bool {
    exists|i: int, j: int|
        0 <= i < j < suffixes.len() && (#[trigger] suffixes[i]).is_suffix_of(s) && (
        #[trigger] suffixes[j]).is_suffix_of(s)
}

/// `t` is `s` without the entry of `prefixes` that it begins with, or `s`
/// itself where it begins with none.
pub open spec fn is_prefix_stripped(s: Seq<char>, prefixes: Seq<Seq<char>>, t: Seq<char>) -> bool {
    &&& (forall|i: int| 0 <= i < prefixes.len() ==> !(#[trigger] prefixes[i]).is_prefix_of(s))
        ==> t == s
    &&& forall|i: int|
        0 <= i < prefixes.len() && (#[trigger] prefixes[i]).is_prefix_of(s) ==> t == s.skip(
            prefixes[i].len() as int,
        )
}

/// `t` is `s` without the entry of `suffixes` that it ends with, or `s`
/// itself where it ends with none.
pub open spec fn is_suffix_stripped(s: Seq<char>, suffixes: Seq<Seq<char>>, t: Seq<char>) -> bool {
    &&& (forall|i: int| 0 <= i < suffixes.len() ==> !(#[trigger] suffixes[i]).is_suffix_of(s))
        ==> t == s
    &&& forall|i: int|
        0 <= i < suffixes.len() && (#[trigger] suffixes[i]).is_suffix_of(s) ==> t == s.take(
            s.len() - suffixes[i].len(),
        )
}

/// Strips from `text` the one of `prefixes` that it begins with. A text that
/// begins with none is returned as it is; one that begins with two entries
/// of the list at once is refused.
pub fn strip_scheme_among<'a>(text: &'a str, prefixes: &[&str]) -> (r: Result<
    &'a str,
    NormalizeError,
>)
    ensures
        r is Err <==> ambiguous_prefix(text@, slices_of(prefixes@)),
        r matches Err(e) ==> e == NormalizeError::AmbiguousScheme,
        r matches Ok(t) ==> is_prefix_stripped(text@, slices_of(prefixes@), t@),
{
    let chars = chars_of(text);
    let ghost views = slices_of(prefixes@);
    let mut found: Option<usize> = None;
    let mut i: usize = 0;
    while i < prefixes.len()
        invariant
            i <= prefixes@.len(),
            chars@ == text@,
            views == slices_of(prefixes@),
            found matches Some(len) ==> exists|k: int|
                0 <= k < i && (#[trigger] views[k]).is_prefix_of(text@) && len == views[k].len(),
            found is None ==> forall|k: int| 0 <= k < i ==> !(#[trigger] views[k]).is_prefix_of(text@),
            forall|a: int, b: int|
                0 <= a < b < i ==> !((#[trigger] views[a]).is_prefix_of(text@) && (
                #[trigger] views[b]).is_prefix_of(text@)),
        decreases prefixes.len() - i,
    {
        let candidate = chars_of(prefixes[i]);
        assert(candidate@ == views[i as int]);
        if starts_with(chars.as_slice(), candidate.as_slice()) {
            if found.is_some() {
                return Err(NormalizeError::AmbiguousScheme);
            }
            found = Some(candidate.len());
        }
        i += 1;
    }
    match found {
        None => Ok(text),
        Some(len) => Ok(text.substring_char(len, chars.len())),
    }
}

/// Strips from `text` the one of `suffixes` that it ends with. A text that
/// ends with none is returned as it is; one that ends with two entries of
/// the list at once is refused.
pub fn strip_suffix_among<'a>(text: &'a str, suffixes: &[&str]) -> (r: Result<
    &'a str,
    NormalizeError,
>)
    ensures
        r is Err <==> ambiguous_suffix(text@, slices_of(suffixes@)),
        r matches Err(e) ==> e == NormalizeError::AmbiguousSuffix,
        r matches Ok(t) ==> is_suffix_stripped(text@, slices_of(suffixes@), t@),
{
    let chars = chars_of(text);
    let ghost views = slices_of(suffixes@);
    let mut found: Option<usize> = None;
    let mut i: usize = 0;
    while i < suffixes.len()
        invariant
            i <= suffixes@.len(),
            chars@ == text@,
            views == slices_of(suffixes@),
            found matches Some(len) ==> exists|k: int|
                0 <= k < i && (#[trigger] views[k]).is_suffix_of(text@) && len == views[k].len(),
            found is None ==> forall|k: int| 0 <= k < i ==> !(#[trigger] views[k]).is_suffix_of(text@),
            forall|a: int, b: int|
                0 <= a < b < i ==> !((#[trigger] views[a]).is_suffix_of(text@) && (
                #[trigger] views[b]).is_suffix_of(text@)),
        decreases suffixes.len() - i,
    {
        let candidate = chars_of(suffixes[i]);
        assert(candidate@ == views[i as int]);
        if ends_with(chars.as_slice(), candidate.as_slice()) {
            if found.is_some() {
                return Err(NormalizeError::AmbiguousSuffix);
            }
            found = Some(candidate.len());
        }
        i += 1;
    }
    match found {
        None => Ok(text),
        Some(len) => Ok(text.substring_char(0, chars.len() - len)),
    }
}

/// No text begins with two recognized schemes at once, and none ends with two
/// recognized suffixes: the consistency error cannot arise from the built-in
/// lists.
pub proof fn lemma_recognized_forms_exclusive(s: Seq<char>)
    ensures
        !ambiguous_prefix(s, schemes()),
        !ambiguous_suffix(s, suffixes()),
        !("http://"@.is_prefix_of(s) && "https://"@.is_prefix_of(s)),
        !("http://"@.is_prefix_of(s) && "git://"@.is_prefix_of(s)),
        !("https://"@.is_prefix_of(s) && "git://"@.is_prefix_of(s)),
{
    reveal_strlit("http://");
    reveal_strlit("https://");
    reveal_strlit("git://");
    // The first two schemes differ in their fifth character, the third
    // differs from both in its first.
    if "https://"@.is_prefix_of(s) {
        assert(s.subrange(0, 8)[4] == "https://"@[4]);
    }
    if "git://"@.is_prefix_of(s) {
        assert(s.subrange(0, 6)[0] == "git://"@[0]);
    }
}

/// The recognized schemes, for the executable code.
fn recognized_schemes() -> (v: Vec<&'static str>)
    ensures
        slices_of(v@) == schemes(),
{
    vec!["http://", "https://", "git://"]
}

/// The recognized suffixes, for the executable code.
fn recognized_suffixes() -> (v: Vec<&'static str>)
    ensures
        slices_of(v@) == suffixes(),
{
    vec![".git"]
}

/// The bare form of an address that is already lowercased. The recognized
/// suffixes and schemes exclude one another, so that this never fails.
pub fn bare_of_lowercase(lower: &str) -> (r: Result<String, NormalizeError>)
    ensures
        r matches Ok(bare) && bare@ == bare_form(lower@),
{
    let suffix_list = recognized_suffixes();
    let scheme_list = recognized_schemes();
    let base = match strip_suffix_among(lower, suffix_list.as_slice()) {
        Ok(base) => base,
        Err(e) => {
            proof {
                lemma_recognized_forms_exclusive(lower@);
            }
            return Err(e);
        },
    };
    assert(base@ == without_suffix(lower@)) by {
        assert(suffixes()[0] == ".git"@);
    }
    let bare = match strip_scheme_among(base, scheme_list.as_slice()) {
        Ok(bare) => bare,
        Err(e) => {
            proof {
                lemma_recognized_forms_exclusive(base@);
            }
            return Err(e);
        },
    };
    assert(bare@ == without_scheme(base@)) by {
        lemma_recognized_forms_exclusive(base@);
    }
    Ok(bare.to_owned())
}

/// The seven spellings of a bare form, in their fixed order.
pub fn expand(bare: &str) -> (v: Vec<String>)
    ensures
        v@.len() == 7,
        texts_of(v@) == variants_around(bare@),
{
    let scheme_list = recognized_schemes();
    let mut v: Vec<String> = Vec::new();
    let mut i: usize = 0;
    while i < scheme_list.len()
        invariant
            i <= 3,
            slices_of(scheme_list@) == schemes(),
            v@.len() == 2 * i,
            forall|k: int| 0 <= k < 2 * i ==> (#[trigger] v@[k])@ == variants_around(bare@)[k],
        decreases scheme_list.len() - i,
    {
        assert(scheme_list@.len() == 3) by {
            assert(slices_of(scheme_list@).len() == schemes().len());
        }
        let scheme: &str = scheme_list[i];
        assert(scheme@ == schemes()[i as int]);
        let with_scheme = String::from_str(scheme).concat(bare);
        let with_suffix = with_scheme.clone().concat(".git");
        v.push(with_suffix);
        v.push(with_scheme);
        i += 1;
    }
    assert(scheme_list@.len() == 3) by {
        assert(slices_of(scheme_list@).len() == schemes().len());
    }
    v.push(bare.to_owned());
    v
}

/// The bare form of an address: lowercased, then without its suffix and its
/// scheme. This never fails.
pub fn normalize_to_bare(url: &str) -> (r: Result<String, NormalizeError>)
    ensures
        r matches Ok(bare) && bare@ == bare_form(lowercase_of(url@)),
{
    let lower = lowercase(url);
    bare_of_lowercase(lower.as_str())
}

/// The variants of an address that is already lowercased. This never
/// fails.
pub fn normalize_lowercase(lower: &str) -> (r: Result<Vec<String>, NormalizeError>)
    ensures
        r matches Ok(variants) && variants@.len() == 7 && texts_of(variants@) == variants_of(
            lower@,
        ),
{
    match bare_of_lowercase(lower) {
        Ok(bare) => Ok(expand(bare.as_str())),
        Err(e) => Err(e),
    }
}

/// The seven variants under which the repository of `url` may have been
/// recorded: the address is lowercased, reduced to its bare form and expanded
/// under every recognized scheme, with and without the suffix. The bare form
/// comes last. Since the recognized suffixes and schemes exclude one another
/// this never fails, whatever the candidate is.
pub fn normalize(url: &str) -> (r: Result<Vec<String>, NormalizeError>)
    ensures
        r matches Ok(variants) && variants@.len() == 7 && texts_of(variants@) == variants_of(
            lowercase_of(url@),
        ),
{
    let lower = lowercase(url);
    normalize_lowercase(lower.as_str())
}

/// A text that begins with `prefix` is `prefix` followed by the rest.
proof fn lemma_prefix_split(prefix: Seq<char>, s: Seq<char>)
    requires
        prefix.is_prefix_of(s),
    ensures
        prefix + s.skip(prefix.len() as int) == s,
{
}

/// A text that ends with `suffix` is the rest followed by `suffix`.
proof fn lemma_suffix_split(suffix: Seq<char>, s: Seq<char>)
    requires
        suffix.is_suffix_of(s),
    ensures
        s.take(s.len() - suffix.len()) + suffix == s,
{
}

/// Every address has exactly seven variants. Each is a recognized scheme or
/// nothing, then the bare form, then the suffix or nothing; the bare form
/// itself is the last of them and is a contiguous part of the lowercased
/// address; and no two of the seven are equal.
pub proof fn lemma_variants_shape(lower: Seq<char>)
    ensures
        variants_of(lower).len() == 7,
        variants_of(lower)[6] == bare_form(lower),
        variants_of(lower).contains(bare_form(lower)),
        exists|from: int, to: int|
            0 <= from <= to <= lower.len() && bare_form(lower) == #[trigger] lower.subrange(
                from,
                to,
            ),
        variants_of(lower).no_duplicates(),
{
    reveal_strlit("http://");
    reveal_strlit("https://");
    reveal_strlit("git://");
    reveal_strlit(".git");
    let bare = bare_form(lower);
    let v = variants_of(lower);
    let to = without_suffix(lower).len() as int;
    assert(bare =~= lower.subrange(to - bare.len(), to));
    assert forall|i: int, j: int| 0 <= i < 7 && 0 <= j < 7 && i != j implies v[i] != v[j] by {
        // The seven lengths are all different.
        assert(v[i].len() != v[j].len());
    }
}

/// Stripping leaves a text as it is exactly when the text carries neither
/// the recognized suffix nor a recognized scheme.
pub proof fn lemma_bare_form_fixed(t: Seq<char>)
    ensures
        bare_form(t) == t <==> !has_suffix(t) && !has_scheme(t),
{
    reveal_strlit("http://");
    reveal_strlit("https://");
    reveal_strlit("git://");
    reveal_strlit(".git");
    // Stripping a suffix or a scheme makes the text shorter.
}

/// Normalizing a bare form again gives the same bare form and the same
/// variants, where the bare form is already stripped and lowercasing leaves
/// it as it is. A bare form that still carries a suffix or a scheme, as that
/// of `a.git.git` does, is stripped further.
pub proof fn lemma_normalize_bare_again(url: Seq<char>)
    requires
        !has_suffix(bare_form(lowercase_of(url))),
        !has_scheme(bare_form(lowercase_of(url))),
        lowercase_of(bare_form(lowercase_of(url))) == bare_form(lowercase_of(url)),
    ensures
        bare_form(lowercase_of(bare_form(lowercase_of(url)))) == bare_form(lowercase_of(url)),
        variants_of(lowercase_of(bare_form(lowercase_of(url)))) == variants_of(
            lowercase_of(url),
        ),
{
    lemma_bare_form_fixed(bare_form(lowercase_of(url)));
}

/// A lowercased address is one of its own variants, unless it carries the
/// suffix but no scheme: of the bare form with the suffix no variant is
/// made.
pub proof fn lemma_own_variant(lower: Seq<char>)
    ensures
        variants_of(lower).contains(lower) <==> !(has_suffix(lower) && !has_scheme(
            without_suffix(lower),
        )),
{
    reveal_strlit("http://");
    reveal_strlit("https://");
    reveal_strlit("git://");
    reveal_strlit(".git");
    let base = without_suffix(lower);
    lemma_recognized_forms_exclusive(base);
    if has_suffix(lower) {
        lemma_suffix_split(".git"@, lower);
    }
    if "http://"@.is_prefix_of(base) {
        lemma_prefix_split("http://"@, base);
    } else if "https://"@.is_prefix_of(base) {
        lemma_prefix_split("https://"@, base);
    } else if "git://"@.is_prefix_of(base) {
        lemma_prefix_split("git://"@, base);
    } else if has_suffix(lower) {
        // The address is its bare form with the suffix, and every variant
        // has another length.
        assert forall|i: int| 0 <= i < 7 implies variants_of(lower)[i] != lower by {
            assert(variants_of(lower)[i].len() != lower.len());
        }
    }
}

} // verus!
