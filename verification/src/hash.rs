//! What the hashing tool decides about the files it meets, and the entries
//! it writes.
//!
//! Files with the extension of a model or of a packed archive are hashed.
//! Of the others, those whose content is of no harmless kind are reported
//! as worth a look. Files that an earlier run has hashed are passed over.

use vstd::prelude::*;
use vstd::string::*;

verus! {

/// What is asked of one run of the hashing tool.
#[derive(Debug, PartialEq, Eq)]
pub struct HashParams {
    /// The file to write the entries to.
    pub output_file_path: String,
    /// The directory whose files are hashed.
    pub target_path: String,
    /// How many files are hashed at once.
    pub parallel: Option<usize>,
    /// After how many entries the output file is written anew.
    pub sync_interval: usize,
    /// The output of an earlier run, whose files are passed over.
    pub compare_file: Option<String>,
}

/// The two characters that stand for a byte in lowercase hexadecimal.
pub open spec fn hex_of_byte(b: u8) -> Seq<char> {
    seq!["0123456789abcdef"@[b as int / 16], "0123456789abcdef"@[b as int % 16]]
}

/// The bytes in lowercase hexadecimal, two characters for each.
pub open spec fn hex_of(bytes: Seq<u8>) -> Seq<char> {
    Seq::new(2 * bytes.len(), |i: int| hex_of_byte(bytes[i / 2])[i % 2])
}

/// Calls `base16ct::lower::encode_string`, which encodes the bytes in
/// lowercase Base16: two digits for each byte, the high half first. It
/// panics on an input of more than half the addressable length, which is
/// left out.
#[verifier::external_body]
fn hex_lower(bytes: &[u8]) -> (text: String)
    requires
        bytes@.len() <= usize::MAX / 2,
    ensures
        text@ == hex_of(bytes@),
{
    base16ct::lower::encode_string(bytes)
}

/// One hashed file.
#[derive(Debug, PartialEq, Eq)]
pub struct FileEntry {
    pub filename: String,
    pub path: String,
    pub sha256: String,
    pub size: u64,
}

impl FileEntry {
    /// The entry of a file with the given name, path, hash and size. The
    /// hash is written in lowercase hexadecimal.
    pub fn new(filename: &str, path: &str, hash: &[u8], size: u64) -> (entry: Self)
        requires
            hash@.len() <= usize::MAX / 2,
        ensures
            entry.filename@ == filename@,
            entry.path@ == path@,
            entry.sha256@ == hex_of(hash@),
            entry.size == size,
    {
        FileEntry {
            filename: filename.to_owned(),
            path: path.to_owned(),
            sha256: hex_lower(hash),
            size,
        }
    }
}

/// The extensions of the files that are hashed.
pub open spec fn hashed_extensions() -> Seq<Seq<char>> {
    seq![
        "bin"@,
        "safetensors"@,
        "pt"@,
        "pth"@,
        "onnx"@,
        "h5"@,
        "hdf5"@,
        "ckpt"@,
        "pb"@,
        "zip"@,
        "7z"@,
        "tar"@,
        "gz"@,
        "xz"@,
        "bz2"@,
        "rar"@,
        "lz4"@,
        "gguf"@,
    ]
}

/// The extensions of the files that are hashed, for the executable code.
fn extension_list() -> (list: Vec<&'static str>)
    ensures
        list@.map_values(|e: &str| e@) == hashed_extensions(),
{
    let list: Vec<&'static str> = vec![
        "bin",
        "safetensors",
        "pt",
        "pth",
        "onnx",
        "h5",
        "hdf5",
        "ckpt",
        "pb",
        "zip",
        "7z",
        "tar",
        "gz",
        "xz",
        "bz2",
        "rar",
        "lz4",
        "gguf",
    ];
    list
}

/// Whether files with this extension are hashed. The extension is compared
/// as it is written.
pub fn is_hashed_extension(extension: &str) -> (r: bool)
    ensures
        r == hashed_extensions().contains(extension@),
{
    let list = extension_list();
    let ghost known = list@.map_values(|e: &str| e@);
    let mut i: usize = 0;
    while i < list.len()
        invariant
            i <= list@.len(),
            known == list@.map_values(|e: &str| e@),
            known == hashed_extensions(),
            forall|k: int| 0 <= k < i ==> known[k] != extension@,
        decreases list.len() - i,
    {
        if extension.eq(list[i]) {
            assert(known[i as int] == extension@);
            return true;
        }
        i += 1;
    }
    false
}

/// The kinds of content that are told apart.
#[derive(Clone, Copy, Debug, PartialEq, Eq, Structural)]
pub enum ContentKind {
    App,
    Archive,
    Audio,
    Book,
    Doc,
    Font,
    Image,
    Text,
    Video,
    Custom,
}

/// Whether a file of this content is worth a look: one whose kind was made
/// out and is none of sound, book, document, font, image, text and video.
/// A file whose kind was not made out is not.
pub open spec fn potentially_relevant(kind: Option<ContentKind>) -> bool {
    match kind {
        Some(ContentKind::App) | Some(ContentKind::Archive) | Some(ContentKind::Custom) => true,
        _ => false,
    }
}

/// Whether a file of this content is worth a look.
pub fn is_potentionally_relevant(kind: Option<ContentKind>) -> (r: bool)
    ensures
        r == potentially_relevant(kind),
{
    match kind {
        Some(ContentKind::Audio)
        | Some(ContentKind::Book)
        | Some(ContentKind::Doc)
        | Some(ContentKind::Font)
        | Some(ContentKind::Image)
        | Some(ContentKind::Text)
        | Some(ContentKind::Video) => false,
        Some(_) => true,
        None => false,
    }
}

/// What becomes of a file that the walk meets.
#[derive(Clone, Copy, Debug, PartialEq, Eq, Structural)]
pub enum Treatment {
    /// An earlier run has hashed it.
    Skip,
    /// It is hashed.
    Hash,
    /// Its content is looked at, and it is reported if that is worth a look.
    Inspect,
    /// It is left alone.
    Ignore,
}

/// What becomes of a file, given whether an earlier run has hashed it and
/// what extension it has.
pub open spec fn treatment_of(hashed_before: bool, extension: Option<Seq<char>>) -> Treatment {
    if hashed_before {
        Treatment::Skip
    } else {
        match extension {
            Some(e) => if hashed_extensions().contains(e) {
                Treatment::Hash
            } else {
                Treatment::Inspect
            },
            None => Treatment::Ignore,
        }
    }
}

/// What becomes of a file that the walk meets.
pub fn treatment(hashed_before: bool, extension: Option<&str>) -> (t: Treatment)
    ensures
        t == treatment_of(
            hashed_before,
            match extension {
                Some(e) => Some(e@),
                None => None,
            },
        ),
{
    if hashed_before {
        Treatment::Skip
    } else {
        match extension {
            Some(e) => if is_hashed_extension(e) {
                Treatment::Hash
            } else {
                Treatment::Inspect
            },
            None => Treatment::Ignore,
        }
    }
}

/// Whether the output file is written anew after the entry that makes
/// `count`: after every `sync_interval` entries.
pub fn is_sync_due(count: usize, sync_interval: usize) -> (due: bool)
    requires
        sync_interval > 0,
    ensures
        due == (count % sync_interval == 0),
{
    count % sync_interval == 0
}

} // verus!
