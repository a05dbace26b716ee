//! Which files of the download directory the listing route reports.
use vstd::prelude::*;
use vstd::string::StringSliceAdditionalSpecFns;
use vstd::utf8::*;
use crate::json::{list_to_pretty_json_object, pretty_json_object_of_list};
use crate::responses::{error_body, error_json};

verus! {

broadcast use vstd::utf8::group_utf8_lib;

/// What the listing needs to know of one entry of the download directory.
pub struct DirEntryInfo {
    /// The entry's path, as it is reported.
    pub path: String,
    /// The extension of the entry's file name, if it has one.
    pub extension: Option<String>,
    /// Whether the entry is a directory.
    pub is_dir: bool,
}

/// The body answered when the download directory cannot be read: the error body
/// `{"error": "Could not read directory"}`.
pub open spec fn unreadable_dir_body() -> Seq<char> {
    error_body("Could not read directory"@)
}

/// The extensions of the audio files that the listing reports.
pub open spec fn is_audio_extension(ext: Seq<char>) -> bool {
    ||| ext == "flac"@
    ||| ext == "ogg"@
    ||| ext == "mp3"@
    ||| ext == "aac"@
}

/// An entry is listed when it is not a directory and its extension is an audio one.
pub open spec fn is_listed(entry: DirEntryInfo) -> bool {
    &&& !entry.is_dir
    &&& entry.extension matches Some(ext)
    &&& is_audio_extension(ext@)
}

/// The paths of the listed entries, in the order the entries come.
pub open spec fn listed_paths(entries: Seq<DirEntryInfo>) -> Seq<Seq<char>>
    decreases entries.len(),
{
    if entries.len() == 0 {
        Seq::empty()
    } else {
        let earlier = listed_paths(entries.drop_last());
        if is_listed(entries.last()) {
            earlier.push(entries.last().path@)
        } else {
            earlier
        }
    }
}

/// Law: the listing holds exactly the paths of the entries that are audio files and
/// not directories; a path is reported once per such entry, and no other is.
pub proof fn lemma_listing_is_exactly_the_audio_files(entries: Seq<DirEntryInfo>)
    ensures
        listed_paths(entries).len() <= entries.len(),
        forall|p: Seq<char>|
            listed_paths(entries).contains(p) <==> exists|i: int|
                0 <= i < entries.len() && is_listed(#[trigger] entries[i]) && entries[i].path@ == p,
    decreases entries.len(),
{
    if entries.len() > 0 {
        let earlier = entries.drop_last();
        lemma_listing_is_exactly_the_audio_files(earlier);
        assert forall|p: Seq<char>|
            listed_paths(entries).contains(p) <==> exists|i: int|
                0 <= i < entries.len() && is_listed(#[trigger] entries[i]) && entries[i].path@
                    == p by {
            if listed_paths(entries).contains(p) {
                if listed_paths(earlier).contains(p) {
                    let i = choose|i: int|
                        0 <= i < earlier.len() && is_listed(#[trigger] earlier[i]) && earlier[i].path@
                            == p;
                    assert(entries[i] == earlier[i]);
                } else {
                    let k = choose|k: int| 0 <= k < listed_paths(entries).len() && listed_paths(entries)[k] == p;
                    assert(is_listed(entries.last()));
                    assert(entries[entries.len() - 1] == entries.last());
                }
            }
            if exists|i: int|
                0 <= i < entries.len() && is_listed(#[trigger] entries[i]) && entries[i].path@ == p {
                let i = choose|i: int|
                    0 <= i < entries.len() && is_listed(#[trigger] entries[i]) && entries[i].path@ == p;
                if i < entries.len() - 1 {
                    assert(earlier[i] == entries[i]);
                    assert(listed_paths(earlier).contains(p));
                    let k = choose|k: int| 0 <= k < listed_paths(earlier).len() && listed_paths(earlier)[k] == p;
                    assert(listed_paths(entries)[k] == p);
                } else {
                    assert(listed_paths(entries).last() == p);
                    assert(listed_paths(entries)[listed_paths(entries).len() - 1] == p);
                }
            }
        }
    }
}

/// Law: an entry's path is listed exactly when the entry is not a directory and its
/// extension is one of the texts `flac`, `ogg`, `mp3`, `aac`; any other extension
/// (`jpg`, say), or none, keeps it out.
pub proof fn lemma_listing_keeps_only_the_four_audio_extensions(entries: Seq<DirEntryInfo>)
    ensures
        forall|p: Seq<char>|
            listed_paths(entries).contains(p) <==> exists|i: int|
                0 <= i < entries.len() && !(#[trigger] entries[i]).is_dir && entries[i].path@ == p
                    && (entries[i].extension matches Some(x) && (x@ == "flac"@ || x@ == "ogg"@
                    || x@ == "mp3"@ || x@ == "aac"@)),
{
    lemma_listing_is_exactly_the_audio_files(entries);
    assert forall|p: Seq<char>|
        listed_paths(entries).contains(p) <==> exists|i: int|
            0 <= i < entries.len() && !(#[trigger] entries[i]).is_dir && entries[i].path@ == p
                && (entries[i].extension matches Some(x) && (x@ == "flac"@ || x@ == "ogg"@
                || x@ == "mp3"@ || x@ == "aac"@)) by {
        if listed_paths(entries).contains(p) {
            let i = choose|i: int|
                0 <= i < entries.len() && is_listed(#[trigger] entries[i]) && entries[i].path@ == p;
            assert(!entries[i].is_dir);
        }
        if exists|i: int|
            0 <= i < entries.len() && !(#[trigger] entries[i]).is_dir && entries[i].path@ == p
                && (entries[i].extension matches Some(x) && (x@ == "flac"@ || x@ == "ogg"@
                || x@ == "mp3"@ || x@ == "aac"@)) {
            let i = choose|i: int|
                0 <= i < entries.len() && !(#[trigger] entries[i]).is_dir && entries[i].path@ == p
                    && (entries[i].extension matches Some(x) && (x@ == "flac"@ || x@ == "ogg"@
                    || x@ == "mp3"@ || x@ == "aac"@));
            assert(is_listed(entries[i]));
        }
    }
}

/// Law: an entry whose extension is `jpg` is never listed, whatever else it is.
pub proof fn lemma_image_is_not_listed(entry: DirEntryInfo)
    requires
        entry.extension matches Some(x) && x@ == "jpg"@,
    ensures
        !is_listed(entry),
        listed_paths(seq![entry]) == Seq::<Seq<char>>::empty(),
{
    reveal_strlit("jpg");
    reveal_strlit("flac");
    reveal_strlit("ogg");
    reveal_strlit("mp3");
    reveal_strlit("aac");
    let x = entry.extension.unwrap();
    assert(x@[0] == 'j');
    assert(x@ != "flac"@ && x@ != "ogg"@ && x@ != "mp3"@ && x@ != "aac"@);
    assert(seq![entry].drop_last() =~= Seq::<DirEntryInfo>::empty());
    assert(seq![entry].last() == entry);
    assert(listed_paths(Seq::<DirEntryInfo>::empty()) == Seq::<Seq<char>>::empty());
}

/// Whether two texts are the same.
fn text_eq(a: &str, b: &str) -> (r: bool)
    ensures
        r == (a@ == b@),
{
    let x = a.as_bytes();
    let y = b.as_bytes();
    proof {
        encode_utf8_decode_utf8(a@);
        encode_utf8_decode_utf8(b@);
    }
    if x.len() != y.len() {
        return false;
    }
    let mut i: usize = 0;
    while i < x.len()
        invariant
            x@ == a.spec_bytes(),
            y@ == b.spec_bytes(),
            x@.len() == y@.len(),
            i <= x@.len(),
            forall|j: int| 0 <= j < i ==> x@[j] == y@[j],
        decreases x@.len() - i,
    {
        if x[i] != y[i] {
            return false;
        }
        i = i + 1;
    }
    proof {
        assert(x@ =~= y@);
    }
    true
}

/// Whether a file extension is one of the audio extensions that are listed.
pub fn is_audio_file_extension(ext: &str) -> (r: bool)
    ensures
        r == is_audio_extension(ext@),
        r == (ext@ == "flac"@ || ext@ == "ogg"@ || ext@ == "mp3"@ || ext@ == "aac"@),
{
    text_eq(ext, "flac") || text_eq(ext, "ogg") || text_eq(ext, "mp3") || text_eq(ext, "aac")
}

/// The answer of the listing route, given the entries of the download directory, or
/// `None` when the directory could not be read: a pretty-printed JSON object whose
/// `files` member lists the paths of the audio files in the order the entries come,
/// or the error body saying that the directory could not be read.
pub fn downloads_list(entries: Option<Vec<DirEntryInfo>>) -> (r: String)
    ensures
        entries is None ==> r@ == unreadable_dir_body(),
        entries matches Some(es) ==> r@ == pretty_json_object_of_list(
            "files"@,
            listed_paths(es@),
        ),
{
    match entries {
        None => error_json("Could not read directory"),
        Some(es) => {
            let files = listed_files(&es);
            list_to_pretty_json_object("files", &files).unwrap()
        },
    }
}

/// The paths of the listed entries among `entries`, in order: the entries that are
/// not directories and whose extension is an audio one. An entry without an
/// extension is not listed.
pub fn listed_files(entries: &Vec<DirEntryInfo>) -> (r: Vec<String>)
    ensures
        r@.map_values(|p: String| p@) == listed_paths(entries@),
{
    let mut files: Vec<String> = Vec::new();
    let mut i: usize = 0;
    while i < entries.len()
        invariant
            i <= entries@.len(),
            files@.map_values(|p: String| p@) == listed_paths(entries@.take(i as int)),
        decreases entries@.len() - i,
    {
        let entry = &entries[i];
        proof {
            assert(entries@.take(i + 1).drop_last() =~= entries@.take(i as int));
            assert(entries@.take(i + 1).last() == entries@[i as int]);
        }
        let listed = match &entry.extension {
            Some(ext) => !entry.is_dir && is_audio_file_extension(ext.as_str()),
            None => false,
        };
        if listed {
            let ghost before = files@;
            files.push(entry.path.clone());
            proof {
                assert(files@.map_values(|p: String| p@) =~= before.map_values(|p: String| p@).push(
                    entry.path@,
                ));
            }
        }
        i = i + 1;
    }
    proof {
        assert(entries@.take(entries@.len() as int) =~= entries@);
    }
    files
}

} // verus!
