//! Contest material: the title and the home page of the contest, picked
//! from the entries of the directory that the contest's archive unpacks to.
//!
//! An entry is told by its file name, split at its last dot into stem and
//! extension as `std::path` splits it: a name without a dot, or whose only
//! dot is its first character, has no extension, and neither has `..`.

use crate::content::File;
use crate::content::FileContent;
use crate::content::FileName;
use crate::content::FileVariant;
use crate::content::MediaType;
use crate::content::Text;
use crate::content::TextVariant;
use crate::encoding::same_text;
use crate::encoding::text_of;
use vstd::prelude::*;
use vstd::utf8::decode_utf8;
use vstd::utf8::valid_utf8;

verus! {

/// One entry of a directory, as it was read.
#[derive(Debug)]
pub struct DirectoryEntry {
    pub file_name: String,
    pub is_dir: bool,
    /// The bytes of the file; empty for a directory.
    pub content: Vec<u8>,
}

/// What a contest shows of itself.
#[derive(Debug)]
pub struct ContestMaterial {
    pub title: Text,
    pub description: File,
    pub resources: Vec<File>,
    pub attachments: Vec<File>,
}

/// The material could not be put together.
#[derive(Clone, Copy, Debug, PartialEq, Eq, Structural)]
pub enum MaterialError {
    /// A title file does not hold UTF-8 text.
    TitleNotText,
}

/// The place of the last dot in `name`, or -1 if it has none.
pub open spec fn last_dot(name: Seq<char>) -> int
    decreases name.len(),
{
    if name.len() == 0 {
        -1
    } else if name.last() == '.' {
        name.len() - 1
    } else {
        last_dot(name.drop_last())
    }
}

/// The place of the dot that parts stem and extension, if `name` has an
/// extension.
pub open spec fn extension_dot(name: Seq<char>) -> Option<int> {
    if name == seq!['.', '.'] || last_dot(name) <= 0 {
        None
    } else {
        Some(last_dot(name))
    }
}

/// The file name without its extension.
pub open spec fn stem_of(name: Seq<char>) -> Seq<char> {
    match extension_dot(name) {
        Some(dot) => name.subrange(0, dot),
        None => name,
    }
}

/// The extension of the file name, without the dot, if it has one.
pub open spec fn extension_of(name: Seq<char>) -> Option<Seq<char>> {
    match extension_dot(name) {
        Some(dot) => Some(name.subrange(dot + 1, name.len() as int)),
        None => None,
    }
}

/// The last dot is where a dot stands with none after it.
proof fn lemma_last_dot(name: Seq<char>, dot: int)
    requires
        -1 <= dot < name.len(),
        dot >= 0 ==> name[dot] == '.',
        forall|k: int| dot < k < name.len() ==> name[k] != '.',
    ensures
        last_dot(name) == dot,
    decreases name.len(),
{
    if name.len() > 0 && dot < name.len() - 1 {
        assert(name[name.len() - 1] != '.');
        lemma_last_dot(name.drop_last(), dot);
    }
}

/// Splits a file name into its stem and its extension.
pub fn split_file_name(name: &str) -> (parts: (String, Option<String>))
    ensures
        parts.0@ == stem_of(name@),
        parts.1 is Some <==> extension_of(name@) is Some,
        parts.1 matches Some(extension) ==> extension@ == extension_of(name@)->Some_0,
{
    let length = name.unicode_len();
    let mut after: usize = length;
    while after > 0 && name.get_char(after - 1) != '.'
        invariant
            after <= length,
            length == name@.len(),
            forall|k: int| after <= k < length ==> name@[k] != '.',
        decreases after,
    {
        after -= 1;
    }
    proof {
        lemma_last_dot(name@, after - 1);
        reveal_strlit("..");
        assert(".."@ =~= seq!['.', '.']);
    }
    if after <= 1 || same_text(name, "..") {
        (name.to_owned(), None)
    } else {
        let stem = name.substring_char(0, after - 1);
        let extension = name.substring_char(after, length);
        (stem.to_owned(), Some(extension.to_owned()))
    }
}

/// Whether `entry` holds a title of the contest: a file `title.txt`.
pub open spec fn is_title(entry: DirectoryEntry) -> bool {
    !entry.is_dir && stem_of(entry.file_name@) == "title"@ && extension_of(entry.file_name@) == Some("txt"@)
}

/// Whether `entry` holds a home page of the contest: a file `home` with an
/// extension, whatever it is.
pub open spec fn is_home(entry: DirectoryEntry) -> bool {
    !entry.is_dir && stem_of(entry.file_name@) == "home"@ && extension_of(entry.file_name@) is Some
}

/// The media type that goes with `extension`, for those that have one.
pub open spec fn media_type_of(extension: Seq<char>) -> Option<Seq<char>> {
    if extension == "pdf"@ {
        Some("application/pdf"@)
    } else if extension == "md"@ {
        Some("text/markdown"@)
    } else if extension == "html"@ {
        Some("text/html"@)
    } else {
        None
    }
}

/// The title files among `entries`, in order.
pub open spec fn titles_among(entries: Seq<DirectoryEntry>) -> Seq<DirectoryEntry> {
    entries.filter(|entry: DirectoryEntry| is_title(entry))
}

/// The home pages among `entries`, in order.
pub open spec fn homes_among(entries: Seq<DirectoryEntry>) -> Seq<DirectoryEntry> {
    entries.filter(|entry: DirectoryEntry| is_home(entry))
}

/// Whether `variant` is the wording that the title file `entry` holds.
pub open spec fn is_wording_of(variant: TextVariant, entry: DirectoryEntry) -> bool {
    variant.attributes@.len() == 0 && variant.value@ == decode_utf8(entry.content@)
}

/// Whether `variant` is the rendition that the home page `entry` holds.
pub open spec fn is_rendition_of(variant: FileVariant, entry: DirectoryEntry) -> bool {
    &&& variant.attributes@.len() == 0
    &&& variant.name matches Some(name) && name.0@ == entry.file_name@
    &&& variant.content.0@ == entry.content@
    &&& match media_type_of(extension_of(entry.file_name@)->Some_0) {
        Some(media_type) => variant.media_type matches Some(given) && given.0@ == media_type,
        None => variant.media_type is None,
    }
}

/// Whether `title` holds the wordings of `titles`, one for one and in
/// order.
pub open spec fn is_title_of(title: Seq<TextVariant>, titles: Seq<DirectoryEntry>) -> bool {
    title.len() == titles.len() && forall|i: int|
        0 <= i < title.len() ==> is_wording_of(#[trigger] title[i], titles[i])
}

/// Whether `description` holds the renditions of `homes`, one for one and
/// in order.
pub open spec fn is_description_of(description: Seq<FileVariant>, homes: Seq<DirectoryEntry>) -> bool {
    description.len() == homes.len() && forall|i: int|
        0 <= i < description.len() ==> is_rendition_of(#[trigger] description[i], homes[i])
}

/// Whether each of `titles` holds UTF-8 text.
pub open spec fn all_text(titles: Seq<DirectoryEntry>) -> bool {
    forall|i: int| 0 <= i < titles.len() ==> valid_utf8((#[trigger] titles[i]).content@)
}

/// Picks the media type that goes with `extension`.
pub fn media_type(extension: &str) -> (media_type: Option<MediaType>)
    ensures
        media_type is Some <==> media_type_of(extension@) is Some,
        media_type matches Some(given) ==> given.0@ == media_type_of(extension@)->Some_0,
{
    if same_text(extension, "pdf") {
        Some(MediaType("application/pdf".to_owned()))
    } else if same_text(extension, "md") {
        Some(MediaType("text/markdown".to_owned()))
    } else if same_text(extension, "html") {
        Some(MediaType("text/html".to_owned()))
    } else {
        None
    }
}

/// Puts the material of a contest together from the entries of its
/// directory. Each file `title.txt` gives a wording of the title, each
/// file `home` with an extension a rendition of the description, with the
/// media type that goes with the extension; directories and all other
/// files are passed over. Fails when a title file does not hold UTF-8
/// text.
pub fn contest_material(entries: &Vec<DirectoryEntry>) -> (material: Result<ContestMaterial, MaterialError>)
    ensures
        material is Ok <==> all_text(titles_among(entries@)),
        material matches Ok(found) ==> {
            &&& is_title_of(found.title@, titles_among(entries@))
            &&& is_description_of(found.description@, homes_among(entries@))
            &&& found.resources@.len() == 0
            &&& found.attachments@.len() == 0
        },
        material matches Err(error) ==> error == MaterialError::TitleNotText,
{
    let mut title: Vec<TextVariant> = Vec::new();
    let mut description: Vec<FileVariant> = Vec::new();
    let mut i: usize = 0;
    while i < entries.len()
        invariant
            i <= entries.len(),
            all_text(titles_among(entries@.take(i as int))),
            is_title_of(title@, titles_among(entries@.take(i as int))),
            is_description_of(description@, homes_among(entries@.take(i as int))),
        decreases entries.len() - i,
    {
        let entry = &entries[i];
        let ghost before = entries@.take(i as int);
        proof {
            reveal(Seq::filter);
            assert(entries@.take(i + 1).drop_last() =~= before);
            assert(entries@.take(i + 1).last() == *entry);
        }
        if !entry.is_dir {
            let (stem, extension) = split_file_name(entry.file_name.as_str());
            match extension {
                Some(extension) => {
                    if same_text(stem.as_str(), "title") && same_text(extension.as_str(), "txt") {
                        match text_of(&entry.content) {
                            Some(value) => {
                                title.push(TextVariant { attributes: Vec::new(), value });
                            },
                            None => {
                                proof {
                                    let titles = titles_among(entries@.take(i + 1));
                                    assert(titles.last() == *entry);
                                    lemma_titles_grow(entries@, i + 1);
                                    let all = titles_among(entries@);
                                    assert(all[titles.len() - 1] == *entry);
                                }
                                return Err(MaterialError::TitleNotText);
                            },
                        }
                    } else if same_text(stem.as_str(), "home") {
                        let variant = FileVariant {
                            attributes: Vec::new(),
                            name: Some(FileName(entry.file_name.clone())),
                            media_type: media_type(extension.as_str()),
                            content: FileContent(entry.content.clone()),
                        };
                        description.push(variant);
                    }
                },
                None => {},
            }
        }
        proof {
            reveal_strlit("title");
            reveal_strlit("home");
            assert("title"@.len() == 5 && "home"@.len() == 4);
        }
        i += 1;
    }
    assert(entries@.take(i as int) =~= entries@);
    Ok(ContestMaterial { title, description, resources: Vec::new(), attachments: Vec::new() })
}

/// The title files among the first `n` entries are the first title files
/// among all of them.
proof fn lemma_titles_grow(entries: Seq<DirectoryEntry>, n: int)
    requires
        0 <= n <= entries.len(),
    ensures
        titles_among(entries.take(n)).len() <= titles_among(entries).len(),
        forall|k: int|
            0 <= k < titles_among(entries.take(n)).len() ==> titles_among(entries.take(n))[k] == titles_among(
                entries,
            )[k],
    decreases entries.len() - n,
{
    reveal(Seq::filter);
    if n == entries.len() {
        assert(entries.take(n) =~= entries);
    } else {
        lemma_titles_grow(entries, n + 1);
        assert(entries.take(n + 1).drop_last() =~= entries.take(n));
    }
}

} // verus!
