//! Texts and files as they are shown to users: each comes in variants, one
//! per language or format, told apart by their attributes.

use vstd::prelude::*;

verus! {

/// One trait by which a variant is chosen, such as its language.
#[derive(Clone, Debug)]
pub struct VariantAttribute {
    pub key: String,
    pub value: String,
}

/// One wording of a text.
#[derive(Clone, Debug)]
pub struct TextVariant {
    pub attributes: Vec<VariantAttribute>,
    pub value: String,
}

/// A text: its wordings.
pub type Text = Vec<TextVariant>;

/// The name under which a file is offered.
#[derive(Clone, Debug)]
pub struct FileName(pub String);

/// The media type of a file, such as `text/html`.
#[derive(Clone, Debug)]
pub struct MediaType(pub String);

/// The bytes of a file.
#[derive(Clone, Debug)]
pub struct FileContent(pub Vec<u8>);

/// One rendition of a file.
#[derive(Clone, Debug)]
pub struct FileVariant {
    pub attributes: Vec<VariantAttribute>,
    pub name: Option<FileName>,
    pub media_type: Option<MediaType>,
    pub content: FileContent,
}

/// A file: its renditions.
pub type File = Vec<FileVariant>;

} // verus!
