//! What reading a script directory gave, as plain values.
//!
//! The search never touches the filesystem itself: the caller reads a
//! directory and hands over a [`DirListing`], which records everything the
//! search looks at, failures included.

use vstd::prelude::*;

verus! {

/// Why an I/O operation failed, as far as the search cares.
#[derive(Clone, Copy, Debug, PartialEq, Eq, Structural)]
pub enum FailureKind {
    /// The file or directory does not exist.
    NotFound,
    /// Anything else: permissions, a broken device, ...
    Other,
}

/// A failed I/O operation: its kind and the text that describes it.
#[derive(Debug, PartialEq, Eq)]
pub struct IoFailure {
    /// What went wrong.
    pub kind: FailureKind,
    /// Human-readable cause.
    pub message: String,
}

/// Mathematical model of an [`IoFailure`].
pub struct FailureModel {
    pub kind: FailureKind,
    pub message: Seq<char>,
}

impl DeepView for IoFailure {
    type V = FailureModel;

    open spec fn deep_view(&self) -> FailureModel {
        FailureModel { kind: self.kind, message: self.message@ }
    }
}

impl Clone for IoFailure {
    fn clone(&self) -> (copy: Self)
        ensures
            copy == *self,
    {
        IoFailure { kind: self.kind, message: self.message.clone() }
    }
}

impl IoFailure {
    /// Whether the operation failed because the file or directory does not
    /// exist.
    pub fn is_not_found(&self) -> (r: bool)
        ensures
            r == (self.kind == FailureKind::NotFound),
    {
        match self.kind {
            FailureKind::NotFound => true,
            FailureKind::Other => false,
        }
    }
}

/// One entry of a directory whose type could be determined.
#[derive(Debug, PartialEq, Eq)]
pub struct DirEntry {
    /// Bare file name of the entry.
    pub name: String,
    /// Full path of the entry: the directory joined with the name.
    pub path: String,
    /// Whether the filesystem reports the entry as a regular file.
    pub is_file: bool,
}

/// Mathematical model of a [`DirEntry`].
pub struct EntryModel {
    pub name: Seq<char>,
    pub path: Seq<char>,
    pub is_file: bool,
}

impl DeepView for DirEntry {
    type V = EntryModel;

    open spec fn deep_view(&self) -> EntryModel {
        EntryModel { name: self.name@, path: self.path@, is_file: self.is_file }
    }
}

/// One step of iterating over a directory.
#[derive(Debug, PartialEq, Eq)]
pub enum DirItem {
    /// An entry was read and its type determined.
    Entry(DirEntry),
    /// Reading the entry, or determining its type, failed.
    Broken(IoFailure),
}

/// Mathematical model of a [`DirItem`].
pub enum ItemModel {
    Entry(EntryModel),
    Broken(FailureModel),
}

impl DeepView for DirItem {
    type V = ItemModel;

    open spec fn deep_view(&self) -> ItemModel {
        match self {
            DirItem::Entry(entry) => ItemModel::Entry(entry.deep_view()),
            DirItem::Broken(failure) => ItemModel::Broken(failure.deep_view()),
        }
    }
}

/// The outcome of listing the immediate entries of one directory, in the
/// order the filesystem produced them.
#[derive(Debug, PartialEq, Eq)]
pub enum DirListing {
    /// The directory could not be opened at all.
    Unreadable(IoFailure),
    /// The directory was opened; one item per entry it yielded.
    Items(Vec<DirItem>),
}

/// Mathematical model of a [`DirListing`].
pub enum ListingModel {
    Unreadable(FailureModel),
    Items(Seq<ItemModel>),
}

impl DeepView for DirListing {
    type V = ListingModel;

    open spec fn deep_view(&self) -> ListingModel {
        match self {
            DirListing::Unreadable(failure) => ListingModel::Unreadable(failure.deep_view()),
            DirListing::Items(items) => ListingModel::Items(items.deep_view()),
        }
    }
}

} // verus!
