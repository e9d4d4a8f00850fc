//! Filesystem change events shared by the watcher, the detail inspector and the hooks.

use vstd::prelude::*;

use crate::config::schema::opt_view;
use crate::diff::preview::strings_view;

verus! {

/// Kind of a filesystem change.
#[derive(Clone, Copy, Debug, PartialEq, Eq, Structural)]
pub enum ChangeKind {
    /// A path was created.
    Created,
    /// A path was modified.
    Modified,
    /// A path was deleted.
    Deleted,
    /// A path was renamed.
    Renamed,
}

/// Type-aware detail attached to a change.
#[derive(Clone, Debug, PartialEq, Eq)]
pub enum ChangeDetail {
    /// A text change with its first location and a diff preview.
    Text {
        /// First changed location, such as `line 3`.
        location: Option<String>,
        /// Preview rows of the diff.
        preview: Vec<String>,
        /// Whether the preview was cut short.
        truncated: bool,
    },
    /// A binary change.
    Binary {
        /// Size before the change, when known.
        previous_size: Option<u64>,
        /// Size after the change, when known.
        current_size: Option<u64>,
        /// Whether the content hash changed.
        hash_changed: bool,
    },
    /// A media file change.
    Media {
        /// Media kind name.
        kind: String,
        /// MIME type.
        mime_type: String,
        /// File size in bytes.
        size_bytes: u64,
        /// Display lines of the media metadata.
        metadata: Vec<String>,
    },
    /// The path was deleted.
    Deleted,
}

/// A filesystem change.
#[derive(Clone, Debug, PartialEq, Eq)]
pub struct FileChange {
    /// Changed path.
    pub path: String,
    /// Path before a rename.
    pub previous_path: Option<String>,
    /// Kind of change.
    pub kind: ChangeKind,
    /// Whether the path is a directory.
    pub is_directory: bool,
    /// Type-aware detail, when inspected.
    pub detail: Option<ChangeDetail>,
}

pub enum ChangeDetailView {
    Text { location: Option<Seq<char>>, preview: Seq<Seq<char>>, truncated: bool },
    Binary { previous_size: Option<u64>, current_size: Option<u64>, hash_changed: bool },
    Media { kind: Seq<char>, mime_type: Seq<char>, size_bytes: u64, metadata: Seq<Seq<char>> },
    Deleted,
}

pub struct FileChangeView {
    pub path: Seq<char>,
    pub previous_path: Option<Seq<char>>,
    pub kind: ChangeKind,
    pub is_directory: bool,
    pub detail: Option<ChangeDetailView>,
}

impl View for ChangeDetail {
    type V = ChangeDetailView;

    open spec fn view(&self) -> ChangeDetailView {
        match self {
            ChangeDetail::Text { location, preview, truncated } => ChangeDetailView::Text {
                location: opt_view(*location),
                preview: strings_view(preview@),
                truncated: *truncated,
            },
            ChangeDetail::Binary { previous_size, current_size, hash_changed } => ChangeDetailView::Binary {
                previous_size: *previous_size,
                current_size: *current_size,
                hash_changed: *hash_changed,
            },
            ChangeDetail::Media { kind, mime_type, size_bytes, metadata } => ChangeDetailView::Media {
                kind: kind@,
                mime_type: mime_type@,
                size_bytes: *size_bytes,
                metadata: strings_view(metadata@),
            },
            ChangeDetail::Deleted => ChangeDetailView::Deleted,
        }
    }
}

/// The view of an optional detail.
pub open spec fn detail_view(d: Option<ChangeDetail>) -> Option<ChangeDetailView> {
    match d {
        Some(x) => Some(x@),
        None => None,
    }
}

impl View for FileChange {
    type V = FileChangeView;

    open spec fn view(&self) -> FileChangeView {
        FileChangeView {
            path: self.path@,
            previous_path: opt_view(self.previous_path),
            kind: self.kind,
            is_directory: self.is_directory,
            detail: detail_view(self.detail),
        }
    }
}

} // verus!
