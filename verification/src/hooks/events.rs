//! Event types available to rule-based event hooks.

use vstd::prelude::*;

use crate::shared::{ChangeDetail, ChangeDetailView, ChangeKind, FileChange, FileChangeView};
use crate::text::eq_str;

verus! {

/// Event types available to rule-based event hooks.
#[derive(Clone, Copy, Debug, PartialEq, Eq, Hash, Structural)]
pub enum EventType {
    /// File created.
    FileCreated,
    /// File modified.
    FileModified,
    /// File deleted.
    FileDeleted,
    /// File renamed.
    FileRenamed,
    /// Folder created.
    FolderCreated,
    /// Folder deleted.
    FolderDeleted,
    /// Folder renamed.
    FolderRenamed,
    /// File metadata changed.
    MetadataChanged,
    /// File content changed.
    ContentChanged,
    /// File permission changed.
    PermissionChanged,
}

/// The config/env name of an event type.
pub open spec fn event_name(e: EventType) -> Seq<char> {
    match e {
        EventType::FileCreated => "file_created"@,
        EventType::FileModified => "file_modified"@,
        EventType::FileDeleted => "file_deleted"@,
        EventType::FileRenamed => "file_renamed"@,
        EventType::FolderCreated => "folder_created"@,
        EventType::FolderDeleted => "folder_deleted"@,
        EventType::FolderRenamed => "folder_renamed"@,
        EventType::MetadataChanged => "metadata_changed"@,
        EventType::ContentChanged => "content_changed"@,
        EventType::PermissionChanged => "permission_changed"@,
    }
}

/// The event type with the given name, if there is one.
pub open spec fn event_of_name(s: Seq<char>) -> Option<EventType> {
    if s == "file_created"@ {
        Some(EventType::FileCreated)
    } else if s == "file_modified"@ {
        Some(EventType::FileModified)
    } else if s == "file_deleted"@ {
        Some(EventType::FileDeleted)
    } else if s == "file_renamed"@ {
        Some(EventType::FileRenamed)
    } else if s == "folder_created"@ {
        Some(EventType::FolderCreated)
    } else if s == "folder_deleted"@ {
        Some(EventType::FolderDeleted)
    } else if s == "folder_renamed"@ {
        Some(EventType::FolderRenamed)
    } else if s == "metadata_changed"@ {
        Some(EventType::MetadataChanged)
    } else if s == "content_changed"@ {
        Some(EventType::ContentChanged)
    } else if s == "permission_changed"@ {
        Some(EventType::PermissionChanged)
    } else {
        None
    }
}

/// The primary event type of a change: by its kind, and whether the path is a directory.
pub open spec fn primary_event(kind: ChangeKind, is_directory: bool) -> EventType {
    match kind {
        ChangeKind::Created => if is_directory { EventType::FolderCreated } else { EventType::FileCreated },
        ChangeKind::Modified => if is_directory { EventType::MetadataChanged } else { EventType::FileModified },
        ChangeKind::Deleted => if is_directory { EventType::FolderDeleted } else { EventType::FileDeleted },
        ChangeKind::Renamed => if is_directory { EventType::FolderRenamed } else { EventType::FileRenamed },
    }
}

/// Every event type a change answers to: the primary one, and for a modified file also
/// `content_changed` when it has a text detail, or `metadata_changed` when it has another.
pub open spec fn matching_events(c: FileChangeView) -> Seq<EventType> {
    let primary = seq![primary_event(c.kind, c.is_directory)];
    if c.kind == ChangeKind::Modified && !c.is_directory {
        match c.detail {
            Some(ChangeDetailView::Text { .. }) => primary.push(EventType::ContentChanged),
            Some(_) => primary.push(EventType::MetadataChanged),
            None => primary,
        }
    } else {
        primary
    }
}

impl EventType {
    /// Returns the config/env string for the event type.
    pub fn as_str(self) -> (s: &'static str)
        ensures
            s@ == event_name(self),
    {
        match self {
            EventType::FileCreated => "file_created",
            EventType::FileModified => "file_modified",
            EventType::FileDeleted => "file_deleted",
            EventType::FileRenamed => "file_renamed",
            EventType::FolderCreated => "folder_created",
            EventType::FolderDeleted => "folder_deleted",
            EventType::FolderRenamed => "folder_renamed",
            EventType::MetadataChanged => "metadata_changed",
            EventType::ContentChanged => "content_changed",
            EventType::PermissionChanged => "permission_changed",
        }
    }

    /// Parses an event type string.
    pub fn parse(value: &str) -> (r: Option<EventType>)
        ensures
            r == event_of_name(value@),
    {
        if eq_str(value, "file_created") {
            Some(EventType::FileCreated)
        } else if eq_str(value, "file_modified") {
            Some(EventType::FileModified)
        } else if eq_str(value, "file_deleted") {
            Some(EventType::FileDeleted)
        } else if eq_str(value, "file_renamed") {
            Some(EventType::FileRenamed)
        } else if eq_str(value, "folder_created") {
            Some(EventType::FolderCreated)
        } else if eq_str(value, "folder_deleted") {
            Some(EventType::FolderDeleted)
        } else if eq_str(value, "folder_renamed") {
            Some(EventType::FolderRenamed)
        } else if eq_str(value, "metadata_changed") {
            Some(EventType::MetadataChanged)
        } else if eq_str(value, "content_changed") {
            Some(EventType::ContentChanged)
        } else if eq_str(value, "permission_changed") {
            Some(EventType::PermissionChanged)
        } else {
            None
        }
    }

    /// Infers the primary event type for a filesystem change.
    pub fn from_change(change: &FileChange) -> (e: EventType)
        ensures
            e == primary_event(change.kind, change.is_directory),
    {
        match change.kind {
            ChangeKind::Created => if change.is_directory { EventType::FolderCreated } else { EventType::FileCreated },
            ChangeKind::Modified => if change.is_directory { EventType::MetadataChanged } else { EventType::FileModified },
            ChangeKind::Deleted => if change.is_directory { EventType::FolderDeleted } else { EventType::FileDeleted },
            ChangeKind::Renamed => if change.is_directory { EventType::FolderRenamed } else { EventType::FileRenamed },
        }
    }

    /// Returns all event types that should match hook rules for a change.
    pub fn matching_types(change: &FileChange) -> (events: Vec<EventType>)
        ensures
            events@ == matching_events(change@),
    {
        let mut events: Vec<EventType> = Vec::new();
        events.push(EventType::from_change(change));
        if change.kind == ChangeKind::Modified && !change.is_directory {
            match &change.detail {
                Some(ChangeDetail::Text { .. }) => events.push(EventType::ContentChanged),
                Some(_) => events.push(EventType::MetadataChanged),
                None => {},
            }
        }
        assert(events@ =~= matching_events(change@));
        events
    }
}

/// Every event type's name parses back to that event type.
pub proof fn law_event_name_round_trip(e: EventType)
    ensures
        event_of_name(event_name(e)) == Some(e),
{
    match e {
        EventType::FileCreated => {
            reveal_strlit("file_created");
        },
        EventType::FileModified => {
            reveal_strlit("file_modified");
            reveal_strlit("file_created");
            assert("file_modified"@.len() != "file_created"@.len());
        },
        EventType::FileDeleted => {
            reveal_strlit("file_deleted");
            reveal_strlit("file_created");
            assert("file_deleted"@[5] != "file_created"@[5]);
            reveal_strlit("file_modified");
            assert("file_deleted"@.len() != "file_modified"@.len());
        },
        EventType::FileRenamed => {
            reveal_strlit("file_renamed");
            reveal_strlit("file_created");
            assert("file_renamed"@[5] != "file_created"@[5]);
            reveal_strlit("file_modified");
            assert("file_renamed"@.len() != "file_modified"@.len());
            reveal_strlit("file_deleted");
            assert("file_renamed"@[5] != "file_deleted"@[5]);
        },
        EventType::FolderCreated => {
            reveal_strlit("folder_created");
            reveal_strlit("file_created");
            assert("folder_created"@.len() != "file_created"@.len());
            reveal_strlit("file_modified");
            assert("folder_created"@.len() != "file_modified"@.len());
            reveal_strlit("file_deleted");
            assert("folder_created"@.len() != "file_deleted"@.len());
            reveal_strlit("file_renamed");
            assert("folder_created"@.len() != "file_renamed"@.len());
        },
        EventType::FolderDeleted => {
            reveal_strlit("folder_deleted");
            reveal_strlit("file_created");
            assert("folder_deleted"@.len() != "file_created"@.len());
            reveal_strlit("file_modified");
            assert("folder_deleted"@.len() != "file_modified"@.len());
            reveal_strlit("file_deleted");
            assert("folder_deleted"@.len() != "file_deleted"@.len());
            reveal_strlit("file_renamed");
            assert("folder_deleted"@.len() != "file_renamed"@.len());
            reveal_strlit("folder_created");
            assert("folder_deleted"@[7] != "folder_created"@[7]);
        },
        EventType::FolderRenamed => {
            reveal_strlit("folder_renamed");
            reveal_strlit("file_created");
            assert("folder_renamed"@.len() != "file_created"@.len());
            reveal_strlit("file_modified");
            assert("folder_renamed"@.len() != "file_modified"@.len());
            reveal_strlit("file_deleted");
            assert("folder_renamed"@.len() != "file_deleted"@.len());
            reveal_strlit("file_renamed");
            assert("folder_renamed"@.len() != "file_renamed"@.len());
            reveal_strlit("folder_created");
            assert("folder_renamed"@[7] != "folder_created"@[7]);
            reveal_strlit("folder_deleted");
            assert("folder_renamed"@[7] != "folder_deleted"@[7]);
        },
        EventType::MetadataChanged => {
            reveal_strlit("metadata_changed");
            reveal_strlit("file_created");
            assert("metadata_changed"@.len() != "file_created"@.len());
            reveal_strlit("file_modified");
            assert("metadata_changed"@.len() != "file_modified"@.len());
            reveal_strlit("file_deleted");
            assert("metadata_changed"@.len() != "file_deleted"@.len());
            reveal_strlit("file_renamed");
            assert("metadata_changed"@.len() != "file_renamed"@.len());
            reveal_strlit("folder_created");
            assert("metadata_changed"@.len() != "folder_created"@.len());
            reveal_strlit("folder_deleted");
            assert("metadata_changed"@.len() != "folder_deleted"@.len());
            reveal_strlit("folder_renamed");
            assert("metadata_changed"@.len() != "folder_renamed"@.len());
        },
        EventType::ContentChanged => {
            reveal_strlit("content_changed");
            reveal_strlit("file_created");
            assert("content_changed"@.len() != "file_created"@.len());
            reveal_strlit("file_modified");
            assert("content_changed"@.len() != "file_modified"@.len());
            reveal_strlit("file_deleted");
            assert("content_changed"@.len() != "file_deleted"@.len());
            reveal_strlit("file_renamed");
            assert("content_changed"@.len() != "file_renamed"@.len());
            reveal_strlit("folder_created");
            assert("content_changed"@.len() != "folder_created"@.len());
            reveal_strlit("folder_deleted");
            assert("content_changed"@.len() != "folder_deleted"@.len());
            reveal_strlit("folder_renamed");
            assert("content_changed"@.len() != "folder_renamed"@.len());
            reveal_strlit("metadata_changed");
            assert("content_changed"@.len() != "metadata_changed"@.len());
        },
        EventType::PermissionChanged => {
            reveal_strlit("permission_changed");
            reveal_strlit("file_created");
            assert("permission_changed"@.len() != "file_created"@.len());
            reveal_strlit("file_modified");
            assert("permission_changed"@.len() != "file_modified"@.len());
            reveal_strlit("file_deleted");
            assert("permission_changed"@.len() != "file_deleted"@.len());
            reveal_strlit("file_renamed");
            assert("permission_changed"@.len() != "file_renamed"@.len());
            reveal_strlit("folder_created");
            assert("permission_changed"@.len() != "folder_created"@.len());
            reveal_strlit("folder_deleted");
            assert("permission_changed"@.len() != "folder_deleted"@.len());
            reveal_strlit("folder_renamed");
            assert("permission_changed"@.len() != "folder_renamed"@.len());
            reveal_strlit("metadata_changed");
            assert("permission_changed"@.len() != "metadata_changed"@.len());
            reveal_strlit("content_changed");
            assert("permission_changed"@.len() != "content_changed"@.len());
        },
    }
}

/// A name that parses gives back that name.
pub proof fn law_event_parse_round_trip(s: Seq<char>)
    requires
        event_of_name(s) is Some,
    ensures
        event_name(event_of_name(s)->0) == s,
{
}

/// The primary event type of a change is the first of the types it answers to.
pub proof fn law_primary_event_first(c: FileChangeView)
    ensures
        matching_events(c).len() >= 1,
        matching_events(c)[0] == primary_event(c.kind, c.is_directory),
{
}

/// A `folder_*` event type.
pub open spec fn is_folder_event(e: EventType) -> bool {
    e == EventType::FolderCreated || e == EventType::FolderDeleted || e == EventType::FolderRenamed
}

/// A `file_*` event type.
pub open spec fn is_file_event(e: EventType) -> bool {
    e == EventType::FileCreated || e == EventType::FileModified || e == EventType::FileDeleted
        || e == EventType::FileRenamed
}

/// The kind of change an event type reports.
pub open spec fn reported_kind(e: EventType) -> ChangeKind {
    match e {
        EventType::FileCreated | EventType::FolderCreated => ChangeKind::Created,
        EventType::FileDeleted | EventType::FolderDeleted => ChangeKind::Deleted,
        EventType::FileRenamed | EventType::FolderRenamed => ChangeKind::Renamed,
        _ => ChangeKind::Modified,
    }
}

/// The primary event type of a change reports the change's own kind; for a directory it is a
/// `folder_*` event (or `metadata_changed` for a modified directory) and never a `file_*`
/// event, for a file it is a `file_*` event. A directory change answers to no `file_*` event
/// at all, and a file change to no `folder_*` event.
pub proof fn law_directory_events(kind: ChangeKind, is_directory: bool, c: FileChangeView)
    ensures
        reported_kind(primary_event(kind, is_directory)) == kind,
        is_directory ==> !is_file_event(primary_event(kind, is_directory)),
        is_directory ==> (is_folder_event(primary_event(kind, is_directory)) || primary_event(kind, is_directory)
            == EventType::MetadataChanged),
        is_directory && kind == ChangeKind::Created ==> primary_event(kind, is_directory) == EventType::FolderCreated,
        !is_directory ==> is_file_event(primary_event(kind, is_directory)),
        c.is_directory ==> forall|i: int| 0 <= i < matching_events(c).len() ==> !is_file_event(#[trigger] matching_events(c)[i]),
        !c.is_directory ==> forall|i: int| 0 <= i < matching_events(c).len() ==> !is_folder_event(#[trigger] matching_events(c)[i]),
{
}

} // verus!
