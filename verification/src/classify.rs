use vstd::prelude::*;
use crate::paths::{has_document_extension, is_document_path};

verus! {

/// The kinds of filesystem notification this library distinguishes.
#[derive(Clone, Copy, Debug, PartialEq, Eq, Structural)]
pub enum EventCategory {
    Created,
    Modified,
    Removed,
    Other,
}

/// A path carried by a notification, together with whether it named an
/// existing regular file at the moment the caller checked.
#[derive(Debug)]
pub struct PathInfo {
    pub path: Vec<u8>,
    pub is_regular_file: bool,
}

/// Whether an event should trigger an export: the event must create or
/// modify the path, the path must be an existing regular file, and its
/// extension must equal the source-document extension.
pub open spec fn accept_spec(kind: EventCategory, is_regular_file: bool, path: Seq<u8>) -> bool {
    &&& (kind == EventCategory::Created || kind == EventCategory::Modified)
    &&& is_regular_file
    &&& is_document_path(path)
}

/// The path classifier: decides whether a notification for `path`
/// should trigger an export.  `is_regular_file` is the caller's check,
/// made at the moment of the call, that the path names an existing
/// regular file (directories and vanished paths are rejected); the
/// result may change between calls when the filesystem changes.
pub fn accept(kind: EventCategory, is_regular_file: bool, path: &Vec<u8>) -> (r: bool)
    ensures
        r == accept_spec(kind, is_regular_file, path@),
{
    match kind {
        EventCategory::Created | EventCategory::Modified => is_regular_file
            && has_document_extension(path),
        _ => false,
    }
}

/// Classifier correctness: every event kind other than created or
/// modified is rejected; a path that is not an existing regular file is
/// rejected; a path whose extension is not the document extension is
/// rejected; everything else is accepted.
pub proof fn lemma_classifier_correct(kind: EventCategory, is_regular_file: bool, path: Seq<u8>)
    ensures
        kind != EventCategory::Created && kind != EventCategory::Modified ==> !accept_spec(
            kind,
            is_regular_file,
            path,
        ),
        !is_regular_file ==> !accept_spec(kind, is_regular_file, path),
        !is_document_path(path) ==> !accept_spec(kind, is_regular_file, path),
        (kind == EventCategory::Created || kind == EventCategory::Modified) && is_regular_file
            && is_document_path(path) ==> accept_spec(kind, is_regular_file, path),
{
}

} // verus!
