//! Offline annotation: records are taken newest first, and a directory's
//! delete or old-name record puts its name back into the mapping before the
//! mapping is consulted, so each record sees the names of its own moment.

use crate::flags::{FILE_ATTRIBUTE_DIRECTORY, USN_REASON_FILE_DELETE, USN_REASON_RENAME_OLD_NAME};
use crate::mapping::{path_of, ref_key, FolderMapping};
use crate::record::UsnEntry;
use crate::reference::ROOT_ENTRY;
use vstd::prelude::*;
use vstd::string::*;

verus! {

/// A directory record whose name is to be restored when walking backwards.
pub open spec fn restores_name(attributes: u32, reason: u32) -> bool {
    attributes & FILE_ATTRIBUTE_DIRECTORY == FILE_ATTRIBUTE_DIRECTORY && (reason
        & USN_REASON_FILE_DELETE == USN_REASON_FILE_DELETE || reason & USN_REASON_RENAME_OLD_NAME
        == USN_REASON_RENAME_OLD_NAME)
}

/// Annotates one record of a newest-first walk: a directory's delete or
/// old-name record maps the directory to its name again, then the record's
/// full name is its parent's path, a `/`, and its own name.
pub fn annotate_newest_first(mapping: &mut FolderMapping, entry: &UsnEntry) -> (r: String)
    requires
        old(mapping).wf(),
        entry.record.spec_file_reference().wf(),
        entry.record.spec_parent_reference().wf(),
    ensures
        final(mapping).wf(),
        ({
            let file_ref = entry.record.spec_file_reference();
            let parent = entry.record.spec_parent_reference();
            let restored = restores_name(
                entry.record.spec_file_attributes().bits,
                entry.record.spec_reason().bits,
            ) && file_ref.entry != ROOT_ENTRY;
            let m = final(mapping).map_view();
            &&& restored ==> m.dom() == old(mapping).map_view().dom().insert(ref_key(file_ref))
                && m[ref_key(file_ref)].name@ == entry.record.spec_file_name()
                && m[ref_key(file_ref)].parent == parent
            &&& !restored ==> m == old(mapping).map_view()
            &&& forall|k: u64|
                k != ref_key(file_ref) && #[trigger] m.contains_key(k) ==> m[k] == old(
                    mapping,
                ).map_view()[k]
            &&& r@ == path_of(m, parent) + seq!['/'] + entry.record.spec_file_name()
        }),
{
    let attributes = entry.record.get_file_attributes();
    let reason = entry.record.get_reason_code();
    let file_ref = entry.record.get_file_reference();
    let parent = entry.record.get_parent_reference();
    let file_name = entry.record.get_file_name();
    if attributes.contains(FILE_ATTRIBUTE_DIRECTORY) && (reason.contains(USN_REASON_FILE_DELETE)
        || reason.contains(USN_REASON_RENAME_OLD_NAME)) && file_ref.entry != ROOT_ENTRY {
        mapping.add_mapping(file_ref, file_name.clone(), parent);
    }
    let path = mapping.enumerate_path(parent.entry, parent.sequence);
    let mut full = match path {
        Some(p) => p,
        None => String::new(),
    };
    full.append("/");
    full.append(file_name.as_str());
    proof {
        reveal_strlit("/");
    }
    full
}

} // verus!
