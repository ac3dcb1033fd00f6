//! The listener's decisions, apart from the reads and sleeps around them:
//! where reading starts, what a read buffer holds, and how each record
//! changes the folder mapping and is annotated with its full path.

use crate::flags::{
    FileAttributes, Reason, FILE_ATTRIBUTE_DIRECTORY, USN_REASON_FILE_CREATE,
    USN_REASON_FILE_DELETE, USN_REASON_RENAME_NEW_NAME, USN_REASON_RENAME_OLD_NAME,
};
use crate::le::{le64, read_u64};
use crate::mapping::{path_of, ref_key, EntryMapping, FolderMapping};
use crate::record::UsnEntry;
use crate::reference::{MftReference, ROOT_ENTRY};
use crate::usn::{chunk_hits, entry_from, scan_records};
use vstd::prelude::*;
use vstd::slice::slice_subrange;
use vstd::string::*;

verus! {

/// Milliseconds to wait after a read that returned no record.
pub const IDLE_SLEEP_MS: u64 = 100;

/// What a record does to the folder mapping.
#[derive(Clone, Copy, Debug, PartialEq, Eq, Structural)]
pub enum MappingAction {
    Remove,
    Add,
    Leave,
}

/// The action for a record: only directories change the mapping; an old
/// name is removed; a delete is removed, or added back while a historical
/// read is still before the point it caught up to; a new name or a create is
/// added. The first of these that applies wins.
pub open spec fn spec_mapping_action(
    attributes: u32,
    reason: u32,
    usn: u64,
    historical: bool,
    catch_up_usn: u64,
) -> MappingAction {
    if attributes & FILE_ATTRIBUTE_DIRECTORY != FILE_ATTRIBUTE_DIRECTORY {
        MappingAction::Leave
    } else if reason & USN_REASON_RENAME_OLD_NAME == USN_REASON_RENAME_OLD_NAME {
        MappingAction::Remove
    } else if reason & USN_REASON_FILE_DELETE == USN_REASON_FILE_DELETE {
        if historical && usn < catch_up_usn {
            MappingAction::Add
        } else {
            MappingAction::Remove
        }
    } else if reason & USN_REASON_RENAME_NEW_NAME == USN_REASON_RENAME_NEW_NAME || reason
        & USN_REASON_FILE_CREATE == USN_REASON_FILE_CREATE {
        MappingAction::Add
    } else {
        MappingAction::Leave
    }
}

pub fn mapping_action(
    attributes: FileAttributes,
    reason: Reason,
    usn: u64,
    historical: bool,
    catch_up_usn: u64,
) -> (r: MappingAction)
    ensures
        r == spec_mapping_action(attributes.bits, reason.bits, usn, historical, catch_up_usn),
{
    if !attributes.contains(FILE_ATTRIBUTE_DIRECTORY) {
        MappingAction::Leave
    } else if reason.contains(USN_REASON_RENAME_OLD_NAME) {
        MappingAction::Remove
    } else if reason.contains(USN_REASON_FILE_DELETE) {
        if historical && usn < catch_up_usn {
            MappingAction::Add
        } else {
            MappingAction::Remove
        }
    } else if reason.contains(USN_REASON_RENAME_NEW_NAME) || reason.contains(
        USN_REASON_FILE_CREATE,
    ) {
        MappingAction::Add
    } else {
        MappingAction::Leave
    }
}

/// Whether to wait before the next read: the last one returned no record.
pub fn should_back_off(record_count: usize) -> (r: bool)
    ensures
        r == (record_count == 0),
{
    record_count == 0
}

/// Where a listener reads from, and the point it catches up to.
#[derive(Clone, Copy, Debug, PartialEq, Eq, Structural)]
pub struct ListenerState {
    pub historical: bool,
    pub catch_up_usn: u64,
    pub cursor: u64,
}

impl ListenerState {
    /// A listener that starts at the journal's beginning when historical,
    /// else at `next_usn`, which it also keeps as the catch-up point.
    pub fn new(historical: bool, next_usn: u64) -> (r: ListenerState)
        ensures
            r.historical == historical,
            r.catch_up_usn == next_usn,
            r.cursor == (if historical {
                0
            } else {
                next_usn
            }),
    {
        ListenerState {
            historical,
            catch_up_usn: next_usn,
            cursor: if historical {
                0
            } else {
                next_usn
            },
        }
    }

    /// Takes in what a read returned: the cursor moves to the usn in its
    /// first 8 bytes, and the records that the signature scan finds in the
    /// bytes after them come out, in order.
    /// A buffer too short to hold that usn leaves the cursor and gives nothing.
    pub fn on_read(&mut self, source: &str, buffer: &[u8]) -> (r: Vec<UsnEntry>)
        ensures
            final(self).historical == old(self).historical,
            final(self).catch_up_usn == old(self).catch_up_usn,
            buffer@.len() < 8 ==> final(self).cursor == old(self).cursor && r@.len() == 0,
            buffer@.len() >= 8 ==> final(self).cursor == le64(buffer@, 0),
            buffer@.len() >= 8 ==> r@.len() == chunk_hits(
                buffer@.subrange(8, buffer@.len() as int),
                buffer@.len() - 8,
            ).len(),
            buffer@.len() >= 8 ==> forall|k: int|
                0 <= k < r@.len() ==> entry_from(
                    #[trigger] r@[k],
                    source@,
                    0,
                    buffer@.subrange(8, buffer@.len() as int),
                    chunk_hits(buffer@.subrange(8, buffer@.len() as int), buffer@.len() - 8)[k],
                ),
    {
        if buffer.len() < 8 {
            return Vec::new();
        }
        self.cursor = read_u64(buffer, 0);
        let rest = slice_subrange(buffer, 8, buffer.len());
        let mut data: Vec<u8> = Vec::new();
        let mut i: usize = 0;
        while i < rest.len()
            invariant
                i <= rest@.len(),
                data@ == rest@.subrange(0, i as int),
            decreases rest@.len() - i,
        {
            data.push(rest[i]);
            i = i + 1;
            assert(data@ =~= rest@.subrange(0, i as int));
        }
        assert(data@ =~= rest@);
        scan_records(source, 0, &data)
    }
}

/// The references mapped after `action` on the record of `file_ref`.
pub open spec fn keys_after(d: Set<u64>, action: MappingAction, file_ref: MftReference) -> Set<
    u64,
> {
    match action {
        MappingAction::Remove => d.remove(ref_key(file_ref)),
        MappingAction::Add => if file_ref.entry == ROOT_ENTRY {
            d
        } else {
            d.insert(ref_key(file_ref))
        },
        MappingAction::Leave => d,
    }
}

/// Updates the mapping for one record and returns the record's full name:
/// the path of its parent, a `/`, and its own name. The root is never mapped.
pub fn annotate_record(
    mapping: &mut FolderMapping,
    entry: &UsnEntry,
    historical: bool,
    catch_up_usn: u64,
) -> (r: String)
    requires
        old(mapping).wf(),
        entry.record.spec_file_reference().wf(),
        entry.record.spec_parent_reference().wf(),
    ensures
        final(mapping).wf(),
        ({
            let action = spec_mapping_action(
                entry.record.spec_file_attributes().bits,
                entry.record.spec_reason().bits,
                entry.record.spec_usn(),
                historical,
                catch_up_usn,
            );
            let file_ref = entry.record.spec_file_reference();
            let parent = entry.record.spec_parent_reference();
            let removed = action == MappingAction::Remove || (action == MappingAction::Add
                && file_ref.entry != ROOT_ENTRY);
            let m = final(mapping).map_view();
            &&& m.dom() == keys_after(old(mapping).map_view().dom(), action, file_ref)
            &&& (action == MappingAction::Add && file_ref.entry != ROOT_ENTRY ==> m[ref_key(
                file_ref,
            )].name@ == entry.record.spec_file_name() && m[ref_key(file_ref)].parent == parent)
            &&& forall|k: u64|
                k != ref_key(file_ref) && #[trigger] m.contains_key(k) ==> m[k] == old(
                    mapping,
                ).map_view()[k]
            &&& r@ == path_of(m, parent) + seq!['/'] + entry.record.spec_file_name()
        }),
{
    let attributes = entry.record.get_file_attributes();
    let reason = entry.record.get_reason_code();
    let usn = entry.record.get_usn();
    let file_ref = entry.record.get_file_reference();
    let parent = entry.record.get_parent_reference();
    let file_name = entry.record.get_file_name();
    let action = mapping_action(attributes, reason, usn, historical, catch_up_usn);
    match action {
        MappingAction::Remove => {
            mapping.remove_mapping(file_ref);
        },
        MappingAction::Add => {
            if file_ref.entry != ROOT_ENTRY {
                mapping.add_mapping(file_ref, file_name.clone(), parent);
            }
        },
        MappingAction::Leave => {},
    }
    let path = mapping.enumerate_path(parent.entry, parent.sequence);
    let mut full = match path {
        Some(p) => p,
        None => String::new(),
    };
    full.append("/");
    full.append(file_name.as_str());
    proof {
        reveal_strlit("/");
    }
    full
}

} // verus!
