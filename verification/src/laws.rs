//! General properties of the backend, stated and proved once over the
//! spec-level views that the operations' contracts use.

use vstd::prelude::*;

use crate::backend::{
    created_attendance, created_lecture, created_message, created_student, removed_attendance,
    removed_lecture, removed_message, removed_student, BackendView,
};
use crate::model::{AttendanceRecordView, LectureView, MessageView, StudentView};
use vstd::set::{axiom_set_insert_len, axiom_set_remove_len};

verus! {

/// Every stored identifier, whatever the entity kind, lies strictly below
/// the shared counter.
pub open spec fn ids_bounded(b: BackendView) -> bool {
    &&& forall|k: u64| #[trigger] b.students.contains_key(k) ==> k < b.next_id
    &&& forall|k: u64| #[trigger] b.lectures.contains_key(k) ==> k < b.next_id
    &&& forall|k: u64| #[trigger] b.attendance_records.contains_key(k) ==> k < b.next_id
    &&& forall|k: u64| #[trigger] b.messages.contains_key(k) ==> k < b.next_id
}

/// Identifiers allocated across any sequence of create calls, regardless of
/// entity kind, are pairwise distinct and strictly increasing: each create
/// returns the counter value of the state it ran in and leaves the counter
/// strictly larger, and no operation ever lowers the counter, so a later
/// allocation exceeds an earlier one.
pub proof fn lemma_allocated_ids_increase(b1: BackendView, b2: BackendView, id1: u64, id2: u64)
    requires
        id1 == b1.next_id,
        b2.next_id > id1,
        id2 == b2.next_id,
    ensures
        id2 > id1,
        id1 != id2,
{
}

/// A freshly allocated identifier differs from every identifier already
/// stored, whatever entity kind either belongs to.
pub proof fn lemma_fresh_id_distinct(b: BackendView, k: u64)
    requires
        ids_bounded(b),
        b.students.contains_key(k) || b.lectures.contains_key(k)
            || b.attendance_records.contains_key(k) || b.messages.contains_key(k),
    ensures
        k < b.next_id,
        k != b.next_id,
{
}

/// Round trip after creation: after a successful student create, looking
/// the returned identifier up yields exactly the created record.
pub proof fn lemma_student_create_then_get(b: BackendView, sv: StudentView)
    ensures
        created_student(b, sv).students.contains_key(sv.id),
        created_student(b, sv).students[sv.id] == sv,
{
}

/// Round trip after creation, for lectures.
pub proof fn lemma_lecture_create_then_get(b: BackendView, lv: LectureView)
    ensures
        created_lecture(b, lv).lectures.contains_key(lv.id),
        created_lecture(b, lv).lectures[lv.id] == lv,
{
}

/// Round trip after creation, for attendance records.
pub proof fn lemma_attendance_create_then_get(b: BackendView, av: AttendanceRecordView)
    ensures
        created_attendance(b, av).attendance_records.contains_key(av.id),
        created_attendance(b, av).attendance_records[av.id] == av,
{
}

/// Round trip after creation, for messages.
pub proof fn lemma_message_create_then_get(b: BackendView, mv: MessageView)
    ensures
        created_message(b, mv).messages.contains_key(mv.id),
        created_message(b, mv).messages[mv.id] == mv,
{
}

/// A delete followed by a lookup of the same identifier reports the record
/// absent, for every entity kind.
pub proof fn lemma_delete_then_get_not_found(b: BackendView, id: u64)
    ensures
        !removed_student(b, id).students.contains_key(id),
        !removed_lecture(b, id).lectures.contains_key(id),
        !removed_attendance(b, id).attendance_records.contains_key(id),
        !removed_message(b, id).messages.contains_key(id),
{
}

/// A create of a not-yet-stored identifier grows the listing of its entity
/// kind by exactly one entry; together with the listing contracts, N
/// creates and M deletes leave exactly N - M entities.
pub proof fn lemma_student_create_count(b: BackendView, sv: StudentView)
    requires
        b.students.dom().finite(),
        !b.students.contains_key(sv.id),
    ensures
        created_student(b, sv).students.dom().len() == b.students.dom().len() + 1,
{
    axiom_set_insert_len(b.students.dom(), sv.id);
}

/// A delete of a stored identifier shrinks the listing of its entity kind
/// by exactly one entry.
pub proof fn lemma_student_delete_count(b: BackendView, id: u64)
    requires
        b.students.dom().finite(),
        b.students.contains_key(id),
    ensures
        removed_student(b, id).students.dom().len() == b.students.dom().len() - 1,
{
    axiom_set_remove_len(b.students.dom(), id);
}

/// Counting under create and delete, for lectures.
pub proof fn lemma_lecture_counts(b: BackendView, lv: LectureView, id: u64)
    requires
        b.lectures.dom().finite(),
    ensures
        !b.lectures.contains_key(lv.id) ==> created_lecture(b, lv).lectures.dom().len()
            == b.lectures.dom().len() + 1,
        b.lectures.contains_key(id) ==> removed_lecture(b, id).lectures.dom().len()
            == b.lectures.dom().len() - 1,
{
    axiom_set_insert_len(b.lectures.dom(), lv.id);
    axiom_set_remove_len(b.lectures.dom(), id);
}

/// Counting under create and delete, for attendance records.
pub proof fn lemma_attendance_counts(b: BackendView, av: AttendanceRecordView, id: u64)
    requires
        b.attendance_records.dom().finite(),
    ensures
        !b.attendance_records.contains_key(av.id) ==> created_attendance(
            b,
            av,
        ).attendance_records.dom().len() == b.attendance_records.dom().len() + 1,
        b.attendance_records.contains_key(id) ==> removed_attendance(
            b,
            id,
        ).attendance_records.dom().len() == b.attendance_records.dom().len() - 1,
{
    axiom_set_insert_len(b.attendance_records.dom(), av.id);
    axiom_set_remove_len(b.attendance_records.dom(), id);
}

/// Counting under create and delete, for messages.
pub proof fn lemma_message_counts(b: BackendView, mv: MessageView, id: u64)
    requires
        b.messages.dom().finite(),
    ensures
        !b.messages.contains_key(mv.id) ==> created_message(b, mv).messages.dom().len()
            == b.messages.dom().len() + 1,
        b.messages.contains_key(id) ==> removed_message(b, id).messages.dom().len()
            == b.messages.dom().len() - 1,
{
    axiom_set_insert_len(b.messages.dom(), mv.id);
    axiom_set_remove_len(b.messages.dom(), id);
}

} // verus!

