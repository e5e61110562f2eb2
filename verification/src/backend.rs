//! The record-management backend: validation and CRUD for the four entity
//! kinds over their durable stores and the shared identifier counter.

use vstd::prelude::*;

use crate::codec::{
    decode_attendance, decode_lecture, decode_message, decode_student, encode_attendance,
    encode_lecture, encode_message, encode_student, spec_enc_attendance, spec_enc_lecture,
    spec_enc_message, spec_enc_student,
};
use crate::model::{
    opt_mm_view, AttendanceRecord, AttendanceRecordView, Lecture, LectureView, Message,
    MessageView, MultiMediaContent, Student, StudentView,
};
use crate::stable::{counter_value, fresh_stores, map_contents, ByteMap, IdCounter};
use crate::text::{is_not_found_with_id, not_found_msg};
use crate::{Error, MAX_RECORD_BYTES};

verus! {

/// Spec-level state of the backend: the next identifier to hand out and the
/// current record of each entity kind, keyed by identifier.
pub struct BackendView {
    pub next_id: u64,
    pub students: Map<u64, StudentView>,
    pub lectures: Map<u64, LectureView>,
    pub attendance_records: Map<u64, AttendanceRecordView>,
    pub messages: Map<u64, MessageView>,
}

/// The state after a student was created: the counter advanced by one and
/// the new record stored under its id.
pub open spec fn created_student(b: BackendView, sv: StudentView) -> BackendView {
    BackendView { next_id: (b.next_id + 1) as u64, students: b.students.insert(sv.id, sv), ..b }
}

/// The state after an existing student record was replaced in place.
pub open spec fn replaced_student(b: BackendView, sv: StudentView) -> BackendView {
    BackendView { students: b.students.insert(sv.id, sv), ..b }
}

/// The state after a student record was removed.
pub open spec fn removed_student(b: BackendView, id: u64) -> BackendView {
    BackendView { students: b.students.remove(id), ..b }
}

/// The state after a lecture was created.
pub open spec fn created_lecture(b: BackendView, lv: LectureView) -> BackendView {
    BackendView { next_id: (b.next_id + 1) as u64, lectures: b.lectures.insert(lv.id, lv), ..b }
}

/// The state after an existing lecture record was replaced in place.
pub open spec fn replaced_lecture(b: BackendView, lv: LectureView) -> BackendView {
    BackendView { lectures: b.lectures.insert(lv.id, lv), ..b }
}

/// The state after a lecture record was removed.
pub open spec fn removed_lecture(b: BackendView, id: u64) -> BackendView {
    BackendView { lectures: b.lectures.remove(id), ..b }
}

/// The state after an attendance record was created.
pub open spec fn created_attendance(b: BackendView, av: AttendanceRecordView) -> BackendView {
    BackendView {
        next_id: (b.next_id + 1) as u64,
        attendance_records: b.attendance_records.insert(av.id, av),
        ..b
    }
}

/// The state after an existing attendance record was replaced in place.
pub open spec fn replaced_attendance(b: BackendView, av: AttendanceRecordView) -> BackendView {
    BackendView { attendance_records: b.attendance_records.insert(av.id, av), ..b }
}

/// The state after an attendance record was removed.
pub open spec fn removed_attendance(b: BackendView, id: u64) -> BackendView {
    BackendView { attendance_records: b.attendance_records.remove(id), ..b }
}

/// The state after a message was created.
pub open spec fn created_message(b: BackendView, mv: MessageView) -> BackendView {
    BackendView { next_id: (b.next_id + 1) as u64, messages: b.messages.insert(mv.id, mv), ..b }
}

/// The state after an existing message record was replaced in place.
pub open spec fn replaced_message(b: BackendView, mv: MessageView) -> BackendView {
    BackendView { messages: b.messages.insert(mv.id, mv), ..b }
}

/// The state after a message record was removed.
pub open spec fn removed_message(b: BackendView, id: u64) -> BackendView {
    BackendView { messages: b.messages.remove(id), ..b }
}

/// One entity store is well-formed: the durable bytes and the ghost model
/// agree key for key, every record is stored under its own identifier and
/// fits the size ceiling, and every identifier is below the shared counter.
pub open spec fn store_inv<V>(
    contents: Map<u64, Seq<u8>>,
    model: Map<u64, V>,
    next_id: u64,
    enc: spec_fn(V) -> Seq<u8>,
    id_of: spec_fn(V) -> u64,
) -> bool {
    &&& contents.dom() == model.dom()
    &&& model.dom().finite()
    &&& forall|k: u64| #[trigger]
        model.dom().contains(k) ==> {
            &&& contents[k] == enc(model[k])
            &&& id_of(model[k]) == k
            &&& enc(model[k]).len() <= MAX_RECORD_BYTES
            &&& k < next_id
        }
}

/// A well-formed store stays well-formed when the counter only grows.
proof fn lemma_store_inv_grow<V>(
    contents: Map<u64, Seq<u8>>,
    model: Map<u64, V>,
    n1: u64,
    n2: u64,
    enc: spec_fn(V) -> Seq<u8>,
    id_of: spec_fn(V) -> u64,
)
    requires
        store_inv(contents, model, n1, enc, id_of),
        n1 <= n2,
    ensures
        store_inv(contents, model, n2, enc, id_of),
{
}

/// Storing a record that is encoded faithfully, keyed by its own id, within
/// the ceiling and below the counter keeps a store well-formed.
proof fn lemma_store_inv_insert<V>(
    contents: Map<u64, Seq<u8>>,
    model: Map<u64, V>,
    n1: u64,
    n2: u64,
    enc: spec_fn(V) -> Seq<u8>,
    id_of: spec_fn(V) -> u64,
    id: u64,
    v: V,
)
    requires
        store_inv(contents, model, n1, enc, id_of),
        id_of(v) == id,
        enc(v).len() <= MAX_RECORD_BYTES,
        id < n2,
        n1 <= n2,
    ensures
        store_inv(contents.insert(id, enc(v)), model.insert(id, v), n2, enc, id_of),
{
    assert(contents.insert(id, enc(v)).dom() =~= model.insert(id, v).dom());
}

/// Removing a key keeps a store well-formed.
proof fn lemma_store_inv_remove<V>(
    contents: Map<u64, Seq<u8>>,
    model: Map<u64, V>,
    n: u64,
    enc: spec_fn(V) -> Seq<u8>,
    id_of: spec_fn(V) -> u64,
    id: u64,
)
    requires
        store_inv(contents, model, n, enc, id_of),
    ensures
        store_inv(contents.remove(id), model.remove(id), n, enc, id_of),
{
    assert(contents.remove(id).dom() =~= model.remove(id).dom());
}

/// The record-management backend: four durable entity stores, the shared
/// identifier counter, and a ghost model of each store's decoded contents.
pub struct Backend {
    counter: IdCounter,
    students: ByteMap,
    lectures: ByteMap,
    attendance_records: ByteMap,
    messages: ByteMap,
    students_model: Ghost<Map<u64, StudentView>>,
    lectures_model: Ghost<Map<u64, LectureView>>,
    attendance_model: Ghost<Map<u64, AttendanceRecordView>>,
    messages_model: Ghost<Map<u64, MessageView>>,
}

impl View for Backend {
    type V = BackendView;

    closed spec fn view(&self) -> BackendView {
        BackendView {
            next_id: counter_value(self.counter),
            students: self.students_model@,
            lectures: self.lectures_model@,
            attendance_records: self.attendance_model@,
            messages: self.messages_model@,
        }
    }
}

impl Backend {
    /// The backend invariant: every store well-formed against the shared
    /// counter, which never sits below its starting value of one.
    pub closed spec fn wf(&self) -> bool {
        &&& 1 <= counter_value(self.counter)
        &&& store_inv(
            map_contents(self.students),
            self.students_model@,
            counter_value(self.counter),
            (|s: StudentView| spec_enc_student(s)),
            (|s: StudentView| s.id),
        )
        &&& store_inv(
            map_contents(self.lectures),
            self.lectures_model@,
            counter_value(self.counter),
            (|l: LectureView| spec_enc_lecture(l)),
            (|l: LectureView| l.id),
        )
        &&& store_inv(
            map_contents(self.attendance_records),
            self.attendance_model@,
            counter_value(self.counter),
            (|a: AttendanceRecordView| spec_enc_attendance(a)),
            (|a: AttendanceRecordView| a.id),
        )
        &&& store_inv(
            map_contents(self.messages),
            self.messages_model@,
            counter_value(self.counter),
            (|m: MessageView| spec_enc_message(m)),
            (|m: MessageView| m.id),
        )
    }

    /// A well-formed backend's view keeps every stored identifier below the
    /// counter and every store finite.
    pub proof fn lemma_wf_view_facts(&self)
        requires
            self.wf(),
        ensures
            crate::laws::ids_bounded(self@),
            self@.students.dom().finite(),
            self@.lectures.dom().finite(),
            self@.attendance_records.dom().finite(),
            self@.messages.dom().finite(),
    {
    }

    /// Creates a backend over a fresh region set: the counter at one, every
    /// store empty.
    pub fn new() -> (r: Backend)
        ensures
            r.wf(),
            r@.next_id == 1,
            r@.students == Map::<u64, StudentView>::empty(),
            r@.lectures == Map::<u64, LectureView>::empty(),
            r@.attendance_records == Map::<u64, AttendanceRecordView>::empty(),
            r@.messages == Map::<u64, MessageView>::empty(),
    {
        let (counter, students, lectures, attendance_records, messages) = fresh_stores(1);
        let b = Backend {
            counter,
            students,
            lectures,
            attendance_records,
            messages,
            students_model: Ghost(Map::empty()),
            lectures_model: Ghost(Map::empty()),
            attendance_model: Ghost(Map::empty()),
            messages_model: Ghost(Map::empty()),
        };
        proof {
            assert(map_contents(b.students).dom() =~= b.students_model@.dom());
            assert(map_contents(b.lectures).dom() =~= b.lectures_model@.dom());
            assert(map_contents(b.attendance_records).dom() =~= b.attendance_model@.dom());
            assert(map_contents(b.messages).dom() =~= b.messages_model@.dom());
        }
        b
    }

    /// The identifier the next successful create will be assigned.
    pub fn next_id(&self) -> (r: u64)
        ensures
            r == self@.next_id,
    {
        self.counter.get()
    }

    /// Registers a student: rejects an empty name, rejects a record over
    /// the size ceiling, and otherwise stores the student under a freshly
    /// allocated identifier and returns the stored value.
    pub fn register_student(
        &mut self,
        name: String,
        contact_details: String,
        attendance_history: String,
    ) -> (r: Result<Student, Error>)
        requires
            old(self).wf(),
            old(self)@.next_id < u64::MAX,
        ensures
            final(self).wf(),
            ({
                let sv = StudentView {
                    id: old(self)@.next_id,
                    name: name@,
                    contact_details: contact_details@,
                    attendance_history: attendance_history@,
                };
                if name@.len() == 0 {
                    &&& r matches Err(e) && e is InvalidInput
                    &&& final(self)@ == old(self)@
                } else if spec_enc_student(sv).len() > MAX_RECORD_BYTES {
                    &&& r matches Err(e) && e is TooLarge
                    &&& final(self)@ == old(self)@
                } else {
                    &&& r matches Ok(st) && st@ == sv
                    &&& final(self)@ == created_student(old(self)@, sv)
                }
            }),
    {
        if name.as_str().is_empty() {
            return Err(
                Error::InvalidInput { msg: "register_student: name must not be empty".to_owned() },
            );
        }
        let id = self.counter.get();
        let st = Student { id, name, contact_details, attendance_history };
        let bytes = encode_student(&st);
        if bytes.len() > MAX_RECORD_BYTES {
            return Err(
                Error::TooLarge { msg: "register_student: record exceeds the size ceiling".to_owned() },
            );
        }
        let _prev_id: u64 = self.counter.set(id + 1);
        let _prev: Option<Vec<u8>> = self.students.insert(id, bytes);
        proof {
            self.students_model@ = self.students_model@.insert(id, st@);
            lemma_store_inv_insert(
                map_contents(old(self).students),
                old(self).students_model@,
                old(self)@.next_id,
                counter_value(self.counter),
                (|s: StudentView| spec_enc_student(s)),
                (|s: StudentView| s.id),
                id,
                st@,
            );
            lemma_store_inv_grow(
                map_contents(self.lectures),
                self.lectures_model@,
                old(self)@.next_id,
                counter_value(self.counter),
                (|l: LectureView| spec_enc_lecture(l)),
                (|l: LectureView| l.id),
            );
            lemma_store_inv_grow(
                map_contents(self.attendance_records),
                self.attendance_model@,
                old(self)@.next_id,
                counter_value(self.counter),
                (|a: AttendanceRecordView| spec_enc_attendance(a)),
                (|a: AttendanceRecordView| a.id),
            );
            lemma_store_inv_grow(
                map_contents(self.messages),
                self.messages_model@,
                old(self)@.next_id,
                counter_value(self.counter),
                (|m: MessageView| spec_enc_message(m)),
                (|m: MessageView| m.id),
            );
        }
        Ok(st)
    }

    /// Looks a student up by identifier; absent keys report `NotFound`.
    pub fn get_student(&self, id: u64) -> (r: Result<Student, Error>)
        requires
            self.wf(),
        ensures
            self@.students.contains_key(id) ==> (r matches Ok(st) && st@ == self@.students[id]),
            !self@.students.contains_key(id) ==> (r matches Err(e) && is_not_found_with_id(
                e,
                "get_student: no such student with id="@,
                id,
            )),
    {
        match self.students.get(id) {
            Some(bytes) => {
                let st = decode_student(&bytes, Ghost(self.students_model@[id]));
                Ok(st)
            },
            None => Err(Error::NotFound { msg: not_found_msg("get_student: no such student with id=", id) }),
        }
    }

    /// Replaces an existing student record whole: an empty name reports
    /// `InvalidInput`, an absent key `NotFound` before anything is written,
    /// an oversized record `TooLarge`.
    pub fn update_student(
        &mut self,
        id: u64,
        name: String,
        contact_details: String,
        attendance_history: String,
    ) -> (r: Result<Student, Error>)
        requires
            old(self).wf(),
        ensures
            final(self).wf(),
            ({
                let sv = StudentView {
                    id: id,
                    name: name@,
                    contact_details: contact_details@,
                    attendance_history: attendance_history@,
                };
                if name@.len() == 0 {
                    &&& r matches Err(e) && e is InvalidInput
                    &&& final(self)@ == old(self)@
                } else if !old(self)@.students.contains_key(id) {
                    &&& r matches Err(e) && is_not_found_with_id(
                        e,
                        "update_student: no such student with id="@,
                        id,
                    )
                    &&& final(self)@ == old(self)@
                } else if spec_enc_student(sv).len() > MAX_RECORD_BYTES {
                    &&& r matches Err(e) && e is TooLarge
                    &&& final(self)@ == old(self)@
                } else {
                    &&& r matches Ok(st) && st@ == sv
                    &&& final(self)@ == replaced_student(old(self)@, sv)
                }
            }),
    {
        if name.as_str().is_empty() {
            return Err(
                Error::InvalidInput { msg: "update_student: name must not be empty".to_owned() },
            );
        }
        let exists = self.students.get(id);
        if exists.is_none() {
            return Err(
                Error::NotFound { msg: not_found_msg("update_student: no such student with id=", id) },
            );
        }
        let st = Student { id, name, contact_details, attendance_history };
        let bytes = encode_student(&st);
        if bytes.len() > MAX_RECORD_BYTES {
            return Err(
                Error::TooLarge { msg: "update_student: record exceeds the size ceiling".to_owned() },
            );
        }
        let _prev: Option<Vec<u8>> = self.students.insert(id, bytes);
        proof {
            assert(old(self).students_model@.dom().contains(id));
            self.students_model@ = self.students_model@.insert(id, st@);
            lemma_store_inv_insert(
                map_contents(old(self).students),
                old(self).students_model@,
                old(self)@.next_id,
                counter_value(self.counter),
                (|s: StudentView| spec_enc_student(s)),
                (|s: StudentView| s.id),
                id,
                st@,
            );
        }
        Ok(st)
    }

    /// Deletes a student record; absent keys report `NotFound`.
    pub fn delete_student(&mut self, id: u64) -> (r: Result<(), Error>)
        requires
            old(self).wf(),
        ensures
            final(self).wf(),
            old(self)@.students.contains_key(id) ==> r is Ok && final(self)@ == removed_student(
                old(self)@,
                id,
            ),
            !old(self)@.students.contains_key(id) ==> (r matches Err(e)
                && is_not_found_with_id(e, "delete_student: no such student with id="@, id))
                && final(self)@ == old(self)@,
    {
        match self.students.remove(id) {
            Some(_) => {
                proof {
                    self.students_model@ = self.students_model@.remove(id);
                    lemma_store_inv_remove(
                        map_contents(old(self).students),
                        old(self).students_model@,
                        counter_value(self.counter),
                        (|s: StudentView| spec_enc_student(s)),
                        (|s: StudentView| s.id),
                        id,
                    );
                }
                Ok(())
            },
            None => {
                proof {
                    assert(map_contents(old(self).students).remove(id) =~= map_contents(
                        old(self).students,
                    ));
                }
                Err(
                    Error::NotFound {
                        msg: not_found_msg("delete_student: no such student with id=", id),
                    },
                )
            },
        }
    }

    /// Lists every student record, in ascending identifier order, each
    /// matching its stored state.
    #[verifier::loop_isolation(false)]
    pub fn list_students(&self) -> (r: Vec<Student>)
        requires
            self.wf(),
        ensures
            r@.len() == self@.students.dom().len(),
            forall|i: int|
                0 <= i < r@.len() ==> self@.students.contains_key(#[trigger] r@[i]@.id)
                    && self@.students[r@[i]@.id] == r@[i]@,
            forall|k: u64|
                #[trigger] self@.students.contains_key(k) ==> exists|i: int|
                    0 <= i < r@.len() && r@[i]@.id == k,
            forall|i: int, j: int| 0 <= i < j < r@.len() ==> r@[i]@.id < r@[j]@.id,
    {
        let entries = self.students.entries();
        let mut out: Vec<Student> = Vec::new();
        let mut idx: usize = 0;
        while idx < entries.len()
            invariant
                0 <= idx <= entries@.len(),
                out@.len() == idx,
                forall|i: int|
                    0 <= i < idx ==> (#[trigger] out@[i])@ == self@.students[entries@[i].0]
                        && out@[i]@.id == entries@[i].0,
            decreases entries@.len() - idx,
        {
            let st = decode_student(&entries[idx].1, Ghost(self.students_model@[entries@[idx as int].0]));
            out.push(st);
            idx = idx + 1;
        }
        proof {
            assert forall|k: u64| #[trigger] self@.students.contains_key(k) implies exists|i: int|
                0 <= i < out@.len() && out@[i]@.id == k by {
                let i = choose|i: int| 0 <= i < entries@.len() && entries@[i].0 == k;
                assert(out@[i]@.id == k);
            }
        }
        out
    }

    /// Schedules a lecture: rejects an empty topic, rejects a record over
    /// the size ceiling, and otherwise stores the lecture under a freshly
    /// allocated identifier. The student and lecturer identifiers are
    /// informational and not checked for existence.
    pub fn schedule_lecture(
        &mut self,
        student_id: u64,
        lecturer_id: u64,
        date_time: u64,
        topic: String,
        multimedia_content: Option<MultiMediaContent>,
    ) -> (r: Result<Lecture, Error>)
        requires
            old(self).wf(),
            old(self)@.next_id < u64::MAX,
        ensures
            final(self).wf(),
            ({
                let lv = LectureView {
                    id: old(self)@.next_id,
                    student_id: student_id,
                    lecturer_id: lecturer_id,
                    date_time: date_time,
                    topic: topic@,
                    multimedia_content: opt_mm_view(multimedia_content),
                };
                if topic@.len() == 0 {
                    &&& r matches Err(e) && e is InvalidInput
                    &&& final(self)@ == old(self)@
                } else if spec_enc_lecture(lv).len() > MAX_RECORD_BYTES {
                    &&& r matches Err(e) && e is TooLarge
                    &&& final(self)@ == old(self)@
                } else {
                    &&& r matches Ok(l) && l@ == lv
                    &&& final(self)@ == created_lecture(old(self)@, lv)
                }
            }),
    {
        if topic.as_str().is_empty() {
            return Err(
                Error::InvalidInput { msg: "schedule_lecture: topic must not be empty".to_owned() },
            );
        }
        let id = self.counter.get();
        let l = Lecture { id, student_id, lecturer_id, date_time, topic, multimedia_content };
        let bytes = encode_lecture(&l);
        if bytes.len() > MAX_RECORD_BYTES {
            return Err(
                Error::TooLarge { msg: "schedule_lecture: record exceeds the size ceiling".to_owned() },
            );
        }
        let _prev_id: u64 = self.counter.set(id + 1);
        let _prev: Option<Vec<u8>> = self.lectures.insert(id, bytes);
        proof {
            self.lectures_model@ = self.lectures_model@.insert(id, l@);
            lemma_store_inv_insert(
                map_contents(old(self).lectures),
                old(self).lectures_model@,
                old(self)@.next_id,
                counter_value(self.counter),
                (|x: LectureView| spec_enc_lecture(x)),
                (|x: LectureView| x.id),
                id,
                l@,
            );
            lemma_store_inv_grow(
                map_contents(self.students),
                self.students_model@,
                old(self)@.next_id,
                counter_value(self.counter),
                (|x: StudentView| spec_enc_student(x)),
                (|x: StudentView| x.id),
            );
            lemma_store_inv_grow(
                map_contents(self.attendance_records),
                self.attendance_model@,
                old(self)@.next_id,
                counter_value(self.counter),
                (|x: AttendanceRecordView| spec_enc_attendance(x)),
                (|x: AttendanceRecordView| x.id),
            );
            lemma_store_inv_grow(
                map_contents(self.messages),
                self.messages_model@,
                old(self)@.next_id,
                counter_value(self.counter),
                (|x: MessageView| spec_enc_message(x)),
                (|x: MessageView| x.id),
            );
        }
        Ok(l)
    }

    /// Looks a lecture up by identifier; absent keys report `NotFound`.
    pub fn get_lecture(&self, id: u64) -> (r: Result<Lecture, Error>)
        requires
            self.wf(),
        ensures
            self@.lectures.contains_key(id) ==> (r matches Ok(l) && l@ == self@.lectures[id]),
            !self@.lectures.contains_key(id) ==> (r matches Err(e) && is_not_found_with_id(
                e,
                "get_lecture: no such lecture with id="@,
                id,
            )),
    {
        match self.lectures.get(id) {
            Some(bytes) => {
                let l = decode_lecture(&bytes, Ghost(self.lectures_model@[id]));
                Ok(l)
            },
            None => Err(Error::NotFound { msg: not_found_msg("get_lecture: no such lecture with id=", id) }),
        }
    }

    /// Replaces an existing lecture record whole: an empty topic reports
    /// `InvalidInput`, an absent key `NotFound` before anything is written,
    /// an oversized record `TooLarge`.
    pub fn update_lecture(
        &mut self,
        id: u64,
        student_id: u64,
        lecturer_id: u64,
        date_time: u64,
        topic: String,
        multimedia_content: Option<MultiMediaContent>,
    ) -> (r: Result<Lecture, Error>)
        requires
            old(self).wf(),
        ensures
            final(self).wf(),
            ({
                let lv = LectureView {
                    id: id,
                    student_id: student_id,
                    lecturer_id: lecturer_id,
                    date_time: date_time,
                    topic: topic@,
                    multimedia_content: opt_mm_view(multimedia_content),
                };
                if topic@.len() == 0 {
                    &&& r matches Err(e) && e is InvalidInput
                    &&& final(self)@ == old(self)@
                } else if !old(self)@.lectures.contains_key(id) {
                    &&& r matches Err(e) && is_not_found_with_id(
                        e,
                        "update_lecture: no such lecture with id="@,
                        id,
                    )
                    &&& final(self)@ == old(self)@
                } else if spec_enc_lecture(lv).len() > MAX_RECORD_BYTES {
                    &&& r matches Err(e) && e is TooLarge
                    &&& final(self)@ == old(self)@
                } else {
                    &&& r matches Ok(l) && l@ == lv
                    &&& final(self)@ == replaced_lecture(old(self)@, lv)
                }
            }),
    {
        if topic.as_str().is_empty() {
            return Err(
                Error::InvalidInput { msg: "update_lecture: topic must not be empty".to_owned() },
            );
        }
        let exists = self.lectures.get(id);
        if exists.is_none() {
            return Err(
                Error::NotFound { msg: not_found_msg("update_lecture: no such lecture with id=", id) },
            );
        }
        let l = Lecture { id, student_id, lecturer_id, date_time, topic, multimedia_content };
        let bytes = encode_lecture(&l);
        if bytes.len() > MAX_RECORD_BYTES {
            return Err(
                Error::TooLarge { msg: "update_lecture: record exceeds the size ceiling".to_owned() },
            );
        }
        let _prev: Option<Vec<u8>> = self.lectures.insert(id, bytes);
        proof {
            assert(old(self).lectures_model@.dom().contains(id));
            self.lectures_model@ = self.lectures_model@.insert(id, l@);
            lemma_store_inv_insert(
                map_contents(old(self).lectures),
                old(self).lectures_model@,
                old(self)@.next_id,
                counter_value(self.counter),
                (|x: LectureView| spec_enc_lecture(x)),
                (|x: LectureView| x.id),
                id,
                l@,
            );
        }
        Ok(l)
    }

    /// Deletes a lecture record; absent keys report `NotFound`.
    pub fn delete_lecture(&mut self, id: u64) -> (r: Result<(), Error>)
        requires
            old(self).wf(),
        ensures
            final(self).wf(),
            old(self)@.lectures.contains_key(id) ==> r is Ok && final(self)@ == removed_lecture(
                old(self)@,
                id,
            ),
            !old(self)@.lectures.contains_key(id) ==> (r matches Err(e)
                && is_not_found_with_id(e, "delete_lecture: no such lecture with id="@, id))
                && final(self)@ == old(self)@,
    {
        match self.lectures.remove(id) {
            Some(_) => {
                proof {
                    self.lectures_model@ = self.lectures_model@.remove(id);
                    lemma_store_inv_remove(
                        map_contents(old(self).lectures),
                        old(self).lectures_model@,
                        counter_value(self.counter),
                        (|x: LectureView| spec_enc_lecture(x)),
                        (|x: LectureView| x.id),
                        id,
                    );
                }
                Ok(())
            },
            None => {
                proof {
                    assert(map_contents(old(self).lectures).remove(id) =~= map_contents(
                        old(self).lectures,
                    ));
                }
                Err(
                    Error::NotFound {
                        msg: not_found_msg("delete_lecture: no such lecture with id=", id),
                    },
                )
            },
        }
    }

    /// Lists every lecture record, in ascending identifier order, each
    /// matching its stored state.
    #[verifier::loop_isolation(false)]
    pub fn list_lectures(&self) -> (r: Vec<Lecture>)
        requires
            self.wf(),
        ensures
            r@.len() == self@.lectures.dom().len(),
            forall|i: int|
                0 <= i < r@.len() ==> self@.lectures.contains_key(#[trigger] r@[i]@.id)
                    && self@.lectures[r@[i]@.id] == r@[i]@,
            forall|k: u64|
                #[trigger] self@.lectures.contains_key(k) ==> exists|i: int|
                    0 <= i < r@.len() && r@[i]@.id == k,
            forall|i: int, j: int| 0 <= i < j < r@.len() ==> r@[i]@.id < r@[j]@.id,
    {
        let entries = self.lectures.entries();
        let mut out: Vec<Lecture> = Vec::new();
        let mut idx: usize = 0;
        while idx < entries.len()
            invariant
                0 <= idx <= entries@.len(),
                out@.len() == idx,
                forall|i: int|
                    0 <= i < idx ==> (#[trigger] out@[i])@ == self@.lectures[entries@[i].0]
                        && out@[i]@.id == entries@[i].0,
            decreases entries@.len() - idx,
        {
            let l = decode_lecture(&entries[idx].1, Ghost(self.lectures_model@[entries@[idx as int].0]));
            out.push(l);
            idx = idx + 1;
        }
        proof {
            assert forall|k: u64| #[trigger] self@.lectures.contains_key(k) implies exists|i: int|
                0 <= i < out@.len() && out@[i]@.id == k by {
                let i = choose|i: int| 0 <= i < entries@.len() && entries@[i].0 == k;
                assert(out@[i]@.id == k);
            }
        }
        out
    }

    /// Creates an attendance record under a freshly allocated identifier.
    /// The status text is free-form, so only an oversized record is
    /// rejected.
    pub fn create_attendance_record(
        &mut self,
        student_id: u64,
        attendance_status: String,
    ) -> (r: Result<AttendanceRecord, Error>)
        requires
            old(self).wf(),
            old(self)@.next_id < u64::MAX,
        ensures
            final(self).wf(),
            ({
                let av = AttendanceRecordView {
                    id: old(self)@.next_id,
                    student_id: student_id,
                    attendance_status: attendance_status@,
                };
                if spec_enc_attendance(av).len() > MAX_RECORD_BYTES {
                    &&& r matches Err(e) && e is TooLarge
                    &&& final(self)@ == old(self)@
                } else {
                    &&& r matches Ok(a) && a@ == av
                    &&& final(self)@ == created_attendance(old(self)@, av)
                }
            }),
    {
        let id = self.counter.get();
        let a = AttendanceRecord { id, student_id, attendance_status };
        let bytes = encode_attendance(&a);
        if bytes.len() > MAX_RECORD_BYTES {
            return Err(
                Error::TooLarge {
                    msg: "create_attendance_record: record exceeds the size ceiling".to_owned(),
                },
            );
        }
        let _prev_id: u64 = self.counter.set(id + 1);
        let _prev: Option<Vec<u8>> = self.attendance_records.insert(id, bytes);
        proof {
            self.attendance_model@ = self.attendance_model@.insert(id, a@);
            lemma_store_inv_insert(
                map_contents(old(self).attendance_records),
                old(self).attendance_model@,
                old(self)@.next_id,
                counter_value(self.counter),
                (|x: AttendanceRecordView| spec_enc_attendance(x)),
                (|x: AttendanceRecordView| x.id),
                id,
                a@,
            );
            lemma_store_inv_grow(
                map_contents(self.students),
                self.students_model@,
                old(self)@.next_id,
                counter_value(self.counter),
                (|x: StudentView| spec_enc_student(x)),
                (|x: StudentView| x.id),
            );
            lemma_store_inv_grow(
                map_contents(self.lectures),
                self.lectures_model@,
                old(self)@.next_id,
                counter_value(self.counter),
                (|x: LectureView| spec_enc_lecture(x)),
                (|x: LectureView| x.id),
            );
            lemma_store_inv_grow(
                map_contents(self.messages),
                self.messages_model@,
                old(self)@.next_id,
                counter_value(self.counter),
                (|x: MessageView| spec_enc_message(x)),
                (|x: MessageView| x.id),
            );
        }
        Ok(a)
    }

    /// Looks an attendance record up by identifier; absent keys report
    /// `NotFound`.
    pub fn get_attendance_record(&self, id: u64) -> (r: Result<AttendanceRecord, Error>)
        requires
            self.wf(),
        ensures
            self@.attendance_records.contains_key(id) ==> (r matches Ok(a) && a@
                == self@.attendance_records[id]),
            !self@.attendance_records.contains_key(id) ==> (r matches Err(e)
                && is_not_found_with_id(
                e,
                "get_attendance_record: no such record with id="@,
                id,
            )),
    {
        match self.attendance_records.get(id) {
            Some(bytes) => {
                let a = decode_attendance(&bytes, Ghost(self.attendance_model@[id]));
                Ok(a)
            },
            None => Err(
                Error::NotFound {
                    msg: not_found_msg("get_attendance_record: no such record with id=", id),
                },
            ),
        }
    }

    /// Replaces an existing attendance record whole: absent keys report
    /// `NotFound` before anything is written, an oversized record
    /// `TooLarge`.
    pub fn update_attendance_record(
        &mut self,
        id: u64,
        student_id: u64,
        attendance_status: String,
    ) -> (r: Result<AttendanceRecord, Error>)
        requires
            old(self).wf(),
        ensures
            final(self).wf(),
            ({
                let av = AttendanceRecordView {
                    id: id,
                    student_id: student_id,
                    attendance_status: attendance_status@,
                };
                if !old(self)@.attendance_records.contains_key(id) {
                    &&& r matches Err(e) && is_not_found_with_id(
                        e,
                        "update_attendance_record: no such record with id="@,
                        id,
                    )
                    &&& final(self)@ == old(self)@
                } else if spec_enc_attendance(av).len() > MAX_RECORD_BYTES {
                    &&& r matches Err(e) && e is TooLarge
                    &&& final(self)@ == old(self)@
                } else {
                    &&& r matches Ok(a) && a@ == av
                    &&& final(self)@ == replaced_attendance(old(self)@, av)
                }
            }),
    {
        let exists = self.attendance_records.get(id);
        if exists.is_none() {
            return Err(
                Error::NotFound {
                    msg: not_found_msg("update_attendance_record: no such record with id=", id),
                },
            );
        }
        let a = AttendanceRecord { id, student_id, attendance_status };
        let bytes = encode_attendance(&a);
        if bytes.len() > MAX_RECORD_BYTES {
            return Err(
                Error::TooLarge {
                    msg: "update_attendance_record: record exceeds the size ceiling".to_owned(),
                },
            );
        }
        let _prev: Option<Vec<u8>> = self.attendance_records.insert(id, bytes);
        proof {
            assert(old(self).attendance_model@.dom().contains(id));
            self.attendance_model@ = self.attendance_model@.insert(id, a@);
            lemma_store_inv_insert(
                map_contents(old(self).attendance_records),
                old(self).attendance_model@,
                old(self)@.next_id,
                counter_value(self.counter),
                (|x: AttendanceRecordView| spec_enc_attendance(x)),
                (|x: AttendanceRecordView| x.id),
                id,
                a@,
            );
        }
        Ok(a)
    }

    /// Deletes an attendance record; absent keys report `NotFound`.
    pub fn delete_attendance_record(&mut self, id: u64) -> (r: Result<(), Error>)
        requires
            old(self).wf(),
        ensures
            final(self).wf(),
            old(self)@.attendance_records.contains_key(id) ==> r is Ok && final(self)@
                == removed_attendance(old(self)@, id),
            !old(self)@.attendance_records.contains_key(id) ==> (r matches Err(e)
                && is_not_found_with_id(
                    e,
                    "delete_attendance_record: no such record with id="@,
                    id,
                )) && final(self)@ == old(self)@,
    {
        match self.attendance_records.remove(id) {
            Some(_) => {
                proof {
                    self.attendance_model@ = self.attendance_model@.remove(id);
                    lemma_store_inv_remove(
                        map_contents(old(self).attendance_records),
                        old(self).attendance_model@,
                        counter_value(self.counter),
                        (|x: AttendanceRecordView| spec_enc_attendance(x)),
                        (|x: AttendanceRecordView| x.id),
                        id,
                    );
                }
                Ok(())
            },
            None => {
                proof {
                    assert(map_contents(old(self).attendance_records).remove(id) =~= map_contents(
                        old(self).attendance_records,
                    ));
                }
                Err(
                    Error::NotFound {
                        msg: not_found_msg("delete_attendance_record: no such record with id=", id),
                    },
                )
            },
        }
    }

    /// Lists every attendance record, in ascending identifier order, each
    /// matching its stored state.
    #[verifier::loop_isolation(false)]
    pub fn list_attendance_records(&self) -> (r: Vec<AttendanceRecord>)
        requires
            self.wf(),
        ensures
            r@.len() == self@.attendance_records.dom().len(),
            forall|i: int|
                0 <= i < r@.len() ==> self@.attendance_records.contains_key(#[trigger] r@[i]@.id)
                    && self@.attendance_records[r@[i]@.id] == r@[i]@,
            forall|k: u64|
                #[trigger] self@.attendance_records.contains_key(k) ==> exists|i: int|
                    0 <= i < r@.len() && r@[i]@.id == k,
            forall|i: int, j: int| 0 <= i < j < r@.len() ==> r@[i]@.id < r@[j]@.id,
    {
        let entries = self.attendance_records.entries();
        let mut out: Vec<AttendanceRecord> = Vec::new();
        let mut idx: usize = 0;
        while idx < entries.len()
            invariant
                0 <= idx <= entries@.len(),
                out@.len() == idx,
                forall|i: int|
                    0 <= i < idx ==> (#[trigger] out@[i])@
                        == self@.attendance_records[entries@[i].0] && out@[i]@.id
                        == entries@[i].0,
            decreases entries@.len() - idx,
        {
            let a = decode_attendance(
                &entries[idx].1,
                Ghost(self.attendance_model@[entries@[idx as int].0]),
            );
            out.push(a);
            idx = idx + 1;
        }
        proof {
            assert forall|k: u64|
                #[trigger] self@.attendance_records.contains_key(k) implies exists|i: int|
                0 <= i < out@.len() && out@[i]@.id == k by {
                let i = choose|i: int| 0 <= i < entries@.len() && entries@[i].0 == k;
                assert(out@[i]@.id == k);
            }
        }
        out
    }

    /// Sends a reminder message to a student: the receiver must exist in
    /// the student store, the content must be non-empty, and the record
    /// must fit the size ceiling; the message is then stored under a
    /// freshly allocated identifier.
    pub fn send_reminder_to_student(
        &mut self,
        student_id: u64,
        content: String,
        multimedia_content: Option<MultiMediaContent>,
        sender_id: u64,
    ) -> (r: Result<Message, Error>)
        requires
            old(self).wf(),
            old(self)@.next_id < u64::MAX,
        ensures
            final(self).wf(),
            ({
                let mv = MessageView {
                    id: old(self)@.next_id,
                    sender_id: sender_id,
                    receiver_id: student_id,
                    content: content@,
                    multimedia_content: opt_mm_view(multimedia_content),
                };
                if !old(self)@.students.contains_key(student_id) {
                    &&& r matches Err(e) && is_not_found_with_id(
                        e,
                        "send_reminder_to_student: no such student with id="@,
                        student_id,
                    )
                    &&& final(self)@ == old(self)@
                } else if content@.len() == 0 {
                    &&& r matches Err(e) && e is InvalidInput
                    &&& final(self)@ == old(self)@
                } else if spec_enc_message(mv).len() > MAX_RECORD_BYTES {
                    &&& r matches Err(e) && e is TooLarge
                    &&& final(self)@ == old(self)@
                } else {
                    &&& r matches Ok(m) && m@ == mv
                    &&& final(self)@ == created_message(old(self)@, mv)
                }
            }),
    {
        let receiver = self.students.get(student_id);
        if receiver.is_none() {
            return Err(
                Error::NotFound {
                    msg: not_found_msg(
                        "send_reminder_to_student: no such student with id=",
                        student_id,
                    ),
                },
            );
        }
        if content.as_str().is_empty() {
            return Err(
                Error::InvalidInput {
                    msg: "send_reminder_to_student: content must not be empty".to_owned(),
                },
            );
        }
        let id = self.counter.get();
        let m = Message { id, sender_id, receiver_id: student_id, content, multimedia_content };
        let bytes = encode_message(&m);
        if bytes.len() > MAX_RECORD_BYTES {
            return Err(
                Error::TooLarge {
                    msg: "send_reminder_to_student: record exceeds the size ceiling".to_owned(),
                },
            );
        }
        let _prev_id: u64 = self.counter.set(id + 1);
        let _prev: Option<Vec<u8>> = self.messages.insert(id, bytes);
        proof {
            self.messages_model@ = self.messages_model@.insert(id, m@);
            lemma_store_inv_insert(
                map_contents(old(self).messages),
                old(self).messages_model@,
                old(self)@.next_id,
                counter_value(self.counter),
                (|x: MessageView| spec_enc_message(x)),
                (|x: MessageView| x.id),
                id,
                m@,
            );
            lemma_store_inv_grow(
                map_contents(self.students),
                self.students_model@,
                old(self)@.next_id,
                counter_value(self.counter),
                (|x: StudentView| spec_enc_student(x)),
                (|x: StudentView| x.id),
            );
            lemma_store_inv_grow(
                map_contents(self.lectures),
                self.lectures_model@,
                old(self)@.next_id,
                counter_value(self.counter),
                (|x: LectureView| spec_enc_lecture(x)),
                (|x: LectureView| x.id),
            );
            lemma_store_inv_grow(
                map_contents(self.attendance_records),
                self.attendance_model@,
                old(self)@.next_id,
                counter_value(self.counter),
                (|x: AttendanceRecordView| spec_enc_attendance(x)),
                (|x: AttendanceRecordView| x.id),
            );
        }
        Ok(m)
    }

    /// Point lookup for a message by identifier.
    pub fn _get_message(&self, message_id: u64) -> (r: Option<Message>)
        requires
            self.wf(),
        ensures
            r matches Some(m) ==> self@.messages.contains_key(message_id) && m@
                == self@.messages[message_id],
            r is None ==> !self@.messages.contains_key(message_id),
    {
        match self.messages.get(message_id) {
            Some(bytes) => Some(decode_message(&bytes, Ghost(self.messages_model@[message_id]))),
            None => None,
        }
    }

    /// Replaces the content and attachment of an existing message, after
    /// checking that the supplied caller identity is the original sender.
    /// Empty content reports `InvalidInput`; an absent key `NotFound`
    /// before anything is written; a caller other than the sender
    /// `InvalidInput`; an oversized record `TooLarge`. Identifier, sender
    /// and receiver are preserved.
    pub fn update_message(
        &mut self,
        caller_id: u64,
        message_id: u64,
        new_content: String,
        new_multimedia_content: Option<MultiMediaContent>,
    ) -> (r: Result<Message, Error>)
        requires
            old(self).wf(),
        ensures
            final(self).wf(),
            ({
                let m0 = old(self)@.messages[message_id];
                let mv = MessageView {
                    id: message_id,
                    sender_id: m0.sender_id,
                    receiver_id: m0.receiver_id,
                    content: new_content@,
                    multimedia_content: opt_mm_view(new_multimedia_content),
                };
                if new_content@.len() == 0 {
                    &&& r matches Err(e) && e is InvalidInput
                    &&& final(self)@ == old(self)@
                } else if !old(self)@.messages.contains_key(message_id) {
                    &&& r matches Err(e) && is_not_found_with_id(
                        e,
                        "update_message: no such message with id="@,
                        message_id,
                    )
                    &&& final(self)@ == old(self)@
                } else if caller_id != m0.sender_id {
                    &&& r matches Err(e) && e is InvalidInput
                    &&& final(self)@ == old(self)@
                } else if spec_enc_message(mv).len() > MAX_RECORD_BYTES {
                    &&& r matches Err(e) && e is TooLarge
                    &&& final(self)@ == old(self)@
                } else {
                    &&& r matches Ok(m) && m@ == mv
                    &&& final(self)@ == replaced_message(old(self)@, mv)
                }
            }),
    {
        if new_content.as_str().is_empty() {
            return Err(
                Error::InvalidInput { msg: "update_message: content must not be empty".to_owned() },
            );
        }
        let m0 = match self.messages.get(message_id) {
            Some(bytes) => decode_message(&bytes, Ghost(self.messages_model@[message_id])),
            None => {
                return Err(
                    Error::NotFound {
                        msg: not_found_msg("update_message: no such message with id=", message_id),
                    },
                );
            },
        };
        if caller_id != m0.sender_id {
            return Err(
                Error::InvalidInput {
                    msg: "update_message: caller is not the sender of this message".to_owned(),
                },
            );
        }
        let m = Message {
            id: message_id,
            sender_id: m0.sender_id,
            receiver_id: m0.receiver_id,
            content: new_content,
            multimedia_content: new_multimedia_content,
        };
        let bytes = encode_message(&m);
        if bytes.len() > MAX_RECORD_BYTES {
            return Err(
                Error::TooLarge { msg: "update_message: record exceeds the size ceiling".to_owned() },
            );
        }
        let _prev: Option<Vec<u8>> = self.messages.insert(message_id, bytes);
        proof {
            assert(old(self).messages_model@.dom().contains(message_id));
            self.messages_model@ = self.messages_model@.insert(message_id, m@);
            lemma_store_inv_insert(
                map_contents(old(self).messages),
                old(self).messages_model@,
                old(self)@.next_id,
                counter_value(self.counter),
                (|x: MessageView| spec_enc_message(x)),
                (|x: MessageView| x.id),
                message_id,
                m@,
            );
        }
        Ok(m)
    }

    /// Deletes a message record; absent keys report `NotFound`.
    pub fn delete_message(&mut self, id: u64) -> (r: Result<(), Error>)
        requires
            old(self).wf(),
        ensures
            final(self).wf(),
            old(self)@.messages.contains_key(id) ==> r is Ok && final(self)@ == removed_message(
                old(self)@,
                id,
            ),
            !old(self)@.messages.contains_key(id) ==> (r matches Err(e)
                && is_not_found_with_id(e, "delete_message: no such message with id="@, id))
                && final(self)@ == old(self)@,
    {
        match self.messages.remove(id) {
            Some(_) => {
                proof {
                    self.messages_model@ = self.messages_model@.remove(id);
                    lemma_store_inv_remove(
                        map_contents(old(self).messages),
                        old(self).messages_model@,
                        counter_value(self.counter),
                        (|x: MessageView| spec_enc_message(x)),
                        (|x: MessageView| x.id),
                        id,
                    );
                }
                Ok(())
            },
            None => {
                proof {
                    assert(map_contents(old(self).messages).remove(id) =~= map_contents(
                        old(self).messages,
                    ));
                }
                Err(
                    Error::NotFound {
                        msg: not_found_msg("delete_message: no such message with id=", id),
                    },
                )
            },
        }
    }

    /// Lists every message record, in ascending identifier order, each
    /// matching its stored state.
    #[verifier::loop_isolation(false)]
    pub fn list_messages(&self) -> (r: Vec<Message>)
        requires
            self.wf(),
        ensures
            r@.len() == self@.messages.dom().len(),
            forall|i: int|
                0 <= i < r@.len() ==> self@.messages.contains_key(#[trigger] r@[i]@.id)
                    && self@.messages[r@[i]@.id] == r@[i]@,
            forall|k: u64|
                #[trigger] self@.messages.contains_key(k) ==> exists|i: int|
                    0 <= i < r@.len() && r@[i]@.id == k,
            forall|i: int, j: int| 0 <= i < j < r@.len() ==> r@[i]@.id < r@[j]@.id,
    {
        let entries = self.messages.entries();
        let mut out: Vec<Message> = Vec::new();
        let mut idx: usize = 0;
        while idx < entries.len()
            invariant
                0 <= idx <= entries@.len(),
                out@.len() == idx,
                forall|i: int|
                    0 <= i < idx ==> (#[trigger] out@[i])@ == self@.messages[entries@[i].0]
                        && out@[i]@.id == entries@[i].0,
            decreases entries@.len() - idx,
        {
            let m = decode_message(&entries[idx].1, Ghost(self.messages_model@[entries@[idx as int].0]));
            out.push(m);
            idx = idx + 1;
        }
        proof {
            assert forall|k: u64| #[trigger] self@.messages.contains_key(k) implies exists|i: int|
                0 <= i < out@.len() && out@[i]@.id == k by {
                let i = choose|i: int| 0 <= i < entries@.len() && entries@[i].0 == k;
                assert(out@[i]@.id == k);
            }
        }
        out
    }
}

} // verus!
