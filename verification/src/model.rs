//! The four entity kinds and their mathematical views.

use vstd::prelude::*;

verus! {

/// Optional multimedia attachment embedded in a lecture or message.
/// It has no identifier of its own and is owned by the embedding entity.
#[derive(Debug, Clone, PartialEq, Eq)]
pub struct MultiMediaContent {
    pub image_url: Option<String>,
    pub video_url: Option<String>,
    pub audio_url: Option<String>,
}

/// Spec-level value of a [`MultiMediaContent`].
pub struct MultiMediaContentView {
    pub image_url: Option<Seq<char>>,
    pub video_url: Option<Seq<char>>,
    pub audio_url: Option<Seq<char>>,
}

impl View for MultiMediaContent {
    type V = MultiMediaContentView;

    open spec fn view(&self) -> MultiMediaContentView {
        MultiMediaContentView {
            image_url: self.image_url.deep_view(),
            video_url: self.video_url.deep_view(),
            audio_url: self.audio_url.deep_view(),
        }
    }
}

/// Spec-level value of an optional attachment.
pub open spec fn opt_mm_view(o: Option<MultiMediaContent>) -> Option<MultiMediaContentView> {
    match o {
        Some(m) => Some(m@),
        None => None,
    }
}

/// A student record. `name` is required to be non-empty at creation and
/// update; the other text fields are free-form.
#[derive(Debug, Clone, PartialEq, Eq)]
pub struct Student {
    pub id: u64,
    pub name: String,
    pub contact_details: String,
    pub attendance_history: String,
}

/// Spec-level value of a [`Student`].
pub struct StudentView {
    pub id: u64,
    pub name: Seq<char>,
    pub contact_details: Seq<char>,
    pub attendance_history: Seq<char>,
}

impl View for Student {
    type V = StudentView;

    open spec fn view(&self) -> StudentView {
        StudentView {
            id: self.id,
            name: self.name@,
            contact_details: self.contact_details@,
            attendance_history: self.attendance_history@,
        }
    }
}

/// A lecture record. `topic` is required to be non-empty. `student_id` and
/// `lecturer_id` are informational foreign keys whose existence is not
/// enforced; `date_time` is an unvalidated timestamp.
#[derive(Debug, Clone, PartialEq, Eq)]
pub struct Lecture {
    pub id: u64,
    pub student_id: u64,
    pub lecturer_id: u64,
    pub date_time: u64,
    pub topic: String,
    pub multimedia_content: Option<MultiMediaContent>,
}

/// Spec-level value of a [`Lecture`].
pub struct LectureView {
    pub id: u64,
    pub student_id: u64,
    pub lecturer_id: u64,
    pub date_time: u64,
    pub topic: Seq<char>,
    pub multimedia_content: Option<MultiMediaContentView>,
}

impl View for Lecture {
    type V = LectureView;

    open spec fn view(&self) -> LectureView {
        LectureView {
            id: self.id,
            student_id: self.student_id,
            lecturer_id: self.lecturer_id,
            date_time: self.date_time,
            topic: self.topic@,
            multimedia_content: opt_mm_view(self.multimedia_content),
        }
    }
}

/// An attendance record. `attendance_status` is free-form text with no
/// required-field validation; `student_id` is an informational foreign key.
#[derive(Debug, Clone, PartialEq, Eq)]
pub struct AttendanceRecord {
    pub id: u64,
    pub student_id: u64,
    pub attendance_status: String,
}

/// Spec-level value of an [`AttendanceRecord`].
pub struct AttendanceRecordView {
    pub id: u64,
    pub student_id: u64,
    pub attendance_status: Seq<char>,
}

impl View for AttendanceRecord {
    type V = AttendanceRecordView;

    open spec fn view(&self) -> AttendanceRecordView {
        AttendanceRecordView {
            id: self.id,
            student_id: self.student_id,
            attendance_status: self.attendance_status@,
        }
    }
}

/// A message sent to a student. `content` is required to be non-empty, and
/// the receiver must exist in the student store at creation time.
#[derive(Debug, Clone, PartialEq, Eq)]
pub struct Message {
    pub id: u64,
    pub sender_id: u64,
    pub receiver_id: u64,
    pub content: String,
    pub multimedia_content: Option<MultiMediaContent>,
}

/// Spec-level value of a [`Message`].
pub struct MessageView {
    pub id: u64,
    pub sender_id: u64,
    pub receiver_id: u64,
    pub content: Seq<char>,
    pub multimedia_content: Option<MultiMediaContentView>,
}

impl View for Message {
    type V = MessageView;

    open spec fn view(&self) -> MessageView {
        MessageView {
            id: self.id,
            sender_id: self.sender_id,
            receiver_id: self.receiver_id,
            content: self.content@,
            multimedia_content: opt_mm_view(self.multimedia_content),
        }
    }
}

} // verus!
