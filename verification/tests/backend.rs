use student_attendance_backend::backend::Backend;
use student_attendance_backend::model::{MultiMediaContent, Student};
use student_attendance_backend::Error;

fn mm(image: Option<&str>, video: Option<&str>, audio: Option<&str>) -> MultiMediaContent {
    MultiMediaContent {
        image_url: image.map(|s| s.to_owned()),
        video_url: video.map(|s| s.to_owned()),
        audio_url: audio.map(|s| s.to_owned()),
    }
}

#[test]
fn register_get_delete_student_scenario() {
    let mut b = Backend::new();
    let st = b
        .register_student("Alice".to_owned(), "555-0100".to_owned(), "".to_owned())
        .unwrap();
    assert_eq!(
        st,
        Student {
            id: 1,
            name: "Alice".to_owned(),
            contact_details: "555-0100".to_owned(),
            attendance_history: "".to_owned(),
        }
    );
    let got = b.get_student(1).unwrap();
    assert_eq!(got, st);
    b.delete_student(1).unwrap();
    assert!(matches!(b.get_student(1), Err(Error::NotFound { .. })));
}

#[test]
fn reminder_to_missing_student_scenario() {
    let mut b = Backend::new();
    let r = b.send_reminder_to_student(999, "hi".to_owned(), None, 0);
    assert!(matches!(r, Err(Error::NotFound { .. })));
    assert!(b.list_messages().is_empty());
    assert_eq!(b.next_id(), 1);
}

#[test]
fn schedule_lecture_empty_topic_scenario() {
    let mut b = Backend::new();
    let r = b.schedule_lecture(1, 2, 1700000000, "".to_owned(), None);
    assert!(matches!(r, Err(Error::InvalidInput { .. })));
    assert!(b.list_lectures().is_empty());
    assert_eq!(b.next_id(), 1);
}

#[test]
fn create_then_get_round_trip_every_entity() {
    let mut b = Backend::new();
    let st = b
        .register_student("Ada".to_owned(), "555".to_owned(), "present".to_owned())
        .unwrap();
    assert_eq!(b.get_student(st.id).unwrap(), st);

    let l = b
        .schedule_lecture(
            st.id,
            7,
            1700000000,
            "Logic".to_owned(),
            Some(mm(Some("http://img"), None, Some("http://aud"))),
        )
        .unwrap();
    assert_eq!(b.get_lecture(l.id).unwrap(), l);

    let a = b.create_attendance_record(st.id, "present".to_owned()).unwrap();
    assert_eq!(b.get_attendance_record(a.id).unwrap(), a);

    let m = b
        .send_reminder_to_student(st.id, "remember".to_owned(), Some(mm(None, Some("v"), None)), 42)
        .unwrap();
    assert_eq!(b._get_message(m.id).unwrap(), m);
    assert_eq!(m.sender_id, 42);
    assert_eq!(m.receiver_id, st.id);
}

#[test]
fn identifiers_shared_distinct_and_increasing() {
    let mut b = Backend::new();
    let id1 = b
        .register_student("A".to_owned(), "".to_owned(), "".to_owned())
        .unwrap()
        .id;
    let id2 = b
        .schedule_lecture(1, 1, 0, "T".to_owned(), None)
        .unwrap()
        .id;
    let id3 = b.create_attendance_record(id1, "late".to_owned()).unwrap().id;
    let id4 = b
        .send_reminder_to_student(id1, "hey".to_owned(), None, 0)
        .unwrap()
        .id;
    let ids = vec![id1, id2, id3, id4];
    assert_eq!(ids, vec![1, 2, 3, 4]);
    for i in 0..ids.len() {
        for j in (i + 1)..ids.len() {
            assert!(ids[i] < ids[j]);
        }
    }
}

#[test]
fn empty_required_fields_reject_without_allocation() {
    let mut b = Backend::new();
    assert!(matches!(
        b.register_student("".to_owned(), "c".to_owned(), "h".to_owned()),
        Err(Error::InvalidInput { .. })
    ));
    assert!(b.list_students().is_empty());
    assert_eq!(b.next_id(), 1);

    let st = b
        .register_student("Bea".to_owned(), "".to_owned(), "".to_owned())
        .unwrap();
    assert!(matches!(
        b.send_reminder_to_student(st.id, "".to_owned(), None, 5),
        Err(Error::InvalidInput { .. })
    ));
    assert!(b.list_messages().is_empty());
    assert_eq!(b.next_id(), 2);
}

#[test]
fn delete_then_get_not_found_every_entity() {
    let mut b = Backend::new();
    let st = b.register_student("A".to_owned(), "".to_owned(), "".to_owned()).unwrap();
    let l = b.schedule_lecture(st.id, 1, 0, "T".to_owned(), None).unwrap();
    let a = b.create_attendance_record(st.id, "x".to_owned()).unwrap();
    let m = b.send_reminder_to_student(st.id, "y".to_owned(), None, 0).unwrap();

    b.delete_lecture(l.id).unwrap();
    assert!(matches!(b.get_lecture(l.id), Err(Error::NotFound { .. })));
    b.delete_attendance_record(a.id).unwrap();
    assert!(matches!(b.get_attendance_record(a.id), Err(Error::NotFound { .. })));
    b.delete_message(m.id).unwrap();
    assert!(b._get_message(m.id).is_none());
    b.delete_student(st.id).unwrap();
    assert!(matches!(b.get_student(st.id), Err(Error::NotFound { .. })));

    assert!(matches!(b.delete_student(st.id), Err(Error::NotFound { .. })));
    assert!(matches!(b.delete_lecture(l.id), Err(Error::NotFound { .. })));
    assert!(matches!(b.delete_attendance_record(a.id), Err(Error::NotFound { .. })));
    assert!(matches!(b.delete_message(m.id), Err(Error::NotFound { .. })));
}

#[test]
fn list_after_creates_and_deletes_matches_last_written() {
    let mut b = Backend::new();
    let s1 = b.register_student("One".to_owned(), "1".to_owned(), "".to_owned()).unwrap();
    let s2 = b.register_student("Two".to_owned(), "2".to_owned(), "".to_owned()).unwrap();
    let s3 = b.register_student("Three".to_owned(), "3".to_owned(), "".to_owned()).unwrap();
    b.delete_student(s2.id).unwrap();
    let s3b = b
        .update_student(s3.id, "Three B".to_owned(), "3b".to_owned(), "late".to_owned())
        .unwrap();
    let listed = b.list_students();
    assert_eq!(listed.len(), 2);
    assert_eq!(listed[0], s1);
    assert_eq!(listed[1], s3b);
    assert!(listed[0].id < listed[1].id);
}

#[test]
fn update_on_missing_id_creates_nothing() {
    let mut b = Backend::new();
    let r = b.update_student(17, "Ghost".to_owned(), "".to_owned(), "".to_owned());
    assert!(matches!(r, Err(Error::NotFound { .. })));
    assert!(b.list_students().is_empty());
    assert!(matches!(
        b.update_lecture(17, 0, 0, 0, "T".to_owned(), None),
        Err(Error::NotFound { .. })
    ));
    assert!(b.list_lectures().is_empty());
    assert!(matches!(
        b.update_attendance_record(17, 0, "x".to_owned()),
        Err(Error::NotFound { .. })
    ));
    assert!(b.list_attendance_records().is_empty());
    assert!(matches!(
        b.update_message(0, 17, "x".to_owned(), None),
        Err(Error::NotFound { .. })
    ));
    assert!(b.list_messages().is_empty());
}

#[test]
fn update_replaces_whole_record() {
    let mut b = Backend::new();
    let st = b
        .register_student("Ann".to_owned(), "555".to_owned(), "present".to_owned())
        .unwrap();
    let st2 = b
        .update_student(st.id, "Anne".to_owned(), "".to_owned(), "".to_owned())
        .unwrap();
    assert_eq!(st2.id, st.id);
    assert_eq!(st2.name, "Anne");
    assert_eq!(st2.contact_details, "");
    assert_eq!(st2.attendance_history, "");
    assert_eq!(b.get_student(st.id).unwrap(), st2);

    let l = b
        .schedule_lecture(st.id, 1, 10, "Old".to_owned(), Some(mm(Some("i"), None, None)))
        .unwrap();
    let l2 = b.update_lecture(l.id, 9, 8, 20, "New".to_owned(), None).unwrap();
    assert_eq!(b.get_lecture(l.id).unwrap(), l2);
    assert_eq!(l2.topic, "New");
    assert_eq!(l2.multimedia_content, None);

    let a = b.create_attendance_record(st.id, "present".to_owned()).unwrap();
    let a2 = b.update_attendance_record(a.id, 77, "absent".to_owned()).unwrap();
    assert_eq!(b.get_attendance_record(a.id).unwrap(), a2);
    assert_eq!(a2.student_id, 77);
    assert_eq!(a2.attendance_status, "absent");
}

#[test]
fn update_message_checks_sender_authorization() {
    let mut b = Backend::new();
    let st = b.register_student("A".to_owned(), "".to_owned(), "".to_owned()).unwrap();
    let m = b
        .send_reminder_to_student(st.id, "original".to_owned(), None, 42)
        .unwrap();

    let denied = b.update_message(7, m.id, "hacked".to_owned(), None);
    assert!(matches!(denied, Err(Error::InvalidInput { .. })));
    assert_eq!(b._get_message(m.id).unwrap().content, "original");

    let empty = b.update_message(42, m.id, "".to_owned(), None);
    assert!(matches!(empty, Err(Error::InvalidInput { .. })));

    let updated = b
        .update_message(42, m.id, "revised".to_owned(), Some(mm(None, None, Some("au"))))
        .unwrap();
    assert_eq!(updated.id, m.id);
    assert_eq!(updated.sender_id, 42);
    assert_eq!(updated.receiver_id, st.id);
    assert_eq!(updated.content, "revised");
    assert_eq!(b._get_message(m.id).unwrap(), updated);
}

#[test]
fn oversized_records_are_rejected() {
    let mut b = Backend::new();
    let huge = "x".repeat(3000);
    let r = b.register_student(huge.clone(), "".to_owned(), "".to_owned());
    assert!(matches!(r, Err(Error::TooLarge { .. })));
    assert!(b.list_students().is_empty());
    assert_eq!(b.next_id(), 1);

    let st = b.register_student("A".to_owned(), "".to_owned(), "".to_owned()).unwrap();
    assert!(matches!(
        b.update_student(st.id, huge.clone(), "".to_owned(), "".to_owned()),
        Err(Error::TooLarge { .. })
    ));
    assert_eq!(b.get_student(st.id).unwrap(), st);
    assert!(matches!(
        b.schedule_lecture(1, 2, 3, huge.clone(), None),
        Err(Error::TooLarge { .. })
    ));
    assert!(matches!(
        b.create_attendance_record(1, huge.clone()),
        Err(Error::TooLarge { .. })
    ));
    assert!(matches!(
        b.send_reminder_to_student(st.id, huge, None, 0),
        Err(Error::TooLarge { .. })
    ));
}

#[test]
fn records_near_the_ceiling_round_trip() {
    let mut b = Backend::new();
    let name = "n".repeat(1000);
    let contact = "c".repeat(900);
    let st = b.register_student(name.clone(), contact.clone(), "".to_owned()).unwrap();
    let got = b.get_student(st.id).unwrap();
    assert_eq!(got.name, name);
    assert_eq!(got.contact_details, contact);
}

#[test]
fn multimedia_variants_round_trip() {
    let mut b = Backend::new();
    let st = b.register_student("A".to_owned(), "".to_owned(), "".to_owned()).unwrap();
    let cases = vec![
        None,
        Some(mm(None, None, None)),
        Some(mm(Some("http://image"), Some("http://video"), Some("http://audio"))),
        Some(mm(None, Some(""), None)),
    ];
    for c in cases {
        let m = b
            .send_reminder_to_student(st.id, "ping".to_owned(), c.clone(), 1)
            .unwrap();
        assert_eq!(m.multimedia_content, c);
        assert_eq!(b._get_message(m.id).unwrap().multimedia_content, c);
    }
}

#[test]
fn non_ascii_text_round_trips() {
    let mut b = Backend::new();
    let name = "Åse 学生 🚀".to_owned();
    let st = b.register_student(name.clone(), "".to_owned(), "".to_owned()).unwrap();
    assert_eq!(b.get_student(st.id).unwrap().name, name);
}

#[test]
fn list_keeps_ascending_identifier_order() {
    let mut b = Backend::new();
    let mut ids = Vec::new();
    for i in 0..5 {
        let st = b
            .register_student(format!("S{}", i), "".to_owned(), "".to_owned())
            .unwrap();
        ids.push(st.id);
    }
    b.delete_student(ids[2]).unwrap();
    let listed = b.list_students();
    assert_eq!(listed.len(), 4);
    for w in listed.windows(2) {
        assert!(w[0].id < w[1].id);
    }
}

#[test]
fn record_exactly_at_the_ceiling_is_accepted() {
    // A student record encodes to 32 bytes of fixed overhead plus the text
    // bytes, so a 2016-byte name lands exactly on the 2048-byte ceiling.
    let mut b = Backend::new();
    let name = "n".repeat(2016);
    let st = b.register_student(name.clone(), "".to_owned(), "".to_owned()).unwrap();
    assert_eq!(b.get_student(st.id).unwrap().name, name);

    let over = "n".repeat(2017);
    assert!(matches!(
        b.register_student(over, "".to_owned(), "".to_owned()),
        Err(Error::TooLarge { .. })
    ));
}

#[test]
fn empty_free_form_fields_round_trip() {
    let mut b = Backend::new();
    let a = b.create_attendance_record(5, "".to_owned()).unwrap();
    assert_eq!(b.get_attendance_record(a.id).unwrap(), a);
    assert_eq!(a.attendance_status, "");
}

#[test]
fn empty_required_field_wins_over_missing_id_on_update() {
    let mut b = Backend::new();
    assert!(matches!(
        b.update_student(17, "".to_owned(), "c".to_owned(), "h".to_owned()),
        Err(Error::InvalidInput { .. })
    ));
    assert!(matches!(
        b.update_lecture(17, 0, 0, 0, "".to_owned(), None),
        Err(Error::InvalidInput { .. })
    ));
    assert!(matches!(
        b.update_message(0, 17, "".to_owned(), None),
        Err(Error::InvalidInput { .. })
    ));
    assert!(b.list_students().is_empty());
    assert!(b.list_lectures().is_empty());
    assert!(b.list_messages().is_empty());
}

#[test]
fn not_found_messages_name_the_offending_id() {
    let mut b = Backend::new();
    match b.get_student(1234) {
        Err(Error::NotFound { msg }) => {
            assert_eq!(msg, "get_student: no such student with id=1234");
        },
        other => panic!("unexpected result: {:?}", other),
    }
    match b.send_reminder_to_student(999, "hi".to_owned(), None, 0) {
        Err(Error::NotFound { msg }) => {
            assert_eq!(msg, "send_reminder_to_student: no such student with id=999");
        },
        other => panic!("unexpected result: {:?}", other),
    }
    match b.delete_message(0) {
        Err(Error::NotFound { msg }) => {
            assert_eq!(msg, "delete_message: no such message with id=0");
        },
        other => panic!("unexpected result: {:?}", other),
    }
    match b.update_message(0, 40, "x".to_owned(), None) {
        Err(Error::NotFound { msg }) => {
            assert_eq!(msg, "update_message: no such message with id=40");
        },
        other => panic!("unexpected result: {:?}", other),
    }
}
