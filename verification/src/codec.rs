//! Length-prefixed record codec.
//!
//! Every entity is serialized field by field: a `u64` as its eight
//! little-endian bytes, a string as a `u64` byte count followed by its UTF-8
//! bytes, and an optional value as a one-byte tag followed by the value when
//! present. Decoding is proved to invert encoding exactly, so a store that
//! only ever writes encoded records can always read its own data back.

use vstd::prelude::*;

use crate::model::{
    AttendanceRecord, AttendanceRecordView, Lecture, LectureView, Message, MessageView,
    MultiMediaContent, MultiMediaContentView, Student, StudentView,
};
use vstd::bytes::{
    lemma_auto_spec_u64_to_from_le_bytes, spec_u64_to_le_bytes, u64_from_le_bytes, u64_to_le_bytes,
};
use vstd::slice::{slice_subrange, slice_to_vec};
use vstd::utf8::{decode_utf8, encode_utf8, encode_utf8_decode_utf8, encode_utf8_valid_utf8,
    valid_utf8};

verus! {

/// Encoding of a raw byte run: a `u64` length prefix, then the bytes.
pub open spec fn spec_enc_bytes(b: Seq<u8>) -> Seq<u8> {
    spec_u64_to_le_bytes(b.len() as u64) + b
}

/// Encoding of a string: the length-prefixed run of its UTF-8 bytes.
pub open spec fn spec_enc_string(s: Seq<char>) -> Seq<u8> {
    spec_enc_bytes(encode_utf8(s))
}

/// Encoding of an optional string: a tag byte, then the string when present.
pub open spec fn spec_enc_opt_string(o: Option<Seq<char>>) -> Seq<u8> {
    match o {
        None => seq![0u8],
        Some(s) => seq![1u8] + spec_enc_string(s),
    }
}

/// Encoding of a multimedia attachment: its three optional URLs in order.
pub open spec fn spec_enc_mm(m: MultiMediaContentView) -> Seq<u8> {
    spec_enc_opt_string(m.image_url) + spec_enc_opt_string(m.video_url)
        + spec_enc_opt_string(m.audio_url)
}

/// Encoding of an optional attachment: a tag byte, then the attachment.
pub open spec fn spec_enc_opt_mm(o: Option<MultiMediaContentView>) -> Seq<u8> {
    match o {
        None => seq![0u8],
        Some(m) => seq![1u8] + spec_enc_mm(m),
    }
}

/// Serialized form of a student record.
pub open spec fn spec_enc_student(s: StudentView) -> Seq<u8> {
    spec_u64_to_le_bytes(s.id) + spec_enc_string(s.name) + spec_enc_string(s.contact_details)
        + spec_enc_string(s.attendance_history)
}

/// Serialized form of a lecture record.
pub open spec fn spec_enc_lecture(l: LectureView) -> Seq<u8> {
    spec_u64_to_le_bytes(l.id) + spec_u64_to_le_bytes(l.student_id)
        + spec_u64_to_le_bytes(l.lecturer_id) + spec_u64_to_le_bytes(l.date_time)
        + spec_enc_string(l.topic) + spec_enc_opt_mm(l.multimedia_content)
}

/// Serialized form of an attendance record.
pub open spec fn spec_enc_attendance(a: AttendanceRecordView) -> Seq<u8> {
    spec_u64_to_le_bytes(a.id) + spec_u64_to_le_bytes(a.student_id)
        + spec_enc_string(a.attendance_status)
}

/// Serialized form of a message record.
pub open spec fn spec_enc_message(m: MessageView) -> Seq<u8> {
    spec_u64_to_le_bytes(m.id) + spec_u64_to_le_bytes(m.sender_id)
        + spec_u64_to_le_bytes(m.receiver_id) + spec_enc_string(m.content)
        + spec_enc_opt_mm(m.multimedia_content)
}

fn enc_u64(out: &mut Vec<u8>, x: u64)
    ensures
        final(out)@ == old(out)@ + spec_u64_to_le_bytes(x),
{
    let mut b = u64_to_le_bytes(x);
    out.append(&mut b);
}

fn enc_string(out: &mut Vec<u8>, s: &String)
    ensures
        final(out)@ == old(out)@ + spec_enc_string(s@),
{
    let mut bytes = slice_to_vec(s.as_str().as_bytes());
    let n: u64 = bytes.len() as u64;
    proof {
        assert(bytes@ == encode_utf8(s@));
        assert(n == encode_utf8(s@).len() as u64);
    }
    enc_u64(out, n);
    out.append(&mut bytes);
    proof {
        assert(out@ =~= old(out)@ + spec_enc_string(s@));
    }
}

fn enc_opt_string(out: &mut Vec<u8>, o: &Option<String>)
    ensures
        final(out)@ == old(out)@ + spec_enc_opt_string(o.deep_view()),
{
    match o {
        None => {
            out.push(0u8);
            proof {
                assert(out@ =~= old(out)@ + spec_enc_opt_string(o.deep_view()));
            }
        },
        Some(s) => {
            out.push(1u8);
            enc_string(out, s);
            proof {
                assert(out@ =~= old(out)@ + spec_enc_opt_string(o.deep_view()));
            }
        },
    }
}

fn enc_mm(out: &mut Vec<u8>, m: &MultiMediaContent)
    ensures
        final(out)@ == old(out)@ + spec_enc_mm(m@),
{
    enc_opt_string(out, &m.image_url);
    enc_opt_string(out, &m.video_url);
    enc_opt_string(out, &m.audio_url);
    proof {
        assert(out@ =~= old(out)@ + spec_enc_mm(m@));
    }
}

fn enc_opt_mm(out: &mut Vec<u8>, o: &Option<MultiMediaContent>)
    ensures
        final(out)@ == old(out)@ + spec_enc_opt_mm(crate::model::opt_mm_view(*o)),
{
    match o {
        None => {
            out.push(0u8);
            proof {
                assert(out@ =~= old(out)@ + spec_enc_opt_mm(crate::model::opt_mm_view(*o)));
            }
        },
        Some(m) => {
            out.push(1u8);
            enc_mm(out, m);
            proof {
                assert(out@ =~= old(out)@ + spec_enc_opt_mm(crate::model::opt_mm_view(*o)));
            }
        },
    }
}

/// Serializes a student record.
pub(crate) fn encode_student(s: &Student) -> (r: Vec<u8>)
    ensures
        r@ == spec_enc_student(s@),
{
    let mut out: Vec<u8> = Vec::new();
    enc_u64(&mut out, s.id);
    enc_string(&mut out, &s.name);
    enc_string(&mut out, &s.contact_details);
    enc_string(&mut out, &s.attendance_history);
    proof {
        assert(out@ =~= spec_enc_student(s@));
    }
    out
}

/// Serializes a lecture record.
pub(crate) fn encode_lecture(l: &Lecture) -> (r: Vec<u8>)
    ensures
        r@ == spec_enc_lecture(l@),
{
    let mut out: Vec<u8> = Vec::new();
    enc_u64(&mut out, l.id);
    enc_u64(&mut out, l.student_id);
    enc_u64(&mut out, l.lecturer_id);
    enc_u64(&mut out, l.date_time);
    enc_string(&mut out, &l.topic);
    enc_opt_mm(&mut out, &l.multimedia_content);
    proof {
        assert(out@ =~= spec_enc_lecture(l@));
    }
    out
}

/// Serializes an attendance record.
pub(crate) fn encode_attendance(a: &AttendanceRecord) -> (r: Vec<u8>)
    ensures
        r@ == spec_enc_attendance(a@),
{
    let mut out: Vec<u8> = Vec::new();
    enc_u64(&mut out, a.id);
    enc_u64(&mut out, a.student_id);
    enc_string(&mut out, &a.attendance_status);
    proof {
        assert(out@ =~= spec_enc_attendance(a@));
    }
    out
}

/// Serializes a message record.
pub(crate) fn encode_message(m: &Message) -> (r: Vec<u8>)
    ensures
        r@ == spec_enc_message(m@),
{
    let mut out: Vec<u8> = Vec::new();
    enc_u64(&mut out, m.id);
    enc_u64(&mut out, m.sender_id);
    enc_u64(&mut out, m.receiver_id);
    enc_string(&mut out, &m.content);
    enc_opt_mm(&mut out, &m.multimedia_content);
    proof {
        assert(out@ =~= spec_enc_message(m@));
    }
    out
}

/// Relies on `String::from_utf8`: it returns `Ok` exactly on UTF-8-valid
/// input, and then yields the string those bytes encode.
#[verifier::external_body]
fn bytes_to_string(v: Vec<u8>) -> (r: Option<String>)
    ensures
        r is Some <==> valid_utf8(v@),
        r matches Some(s) ==> s@ == decode_utf8(v@),
{
    String::from_utf8(v).ok()
}
/// Both halves of a run of bytes that was written as `x` followed by `y`.
proof fn lemma_chunk<T>(b: Seq<T>, pos: int, x: Seq<T>, y: Seq<T>)
    requires
        0 <= pos,
        pos + x.len() + y.len() <= b.len(),
        b.subrange(pos, pos + x.len() + y.len()) == x + y,
    ensures
        b.subrange(pos, pos + x.len() as int) == x,
        b.subrange(pos + x.len() as int, pos + x.len() + y.len()) == y,
{
    let e = b.subrange(pos, pos + x.len() + y.len());
    assert forall|i: int| 0 <= i < x.len() implies b.subrange(pos, pos + x.len() as int)[i]
        == x[i] by {
        assert(e[i] == (x + y)[i]);
    }
    assert forall|i: int| 0 <= i < y.len() implies b.subrange(
        pos + x.len() as int,
        pos + x.len() + y.len(),
    )[i] == y[i] by {
        assert(e[x.len() + i] == b[pos + x.len() + i]);
        assert(e[x.len() + i] == (x + y)[x.len() + i]);
        assert(b.subrange(pos + x.len() as int, pos + x.len() + y.len())[i] == b[pos + x.len()
            + i]);
    }
    assert(b.subrange(pos, pos + x.len() as int) =~= x);
    assert(b.subrange(pos + x.len() as int, pos + x.len() + y.len()) =~= y);
}

fn dec_u64(b: &Vec<u8>, pos: usize, Ghost(x): Ghost<u64>) -> (r: (u64, usize))
    requires
        pos + 8 <= b@.len(),
        b@.subrange(pos as int, pos as int + 8) == spec_u64_to_le_bytes(x),
    ensures
        r == (x, (pos + 8) as usize),
{
    proof {
        lemma_auto_spec_u64_to_from_le_bytes();
    }
    let _blen: usize = b.len();
    let s = slice_subrange(b.as_slice(), pos, pos + 8);
    let v = u64_from_le_bytes(s);
    (v, pos + 8)
}

fn dec_string(b: &Vec<u8>, pos: usize, Ghost(s): Ghost<Seq<char>>) -> (r: (String, usize))
    requires
        pos + spec_enc_string(s).len() <= b@.len(),
        b@.subrange(pos as int, pos as int + spec_enc_string(s).len() as int)
            == spec_enc_string(s),
    ensures
        r.0@ == s,
        r.1 == pos + spec_enc_string(s).len(),
{
    let ghost u = encode_utf8(s);
    let ghost lpre = spec_u64_to_le_bytes(u.len() as u64);
    let _blen: usize = b.len();
    proof {
        lemma_auto_spec_u64_to_from_le_bytes();
        lemma_chunk(b@, pos as int, lpre, u);
    }
    let (n, p1) = dec_u64(b, pos, Ghost(u.len() as u64));
    proof {
        assert(u.len() <= b@.len());
    }
    let m = n as usize;
    let bytes = slice_to_vec(slice_subrange(b.as_slice(), p1, p1 + m));
    proof {
        assert(bytes@ == u);
        encode_utf8_valid_utf8(s);
        encode_utf8_decode_utf8(s);
    }
    match bytes_to_string(bytes) {
        Some(st) => (st, p1 + m),
        None => {
            proof {
                assert(false);
            }
            (String::new(), p1 + m)
        },
    }
}

fn dec_opt_string(b: &Vec<u8>, pos: usize, Ghost(o): Ghost<Option<Seq<char>>>) -> (r: (
    Option<String>,
    usize,
))
    requires
        pos + spec_enc_opt_string(o).len() <= b@.len(),
        b@.subrange(pos as int, pos as int + spec_enc_opt_string(o).len() as int)
            == spec_enc_opt_string(o),
    ensures
        r.0.deep_view() == o,
        r.1 == pos + spec_enc_opt_string(o).len(),
{
    let _blen: usize = b.len();
    proof {
        assert(b@.subrange(
            pos as int,
            pos as int + spec_enc_opt_string(o).len() as int,
        )[0] == spec_enc_opt_string(o)[0]);
    }
    let tag = b[pos];
    if tag == 0 {
        proof {
            if o is Some {
                assert(spec_enc_opt_string(o)[0] == 1u8);
                assert(false);
            }
        }
        (None, pos + 1)
    } else {
        let ghost es = spec_enc_string(o.unwrap());
        proof {
            if o is None {
                assert(spec_enc_opt_string(o)[0] == 0u8);
                assert(false);
            }
            lemma_chunk(b@, pos as int, seq![1u8], es);
        }
        let (st, p) = dec_string(b, pos + 1, Ghost(o.unwrap()));
        (Some(st), p)
    }
}

fn dec_mm(b: &Vec<u8>, pos: usize, Ghost(m): Ghost<MultiMediaContentView>) -> (r: (
    MultiMediaContent,
    usize,
))
    requires
        pos + spec_enc_mm(m).len() <= b@.len(),
        b@.subrange(pos as int, pos as int + spec_enc_mm(m).len() as int) == spec_enc_mm(m),
    ensures
        r.0@ == m,
        r.1 == pos + spec_enc_mm(m).len(),
{
    let ghost e1 = spec_enc_opt_string(m.image_url);
    let ghost e2 = spec_enc_opt_string(m.video_url);
    let ghost e3 = spec_enc_opt_string(m.audio_url);
    proof {
        lemma_chunk(b@, pos as int, e1 + e2, e3);
        lemma_chunk(b@, pos as int, e1, e2);
    }
    let (image_url, p1) = dec_opt_string(b, pos, Ghost(m.image_url));
    let (video_url, p2) = dec_opt_string(b, p1, Ghost(m.video_url));
    let (audio_url, p3) = dec_opt_string(b, p2, Ghost(m.audio_url));
    (MultiMediaContent { image_url, video_url, audio_url }, p3)
}

fn dec_opt_mm(b: &Vec<u8>, pos: usize, Ghost(o): Ghost<Option<MultiMediaContentView>>) -> (r: (
    Option<MultiMediaContent>,
    usize,
))
    requires
        pos + spec_enc_opt_mm(o).len() <= b@.len(),
        b@.subrange(pos as int, pos as int + spec_enc_opt_mm(o).len() as int)
            == spec_enc_opt_mm(o),
    ensures
        crate::model::opt_mm_view(r.0) == o,
        r.1 == pos + spec_enc_opt_mm(o).len(),
{
    let _blen: usize = b.len();
    proof {
        assert(b@.subrange(
            pos as int,
            pos as int + spec_enc_opt_mm(o).len() as int,
        )[0] == spec_enc_opt_mm(o)[0]);
    }
    let tag = b[pos];
    if tag == 0 {
        proof {
            if o is Some {
                assert(spec_enc_opt_mm(o)[0] == 1u8);
                assert(false);
            }
        }
        (None, pos + 1)
    } else {
        let ghost em = spec_enc_mm(o.unwrap());
        proof {
            if o is None {
                assert(spec_enc_opt_mm(o)[0] == 0u8);
                assert(false);
            }
            lemma_chunk(b@, pos as int, seq![1u8], em);
        }
        let (m, p) = dec_mm(b, pos + 1, Ghost(o.unwrap()));
        (Some(m), p)
    }
}

/// Deserializes a student record, inverting [`encode_student`].
pub(crate) fn decode_student(b: &Vec<u8>, Ghost(sv): Ghost<StudentView>) -> (r: Student)
    requires
        b@ == spec_enc_student(sv),
    ensures
        r@ == sv,
{
    let ghost a = spec_u64_to_le_bytes(sv.id);
    let ghost s1 = spec_enc_string(sv.name);
    let ghost s2 = spec_enc_string(sv.contact_details);
    let ghost s3 = spec_enc_string(sv.attendance_history);
    proof {
        lemma_auto_spec_u64_to_from_le_bytes();
        assert(b@.subrange(0, b@.len() as int) =~= b@);
        lemma_chunk(b@, 0, (a + s1) + s2, s3);
        lemma_chunk(b@, 0, a + s1, s2);
        lemma_chunk(b@, 0, a, s1);
    }
    let (id, p1) = dec_u64(b, 0, Ghost(sv.id));
    let (name, p2) = dec_string(b, p1, Ghost(sv.name));
    let (contact_details, p3) = dec_string(b, p2, Ghost(sv.contact_details));
    let (attendance_history, _p4) = dec_string(b, p3, Ghost(sv.attendance_history));
    Student { id, name, contact_details, attendance_history }
}

/// Deserializes a lecture record, inverting [`encode_lecture`].
pub(crate) fn decode_lecture(b: &Vec<u8>, Ghost(lv): Ghost<LectureView>) -> (r: Lecture)
    requires
        b@ == spec_enc_lecture(lv),
    ensures
        r@ == lv,
{
    let ghost a1 = spec_u64_to_le_bytes(lv.id);
    let ghost a2 = spec_u64_to_le_bytes(lv.student_id);
    let ghost a3 = spec_u64_to_le_bytes(lv.lecturer_id);
    let ghost a4 = spec_u64_to_le_bytes(lv.date_time);
    let ghost st = spec_enc_string(lv.topic);
    let ghost sm = spec_enc_opt_mm(lv.multimedia_content);
    proof {
        lemma_auto_spec_u64_to_from_le_bytes();
        assert(b@.subrange(0, b@.len() as int) =~= b@);
        lemma_chunk(b@, 0, (((a1 + a2) + a3) + a4) + st, sm);
        lemma_chunk(b@, 0, ((a1 + a2) + a3) + a4, st);
        lemma_chunk(b@, 0, (a1 + a2) + a3, a4);
        lemma_chunk(b@, 0, a1 + a2, a3);
        lemma_chunk(b@, 0, a1, a2);
    }
    let (id, p1) = dec_u64(b, 0, Ghost(lv.id));
    let (student_id, p2) = dec_u64(b, p1, Ghost(lv.student_id));
    let (lecturer_id, p3) = dec_u64(b, p2, Ghost(lv.lecturer_id));
    let (date_time, p4) = dec_u64(b, p3, Ghost(lv.date_time));
    let (topic, p5) = dec_string(b, p4, Ghost(lv.topic));
    let (multimedia_content, _p6) = dec_opt_mm(b, p5, Ghost(lv.multimedia_content));
    Lecture { id, student_id, lecturer_id, date_time, topic, multimedia_content }
}

/// Deserializes an attendance record, inverting [`encode_attendance`].
pub(crate) fn decode_attendance(b: &Vec<u8>, Ghost(av): Ghost<AttendanceRecordView>) -> (r:
    AttendanceRecord)
    requires
        b@ == spec_enc_attendance(av),
    ensures
        r@ == av,
{
    let ghost a1 = spec_u64_to_le_bytes(av.id);
    let ghost a2 = spec_u64_to_le_bytes(av.student_id);
    let ghost ss = spec_enc_string(av.attendance_status);
    proof {
        lemma_auto_spec_u64_to_from_le_bytes();
        assert(b@.subrange(0, b@.len() as int) =~= b@);
        lemma_chunk(b@, 0, a1 + a2, ss);
        lemma_chunk(b@, 0, a1, a2);
    }
    let (id, p1) = dec_u64(b, 0, Ghost(av.id));
    let (student_id, p2) = dec_u64(b, p1, Ghost(av.student_id));
    let (attendance_status, _p3) = dec_string(b, p2, Ghost(av.attendance_status));
    AttendanceRecord { id, student_id, attendance_status }
}

/// Deserializes a message record, inverting [`encode_message`].
pub(crate) fn decode_message(b: &Vec<u8>, Ghost(mv): Ghost<MessageView>) -> (r: Message)
    requires
        b@ == spec_enc_message(mv),
    ensures
        r@ == mv,
{
    let ghost a1 = spec_u64_to_le_bytes(mv.id);
    let ghost a2 = spec_u64_to_le_bytes(mv.sender_id);
    let ghost a3 = spec_u64_to_le_bytes(mv.receiver_id);
    let ghost sc = spec_enc_string(mv.content);
    let ghost sm = spec_enc_opt_mm(mv.multimedia_content);
    proof {
        lemma_auto_spec_u64_to_from_le_bytes();
        assert(b@.subrange(0, b@.len() as int) =~= b@);
        lemma_chunk(b@, 0, ((a1 + a2) + a3) + sc, sm);
        lemma_chunk(b@, 0, (a1 + a2) + a3, sc);
        lemma_chunk(b@, 0, a1 + a2, a3);
        lemma_chunk(b@, 0, a1, a2);
    }
    let (id, p1) = dec_u64(b, 0, Ghost(mv.id));
    let (sender_id, p2) = dec_u64(b, p1, Ghost(mv.sender_id));
    let (receiver_id, p3) = dec_u64(b, p2, Ghost(mv.receiver_id));
    let (content, p4) = dec_string(b, p3, Ghost(mv.content));
    let (multimedia_content, _p5) = dec_opt_mm(b, p4, Ghost(mv.multimedia_content));
    Message { id, sender_id, receiver_id, content, multimedia_content }
}

} // verus!
