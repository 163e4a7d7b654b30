//! The wire-protocol envelope: a six-frame message with a fixed delimiter,
//! a keyed signature, and four JSON parts in fixed order.
use vstd::prelude::*;
use crate::crypto::compute_signature;
use crate::crypto::spec_signature;
use crate::jsonstr::json_quote;
use crate::jsonstr::quote_chars;
use crate::text::spec_dec;
use crate::text::format_u64;
use crate::text::str_to_chars;
use crate::text::chars_to_string;
use crate::text::str_eq;

verus! {

/// The delimiter frame that separates routing frames from the message body.
pub open spec fn delim_seq() -> Seq<char> {
    "<IDS|MSG>"@
}

/// The username the header carries.
pub open spec fn username_seq() -> Seq<char> {
    "shoulders"@
}

/// The protocol version literal the header carries.
pub open spec fn version_seq() -> Seq<char> {
    "5.3"@
}

/// The canonical header JSON: six string fields in fixed order, each value
/// escaped as `jsonstr` pins down, with no whitespace.
pub open spec fn spec_header_json(
    msg_id: Seq<char>,
    session: Seq<char>,
    date: Seq<char>,
    msg_type: Seq<char>,
) -> Seq<char> {
    "{\"msg_id\":"@ + json_quote(msg_id) + ",\"session\":"@ + json_quote(session)
        + ",\"username\":"@ + json_quote(username_seq()) + ",\"date\":"@ + json_quote(date)
        + ",\"msg_type\":"@ + json_quote(msg_type) + ",\"version\":"@ + json_quote(version_seq())
        + "}"@
}

/// Builds the canonical header JSON for a message.
pub fn header_json(msg_id: &str, session: &str, date: &str, msg_type: &str) -> (r: String)
    ensures
        r@ == spec_header_json(msg_id@, session@, date@, msg_type@),
{
    let mut out: Vec<char> = str_to_chars("{\"msg_id\":");
    let mut q = quote_chars(&str_to_chars(msg_id));
    out.append(&mut q);
    let mut part = str_to_chars(",\"session\":");
    out.append(&mut part);
    let mut q2 = quote_chars(&str_to_chars(session));
    out.append(&mut q2);
    let mut part2 = str_to_chars(",\"username\":");
    out.append(&mut part2);
    let mut q3 = quote_chars(&str_to_chars("shoulders"));
    out.append(&mut q3);
    let mut part3 = str_to_chars(",\"date\":");
    out.append(&mut part3);
    let mut q4 = quote_chars(&str_to_chars(date));
    out.append(&mut q4);
    let mut part4 = str_to_chars(",\"msg_type\":");
    out.append(&mut part4);
    let mut q5 = quote_chars(&str_to_chars(msg_type));
    out.append(&mut q5);
    let mut part5 = str_to_chars(",\"version\":");
    out.append(&mut part5);
    let mut q6 = quote_chars(&str_to_chars("5.3"));
    out.append(&mut q6);
    let mut part6 = str_to_chars("}");
    out.append(&mut part6);
    proof {
        assert(out@ =~= spec_header_json(msg_id@, session@, date@, msg_type@));
    }
    chars_to_string(&out)
}

/// The canonical content of an execute request, keys in serialization order.
pub open spec fn spec_execute_content(code: Seq<char>) -> Seq<char> {
    "{\"allow_stdin\":false,\"code\":"@ + json_quote(code)
        + ",\"silent\":false,\"stop_on_error\":true,\"store_history\":true,\"user_expressions\":{}}"@
}

/// Builds the content part of an execute request for one code cell.
pub fn execute_content(code: &str) -> (r: String)
    ensures
        r@ == spec_execute_content(code@),
{
    let mut out: Vec<char> = str_to_chars("{\"allow_stdin\":false,\"code\":");
    let mut q = quote_chars(&str_to_chars(code));
    out.append(&mut q);
    let mut tail = str_to_chars(
        ",\"silent\":false,\"stop_on_error\":true,\"store_history\":true,\"user_expressions\":{}}",
    );
    out.append(&mut tail);
    proof {
        assert(out@ =~= spec_execute_content(code@));
    }
    chars_to_string(&out)
}

/// The canonical content of a completion request.
pub open spec fn spec_complete_content(code: Seq<char>, cursor_pos: nat) -> Seq<char> {
    "{\"code\":"@ + json_quote(code) + ",\"cursor_pos\":"@ + spec_dec(cursor_pos) + "}"@
}

/// Builds the content part of a completion request.
pub fn complete_content(code: &str, cursor_pos: usize) -> (r: String)
    ensures
        r@ == spec_complete_content(code@, cursor_pos as nat),
{
    let mut out: Vec<char> = str_to_chars("{\"code\":");
    let mut q = quote_chars(&str_to_chars(code));
    out.append(&mut q);
    let mut mid = str_to_chars(",\"cursor_pos\":");
    out.append(&mut mid);
    let mut num = format_u64(cursor_pos as u64);
    out.append(&mut num);
    let mut tail = str_to_chars("}");
    out.append(&mut tail);
    proof {
        assert(out@ =~= spec_complete_content(code@, cursor_pos as nat));
    }
    chars_to_string(&out)
}

/// A wire message: the six frames in send order.
pub struct WireMessage {
    pub frames: Vec<String>,
}

/// The frames of a sequence of strings, viewed as character sequences.
pub open spec fn frames_view(fs: Seq<String>) -> Seq<Seq<char>> {
    fs.map_values(|s: String| s@)
}

/// The six frames a message with the given parts is sent as: delimiter,
/// signature, header, parent header, metadata, content.
pub open spec fn spec_wire_frames(
    msg_id: Seq<char>,
    session: Seq<char>,
    date: Seq<char>,
    msg_type: Seq<char>,
    content: Seq<char>,
    key: Seq<char>,
) -> Seq<Seq<char>> {
    let header = spec_header_json(msg_id, session, date, msg_type);
    seq![
        delim_seq(),
        spec_signature(key, header, "{}"@, "{}"@, content),
        header,
        "{}"@,
        "{}"@,
        content,
    ]
}

impl WireMessage {
    pub open spec fn view_frames(&self) -> Seq<Seq<char>> {
        frames_view(self.frames@)
    }
}

/// Encodes a message: builds the canonical header from the given identity
/// fields, signs the four parts with the key, and lays out the six frames
/// in wire order. The signature frame is empty exactly when the key is,
/// and otherwise holds the 64 hex characters of the 32-byte digest.
pub fn encode_message(
    msg_type: &str,
    session: &str,
    msg_id: &str,
    date: &str,
    content_json: &str,
    key: &str,
) -> (r: WireMessage)
    ensures
        r.view_frames() == spec_wire_frames(msg_id@, session@, date@, msg_type@, content_json@, key@),
        r.view_frames()[1].len() == (if key@.len() == 0 {
            0int
        } else {
            64int
        }),
{
    let header = header_json(msg_id, session, date, msg_type);
    let parent = String::from_str("{}");
    let metadata = String::from_str("{}");
    let signature = compute_signature(key, header.as_str(), parent.as_str(), metadata.as_str(),
        content_json);
    let mut frames: Vec<String> = Vec::new();
    frames.push(String::from_str("<IDS|MSG>"));
    frames.push(signature);
    frames.push(header);
    frames.push(parent);
    frames.push(metadata);
    frames.push(String::from_str(content_json));
    let r = WireMessage { frames };
    proof {
        assert(r.view_frames() =~= spec_wire_frames(
            msg_id@,
            session@,
            date@,
            msg_type@,
            content_json@,
            key@,
        ));
    }
    r
}

/// The five frames that follow the delimiter, in wire order.
pub struct WireParts {
    pub signature: String,
    pub header: String,
    pub parent: String,
    pub metadata: String,
    pub content: String,
}

/// Index of the first delimiter frame, or the frame count if there is none.
pub open spec fn find_delim(fv: Seq<Seq<char>>) -> int
    decreases fv.len(),
{
    if fv.len() == 0 {
        0
    } else if fv.first() == delim_seq() {
        0
    } else {
        1 + find_delim(fv.drop_first())
    }
}

proof fn lemma_find_delim_at(fv: Seq<Seq<char>>, j: int)
    requires
        0 <= j <= fv.len(),
        forall|k: int| 0 <= k < j ==> fv[k] != delim_seq(),
        j < fv.len() ==> fv[j] == delim_seq(),
    ensures
        find_delim(fv) == j,
    decreases j,
{
    if fv.len() == 0 {
    } else if j == 0 {
    } else {
        lemma_find_delim_at(fv.drop_first(), j - 1);
    }
}

/// Locates the delimiter frame and reads the five frames after it. `Some`
/// exactly when a delimiter exists with at least five frames following;
/// the parts are those frames, verbatim.
pub fn split_frames(frames: &Vec<String>) -> (r: Option<WireParts>)
    ensures
        match r {
            Some(p) => {
                let fv = frames_view(frames@);
                let d = find_delim(fv);
                &&& d + 6 <= fv.len()
                &&& p.signature@ == fv[d + 1]
                &&& p.header@ == fv[d + 2]
                &&& p.parent@ == fv[d + 3]
                &&& p.metadata@ == fv[d + 4]
                &&& p.content@ == fv[d + 5]
            },
            None => find_delim(frames_view(frames@)) + 6 > frames_view(frames@).len(),
        },
{
    let ghost fv = frames_view(frames@);
    let n = frames.len();
    let mut i: usize = 0;
    while i < n
        invariant
            n == frames@.len(),
            fv == frames_view(frames@),
            i <= n,
            forall|k: int| 0 <= k < i ==> fv[k] != delim_seq(),
        decreases n - i,
    {
        if str_eq(frames[i].as_str(), "<IDS|MSG>") {
            proof {
                lemma_find_delim_at(fv, i as int);
            }
            if n - i < 6 {
                return None;
            }
            let r = WireParts {
                signature: frames[i + 1].clone(),
                header: frames[i + 2].clone(),
                parent: frames[i + 3].clone(),
                metadata: frames[i + 4].clone(),
                content: frames[i + 5].clone(),
            };
            return Some(r);
        }
        i = i + 1;
    }
    proof {
        lemma_find_delim_at(fv, n as int);
    }
    None
}

/// Decoding inverts encoding: the six frames built from any message parts
/// split back into exactly those parts. The delimiter stands first, the
/// content and header frames carry the input content and the canonical
/// header of the input identity fields, the header frame alone determines
/// the message type that went in, and the signature frame is the keyed
/// hash of the four parts.
pub proof fn lemma_encode_decode_round_trip(
    msg_id: Seq<char>,
    session: Seq<char>,
    date: Seq<char>,
    msg_type: Seq<char>,
    content: Seq<char>,
    key: Seq<char>,
)
    ensures
        ({
            let w = spec_wire_frames(msg_id, session, date, msg_type, content, key);
            let header = spec_header_json(msg_id, session, date, msg_type);
            &&& find_delim(w) == 0
            &&& w.len() == 6
            &&& w[find_delim(w) + 5] == content
            &&& w[find_delim(w) + 2] == header
            &&& header_msg_type(w[find_delim(w) + 2]) == msg_type
            &&& w[find_delim(w) + 3] == "{}"@
            &&& w[find_delim(w) + 4] == "{}"@
            &&& w[find_delim(w) + 1] == spec_signature(key, header, "{}"@, "{}"@, content)
        }),
{
    let w = spec_wire_frames(msg_id, session, date, msg_type, content, key);
    assert(w.first() == delim_seq());
    lemma_header_msg_type(msg_id, session, date, msg_type);
}

/// Signature determinism: encoding the same message type, session and
/// content twice with the same key yields the identical signature frame,
/// provided the two encodings also carry the same message id and date. The
/// header participates in the keyed hash, so encodings that draw a fresh id
/// or timestamp are left out by the `requires`: their signatures may differ.
pub proof fn lemma_signature_deterministic(
    msg_id_a: Seq<char>,
    session_a: Seq<char>,
    date_a: Seq<char>,
    msg_type_a: Seq<char>,
    content_a: Seq<char>,
    key_a: Seq<char>,
    msg_id_b: Seq<char>,
    session_b: Seq<char>,
    date_b: Seq<char>,
    msg_type_b: Seq<char>,
    content_b: Seq<char>,
    key_b: Seq<char>,
)
    requires
        msg_type_a == msg_type_b,
        session_a == session_b,
        content_a == content_b,
        key_a == key_b,
        msg_id_a == msg_id_b,
        date_a == date_b,
    ensures
        spec_wire_frames(msg_id_a, session_a, date_a, msg_type_a, content_a, key_a)[1]
            == spec_wire_frames(msg_id_b, session_b, date_b, msg_type_b, content_b, key_b)[1],
{
}

/// The message type recovered from a canonical header: scan past the id,
/// session, username and date values, then read the type value and
/// unescape it.
pub open spec fn header_msg_type(h: Seq<char>) -> Seq<char> {
    let e1 = crate::jsonstr::str_lit_end(h, 11);
    let e2 = crate::jsonstr::str_lit_end(h, e1 + 13);
    let e3 = crate::jsonstr::str_lit_end(h, e2 + 14);
    let e4 = crate::jsonstr::str_lit_end(h, e3 + 10);
    let e5 = crate::jsonstr::str_lit_end(h, e4 + 14);
    if 0 <= e4 + 14 && e4 + 14 <= e5 && e5 <= h.len() {
        crate::jsonstr::spec_unescape(h.subrange(e4 + 14, e5))
    } else {
        Seq::empty()
    }
}

/// The canonical header determines the message type: recovering it from
/// the header built for any identity fields gives back exactly the type
/// that went in. With the round-trip lemma this closes the loop: the
/// decoded header frame of an encoded message carries its message type.
#[verifier::rlimit(100)]
pub proof fn lemma_header_msg_type(
    msg_id: Seq<char>,
    session: Seq<char>,
    date: Seq<char>,
    msg_type: Seq<char>,
)
    ensures
        header_msg_type(spec_header_json(msg_id, session, date, msg_type)) == msg_type,
{
    reveal_strlit("{\"msg_id\":");
    reveal_strlit(",\"session\":");
    reveal_strlit(",\"username\":");
    reveal_strlit(",\"date\":");
    reveal_strlit(",\"msg_type\":");
    reveal_strlit(",\"version\":");
    reveal_strlit("}");
    reveal_strlit("shoulders");
    reveal_strlit("5.3");
    let h = spec_header_json(msg_id, session, date, msg_type);
    let e1s = crate::jsonstr::spec_escape(msg_id);
    let e2s = crate::jsonstr::spec_escape(session);
    let e3s = crate::jsonstr::spec_escape(username_seq());
    let e4s = crate::jsonstr::spec_escape(date);
    let e5s = crate::jsonstr::spec_escape(msg_type);
    let e6s = crate::jsonstr::spec_escape(version_seq());
    assert("{\"msg_id\":"@.len() == 10);
    assert(",\"session\":"@.len() == 11);
    assert(",\"username\":"@.len() == 12);
    assert(",\"date\":"@.len() == 8);
    assert(",\"msg_type\":"@.len() == 12);
    assert(",\"version\":"@.len() == 11);
    assert("}"@.len() == 1);
    let p1: int = 11;
    let q1: int = p1 + e1s.len();
    let p2: int = q1 + 13;
    let q2: int = p2 + e2s.len();
    let p3: int = q2 + 14;
    let q3: int = p3 + e3s.len();
    let p4: int = q3 + 10;
    let q4: int = p4 + e4s.len();
    let p5: int = q4 + 14;
    let q5: int = p5 + e5s.len();
    assert(h.len() == q5 + 1 + 11 + 1 + e6s.len() + 1 + 1);
    assert(h.subrange(p1 as int, q1 as int) =~= e1s);
    assert(h[q1 as int] == '"');
    crate::jsonstr::lemma_str_lit_end_skips(h, p1 as int, msg_id);
    assert(crate::jsonstr::str_lit_end(h, 11) == q1);
    assert(h.subrange(p2 as int, q2 as int) =~= e2s);
    assert(h[q2 as int] == '"');
    crate::jsonstr::lemma_str_lit_end_skips(h, p2 as int, session);
    assert(crate::jsonstr::str_lit_end(h, q1 + 13) == q2);
    assert(h.subrange(p3 as int, q3 as int) =~= e3s);
    assert(h[q3 as int] == '"');
    crate::jsonstr::lemma_str_lit_end_skips(h, p3 as int, username_seq());
    assert(crate::jsonstr::str_lit_end(h, q2 + 14) == q3);
    assert(h.subrange(p4 as int, q4 as int) =~= e4s);
    assert(h[q4 as int] == '"');
    crate::jsonstr::lemma_str_lit_end_skips(h, p4 as int, date);
    assert(crate::jsonstr::str_lit_end(h, q3 + 10) == q4);
    assert(h.subrange(p5 as int, q5 as int) =~= e5s);
    assert(h[q5 as int] == '"');
    crate::jsonstr::lemma_str_lit_end_skips(h, p5 as int, msg_type);
    assert(crate::jsonstr::str_lit_end(h, q4 + 14) == q5);
    crate::jsonstr::lemma_unescape_escape(msg_type);
    assert(header_msg_type(h) == msg_type);
}

} // verus!
