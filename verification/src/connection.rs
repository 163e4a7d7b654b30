//! The connection descriptor: the per-session network and security
//! parameters a freshly launched kernel reads at startup.
use vstd::prelude::*;
use crate::jsonstr::json_quote;
use crate::jsonstr::quote_chars;
use crate::text::spec_dec;
use crate::text::spec_is_digit;
use crate::text::format_u64;
use crate::text::parse_u32;
use crate::text::str_to_chars;
use crate::text::chars_to_string;
use crate::text::sub_vec;
use crate::text::chars_eq;
use crate::jsonstr::spec_escape;
use crate::jsonstr::scan_string_region;
use crate::jsonstr::unescape_canonical;
use crate::jsonstr::str_lit_end;
use crate::jsonstr::lemma_str_lit_end_skips;
use crate::jsonstr::lemma_escape_injective;
use crate::latexout::digit_run_end;
use crate::latexout::lemma_digit_run_end_at;
use crate::text::lemma_dec_props;

verus! {

/// The network and security parameters of one session: loopback IP, TCP
/// transport, five distinct ports, a random signing key, and the signature
/// scheme tag. Created fresh per launch and written once.
#[derive(Debug, PartialEq, Eq)]
pub struct ConnectionDescriptor {
    pub ip: String,
    pub transport: String,
    pub shell_port: u16,
    pub iopub_port: u16,
    pub stdin_port: u16,
    pub control_port: u16,
    pub hb_port: u16,
    pub key: String,
    pub signature_scheme: String,
}

impl ConnectionDescriptor {
    /// The five ports are pairwise distinct.
    pub open spec fn ports_distinct(&self) -> bool {
        &&& self.shell_port != self.iopub_port
        &&& self.shell_port != self.stdin_port
        &&& self.shell_port != self.control_port
        &&& self.shell_port != self.hb_port
        &&& self.iopub_port != self.stdin_port
        &&& self.iopub_port != self.control_port
        &&& self.iopub_port != self.hb_port
        &&& self.stdin_port != self.control_port
        &&& self.stdin_port != self.hb_port
        &&& self.control_port != self.hb_port
    }

    /// A well-formed descriptor: loopback, TCP, distinct ports, the scheme
    /// this crate signs with.
    pub open spec fn wf(&self) -> bool {
        &&& self.ip@ == "127.0.0.1"@
        &&& self.transport@ == "tcp"@
        &&& self.signature_scheme@ == "hmac-sha256"@
        &&& self.ports_distinct()
    }

    /// Builds a descriptor from five freshly bound ports and a signing key.
    ///
    /// Each port field is the very integer the caller's binding call
    /// returned. The binding-and-releasing strategy leaves a small window in
    /// which the system could hand the same port out twice, so the ports are
    /// checked rather than assumed: `Err` exactly when two coincide, and the
    /// launch fails rather than producing a descriptor the kernel cannot
    /// bind.
    pub fn generate(
        shell_port: u16,
        iopub_port: u16,
        stdin_port: u16,
        control_port: u16,
        hb_port: u16,
        key: String,
    ) -> (r: Result<ConnectionDescriptor, ()>)
        ensures
            match r {
                Ok(d) => {
                    &&& d.wf()
                    &&& d.shell_port == shell_port
                    &&& d.iopub_port == iopub_port
                    &&& d.stdin_port == stdin_port
                    &&& d.control_port == control_port
                    &&& d.hb_port == hb_port
                    &&& d.key == key
                },
                Err(()) => shell_port == iopub_port || shell_port == stdin_port || shell_port
                    == control_port || shell_port == hb_port || iopub_port == stdin_port
                    || iopub_port == control_port || iopub_port == hb_port || stdin_port
                    == control_port || stdin_port == hb_port || control_port == hb_port,
            },
    {
        let distinct = shell_port != iopub_port && shell_port != stdin_port && shell_port
            != control_port && shell_port != hb_port && iopub_port != stdin_port && iopub_port
            != control_port && iopub_port != hb_port && stdin_port != control_port && stdin_port
            != hb_port && control_port != hb_port;
        if !distinct {
            return Err(());
        }
        Ok(
            ConnectionDescriptor {
                ip: String::from_str("127.0.0.1"),
                transport: String::from_str("tcp"),
                shell_port,
                iopub_port,
                stdin_port,
                control_port,
                hb_port,
                key,
                signature_scheme: String::from_str("hmac-sha256"),
            },
        )
    }

    /// The exact JSON text a descriptor is persisted as: the object the
    /// spawned kernel reads, fields in fixed order, no whitespace.
    pub open spec fn spec_json(&self) -> Seq<char> {
        "{\"ip\":"@ + json_quote(self.ip@) + ",\"transport\":"@ + json_quote(self.transport@)
            + ",\"shell_port\":"@ + spec_dec(self.shell_port as nat) + ",\"iopub_port\":"@
            + spec_dec(self.iopub_port as nat) + ",\"stdin_port\":"@ + spec_dec(
            self.stdin_port as nat,
        ) + ",\"control_port\":"@ + spec_dec(self.control_port as nat) + ",\"hb_port\":"@
            + spec_dec(self.hb_port as nat) + ",\"key\":"@ + json_quote(self.key@)
            + ",\"signature_scheme\":"@ + json_quote(self.signature_scheme@) + "}"@
    }

    /// Renders the descriptor as the JSON text to persist.
    pub fn to_json(&self) -> (r: String)
        ensures
            r@ == self.spec_json(),
    {
        let mut out: Vec<char> = str_to_chars("{\"ip\":");
        let mut q1 = quote_chars(&str_to_chars(self.ip.as_str()));
        out.append(&mut q1);
        let mut p2 = str_to_chars(",\"transport\":");
        out.append(&mut p2);
        let mut q2 = quote_chars(&str_to_chars(self.transport.as_str()));
        out.append(&mut q2);
        let mut p3 = str_to_chars(",\"shell_port\":");
        out.append(&mut p3);
        let mut n1 = format_u64(self.shell_port as u64);
        out.append(&mut n1);
        let mut p4 = str_to_chars(",\"iopub_port\":");
        out.append(&mut p4);
        let mut n2 = format_u64(self.iopub_port as u64);
        out.append(&mut n2);
        let mut p5 = str_to_chars(",\"stdin_port\":");
        out.append(&mut p5);
        let mut n3 = format_u64(self.stdin_port as u64);
        out.append(&mut n3);
        let mut p6 = str_to_chars(",\"control_port\":");
        out.append(&mut p6);
        let mut n4 = format_u64(self.control_port as u64);
        out.append(&mut n4);
        let mut p7 = str_to_chars(",\"hb_port\":");
        out.append(&mut p7);
        let mut n5 = format_u64(self.hb_port as u64);
        out.append(&mut n5);
        let mut p8 = str_to_chars(",\"key\":");
        out.append(&mut p8);
        let mut q3 = quote_chars(&str_to_chars(self.key.as_str()));
        out.append(&mut q3);
        let mut p9 = str_to_chars(",\"signature_scheme\":");
        out.append(&mut p9);
        let mut q4 = quote_chars(&str_to_chars(self.signature_scheme.as_str()));
        out.append(&mut q4);
        let mut p10 = str_to_chars("}");
        out.append(&mut p10);
        proof {
            assert(out@ =~= self.spec_json());
        }
        chars_to_string(&out)
    }

    /// The file name the descriptor is persisted under in the runtime
    /// directory.
    pub fn file_name(kernel_id: &str) -> (r: String)
        ensures
            r@ == "kernel-"@ + kernel_id@ + ".json"@,
    {
        let mut s = String::from_str("kernel-");
        s.append(kernel_id);
        s.append(".json");
        s
    }
}

/// Scanning a descriptor's canonical text recovers each field's region:
/// every string value sits between its surrounding quotes, located by the
/// escape-aware scan, and every port's digits run to the following comma,
/// located by the digit scan — all boundaries functions of the text alone.
#[verifier::rlimit(100)]
proof fn lemma_descriptor_scan(d: ConnectionDescriptor)
    ensures
        ({
            let s = d.spec_json();
            let e1 = str_lit_end(s, 7);
            let e2 = str_lit_end(s, e1 + 15);
            let d1 = digit_run_end(s, e2 + 15);
            let d2 = digit_run_end(s, d1 + 14);
            let d3 = digit_run_end(s, d2 + 14);
            let d4 = digit_run_end(s, d3 + 16);
            let d5 = digit_run_end(s, d4 + 11);
            let e3 = str_lit_end(s, d5 + 8);
            let e4 = str_lit_end(s, e3 + 22);
            &&& s.subrange(7, e1) == spec_escape(d.ip@)
            &&& s.subrange(e1 + 15, e2) == spec_escape(d.transport@)
            &&& s.subrange(e2 + 15, d1) == spec_dec(d.shell_port as nat)
            &&& s.subrange(d1 + 14, d2) == spec_dec(d.iopub_port as nat)
            &&& s.subrange(d2 + 14, d3) == spec_dec(d.stdin_port as nat)
            &&& s.subrange(d3 + 16, d4) == spec_dec(d.control_port as nat)
            &&& s.subrange(d4 + 11, d5) == spec_dec(d.hb_port as nat)
            &&& s.subrange(d5 + 8, e3) == spec_escape(d.key@)
            &&& s.subrange(e3 + 22, e4) == spec_escape(d.signature_scheme@)
        }),
{
    reveal_strlit("{\"ip\":");
    reveal_strlit(",\"transport\":");
    reveal_strlit(",\"shell_port\":");
    reveal_strlit(",\"iopub_port\":");
    reveal_strlit(",\"stdin_port\":");
    reveal_strlit(",\"control_port\":");
    reveal_strlit(",\"hb_port\":");
    reveal_strlit(",\"key\":");
    reveal_strlit(",\"signature_scheme\":");
    reveal_strlit("}");
    assert("{\"ip\":"@.len() == 6);
    assert(",\"transport\":"@.len() == 13);
    assert(",\"shell_port\":"@.len() == 14);
    assert(",\"iopub_port\":"@.len() == 14);
    assert(",\"stdin_port\":"@.len() == 14);
    assert(",\"control_port\":"@.len() == 16);
    assert(",\"hb_port\":"@.len() == 11);
    assert(",\"key\":"@.len() == 7);
    assert(",\"signature_scheme\":"@.len() == 20);
    assert("}"@.len() == 1);
    let s = d.spec_json();
    let ip_e = spec_escape(d.ip@);
    let tr_e = spec_escape(d.transport@);
    let sh_d = spec_dec(d.shell_port as nat);
    let io_d = spec_dec(d.iopub_port as nat);
    let st_d = spec_dec(d.stdin_port as nat);
    let co_d = spec_dec(d.control_port as nat);
    let hb_d = spec_dec(d.hb_port as nat);
    let key_e = spec_escape(d.key@);
    let sc_e = spec_escape(d.signature_scheme@);
    lemma_dec_props(d.shell_port as nat);
    lemma_dec_props(d.iopub_port as nat);
    lemma_dec_props(d.stdin_port as nat);
    lemma_dec_props(d.control_port as nat);
    lemma_dec_props(d.hb_port as nat);
    let p1: int = 7;
    let q1: int = p1 + ip_e.len();
    let p2: int = q1 + 15;
    let q2: int = p2 + tr_e.len();
    let p3: int = q2 + 15;
    let q3: int = p3 + sh_d.len();
    let p4: int = q3 + 14;
    let q4: int = p4 + io_d.len();
    let p5: int = q4 + 14;
    let q5: int = p5 + st_d.len();
    let p6: int = q5 + 16;
    let q6: int = p6 + co_d.len();
    let p7: int = q6 + 11;
    let q7: int = p7 + hb_d.len();
    let p8: int = q7 + 8;
    let q8: int = p8 + key_e.len();
    let p9: int = q8 + 22;
    let q9: int = p9 + sc_e.len();
    assert(s.len() == q9 + 2);
    assert(s.subrange(p1, q1) =~= ip_e);
    assert(s[q1] == '"');
    lemma_str_lit_end_skips(s, p1, d.ip@);
    assert(s.subrange(p2, q2) =~= tr_e);
    assert(s[q2] == '"');
    lemma_str_lit_end_skips(s, p2, d.transport@);
    assert(s.subrange(p3, q3) =~= sh_d);
    assert(s[q3] == ',');
    assert forall|k: int| p3 <= k < q3 implies crate::text::spec_is_digit(#[trigger] s[k]) by {
        assert(s.subrange(p3, q3)[k - p3] == s[k]);
    }
    lemma_digit_run_end_at(s, p3, q3);
    assert(s.subrange(p4, q4) =~= io_d);
    assert(s[q4] == ',');
    assert forall|k: int| p4 <= k < q4 implies crate::text::spec_is_digit(#[trigger] s[k]) by {
        assert(s.subrange(p4, q4)[k - p4] == s[k]);
    }
    lemma_digit_run_end_at(s, p4, q4);
    assert(s.subrange(p5, q5) =~= st_d);
    assert(s[q5] == ',');
    assert forall|k: int| p5 <= k < q5 implies crate::text::spec_is_digit(#[trigger] s[k]) by {
        assert(s.subrange(p5, q5)[k - p5] == s[k]);
    }
    lemma_digit_run_end_at(s, p5, q5);
    assert(s.subrange(p6, q6) =~= co_d);
    assert(s[q6] == ',');
    assert forall|k: int| p6 <= k < q6 implies crate::text::spec_is_digit(#[trigger] s[k]) by {
        assert(s.subrange(p6, q6)[k - p6] == s[k]);
    }
    lemma_digit_run_end_at(s, p6, q6);
    assert(s.subrange(p7, q7) =~= hb_d);
    assert(s[q7] == ',');
    assert forall|k: int| p7 <= k < q7 implies crate::text::spec_is_digit(#[trigger] s[k]) by {
        assert(s.subrange(p7, q7)[k - p7] == s[k]);
    }
    lemma_digit_run_end_at(s, p7, q7);
    assert(s.subrange(p8, q8) =~= key_e);
    assert(s[q8] == '"');
    lemma_str_lit_end_skips(s, p8, d.key@);
    assert(s.subrange(p9, q9) =~= sc_e);
    assert(s[q9] == '"');
    lemma_str_lit_end_skips(s, p9, d.signature_scheme@);
}

/// The persisted text determines the descriptor: no two descriptors share
/// a canonical serialization. Together with `generate`'s contract this
/// states the port property at the file itself, for every descriptor: the
/// text written for a launch embeds exactly the five freshly bound ports,
/// in order, and nothing else could have produced that text.
pub proof fn lemma_descriptor_text_determines_fields(
    a: ConnectionDescriptor,
    b: ConnectionDescriptor,
)
    requires
        a.spec_json() == b.spec_json(),
    ensures
        a.ip@ == b.ip@,
        a.transport@ == b.transport@,
        a.shell_port == b.shell_port,
        a.iopub_port == b.iopub_port,
        a.stdin_port == b.stdin_port,
        a.control_port == b.control_port,
        a.hb_port == b.hb_port,
        a.key@ == b.key@,
        a.signature_scheme@ == b.signature_scheme@,
{
    lemma_descriptor_scan(a);
    lemma_descriptor_scan(b);
    lemma_escape_injective(a.ip@, b.ip@);
    lemma_escape_injective(a.transport@, b.transport@);
    lemma_escape_injective(a.key@, b.key@);
    lemma_escape_injective(a.signature_scheme@, b.signature_scheme@);
    lemma_dec_props(a.shell_port as nat);
    lemma_dec_props(b.shell_port as nat);
    lemma_dec_props(a.iopub_port as nat);
    lemma_dec_props(b.iopub_port as nat);
    lemma_dec_props(a.stdin_port as nat);
    lemma_dec_props(b.stdin_port as nat);
    lemma_dec_props(a.control_port as nat);
    lemma_dec_props(b.control_port as nat);
    lemma_dec_props(a.hb_port as nat);
    lemma_dec_props(b.hb_port as nat);
}

/// Relies on `uuid::Uuid::new_v4` and its `Display` form: a random
/// identifier rendered as 36 characters in hyphenated form, with hyphens at
/// positions 8, 13, 18 and 23 and lowercase hex digits elsewhere. Random:
/// two calls may give anything, so nothing more is assumed.
#[verifier::external_body]
pub fn fresh_uuid() -> (r: String)
    ensures
        r@.len() == 36,
        r@[8] == '-' && r@[13] == '-' && r@[18] == '-' && r@[23] == '-',
        forall|i: int|
            0 <= i < 36 && i != 8 && i != 13 && i != 18 && i != 23 ==> r@[i] != '-',
{
    uuid::Uuid::new_v4().to_string()
}

/// Relies on `chrono::Utc::now` and `to_rfc3339`: the wall clock read at
/// call time; nothing is assumed about the text.
#[verifier::external_body]
pub fn now_rfc3339() -> (r: String)
{
    chrono::Utc::now().to_rfc3339()
}

/// A fresh signing key: a random identifier with the hyphens removed.
/// 32 characters: a hyphenated identifier is 36 characters of which
/// exactly four are hyphens.
pub fn new_signing_key() -> (r: String)
    ensures
        r@.len() == 32,
{
    let u = fresh_uuid();
    let chars = str_to_chars(u.as_str());
    let mut out: Vec<char> = Vec::new();
    let mut i: usize = 0;
    while i < chars.len()
        invariant
            chars@.len() == 36,
            chars@[8] == '-' && chars@[13] == '-' && chars@[18] == '-' && chars@[23] == '-',
            forall|k: int|
                0 <= k < 36 && k != 8 && k != 13 && k != 18 && k != 23 ==> chars@[k] != '-',
            i <= 36,
            out@.len() == i - (if i > 23 { 4int } else if i > 18 { 3int } else if i > 13 {
                2int
            } else if i > 8 {
                1int
            } else {
                0int
            }),
        decreases chars@.len() - i,
    {
        let c = chars[i];
        if c != '-' {
            out.push(c);
        }
        i = i + 1;
    }
    chars_to_string(&out)
}

/// Reads one canonical decimal port: a non-empty digit run without a
/// leading zero, whose value fits a port number. What is accepted is
/// exactly the decimal rendering of the returned port.
fn scan_port(v: &Vec<char>, start: usize) -> (r: Option<(u16, usize)>)
    requires
        start <= v@.len(),
    ensures
        (r matches Some(p) ==> start < p.1 <= v@.len() && spec_dec(p.0 as nat) == v@.subrange(
            start as int,
            p.1 as int,
        )),
{
    let n = v.len();
    let mut j = start;
    while j < n && crate::text::is_digit(v[j])
        invariant
            start <= j <= n,
            n == v@.len(),
            forall|k: int| start <= k < j ==> spec_is_digit(#[trigger] v@[k]),
        decreases n - j,
    {
        j = j + 1;
    }
    if j == start {
        return None;
    }
    let piece = sub_vec(v, start, j);
    if piece.len() > 1 && piece[0] == '0' {
        return None;
    }
    let value = match parse_u32(&piece) {
        Some(x) => x,
        None => {
            return None;
        },
    };
    if value > 0xffff {
        return None;
    }
    proof {
        crate::text::lemma_dec_canonical(piece@);
    }
    Some((value as u16, j))
}

/// Parses the persisted connection-descriptor text. `Some` exactly when
/// the text is the canonical serialization of a well-formed descriptor,
/// and then the returned descriptor serializes back to this very text —
/// so the signing key and ports read from the file are exactly the ones
/// that were written.
#[verifier::loop_isolation(false)]
#[verifier::rlimit(100)]
pub fn parse_descriptor(s: &str) -> (r: Option<ConnectionDescriptor>)
    ensures
        (r matches Some(d) ==> d.wf() && s@ == d.spec_json()),
{
    proof {
        reveal_strlit("{\"ip\":");
        reveal_strlit(",\"transport\":");
        reveal_strlit(",\"shell_port\":");
        reveal_strlit(",\"iopub_port\":");
        reveal_strlit(",\"stdin_port\":");
        reveal_strlit(",\"control_port\":");
        reveal_strlit(",\"hb_port\":");
        reveal_strlit(",\"key\":");
        reveal_strlit(",\"signature_scheme\":");
        reveal_strlit("}");
        reveal_strlit("127.0.0.1");
        reveal_strlit("tcp");
        reveal_strlit("hmac-sha256");
        assert("{\"ip\":"@.len() == 6);
        assert(",\"transport\":"@.len() == 13);
        assert(",\"shell_port\":"@.len() == 14);
        assert(",\"iopub_port\":"@.len() == 14);
        assert(",\"stdin_port\":"@.len() == 14);
        assert(",\"control_port\":"@.len() == 16);
        assert(",\"hb_port\":"@.len() == 11);
        assert(",\"key\":"@.len() == 7);
        assert(",\"signature_scheme\":"@.len() == 20);
        assert("}"@.len() == 1);
    }
    let v = str_to_chars(s);
    let n = v.len();

    if !crate::text::occurs_at_check(&v, &str_to_chars("{\"ip\":"), 0) {
        return None;
    }
    let (ipv, p1) = match read_string_value(&v, 6) {
        Some(x) => x,
        None => {
            return None;
        },
    };
    let ghost acc1 = "{\"ip\":"@ + json_quote(ipv@);
    proof {
        assert(acc1 =~= v@.subrange(0, p1 as int));
    }
    if !crate::text::occurs_at_check(&v, &str_to_chars(",\"transport\":"), p1) {
        return None;
    }
    let (trv, p2) = match read_string_value(&v, p1 + 13) {
        Some(x) => x,
        None => {
            return None;
        },
    };
    let ghost acc2 = acc1 + ",\"transport\":"@ + json_quote(trv@);
    proof {
        assert(acc2 =~= v@.subrange(0, p2 as int));
    }
    if !crate::text::occurs_at_check(&v, &str_to_chars(",\"shell_port\":"), p2) {
        return None;
    }
    let (shell_port, p3) = match scan_port(&v, p2 + 14) {
        Some(x) => x,
        None => {
            return None;
        },
    };
    let ghost acc3 = acc2 + ",\"shell_port\":"@ + spec_dec(shell_port as nat);
    proof {
        assert(acc3 =~= v@.subrange(0, p3 as int));
    }
    if !crate::text::occurs_at_check(&v, &str_to_chars(",\"iopub_port\":"), p3) {
        return None;
    }
    let (iopub_port, p4) = match scan_port(&v, p3 + 14) {
        Some(x) => x,
        None => {
            return None;
        },
    };
    let ghost acc4 = acc3 + ",\"iopub_port\":"@ + spec_dec(iopub_port as nat);
    proof {
        assert(acc4 =~= v@.subrange(0, p4 as int));
    }
    if !crate::text::occurs_at_check(&v, &str_to_chars(",\"stdin_port\":"), p4) {
        return None;
    }
    let (stdin_port, p5) = match scan_port(&v, p4 + 14) {
        Some(x) => x,
        None => {
            return None;
        },
    };
    let ghost acc5 = acc4 + ",\"stdin_port\":"@ + spec_dec(stdin_port as nat);
    proof {
        assert(acc5 =~= v@.subrange(0, p5 as int));
    }
    if !crate::text::occurs_at_check(&v, &str_to_chars(",\"control_port\":"), p5) {
        return None;
    }
    let (control_port, p6) = match scan_port(&v, p5 + 16) {
        Some(x) => x,
        None => {
            return None;
        },
    };
    let ghost acc6 = acc5 + ",\"control_port\":"@ + spec_dec(control_port as nat);
    proof {
        assert(acc6 =~= v@.subrange(0, p6 as int));
    }
    if !crate::text::occurs_at_check(&v, &str_to_chars(",\"hb_port\":"), p6) {
        return None;
    }
    let (hb_port, p7) = match scan_port(&v, p6 + 11) {
        Some(x) => x,
        None => {
            return None;
        },
    };
    let ghost acc7 = acc6 + ",\"hb_port\":"@ + spec_dec(hb_port as nat);
    proof {
        assert(acc7 =~= v@.subrange(0, p7 as int));
    }
    if !crate::text::occurs_at_check(&v, &str_to_chars(",\"key\":"), p7) {
        return None;
    }
    let (keyv, p8) = match read_string_value(&v, p7 + 7) {
        Some(x) => x,
        None => {
            return None;
        },
    };
    let ghost acc8 = acc7 + ",\"key\":"@ + json_quote(keyv@);
    proof {
        assert(acc8 =~= v@.subrange(0, p8 as int));
    }
    if !crate::text::occurs_at_check(&v, &str_to_chars(",\"signature_scheme\":"), p8) {
        return None;
    }
    let (schemev, p9) = match read_string_value(&v, p8 + 20) {
        Some(x) => x,
        None => {
            return None;
        },
    };
    let ghost acc9 = acc8 + ",\"signature_scheme\":"@ + json_quote(schemev@);
    proof {
        assert(acc9 =~= v@.subrange(0, p9 as int));
    }
    if !crate::text::occurs_at_check(&v, &str_to_chars("}"), p9) {
        return None;
    }
    if p9 + 1 != n {
        return None;
    }
    if !chars_eq(&ipv, &str_to_chars("127.0.0.1")) {
        return None;
    }
    if !chars_eq(&trv, &str_to_chars("tcp")) {
        return None;
    }
    if !chars_eq(&schemev, &str_to_chars("hmac-sha256")) {
        return None;
    }
    let distinct = shell_port != iopub_port && shell_port != stdin_port && shell_port
        != control_port && shell_port != hb_port && iopub_port != stdin_port && iopub_port
        != control_port && iopub_port != hb_port && stdin_port != control_port && stdin_port
        != hb_port && control_port != hb_port;
    if !distinct {
        return None;
    }
    let d = ConnectionDescriptor {
        ip: chars_to_string(&ipv),
        transport: chars_to_string(&trv),
        shell_port,
        iopub_port,
        stdin_port,
        control_port,
        hb_port,
        key: chars_to_string(&keyv),
        signature_scheme: chars_to_string(&schemev),
    };
    proof {
        assert(acc9 + "}"@ =~= v@.subrange(0, n as int));
        assert(v@.subrange(0, n as int) =~= v@);
        assert(s@ == d.spec_json());
    }
    Some(d)
}

/// Reads one quoted canonical string value starting at `at`: the opening
/// quote, a canonical escaped body, the closing quote. The consumed text
/// is exactly the JSON string literal of the result.
fn read_string_value(v: &Vec<char>, at: usize) -> (r: Option<(Vec<char>, usize)>)
    ensures
        (r matches Some(p) ==> at < p.1 <= v@.len() && v@.subrange(at as int, p.1 as int)
            == json_quote(p.0@)),
{
    let n = v.len();
    if at >= n || v[at] != '"' {
        return None;
    }
    let e = match scan_string_region(v, at + 1) {
        Some(e) => e,
        None => {
            return None;
        },
    };
    let body = match unescape_canonical(v, at + 1, e) {
        Some(b) => b,
        None => {
            return None;
        },
    };
    proof {
        assert(v@.subrange(at as int, e + 1) =~= seq!['"'] + spec_escape(body@) + seq!['"']);
        assert(v@.subrange(at as int, e + 1) =~= json_quote(body@));
    }
    Some((body, e + 1))
}

} // verus!
