//! The build service's core: webhook signature verification and the
//! build-lifecycle row.  Cloning, image building and registry pushes
//! are outside collaborators; the library checks signatures and keeps
//! the lifecycle honest.

use vstd::prelude::*;
use hmac::Hmac;
use sha2::Sha256;
use crypto_mac::{Mac, NewMac};

verus! {

/// A push webhook payload.
#[derive(Debug, Clone)]
pub struct Commit {
    pub id: String,
    pub message: String,
    pub url: String,
    pub distinct: bool,
}

/// The body of a push webhook.
#[derive(Debug, Clone)]
pub struct WebhookPayload {
    pub ref_field: String,
    pub before: String,
    pub after: String,
    pub commits: Vec<Commit>,
}

/// The HMAC-SHA256 digest of a message under a key.  The digest is a
/// function of key and message alone; no short statement pins its
/// bytes down, so it only carries a name here.
pub uninterp spec fn hmac_sha256_of(key: Seq<u8>, msg: Seq<u8>) -> Seq<u8>;

/// Relies on hmac's `Hmac<Sha256>` through crypto-mac's `Mac` API:
/// the digest depends on key and message alone and is 32 bytes;
/// `new_varkey` accepts keys of any length for HMAC.
#[verifier::external_body]
fn hmac_sha256(key: &Vec<u8>, msg: &Vec<u8>) -> (digest: Vec<u8>)
    ensures
        digest@ == hmac_sha256_of(key@, msg@),
        digest@.len() == 32,
{
    let mut mac = <Hmac<Sha256> as NewMac>::new_varkey(key.as_slice())
        .expect("HMAC accepts any key length");
    mac.update(msg.as_slice());
    mac.finalize().into_bytes().to_vec()
}

/// Whether a byte is an ASCII hex digit.
pub open spec fn spec_is_hex_digit(c: u8) -> bool {
    (48 <= c <= 57) || (65 <= c <= 70) || (97 <= c <= 102)
}

/// The value of one hex digit.
pub open spec fn spec_hex_val(c: u8) -> u8 {
    if 48 <= c <= 57 {
        (c - 48) as u8
    } else if 65 <= c <= 70 {
        (c - 55) as u8
    } else {
        (c - 87) as u8
    }
}

/// Whether a byte string is well-formed hex: even length, digits only.
pub open spec fn spec_hex_ok(s: Seq<u8>) -> bool {
    s.len() % 2 == 0 && (forall|i: int| 0 <= i < s.len() ==> spec_is_hex_digit(#[trigger] s[i]))
}

/// The bytes a well-formed hex string decodes to.
pub open spec fn spec_hex_decode(s: Seq<u8>) -> Seq<u8>
    decreases s.len(),
{
    if s.len() < 2 {
        Seq::empty()
    } else {
        seq![((spec_hex_val(s[0]) as int * 16 + spec_hex_val(s[1]) as int) as u8)]
            + spec_hex_decode(s.skip(2))
    }
}

/// Relies on hex::decode: accepts exactly the even-length strings of
/// hex digits (upper or lower case) and returns their bytes, two
/// digits per byte.
#[verifier::external_body]
fn hex_decode(data: &Vec<u8>) -> (r: Option<Vec<u8>>)
    ensures
        (r is Some) == spec_hex_ok(data@),
        r matches Some(b) ==> b@ == spec_hex_decode(data@),
{
    hex::decode(data.as_slice()).ok()
}

/// The header prefix `sha256=` as bytes.
pub open spec fn spec_sig_prefix() -> Seq<u8> {
    seq![115u8, 104u8, 97u8, 50u8, 53u8, 54u8, 61u8]
}

/// Whether a signature header names a digest: `sha256=` followed by
/// the digest's bytes in hex.
pub open spec fn spec_signature_matches(digest: Seq<u8>, header: Seq<u8>) -> bool {
    &&& header.len() >= 7
    &&& header.take(7) == spec_sig_prefix()
    &&& spec_hex_ok(header.skip(7))
    &&& spec_hex_decode(header.skip(7)) == digest
}

fn bytes_eq(a: &Vec<u8>, b: &Vec<u8>) -> (r: bool)
    ensures
        r == (a@ == b@),
{
    if a.len() != b.len() {
        return false;
    }
    let mut i: usize = 0;
    while i < a.len()
        invariant
            a@.len() == b@.len(),
            i <= a@.len(),
            forall|j: int| 0 <= j < i ==> a@[j] == b@[j],
        decreases a@.len() - i,
    {
        if a[i] != b[i] {
            return false;
        }
        i = i + 1;
    }
    proof {
        assert(a@ =~= b@);
    }
    true
}

fn skip_bytes(v: &Vec<u8>, n: usize) -> (out: Vec<u8>)
    requires
        n <= v@.len(),
    ensures
        out@ == v@.skip(n as int),
{
    let mut out: Vec<u8> = Vec::new();
    let mut i: usize = n;
    while i < v.len()
        invariant
            n <= i <= v@.len(),
            out@ == v@.subrange(n as int, i as int),
        decreases v@.len() - i,
    {
        out.push(v[i]);
        proof {
            assert(v@.subrange(n as int, i + 1 as int) =~= v@.subrange(n as int, i as int).push(
                v@[i as int]));
        }
        i = i + 1;
    }
    proof {
        assert(v@.subrange(n as int, v@.len() as int) =~= v@.skip(n as int));
    }
    out
}

/// Checks a signature header against a known digest: the `sha256=`
/// prefix, then the digest in hex.
pub fn signature_matches(digest: &Vec<u8>, header: &Vec<u8>) -> (r: bool)
    ensures
        r == spec_signature_matches(digest@, header@),
{
    if header.len() < 7 {
        return false;
    }
    let prefix_ok = header[0] == 115 && header[1] == 104 && header[2] == 97 && header[3] == 50
        && header[4] == 53 && header[5] == 54 && header[6] == 61;
    if !prefix_ok {
        proof {
            if header@.take(7) == spec_sig_prefix() {
                assert(header@.take(7)[0] == header@[0]);
                assert(header@.take(7)[1] == header@[1]);
                assert(header@.take(7)[2] == header@[2]);
                assert(header@.take(7)[3] == header@[3]);
                assert(header@.take(7)[4] == header@[4]);
                assert(header@.take(7)[5] == header@[5]);
                assert(header@.take(7)[6] == header@[6]);
                assert(false);
            }
        }
        return false;
    }
    proof {
        assert(header@.take(7) =~= spec_sig_prefix());
    }
    let tail = skip_bytes(header, 7);
    match hex_decode(&tail) {
        None => false,
        Some(decoded) => bytes_eq(&decoded, digest),
    }
}

/// Verifies a webhook body against its signature header: the header
/// must carry the HMAC-SHA256 of the body under the shared secret.
pub fn verify_webhook_signature(secret: &Vec<u8>, body: &Vec<u8>, header: &Vec<u8>) -> (r: bool)
    ensures
        r == spec_signature_matches(hmac_sha256_of(secret@, body@), header@),
{
    let digest = hmac_sha256(secret, body);
    signature_matches(&digest, header)
}

/// The lifecycle states of one build job.
#[derive(Clone, Copy, Debug, PartialEq, Eq, Structural)]
pub enum BuildStatus {
    Running,
    Completed,
    Failed,
}

/// The status column text of a lifecycle state.
pub open spec fn spec_status_label(s: BuildStatus) -> Seq<char> {
    match s {
        BuildStatus::Running => "running"@,
        BuildStatus::Completed => "Completed"@,
        BuildStatus::Failed => "Failed"@,
    }
}

/// Renders a lifecycle state as its status column text.
pub fn status_label(s: BuildStatus) -> (label: &'static str)
    ensures
        label@ == spec_status_label(s),
{
    match s {
        BuildStatus::Running => "running",
        BuildStatus::Completed => "Completed",
        BuildStatus::Failed => "Failed",
    }
}

/// The row id of a build: `{path}:{start_time}`.
pub fn build_id(path: &str, start_time: &str) -> (id: String)
    ensures
        id@ == path@ + ":"@ + start_time@,
{
    let mut id = path.to_owned();
    id.append(":");
    id.append(start_time);
    id
}

/// One build-lifecycle row.
#[derive(Debug, Clone)]
pub struct BuildRecord {
    pub id: String,
    pub start_time: String,
    pub end_time: Option<String>,
    pub status: BuildStatus,
}

impl BuildRecord {
    /// A build starts running, with no end time yet.
    pub fn start(id: String, start_time: String) -> (r: BuildRecord)
        ensures
            r.id == id,
            r.start_time == start_time,
            r.end_time is None,
            r.status == BuildStatus::Running,
    {
        BuildRecord { id, start_time, end_time: None, status: BuildStatus::Running }
    }

    /// A build finishes: completed only when both the image build and
    /// the registry push succeeded.
    pub fn finish(&mut self, image_ok: bool, push_ok: bool, end_time: String)
        ensures
            final(self).id == old(self).id,
            final(self).start_time == old(self).start_time,
            final(self).end_time == Some(end_time),
            final(self).status == if image_ok && push_ok {
                BuildStatus::Completed
            } else {
                BuildStatus::Failed
            },
    {
        self.status = if image_ok && push_ok {
            BuildStatus::Completed
        } else {
            BuildStatus::Failed
        };
        self.end_time = Some(end_time);
    }
}

} // verus!
