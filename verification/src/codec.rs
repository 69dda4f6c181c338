//! Canonical encoding of a record and the content digest that serves as its
//! identifier.
//!
//! The encoding is the engine's own fixed format: every scalar field as
//! eight little-endian bytes, options behind a one-byte tag, blobs behind a
//! length prefix. The digest of those bytes is taken by an outside hash and
//! is only ever named, never interpreted.

use vstd::prelude::*;
use crate::types::{TaskId, TaskStatus};
use crate::task::{Task, TaskView};

verus! {

/// The eight little-endian bytes of a 64-bit word.
pub open spec fn u64_le(x: u64) -> Seq<u8> {
    seq![
        (x & 0xff) as u8,
        ((x >> 8) & 0xff) as u8,
        ((x >> 16) & 0xff) as u8,
        ((x >> 24) & 0xff) as u8,
        ((x >> 32) & 0xff) as u8,
        ((x >> 40) & 0xff) as u8,
        ((x >> 48) & 0xff) as u8,
        ((x >> 56) & 0xff) as u8,
    ]
}

/// A length-prefixed blob.
pub open spec fn blob_bytes(b: Seq<u8>) -> Seq<u8> {
    u64_le(b.len() as u64) + b
}

/// An optional 64-bit word behind a one-byte tag.
pub open spec fn opt_u64_bytes(x: Option<u64>) -> Seq<u8> {
    match x {
        None => seq![0u8],
        Some(v) => seq![1u8] + u64_le(v),
    }
}

/// An optional blob behind a one-byte tag.
pub open spec fn opt_blob_bytes(b: Option<Seq<u8>>) -> Seq<u8> {
    match b {
        None => seq![0u8],
        Some(v) => seq![1u8] + blob_bytes(v),
    }
}

/// The one-byte tag of a status.
pub open spec fn status_tag(s: TaskStatus) -> u8 {
    match s {
        TaskStatus::Created => 0,
        TaskStatus::InProgress => 1,
        TaskStatus::Completed => 2,
        TaskStatus::Accepted => 3,
    }
}

/// The canonical encoding of a whole record.
pub open spec fn encode_task(t: TaskView) -> Seq<u8> {
    u64_le(t.initiator) + u64_le(t.volunteer) + u64_le(t.current_owner)
        + seq![status_tag(t.status)] + u64_le(t.budget) + u64_le(t.deadline)
        + u64_le(t.created_at) + u64_le(t.updated_at) + u64_le(t.completed_at)
        + opt_u64_bytes(t.organization) + blob_bytes(t.title)
        + blob_bytes(t.specification) + blob_bytes(t.attachments)
        + blob_bytes(t.keywords) + opt_blob_bytes(t.feedback)
}

/// The content digest of a byte string, as four 64-bit words.
pub uninterp spec fn digest_of(bytes: Seq<u8>) -> TaskId;

/// The identifier a record gets at creation: the digest of its canonical
/// encoding.
pub open spec fn task_digest(t: TaskView) -> TaskId {
    digest_of(encode_task(t))
}

/// Relies on sp_crypto_hashing::blake2_256: a 256-bit digest that is a
/// function of the input bytes alone.
#[verifier::external_body]
pub(crate) fn blake2_256_id(bytes: &Vec<u8>) -> (r: TaskId)
    ensures
        r == digest_of(bytes@),
{
    let d = sp_crypto_hashing::blake2_256(bytes.as_slice());
    TaskId {
        w0: u64::from_le_bytes(d[0..8].try_into().unwrap()),
        w1: u64::from_le_bytes(d[8..16].try_into().unwrap()),
        w2: u64::from_le_bytes(d[16..24].try_into().unwrap()),
        w3: u64::from_le_bytes(d[24..32].try_into().unwrap()),
    }
}

/// Appends the eight little-endian bytes of `x`.
fn push_u64(out: &mut Vec<u8>, x: u64)
    ensures
        final(out)@ == old(out)@ + u64_le(x),
{
    out.push((x & 0xff) as u8);
    out.push(((x >> 8) & 0xff) as u8);
    out.push(((x >> 16) & 0xff) as u8);
    out.push(((x >> 24) & 0xff) as u8);
    out.push(((x >> 32) & 0xff) as u8);
    out.push(((x >> 40) & 0xff) as u8);
    out.push(((x >> 48) & 0xff) as u8);
    out.push(((x >> 56) & 0xff) as u8);
    assert(out@ =~= old(out)@ + u64_le(x));
}

/// Appends a length-prefixed blob.
fn push_blob(out: &mut Vec<u8>, b: &Vec<u8>)
    ensures
        final(out)@ == old(out)@ + blob_bytes(b@),
{
    push_u64(out, b.len() as u64);
    out.extend_from_slice(b.as_slice());
    assert(out@ =~= old(out)@ + blob_bytes(b@));
}

/// Computes the canonical encoding of a record.
pub(crate) fn encode_task_bytes(t: &Task) -> (r: Vec<u8>)
    ensures
        r@ == encode_task(t@),
{
    let mut out: Vec<u8> = Vec::new();
    push_u64(&mut out, t.initiator);
    push_u64(&mut out, t.volunteer);
    push_u64(&mut out, t.current_owner);
    let tag: u8 = match t.status {
        TaskStatus::Created => 0,
        TaskStatus::InProgress => 1,
        TaskStatus::Completed => 2,
        TaskStatus::Accepted => 3,
    };
    out.push(tag);
    push_u64(&mut out, t.budget);
    push_u64(&mut out, t.deadline);
    push_u64(&mut out, t.created_at);
    push_u64(&mut out, t.updated_at);
    push_u64(&mut out, t.completed_at);
    match &t.organization {
        None => {
            out.push(0u8);
        }
        Some(v) => {
            out.push(1u8);
            push_u64(&mut out, *v);
        }
    }
    assert(out@ =~= u64_le(t@.initiator) + u64_le(t@.volunteer) + u64_le(t@.current_owner)
        + seq![status_tag(t@.status)] + u64_le(t@.budget) + u64_le(t@.deadline)
        + u64_le(t@.created_at) + u64_le(t@.updated_at) + u64_le(t@.completed_at)
        + opt_u64_bytes(t@.organization));
    push_blob(&mut out, &t.title);
    push_blob(&mut out, &t.specification);
    push_blob(&mut out, &t.attachments);
    push_blob(&mut out, &t.keywords);
    match &t.feedback {
        None => {
            out.push(0u8);
        }
        Some(f) => {
            out.push(1u8);
            push_blob(&mut out, f);
        }
    }
    assert(out@ =~= encode_task(t@));
    out
}

/// Computes a record's identifier: the digest of its canonical encoding.
pub(crate) fn compute_task_id(t: &Task) -> (r: TaskId)
    ensures
        r == task_digest(t@),
{
    let bytes = encode_task_bytes(t);
    blake2_256_id(&bytes)
}

} // verus!
