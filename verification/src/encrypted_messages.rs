//! The encrypted-transport chunking layer.
//!
//! An outbound payload of arbitrary size is split into fixed-size plaintext
//! chunks; the host encrypts each chunk separately to the one recipient. A
//! small encrypted message is stored inline in the pointer that announces it
//! to the recipient; a large one is stored as an entry of its own, and the
//! pointer carries its hash. Inbound, the pointer is read back, the host
//! decrypts each chunk, and reassembly returns exactly the original payload.

use vstd::prelude::*;

use crate::types::{AgentId, EventId};

verus! {

/// The most plaintext bytes one chunk may hold before encryption.
pub const CHUNK_SIZE: usize = 2000;

/// The largest encoded encrypted message that is stored inline in the
/// pointer itself rather than as an entry of its own.
pub const INLINE_THRESHOLD: usize = 900;

/// An encrypted message as stored: the separately encrypted chunks, and the
/// hashes of the events it carries.
#[derive(Debug)]
pub struct EncryptedMessage {
    pub encrypted_entries: Vec<Vec<u8>>,
    pub entry_hashes: Vec<EventId>,
}

/// The bytes a chunk sequence reassembles to: the chunks, in order.
pub open spec fn assembled_bytes(chunks: Seq<Seq<u8>>) -> Seq<u8>
    decreases chunks.len(),
{
    if chunks.len() == 0 {
        Seq::empty()
    } else {
        assembled_bytes(chunks.drop_last()) + chunks.last()
    }
}

/// Split a payload into chunks: every chunk holds at least one and at most
/// [`CHUNK_SIZE`] bytes, every chunk but the last holds exactly
/// [`CHUNK_SIZE`], and reassembly returns exactly the payload.
pub fn chunk_message_bytes(bytes: &Vec<u8>) -> (chunks: Vec<Vec<u8>>)
    ensures
        assembled_bytes(chunks@.map_values(|c: Vec<u8>| c@)) == bytes@,
        forall|k: int| 0 <= k < chunks@.len() ==> 1 <= (#[trigger] chunks@[k])@.len() <= CHUNK_SIZE,
        forall|k: int|
            0 <= k < chunks@.len() - 1 ==> (#[trigger] chunks@[k])@.len() == CHUNK_SIZE,
{
    let mut chunks: Vec<Vec<u8>> = Vec::new();
    let n: usize = bytes.len();
    let mut pos: usize = 0;
    proof {
        assert(chunks@.map_values(|c: Vec<u8>| c@) =~= Seq::<Seq<u8>>::empty());
        assert(bytes@.subrange(0, 0) =~= Seq::<u8>::empty());
    }
    while pos < n
        invariant
            n == bytes@.len(),
            pos <= n,
            assembled_bytes(chunks@.map_values(|c: Vec<u8>| c@)) == bytes@.subrange(0, pos as int),
            forall|k: int|
                0 <= k < chunks@.len() ==> 1 <= (#[trigger] chunks@[k])@.len() <= CHUNK_SIZE,
            forall|k: int|
                0 <= k < chunks@.len() - 1 ==> (#[trigger] chunks@[k])@.len() == CHUNK_SIZE,
            pos == n || forall|k: int|
                0 <= k < chunks@.len() ==> (#[trigger] chunks@[k])@.len() == CHUNK_SIZE,
        decreases n - pos,
    {
        let take: usize = if n - pos > CHUNK_SIZE {
            CHUNK_SIZE
        } else {
            n - pos
        };
        let mut chunk: Vec<u8> = Vec::new();
        for t in 0..take
            invariant
                n == bytes@.len(),
                pos + take <= n,
                chunk@ =~= bytes@.subrange(pos as int, pos + t as int),
        {
            chunk.push(bytes[pos + t]);
            proof {
                assert(bytes@.subrange(pos as int, pos + t + 1 as int) =~= bytes@.subrange(
                    pos as int,
                    pos + t as int,
                ).push(bytes@[pos + t]));
            }
        }
        let ghost prev_chunks = chunks@.map_values(|c: Vec<u8>| c@);
        let ghost prev_len = chunks@.len();
        chunks.push(chunk);
        pos = pos + take;
        proof {
            assert forall|k: int| 0 <= k < chunks@.len() - 1 implies (#[trigger] chunks@[k])@.len()
                == CHUNK_SIZE by {
                assert(k < prev_len);
            }
            assert(chunks@.map_values(|c: Vec<u8>| c@).drop_last() =~= prev_chunks);
            assert(chunks@.map_values(|c: Vec<u8>| c@).last() =~= bytes@.subrange(
                pos - take as int,
                pos as int,
            ));
            assert(assembled_bytes(chunks@.map_values(|c: Vec<u8>| c@)) =~= bytes@.subrange(
                0,
                pos as int,
            ));
        }
    }
    proof {
        assert(bytes@.subrange(0, n as int) =~= bytes@);
    }
    chunks
}

/// Reassemble decrypted chunks into the original payload: the concatenation
/// of the chunks, in order.
pub fn assemble_message_bytes(chunks: &Vec<Vec<u8>>) -> (bytes: Vec<u8>)
    ensures
        bytes@ == assembled_bytes(chunks@.map_values(|c: Vec<u8>| c@)),
{
    let mut bytes: Vec<u8> = Vec::new();
    let n: usize = chunks.len();
    proof {
        assert(chunks@.subrange(0, 0).map_values(|c: Vec<u8>| c@) =~= Seq::<Seq<u8>>::empty());
    }
    for i in 0..n
        invariant
            n == chunks@.len(),
            bytes@ == assembled_bytes(chunks@.subrange(0, i as int).map_values(|c: Vec<u8>| c@)),
    {
        let chunk = &chunks[i];
        let m: usize = chunk.len();
        let ghost before = bytes@;
        for t in 0..m
            invariant
                m == chunk@.len(),
                bytes@ =~= before + chunk@.subrange(0, t as int),
        {
            bytes.push(chunk[t]);
            proof {
                assert(chunk@.subrange(0, t + 1 as int) =~= chunk@.subrange(0, t as int).push(
                    chunk@[t as int],
                ));
            }
        }
        proof {
            assert(bytes@ =~= before + chunk@);
            assert(chunks@.subrange(0, i + 1 as int).map_values(|c: Vec<u8>| c@).drop_last()
                =~= chunks@.subrange(0, i as int).map_values(|c: Vec<u8>| c@));
            assert(chunks@.subrange(0, i + 1 as int).map_values(|c: Vec<u8>| c@).last() =~= chunk@);
        }
    }
    proof {
        assert(chunks@.subrange(0, n as int) =~= chunks@);
    }
    bytes
}

/// Where an encrypted message is stored, judged by its encoded size.
#[derive(Clone, Copy, Debug, PartialEq, Eq, Structural)]
pub enum MessageStorage {
    InlineInTag,
    SeparateEntry,
}

/// Decide where to store an encrypted message: inline in the pointer when
/// its encoding is small enough, as an entry of its own otherwise.
pub fn choose_message_storage(encoded_len: usize) -> (r: MessageStorage)
    ensures
        r == MessageStorage::InlineInTag <==> encoded_len <= INLINE_THRESHOLD,
{
    if encoded_len > INLINE_THRESHOLD {
        MessageStorage::SeparateEntry
    } else {
        MessageStorage::InlineInTag
    }
}

/// What an encrypted-message pointer can point at: the recipient itself — the
/// inline marker — or a stored encrypted message.
#[derive(Clone, Debug, PartialEq, Eq, Structural)]
pub enum LinkTarget {
    Agent(AgentId),
    Entry(EventId),
}

/// A pointer announcing an encrypted message to its recipient: who wrote it,
/// whose inbox it sits in, what it points at, and its inline payload.
#[derive(Debug)]
pub struct MessageLink {
    pub author: AgentId,
    pub base: AgentId,
    pub target: LinkTarget,
    pub tag: Vec<u8>,
}

/// Where a pointer keeps its message.
#[derive(Debug)]
pub enum MessageLocation {
    InlineBytes(Vec<u8>),
    Pointer(EventId),
}

/// Read a pointer back: a pointer at the recipient itself carries the
/// encoded message inline in its tag; one at an entry names the stored
/// encrypted message to fetch; one at any other agent is malformed.
pub fn get_message(link: &MessageLink) -> (r: Result<MessageLocation, crate::types::EngineError>)
    ensures
        match r {
            Ok(MessageLocation::InlineBytes(bytes)) => link.target == LinkTarget::Agent(link.base)
                && bytes@ == link.tag@,
            Ok(MessageLocation::Pointer(entry_hash)) => link.target == LinkTarget::Entry(
                entry_hash,
            ),
            Err(e) => (e matches crate::types::EngineError::MalformedEnvelope(_)) && (
            link.target matches LinkTarget::Agent(a) && a != link.base),
        },
{
    match &link.target {
        LinkTarget::Agent(agent) => {
            if *agent == link.base {
                Ok(MessageLocation::InlineBytes(crate::types::clone_bytes(&link.tag)))
            } else {
                Err(
                    crate::types::EngineError::MalformedEnvelope(
                        "An encrypted-message pointer must point at its recipient or at a stored message.".to_owned(),
                    ),
                )
            }
        },
        LinkTarget::Entry(entry_hash) => Ok(MessageLocation::Pointer(*entry_hash)),
    }
}

} // verus!
