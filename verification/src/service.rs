//! The CRUD service: orchestrates the identifier allocator, the record
//! codec and the record store, and translates absence into a typed
//! `NotFound` outcome. Its contracts speak of an abstract map from
//! identifier to message view, which the durable bytes are proved to
//! realize at every step.
use vstd::prelude::*;
use vstd::string::StrSliceExecFns;
use crate::codec::{decode, encode, spec_encode};
use crate::model::{message_wf, payload_wf, Message, MessagePayload, MessageView};
use crate::store::{init_storage, IdAllocator, RecordStore};

verus! {

/// The one typed failure: the requested identifier has no current record.
/// Carries a human-readable message.
pub enum Error {
    NotFound { msg: String },
}

/// Builds the `NotFound` outcome.
fn not_found() -> (e: Error)
    ensures
        e matches Error::NotFound { .. },
{
    Error::NotFound { msg: String::from_str("no message stored under this id") }
}

/// The durable message service: a monotonically increasing identifier
/// allocator plus a durable map from identifier to encoded record.
pub struct MessageService {
    alloc: IdAllocator,
    store: RecordStore,
    model: Ghost<Map<u64, MessageView>>,
}

impl MessageService {
    /// The current records, keyed by identifier.
    pub closed spec fn records(self) -> Map<u64, MessageView> {
        self.model@
    }

    /// The identifier most recently allocated; zero before the first.
    pub closed spec fn counter(self) -> u64 {
        self.alloc.last_id()
    }

    /// The service invariant: every record is well formed, is keyed by its
    /// own identifier, lies in the allocated range, and is stored durably
    /// as exactly its encoding.
    pub closed spec fn wf(self) -> bool {
        &&& forall|id: u64| #[trigger]
            self.records().contains_key(id) ==> {
                &&& message_wf(self.records()[id])
                &&& self.records()[id].id == id
                &&& 1 <= id <= self.counter()
                &&& self.store.contents().contains_key(id)
                &&& self.store.contents()[id] == spec_encode(self.records()[id])
            }
        &&& forall|id: u64| #[trigger]
            self.store.contents().contains_key(id) ==> self.records().contains_key(id)
    }

    /// Creates the service over fresh durable storage: no records, the
    /// allocator at zero.
    pub fn new() -> (s: MessageService)
        ensures
            s.wf(),
            s.counter() == 0,
            s.records() == Map::<u64, MessageView>::empty(),
    {
        let (alloc, store) = init_storage();
        MessageService { alloc, store, model: Ghost(Map::empty()) }
    }

    /// The identifier most recently allocated, for callers that must
    /// check the allocator has room before creating a record.
    pub fn last_allocated_id(&self) -> (id: u64)
        ensures
            id == self.counter(),
    {
        self.alloc.current()
    }

    /// Looks up the record stored under `id`; signals `NotFound` if
    /// absent, otherwise returns the message unchanged.
    pub fn get_message(&self, id: u64) -> (r: Result<Message, Error>)
        requires
            self.wf(),
        ensures
            (match r {
                Result::Ok(m) => self.records().contains_key(id) && m@ == self.records()[id],
                Result::Err(_) => !self.records().contains_key(id),
            }),
    {
        match self.store.get(id) {
            Option::None => Err(not_found()),
            Option::Some(bytes) => {
                match decode(&bytes) {
                    Option::Some(m) => Ok(m),
                    Option::None => {
                        // The invariant gives that stored bytes are the
                        // encoding of the record, so decoding cannot fail.
                        proof {
                            assert(false);
                        }
                        Err(not_found())
                    },
                }
            },
        }
    }

    /// Creates a record: allocates a fresh identifier, strictly greater
    /// than every identifier allocated before, stamps the creation time,
    /// leaves the update stamp absent, and persists the encoded record.
    pub fn add_message(&mut self, payload: MessagePayload, now: u64) -> (m: Message)
        requires
            old(self).wf(),
            payload_wf(payload@),
            old(self).counter() < u64::MAX,
        ensures
            final(self).wf(),
            final(self).counter() == old(self).counter() + 1,
            m@.id == final(self).counter(),
            !old(self).records().contains_key(m@.id),
            forall|k: u64| #[trigger] old(self).records().contains_key(k) ==> k < m@.id,
            m@.title == payload@.title,
            m@.body == payload@.body,
            m@.attachment_url == payload@.attachment_url,
            m@.created_at == now,
            m@.updated_at is None,
            final(self).records() == old(self).records().insert(m@.id, m@),
    {
        let id = self.alloc.next_id();
        let message = Message {
            id,
            title: payload.title,
            body: payload.body,
            attachment_url: payload.attachment_url,
            created_at: now,
            updated_at: None,
        };
        let bytes = encode(&message);
        self.store.insert(id, bytes);
        proof {
            self.model@ = self.model@.insert(id, message@);
        }
        message
    }

    /// Overwrites the text fields of the record under `id` from the
    /// payload, stamps the update time, leaves identifier and creation
    /// stamp unchanged, and persists; signals `NotFound` if absent.
    pub fn update_message(&mut self, id: u64, payload: MessagePayload, now: u64) -> (r: Result<
        Message,
        Error,
    >)
        requires
            old(self).wf(),
            payload_wf(payload@),
        ensures
            final(self).wf(),
            final(self).counter() == old(self).counter(),
            (match r {
                Result::Ok(m) => {
                    &&& old(self).records().contains_key(id)
                    &&& m@.id == id
                    &&& m@.created_at == old(self).records()[id].created_at
                    &&& m@.title == payload@.title
                    &&& m@.body == payload@.body
                    &&& m@.attachment_url == payload@.attachment_url
                    &&& m@.updated_at == Some(now)
                    &&& final(self).records() == old(self).records().insert(id, m@)
                },
                Result::Err(_) => !old(self).records().contains_key(id) && final(self).records()
                    == old(self).records(),
            }),
    {
        let stored = match self.store.get(id) {
            Option::None => {
                return Err(not_found());
            },
            Option::Some(bytes) => bytes,
        };
        let previous = match decode(&stored) {
            Option::Some(m) => m,
            Option::None => {
                // The invariant gives that stored bytes are the encoding
                // of the record, so decoding cannot fail.
                proof {
                    assert(false);
                }
                return Err(not_found());
            },
        };
        let message = Message {
            id,
            title: payload.title,
            body: payload.body,
            attachment_url: payload.attachment_url,
            created_at: previous.created_at,
            updated_at: Some(now),
        };
        let bytes = encode(&message);
        self.store.insert(id, bytes);
        proof {
            self.model@ = self.model@.insert(id, message@);
        }
        Ok(message)
    }

    /// Removes the record under `id` and returns it as a deletion
    /// receipt; signals `NotFound` if absent.
    pub fn delete_message(&mut self, id: u64) -> (r: Result<Message, Error>)
        requires
            old(self).wf(),
        ensures
            final(self).wf(),
            final(self).counter() == old(self).counter(),
            (match r {
                Result::Ok(m) => {
                    &&& old(self).records().contains_key(id)
                    &&& m@ == old(self).records()[id]
                    &&& final(self).records() == old(self).records().remove(id)
                },
                Result::Err(_) => !old(self).records().contains_key(id) && final(self).records()
                    == old(self).records(),
            }),
    {
        let removed = match self.store.remove(id) {
            Option::None => {
                return Err(not_found());
            },
            Option::Some(bytes) => bytes,
        };
        proof {
            self.model@ = self.model@.remove(id);
        }
        match decode(&removed) {
            Option::Some(m) => Ok(m),
            Option::None => {
                // The invariant gives that stored bytes are the encoding
                // of the record, so decoding cannot fail.
                proof {
                    assert(false);
                }
                Err(not_found())
            },
        }
    }
}

/// An identifier the allocator never handed out — zero, or above the
/// counter — has no record, so `get_message`, `update_message` and
/// `delete_message` all signal `NotFound` on it.
pub proof fn lemma_unallocated_absent(s: MessageService, id: u64)
    requires
        s.wf(),
        id == 0 || id > s.counter(),
    ensures
        !s.records().contains_key(id),
{
}

/// After a record is written under its identifier, a lookup of that
/// identifier finds exactly that record.
pub proof fn lemma_insert_then_lookup(records: Map<u64, MessageView>, m: MessageView)
    ensures
        records.insert(m.id, m).contains_key(m.id),
        records.insert(m.id, m)[m.id] == m,
{
}

/// After a record is removed, a lookup of its identifier finds nothing.
pub proof fn lemma_remove_then_absent(records: Map<u64, MessageView>, id: u64)
    ensures
        !records.remove(id).contains_key(id),
{
}

} // verus!
