//! The persisted entity and its transient input form, together with the
//! mathematical views that the contracts of this crate speak of.
use vstd::prelude::*;
use vstd::utf8::encode_utf8;

verus! {

/// Largest number of bytes an encoded record may occupy in the durable map.
pub const MAX_ENCODED_SIZE: usize = 1024;

/// Bytes of the encoding that do not belong to the three text fields:
/// identifier (8), creation stamp (8), update tag (1), update stamp (8),
/// and three text lengths (4 each).
pub const HEADER_SIZE: usize = 37;

/// Largest total number of UTF-8 bytes the three text fields may occupy,
/// so that the whole encoding stays within `MAX_ENCODED_SIZE`.
pub const MAX_TEXT_BYTES: usize = 987;

/// The persisted entity: one durable record of the store.
pub struct Message {
    pub id: u64,
    pub title: String,
    pub body: String,
    pub attachment_url: String,
    pub created_at: u64,
    pub updated_at: Option<u64>,
}

/// Mathematical view of a `Message`: the text fields as character sequences.
pub ghost struct MessageView {
    pub id: u64,
    pub title: Seq<char>,
    pub body: Seq<char>,
    pub attachment_url: Seq<char>,
    pub created_at: u64,
    pub updated_at: Option<u64>,
}

impl View for Message {
    type V = MessageView;

    open spec fn view(&self) -> MessageView {
        MessageView {
            id: self.id,
            title: self.title@,
            body: self.body@,
            attachment_url: self.attachment_url@,
            created_at: self.created_at,
            updated_at: self.updated_at,
        }
    }
}

/// Transient input for creating or updating a message: the caller-supplied
/// text fields, without an identifier. Never itself persisted.
pub struct MessagePayload {
    pub title: String,
    pub body: String,
    pub attachment_url: String,
}

/// Mathematical view of a `MessagePayload`.
pub ghost struct PayloadView {
    pub title: Seq<char>,
    pub body: Seq<char>,
    pub attachment_url: Seq<char>,
}

impl View for MessagePayload {
    type V = PayloadView;

    open spec fn view(&self) -> PayloadView {
        PayloadView { title: self.title@, body: self.body@, attachment_url: self.attachment_url@ }
    }
}

/// The three text fields fit the fixed encoding bound. Records that break
/// this bound cannot be stored; nothing else about the payload is validated.
pub open spec fn payload_fits_spec(title: Seq<char>, body: Seq<char>, url: Seq<char>) -> bool {
    encode_utf8(title).len() + encode_utf8(body).len() + encode_utf8(url).len()
        <= MAX_TEXT_BYTES
}

/// Well-formedness of a payload view: its encoding fits the size bound.
pub open spec fn payload_wf(p: PayloadView) -> bool {
    payload_fits_spec(p.title, p.body, p.attachment_url)
}

/// Well-formedness of a message view: its encoding fits the size bound.
pub open spec fn message_wf(m: MessageView) -> bool {
    payload_fits_spec(m.title, m.body, m.attachment_url)
}

/// Runtime check matching `payload_wf`: whether the payload's text fields
/// fit within the fixed encoding bound.
pub fn payload_fits(p: &MessagePayload) -> (b: bool)
    ensures
        b == payload_wf(p@),
{
    let lt: usize = p.title.as_str().as_bytes().len();
    let lb: usize = p.body.as_str().as_bytes().len();
    let lu: usize = p.attachment_url.as_str().as_bytes().len();
    lt <= MAX_TEXT_BYTES && lb <= MAX_TEXT_BYTES - lt && lu <= MAX_TEXT_BYTES - lt - lb
}

} // verus!
