//! Plain request/response shapes of the messaging operations, as the
//! hosting layer exchanges them.

use vstd::prelude::*;

verus! {

/// A request to send a chat message, with its kind and sender as plain
/// text tags.
#[derive(Debug)]
pub struct SendMessageRequest {
    pub consultation_id: String,
    pub message_type: String,
    pub content: String,
    pub sender: String,
    pub file_path: Option<String>,
}

/// A chat message as reported outward, every field as plain text.
#[derive(Debug)]
pub struct Message {
    pub id: String,
    pub consultation_id: String,
    pub message_type: String,
    pub content: String,
    pub sender: String,
    pub timestamp: String,
    pub status: String,
    pub file_path: Option<String>,
}

/// One page of message history.
#[derive(Debug)]
pub struct MessageList {
    pub messages: Vec<Message>,
    pub total: u32,
    pub page: u32,
    pub has_more: bool,
}

/// Where an upload ended up.
#[derive(Debug)]
pub struct FileUploadResult {
    pub url: String,
    pub path: String,
}

/// Messaging around the hosting layer's store and wire.
pub struct MessageService;

impl MessageService {
    pub fn new() -> (r: MessageService) {
        MessageService
    }
}

/// Patient records around the hosting layer's store.
pub struct PatientService;

impl PatientService {
    pub fn new() -> (r: PatientService) {
        PatientService
    }
}

/// Query shapes for listing patients.
#[derive(Debug)]
pub struct PatientList {
    pub patients: Vec<crate::models::Patient>,
    pub total: u32,
    pub page: u32,
    pub page_size: u32,
}

} // verus!
