//! Storage logic of a small self-hosted file manager: safe naming of uploads,
//! classification by extension, the upload state machine with its limits,
//! listing order, bounded text previews and storage accounting.
use vstd::prelude::*;

pub mod auth;
pub mod catalog;
pub mod classify;
pub mod namer;
pub mod probe;
pub mod preview;
pub mod storage;
pub mod text;
pub mod upload;

verus! {

/// One stored file as the listing and upload endpoints describe it.
#[derive(Debug, Clone, PartialEq)]
pub struct FileInfo {
    /// The user-facing name.
    pub name: String,
    /// The storage identifier, used to download, preview and delete the file.
    pub path: String,
    pub size: u64,
    /// The category's label.
    pub file_type: String,
    pub can_preview: bool,
}

/// The body of a listing.
#[derive(Debug, Clone)]
pub struct FilesResponse {
    pub files: Vec<FileInfo>,
}

/// The body of an answer that only reports success or failure.
#[derive(Debug, Clone)]
pub struct ApiResponse {
    pub success: bool,
    pub message: String,
}

/// The body of a preview: the text, or why there is none.
#[derive(Debug, Clone)]
pub struct PreviewResponse {
    pub content: Option<String>,
    pub error: Option<String>,
}

/// Whether the service runs in debug mode.
#[derive(Debug, Clone)]
pub struct DebugInfo {
    pub debug_mode: bool,
}

} // verus!
