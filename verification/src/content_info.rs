//! Deeper content analysis records. Reserved: the crawler leaves them absent
//! today; they are placeholders for content-derived metadata.
use vstd::prelude::*;

verus! {

/// Content-derived information about a file.
#[derive(Debug, Clone, Default)]
pub struct ContentInfo {
    /// The detected media type, such as `"image/jpeg"`.
    pub mime_type: String,
    pub media_info: Option<MediaInfo>,
    pub document_info: Option<DocumentInfo>,
    pub archive_info: Option<ArchiveInfo>,
    /// The detected text encoding, for text files.
    pub text_encoding: Option<String>,
    /// The detected language, for text files.
    pub language: Option<String>,
    /// A content digest, for deduplication.
    pub hash: Option<String>,
    /// Whether the file carries embedded metadata of its own.
    pub has_metadata: bool,
}

/// Image, video and audio details.
#[derive(Debug, Clone, Default)]
pub struct MediaInfo {
    pub width: Option<u32>,
    pub height: Option<u32>,
    /// Playing time in whole seconds, for video and audio.
    pub duration_secs: Option<u64>,
    /// When the picture was taken, in seconds since the Unix epoch.
    pub date_taken_secs: Option<u64>,
    pub camera_make: Option<String>,
    pub camera_model: Option<String>,
}

/// Archive details.
#[derive(Debug, Clone, Default)]
pub struct ArchiveInfo {
    /// The archive format's name, such as `"zip"`.
    pub format: String,
    pub file_count: u32,
    pub uncompressed_size: u64,
}

/// Document-specific details.
#[derive(Debug, Clone, Default)]
pub struct DocumentInfo {
    pub page_count: Option<u32>,
    pub word_count: Option<u32>,
    pub author: Option<String>,
    pub title: Option<String>,
    /// Creation date in seconds since the Unix epoch.
    pub created_secs: Option<u64>,
}

} // verus!
