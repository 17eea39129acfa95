//! File metadata: the immutable snapshot built for each regular file, the
//! derived categories, and the error type of the metadata builder.
use vstd::prelude::*;

use crate::file_detector::{
    classify_with_sniff, get_age_category, get_file_size_category, spec_age_category,
    spec_age_secs, spec_file_type, spec_size_category, SniffReport,
};
use crate::strutil;

verus! {

/// Why a file's metadata could not be produced.
#[derive(Debug, Clone)]
pub enum FileMetadataError {
    NoMetaData,
    InvalidInput(String),
    NoMtime(String),
    Io(String),
}

/// View of `FileMetadataError` with string payloads as character sequences.
pub ghost enum FileMetadataErrorV {
    NoMetaData,
    InvalidInput(Seq<char>),
    NoMtime(Seq<char>),
    Io(Seq<char>),
}

impl View for FileMetadataError {
    type V = FileMetadataErrorV;

    open spec fn view(&self) -> FileMetadataErrorV {
        match self {
            FileMetadataError::NoMetaData => FileMetadataErrorV::NoMetaData,
            FileMetadataError::InvalidInput(m) => FileMetadataErrorV::InvalidInput(m@),
            FileMetadataError::NoMtime(m) => FileMetadataErrorV::NoMtime(m@),
            FileMetadataError::Io(m) => FileMetadataErrorV::Io(m@),
        }
    }
}

/// Ordered size buckets, boundaries in bytes.
#[derive(Debug, Clone, Copy, PartialEq, Eq, Structural)]
pub enum SizeCategory {
    /// below 1 KiB
    Tiny,
    /// 1 KiB up to and including 1 MiB
    Small,
    /// above 1 MiB up to and including 100 MiB
    Medium,
    /// above 100 MiB up to and including 1 GiB
    Large,
    /// above 1 GiB
    Huge,
}

/// Age buckets over whole days since modification.
#[derive(Debug, Clone, Copy, PartialEq, Eq, Structural)]
pub enum AgeCategory {
    /// same day
    Recent,
    /// 1 to 7 days
    Week,
    /// 8 to 30 days
    Month,
    /// 31 to 365 days
    Year,
    /// 366 days or more
    Old,
}

/// The coarse type a file is classified as.
#[derive(Debug, Clone, Copy, PartialEq, Eq, Structural)]
pub enum FileType {
    Document,
    Image,
    Video,
    Audio,
    Archive,
    Code,
    Configuration,
    Text,
    Unknown,
}

impl FileType {
    /// A short lower-case name for the type.
    pub fn as_str(&self) -> (r: &'static str)
        ensures
            r@ == spec_file_type_name(*self),
    {
        match self {
            FileType::Document => "document",
            FileType::Image => "image",
            FileType::Video => "video",
            FileType::Audio => "audio",
            FileType::Archive => "archive",
            FileType::Code => "code",
            FileType::Text => "text",
            FileType::Configuration => "configuration",
            FileType::Unknown => "unknown",
        }
    }
}

/// The name `FileType::as_str` returns for each type.
pub open spec fn spec_file_type_name(t: FileType) -> Seq<char> {
    match t {
        FileType::Document => "document"@,
        FileType::Image => "image"@,
        FileType::Video => "video"@,
        FileType::Audio => "audio"@,
        FileType::Archive => "archive"@,
        FileType::Code => "code"@,
        FileType::Text => "text"@,
        FileType::Configuration => "configuration"@,
        FileType::Unknown => "unknown"@,
    }
}

/// The raw facts recorded for one regular file in the filesystem model:
/// what a stat call reports, plus what content sniffing yields for the file.
/// Times are seconds since the Unix epoch.
#[derive(Debug, Clone, Copy)]
pub struct FileFacts {
    pub size: u64,
    /// Modification time; `None` on filesystems that do not report one.
    pub modified_secs: Option<u64>,
    pub created_secs: Option<u64>,
    pub accessed_secs: Option<u64>,
    /// Permission bits.
    pub mode: u32,
    pub is_file: bool,
    pub is_dir: bool,
    pub is_symlink: bool,
    /// What sniffing the file's leading bytes reports.
    pub sniff: SniffReport,
}

/// The immutable metadata snapshot built once per file.
#[derive(Debug, Clone)]
pub struct FileMetadata {
    pub size: u64,
    pub created_secs: Option<u64>,
    pub modified_secs: u64,
    pub accessed_secs: Option<u64>,
    /// Permission bits (copied, never aliased).
    pub mode: u32,
    pub is_file: bool,
    pub is_dir: bool,
    pub is_symlink: bool,
    /// Extended-attribute names and raw bytes; always empty today.
    pub extended_attributes: Vec<(String, Vec<u8>)>,
    /// Whole seconds elapsed since modification when the snapshot was built.
    pub age_secs: u64,
    pub size_category: SizeCategory,
    pub age_category: AgeCategory,
    pub file_type: FileType,
}

/// View of `FileMetadata`.
pub ghost struct FileMetadataV {
    pub size: u64,
    pub created_secs: Option<u64>,
    pub modified_secs: u64,
    pub accessed_secs: Option<u64>,
    pub mode: u32,
    pub is_file: bool,
    pub is_dir: bool,
    pub is_symlink: bool,
    pub extended_attributes: Seq<(Seq<char>, Seq<u8>)>,
    pub age_secs: u64,
    pub size_category: SizeCategory,
    pub age_category: AgeCategory,
    pub file_type: FileType,
}

impl View for FileMetadata {
    type V = FileMetadataV;

    open spec fn view(&self) -> FileMetadataV {
        FileMetadataV {
            size: self.size,
            created_secs: self.created_secs,
            modified_secs: self.modified_secs,
            accessed_secs: self.accessed_secs,
            mode: self.mode,
            is_file: self.is_file,
            is_dir: self.is_dir,
            is_symlink: self.is_symlink,
            extended_attributes: self.extended_attributes@.map(
                |i: int, p: (String, Vec<u8>)| (p.0@, p.1@),
            ),
            age_secs: self.age_secs,
            size_category: self.size_category,
            age_category: self.age_category,
            file_type: self.file_type,
        }
    }
}

/// What the metadata builder produces for a file at `path` with facts `f`,
/// relative to the clock reading `now_secs`: an error when the modification
/// time is missing, otherwise the snapshot with all derived categories.
pub open spec fn spec_build(path: Seq<char>, f: FileFacts, now_secs: u64) -> Result<
    FileMetadataV,
    FileMetadataErrorV,
> {
    match f.modified_secs {
        None => Err(FileMetadataErrorV::NoMtime(path)),
        Some(m) => Ok(
            FileMetadataV {
                size: f.size,
                created_secs: f.created_secs,
                modified_secs: m,
                accessed_secs: f.accessed_secs,
                mode: f.mode,
                is_file: f.is_file,
                is_dir: f.is_dir,
                is_symlink: f.is_symlink,
                extended_attributes: Seq::empty(),
                age_secs: spec_age_secs(m, now_secs),
                size_category: spec_size_category(f.size),
                age_category: spec_age_category(Some(m), now_secs),
                file_type: spec_file_type(path, f.sniff),
            },
        ),
    }
}

impl FileMetadata {
    /// Builds the metadata snapshot for the file at `path` from its recorded
    /// facts. Requires a modification time; fails with `NoMtime` otherwise.
    /// Everything else is derived: size and age buckets from the raw numbers,
    /// the file type from the path and the sniffing report.
    pub fn build(path: &str, facts: &FileFacts, now_secs: u64) -> (r: Result<
        FileMetadata,
        FileMetadataError,
    >)
        ensures
            match r {
                Ok(md) => spec_build(path@, *facts, now_secs) == Ok::<
                    FileMetadataV,
                    FileMetadataErrorV,
                >(md@),
                Err(e) => spec_build(path@, *facts, now_secs) == Err::<
                    FileMetadataV,
                    FileMetadataErrorV,
                >(e@),
            },
    {
        match facts.modified_secs {
            None => Err(FileMetadataError::NoMtime(strutil::str_copy(path))),
            Some(m) => {
                let age_secs = if now_secs >= m {
                    now_secs - m
                } else {
                    0
                };
                let md = FileMetadata {
                    size: facts.size,
                    created_secs: facts.created_secs,
                    modified_secs: m,
                    accessed_secs: facts.accessed_secs,
                    mode: facts.mode,
                    is_file: facts.is_file,
                    is_dir: facts.is_dir,
                    is_symlink: facts.is_symlink,
                    extended_attributes: Vec::new(),
                    age_secs,
                    size_category: get_file_size_category(facts.size),
                    age_category: get_age_category(facts.modified_secs, now_secs),
                    file_type: classify_with_sniff(path, facts.sniff),
                };
                proof {
                    assert(md@.extended_attributes =~= Seq::<(Seq<char>, Seq<u8>)>::empty());
                }
                Ok(md)
            },
        }
    }
}

/// The record produced for a file that matched a rule, after its actions ran.
#[derive(Debug, Clone)]
pub struct FileContext {
    pub path: String,
    pub metadata: FileMetadata,
    /// Reserved for deeper content analysis; always absent today.
    pub content_info: Option<crate::content_info::ContentInfo>,
    pub parent_dir: String,
    pub base_dir: String,
}

/// View of `FileContext`. `content_info` is always absent, so the view keeps
/// only whether it is present.
pub ghost struct FileContextV {
    pub path: Seq<char>,
    pub metadata: FileMetadataV,
    pub has_content_info: bool,
    pub parent_dir: Seq<char>,
    pub base_dir: Seq<char>,
}

impl View for FileContext {
    type V = FileContextV;

    open spec fn view(&self) -> FileContextV {
        FileContextV {
            path: self.path@,
            metadata: self.metadata@,
            has_content_info: self.content_info is Some,
            parent_dir: self.parent_dir@,
            base_dir: self.base_dir@,
        }
    }
}

} // verus!
