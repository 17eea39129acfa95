//! File classification: extension table first, then a MIME guess from the
//! path's extension, then content sniffing of the file's leading bytes; and
//! the size and age buckets.
use vstd::prelude::*;

use crate::file_metadata::{AgeCategory, FileType, SizeCategory};
use crate::strutil::{self, eq_ignore_case, ext_of_path};

verus! {

/// What sniffing a file's leading bytes reports: the broad kind of the
/// detected format, `Other` for kinds the classifier does not map, or
/// `Unreadable` when the file could not be read.
#[derive(Debug, Clone, Copy, PartialEq, Eq, Structural)]
pub enum SniffReport {
    Document,
    Image,
    Archive,
    Other,
    Unreadable,
}

/// The first MIME type guessed for a path, keyed on the path's extension;
/// `None` when the guess table has no entry for it.
pub uninterp spec fn mime_guess_of(path: Seq<char>) -> Option<Seq<char>>;

/// Relies on `mime_guess2::MimeGuess::from_path` and `first`: the guess is a
/// pure table lookup keyed on the path's extension, so the result depends on
/// the path alone; `first` is `None` exactly when the table has no entry.
#[verifier::external_body]
fn mime_first(path: &str) -> (r: Option<String>)
    ensures
        match r {
            Some(m) => mime_guess_of(path@) == Some(m@),
            None => mime_guess_of(path@) is None,
        },
{
    match mime_guess2::from_path(std::path::Path::new(path)).first() {
        Some(m) => Some(m.to_string()),
        None => None,
    }
}

/// Relies on `file_format::FileFormat::from_file` and `kind`: reads the
/// file's leading bytes and reports the detected format's broad kind. The
/// result depends on what is on disk, so nothing is promised of it; callers
/// handle every report.
#[verifier::external_body]
fn sniff_file(path: &str) -> SniffReport {
    match file_format::FileFormat::from_file(std::path::Path::new(path)) {
        Ok(f) => match f.kind() {
            file_format::Kind::Document => SniffReport::Document,
            file_format::Kind::Image => SniffReport::Image,
            file_format::Kind::Archive => SniffReport::Archive,
            _ => SniffReport::Other,
        },
        Err(_) => SniffReport::Unreadable,
    }
}

/// Sniffs the content of the file at `path`. The report depends on what is
/// on disk at the moment of the call; it is the datum a caller records in
/// `FileFacts::sniff`.
pub fn sniff_report(path: &str) -> SniffReport {
    sniff_file(path)
}

/// Whether `e` is one of the code extensions, up to ASCII case.
pub open spec fn is_code_extension(e: Seq<char>) -> bool {
    eq_ignore_case(e, "java"@) || eq_ignore_case(e, "rs"@) || eq_ignore_case(e, "rb"@)
        || eq_ignore_case(e, "ex"@) || eq_ignore_case(e, "go"@) || eq_ignore_case(e, "js"@)
}

/// The type the extension table assigns, `Unknown` when the table has no row
/// for the extension (or the path has none).
pub open spec fn type_for_extension(ext: Option<Seq<char>>) -> FileType {
    match ext {
        None => FileType::Unknown,
        Some(e) => if is_code_extension(e) {
            FileType::Code
        } else if eq_ignore_case(e, "md"@) {
            FileType::Document
        } else if eq_ignore_case(e, "yml"@) || eq_ignore_case(e, "yaml"@) || eq_ignore_case(
            e,
            "toml"@,
        ) {
            FileType::Configuration
        } else if eq_ignore_case(e, "txt"@) {
            FileType::Text
        } else {
            FileType::Unknown
        },
    }
}

/// The type a guessed MIME string maps to.
pub open spec fn type_for_mime(m: Seq<char>) -> FileType {
    if m == "image/gif"@ || m == "image/bmp"@ || m == "image/jpeg"@ || m == "image/svg+xml"@ {
        FileType::Image
    } else if m == "application/pdf"@ {
        FileType::Document
    } else if m == "application/javascript"@ {
        FileType::Code
    } else if m == "text/plain"@ {
        FileType::Text
    } else {
        FileType::Unknown
    }
}

/// The type a sniffing report maps to.
pub open spec fn type_for_sniff(s: SniffReport) -> FileType {
    match s {
        SniffReport::Document => FileType::Document,
        SniffReport::Image => FileType::Image,
        SniffReport::Archive => FileType::Archive,
        SniffReport::Other => FileType::Unknown,
        SniffReport::Unreadable => FileType::Unknown,
    }
}

/// The classification of a file: the first stage with an answer wins.
/// The extension table is consulted first; when it has no row, the MIME
/// guess decides; when no MIME type is guessed either, the sniffing report
/// decides.
pub open spec fn spec_file_type(path: Seq<char>, sniff: SniffReport) -> FileType {
    if type_for_extension(ext_of_path(path)) != FileType::Unknown {
        type_for_extension(ext_of_path(path))
    } else {
        match mime_guess_of(path) {
            Some(m) => type_for_mime(m),
            None => type_for_sniff(sniff),
        }
    }
}

/// Classifies a file from its path and an already-taken sniffing report.
pub fn classify_with_sniff(path: &str, sniff: SniffReport) -> (r: FileType)
    ensures
        r == spec_file_type(path@, sniff),
{
    let by_ext = type_by_extension(path);
    if !matches!(by_ext, FileType::Unknown) {
        return by_ext;
    }
    match mime_first(path) {
        Some(m) => type_by_mime(&m),
        None => match sniff {
            SniffReport::Document => FileType::Document,
            SniffReport::Image => FileType::Image,
            SniffReport::Archive => FileType::Archive,
            SniffReport::Other => FileType::Unknown,
            SniffReport::Unreadable => FileType::Unknown,
        },
    }
}

/// Derives a file's type from its path and content, in the order the
/// classifier prescribes: extension table, MIME guess, content sniffing.
/// When the extension table or the MIME guess decides, the result is exact;
/// otherwise it is whatever the sniffing of the file on disk yields.
pub fn get_file_type(f: &str) -> (r: FileType)
    ensures
        exists|rep: SniffReport| r == spec_file_type(f@, rep),
        type_for_extension(ext_of_path(f@)) != FileType::Unknown ==> r == type_for_extension(
            ext_of_path(f@),
        ),
        type_for_extension(ext_of_path(f@)) == FileType::Unknown ==> match mime_guess_of(f@) {
            Some(m) => r == type_for_mime(m),
            None => r == FileType::Document || r == FileType::Image || r == FileType::Archive
                || r == FileType::Unknown,
        },
{
    let by_ext = type_by_extension(f);
    if !matches!(by_ext, FileType::Unknown) {
        proof {
            let rep = SniffReport::Other;
            assert(by_ext == spec_file_type(f@, rep));
        }
        return by_ext;
    }
    match mime_first(f) {
        Some(m) => {
            let r = type_by_mime(&m);
            proof {
                let rep = SniffReport::Other;
                assert(r == spec_file_type(f@, rep));
            }
            r
        },
        None => {
            let rep = sniff_file(f);
            let r = classify_with_sniff(f, rep);
            r
        },
    }
}

/// The extension-table stage of the classifier.
fn type_by_extension(path: &str) -> (r: FileType)
    ensures
        r == type_for_extension(ext_of_path(path@)),
{
    match strutil::extension(path) {
        None => FileType::Unknown,
        Some(e) => {
            if strutil::eq_ignore_ascii_case(e, "java") || strutil::eq_ignore_ascii_case(e, "rs")
                || strutil::eq_ignore_ascii_case(e, "rb") || strutil::eq_ignore_ascii_case(e, "ex")
                || strutil::eq_ignore_ascii_case(e, "go") || strutil::eq_ignore_ascii_case(
                e,
                "js",
            ) {
                FileType::Code
            } else if strutil::eq_ignore_ascii_case(e, "md") {
                FileType::Document
            } else if strutil::eq_ignore_ascii_case(e, "yml") || strutil::eq_ignore_ascii_case(
                e,
                "yaml",
            ) || strutil::eq_ignore_ascii_case(e, "toml") {
                FileType::Configuration
            } else if strutil::eq_ignore_ascii_case(e, "txt") {
                FileType::Text
            } else {
                FileType::Unknown
            }
        },
    }
}

/// The MIME-mapping stage of the classifier.
fn type_by_mime(m: &str) -> (r: FileType)
    ensures
        r == type_for_mime(m@),
{
    if strutil::str_eq(m, "image/gif") || strutil::str_eq(m, "image/bmp") || strutil::str_eq(
        m,
        "image/jpeg",
    ) || strutil::str_eq(m, "image/svg+xml") {
        FileType::Image
    } else if strutil::str_eq(m, "application/pdf") {
        FileType::Document
    } else if strutil::str_eq(m, "application/javascript") {
        FileType::Code
    } else if strutil::str_eq(m, "text/plain") {
        FileType::Text
    } else {
        FileType::Unknown
    }
}

/// The size bucket of `s` bytes.
pub open spec fn spec_size_category(s: u64) -> SizeCategory {
    if s < 1024 {
        SizeCategory::Tiny
    } else if s <= 1048576 {
        SizeCategory::Small
    } else if s <= 104857600 {
        SizeCategory::Medium
    } else if s <= 1073741824 {
        SizeCategory::Large
    } else {
        SizeCategory::Huge
    }
}

/// The size bucket of a file of `size` bytes. Total over all sizes: every
/// size falls in exactly one bucket, with the boundaries closed as the
/// bucket comments state.
pub fn get_file_size_category(size: u64) -> (r: SizeCategory)
    ensures
        r == spec_size_category(size),
{
    if size < 1024 {
        SizeCategory::Tiny
    } else if size <= 1_048_576 {
        SizeCategory::Small
    } else if size <= 104_857_600 {
        SizeCategory::Medium
    } else if size <= 1_073_741_824 {
        SizeCategory::Large
    } else {
        SizeCategory::Huge
    }
}

/// Whole seconds elapsed from `modified` to `now`; zero when the
/// modification time lies in the future.
pub open spec fn spec_age_secs(modified: u64, now: u64) -> u64 {
    if now >= modified {
        (now - modified) as u64
    } else {
        0
    }
}

/// The age bucket for an age of `d` whole days.
pub open spec fn spec_age_days_category(d: u64) -> AgeCategory {
    if d == 0 {
        AgeCategory::Recent
    } else if d <= 7 {
        AgeCategory::Week
    } else if d <= 30 {
        AgeCategory::Month
    } else if d <= 365 {
        AgeCategory::Year
    } else {
        AgeCategory::Old
    }
}

/// The age bucket of a file: whole days since modification, `Old` when no
/// modification time is available.
pub open spec fn spec_age_category(modified: Option<u64>, now: u64) -> AgeCategory {
    match modified {
        None => AgeCategory::Old,
        Some(m) => spec_age_days_category(spec_age_secs(m, now) / 86400),
    }
}

/// The age bucket of a file modified at `modified_secs`, judged at
/// `now_secs` (both in seconds since the Unix epoch). A modification time in
/// the future counts as age zero, hence `Recent`; a missing one as `Old`.
pub fn get_age_category(modified_secs: Option<u64>, now_secs: u64) -> (r: AgeCategory)
    ensures
        r == spec_age_category(modified_secs, now_secs),
{
    match modified_secs {
        None => AgeCategory::Old,
        Some(m) => {
            let secs = if now_secs >= m {
                now_secs - m
            } else {
                0
            };
            let days = secs / 86_400;
            if days == 0 {
                AgeCategory::Recent
            } else if days <= 7 {
                AgeCategory::Week
            } else if days <= 30 {
                AgeCategory::Month
            } else if days <= 365 {
                AgeCategory::Year
            } else {
                AgeCategory::Old
            }
        },
    }
}

/// A file whose extension is in the code-extension table classifies as
/// `Code`, whatever the MIME guess or the content sniffing would say.
pub proof fn lemma_code_extension_wins(path: Seq<char>, sniff: SniffReport)
    requires
        ext_of_path(path) matches Some(e) && is_code_extension(e),
    ensures
        spec_file_type(path, sniff) == FileType::Code,
{
}

/// The size buckets partition all byte sizes: every size falls in exactly
/// one bucket, and the boundaries are closed as stated (1024 is `Small`,
/// 1048576 is `Small`, 1048577 is `Medium`).
pub proof fn lemma_size_category_partition(s: u64)
    ensures
        spec_size_category(s) == SizeCategory::Tiny <==> s < 1024,
        spec_size_category(s) == SizeCategory::Small <==> 1024 <= s <= 1048576,
        spec_size_category(s) == SizeCategory::Medium <==> 1048576 < s <= 104857600,
        spec_size_category(s) == SizeCategory::Large <==> 104857600 < s <= 1073741824,
        spec_size_category(s) == SizeCategory::Huge <==> s > 1073741824,
{
}

/// The age buckets partition all ages in whole days with no overlap: day 0
/// is `Recent`, days 1 to 7 are `Week` (so day 7 is `Week`), days 8 to 30
/// are `Month` (so day 8 is `Month`), days 31 to 365 are `Year`, and
/// everything later is `Old`.
pub proof fn lemma_age_category_partition(d: u64)
    ensures
        spec_age_days_category(d) == AgeCategory::Recent <==> d == 0,
        spec_age_days_category(d) == AgeCategory::Week <==> 1 <= d <= 7,
        spec_age_days_category(d) == AgeCategory::Month <==> 8 <= d <= 30,
        spec_age_days_category(d) == AgeCategory::Year <==> 31 <= d <= 365,
        spec_age_days_category(d) == AgeCategory::Old <==> d >= 366,
{
}

} // verus!
