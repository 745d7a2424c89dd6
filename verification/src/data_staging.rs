//! Detection of data that is collected and put in one place, as happens before
//! it is carried off.
//!
//! Confidences are whole numbers of millionths.
use vstd::prelude::*;

use std::collections::{HashMap, VecDeque};

use crate::paths::is_directory_of;
use crate::telemetry::ONE;
use crate::text::{
    any_ends, any_occurs, begins, characters, contains, contains_any, copies, decimal, decimal_text,
    ends_with_any, lowercase, occurs, occurs_at, opt_copy, opt_text, replace_char, replaced,
    starts_with, texts, to_lowercase, to_uppercase, uppercase,
};
use crate::textset::{first_members, with_member, TextSet};

verus! {

broadcast use vstd::std_specs::hash::group_hash_axioms;

/// How many accesses of a process are remembered.
pub const MAX_FILE_EVENTS: usize = 1000;

/// How many detections are remembered.
pub const MAX_DETECTIONS: usize = 100;

/// The endings of files that are worth taking.
pub const HIGH_VALUE_ENDINGS: [&'static str; 41] = [
    ".doc",
    ".docx",
    ".xls",
    ".xlsx",
    ".ppt",
    ".pptx",
    ".pdf",
    ".txt",
    ".rtf",
    ".csv",
    ".json",
    ".xml",
    ".sql",
    ".db",
    ".sqlite",
    ".mdb",
    ".accdb",
    ".key",
    ".pem",
    ".crt",
    ".cer",
    ".pfx",
    ".p12",
    ".jks",
    ".kdbx",
    ".1pux",
    ".agilekeychain",
    ".keychain",
    ".zip",
    ".7z",
    ".rar",
    ".tar",
    ".gz",
    ".bz2",
    ".pst",
    ".ost",
    ".msg",
    ".eml",
    ".bak",
    ".backup",
    ".old",
];

/// What stands in the paths of places where data is put.
pub const STAGING_PATTERNS: [&'static str; 12] = [
    "temp",
    "tmp",
    "appdata\\local\\temp",
    "programdata",
    "public",
    "downloads",
    "desktop",
    "recycler",
    "recycle.bin",
    "/tmp",
    "/var/tmp",
    "/dev/shm",
];

/// What stands in the paths of caches, builds, logs and other files that are
/// touched all the time.
pub const LOW_SIGNAL_PATTERNS: [&'static str; 23] = [
    "/target/debug/",
    "/target/release/",
    "/target/.rustc_info.json",
    "/node_modules/",
    "/.git/",
    "/.cargo/registry/",
    "/.cargo/git/",
    "/.codex/",
    "/library/caches/",
    "/library/assistant/sirivocabulary/",
    "/library/identityservices/",
    "/library/application support/spotify/",
    "/library/application support/com.apple.ap.promotedcontentd/",
    "/pictures/photos library.photoslibrary/private/com.apple.photoanalysisd/caches/",
    "/movies/tv/tv library.tvlibrary/",
    "/cache/cache_data/",
    "/appdata/local/steam/htmlcache/",
    "/appdata/local/microsoft/windows/inetcache/",
    "/windows/system32/winevt/logs/",
    "/windows/system32/logfiles/wmi/rtbackup/",
    "/windows/system32/tasks/microsoft/windows/",
    "/programdata/microsoft/network/downloader/",
    "/programdata/microsoft/windows defender/scans/",
];

/// What stands in the paths of people's documents.
pub const SENSITIVE_ROOTS: [&'static str; 11] = [
    "/documents/",
    "/desktop/",
    "/downloads/",
    "/onedrive/",
    "/dropbox/",
    "/google drive/",
    "/icloud drive/",
    "/users/public/",
    "/home/",
    "/srv/",
    "/var/www/",
];

/// What stands in the paths of people's databases.
pub const DATABASE_ROOTS: [&'static str; 4] = [
    "/documents/",
    "/desktop/",
    "/downloads/",
    "/appdata/roaming/",
];

/// Where the system keeps its credentials.
pub const PROTECTED_STORES: [&'static str; 6] = [
    "/windows/system32/config/sam",
    "/windows/system32/config/security",
    "/windows/system32/config/system",
    "/windows/ntds/ntds.dit",
    "/etc/shadow",
    "/etc/security/passwd",
];

/// What stands in the paths of stores of credentials.
pub const CREDENTIAL_PATTERNS: [&'static str; 12] = [
    "login data",
    "cookies",
    "key3.db",
    "key4.db",
    "logins.json",
    "signons.sqlite",
    "credentials",
    ".kdbx",
    "vault",
    "keychain",
    "credential manager",
    "ntds.dit",
];

/// The endings of archives.
pub const ARCHIVE_ENDINGS: [&'static str; 8] = [
    ".zip",
    ".7z",
    ".rar",
    ".tar",
    ".gz",
    ".bz2",
    ".xz",
    ".cab",
];

/// The endings of databases.
pub const DATABASE_ENDINGS: [&'static str; 8] = [
    ".db",
    ".sqlite",
    ".sqlite3",
    ".mdb",
    ".accdb",
    ".sql",
    ".mdf",
    ".ldf",
];

/// What stands in the paths of mail.
pub const EMAIL_PATTERNS: [&'static str; 7] = [
    ".pst",
    ".ost",
    ".msg",
    ".eml",
    ".mbox",
    "mail",
    "thunderbird",
];

/// How a file was accessed.
#[derive(Clone, Copy, Debug, PartialEq, Eq, Structural)]
pub enum FileAccessType {
    Read,
    Write,
    Create,
    Delete,
    Rename,
    Copy,
    Enumerate,
}

/// An access to a file.
pub struct FileAccessEvent {
    pub timestamp: u64,
    pub pid: u32,
    pub process_name: String,
    pub file_path: String,
    pub access_type: FileAccessType,
    pub bytes_read: Option<u64>,
    pub bytes_written: Option<u64>,
}

/// What an access says.
#[verifier::ext_equal]
pub struct FileAccessModel {
    pub timestamp: u64,
    pub pid: u32,
    pub process_name: Seq<char>,
    pub file_path: Seq<char>,
    pub access_type: FileAccessType,
    pub bytes_read: Option<u64>,
    pub bytes_written: Option<u64>,
}

impl View for FileAccessEvent {
    type V = FileAccessModel;

    open spec fn view(&self) -> FileAccessModel {
        FileAccessModel {
            timestamp: self.timestamp,
            pid: self.pid,
            process_name: self.process_name@,
            file_path: self.file_path@,
            access_type: self.access_type,
            bytes_read: self.bytes_read,
            bytes_written: self.bytes_written,
        }
    }
}

impl Clone for FileAccessEvent {
    fn clone(&self) -> (r: FileAccessEvent)
        ensures
            r@ == self@,
    {
        FileAccessEvent {
            timestamp: self.timestamp,
            pid: self.pid,
            process_name: self.process_name.clone(),
            file_path: self.file_path.clone(),
            access_type: self.access_type,
            bytes_read: self.bytes_read,
            bytes_written: self.bytes_written,
        }
    }
}

/// What was found.
#[derive(Clone, Copy, Debug, PartialEq, Eq, Structural)]
pub enum StagingDetectionType {
    BulkEnumeration,
    HighValueFileCollection,
    StagingDirectoryWrite,
    ArchiveCreation,
    RemovableMediaStaging,
    NetworkShareStaging,
    CrossDirectoryCollection,
    CredentialStoreAccess,
    DatabaseAccess,
    EmailStoreAccess,
}

impl StagingDetectionType {
    /// The technique of what was found.
    pub open spec fn technique(&self) -> Seq<char> {
        match self {
            StagingDetectionType::BulkEnumeration => "T1083"@,
            StagingDetectionType::HighValueFileCollection => "T1005"@,
            StagingDetectionType::StagingDirectoryWrite => "T1074"@,
            StagingDetectionType::ArchiveCreation => "T1560"@,
            StagingDetectionType::RemovableMediaStaging => "T1052"@,
            StagingDetectionType::NetworkShareStaging => "T1039"@,
            StagingDetectionType::CrossDirectoryCollection => "T1119"@,
            StagingDetectionType::CredentialStoreAccess => "T1555"@,
            StagingDetectionType::DatabaseAccess => "T1005"@,
            StagingDetectionType::EmailStoreAccess => "T1114"@,
        }
    }

    /// The technique of what was found.
    pub fn mitre_technique(&self) -> (r: &'static str)
        ensures
            r@ == self.technique(),
    {
        match self {
            StagingDetectionType::BulkEnumeration => "T1083",
            StagingDetectionType::HighValueFileCollection => "T1005",
            StagingDetectionType::StagingDirectoryWrite => "T1074",
            StagingDetectionType::ArchiveCreation => "T1560",
            StagingDetectionType::RemovableMediaStaging => "T1052",
            StagingDetectionType::NetworkShareStaging => "T1039",
            StagingDetectionType::CrossDirectoryCollection => "T1119",
            StagingDetectionType::CredentialStoreAccess => "T1555",
            StagingDetectionType::DatabaseAccess => "T1005",
            StagingDetectionType::EmailStoreAccess => "T1114",
        }
    }
}

/// A detection of collected data.
pub struct StagingDetection {
    pub detection_type: StagingDetectionType,
    pub pid: u32,
    pub process_name: String,
    /// In millionths.
    pub confidence: u32,
    pub mitre_technique: String,
    pub description: String,
    pub files_involved: Vec<String>,
    pub staging_location: Option<String>,
    pub timestamp: u64,
}

/// What a detection says.
#[verifier::ext_equal]
pub struct StagingModel {
    pub detection_type: StagingDetectionType,
    pub pid: u32,
    pub process_name: Seq<char>,
    pub confidence: u32,
    pub mitre_technique: Seq<char>,
    pub description: Seq<char>,
    pub files_involved: Seq<Seq<char>>,
    pub staging_location: Option<Seq<char>>,
    pub timestamp: u64,
}

impl View for StagingDetection {
    type V = StagingModel;

    open spec fn view(&self) -> StagingModel {
        StagingModel {
            detection_type: self.detection_type,
            pid: self.pid,
            process_name: self.process_name@,
            confidence: self.confidence,
            mitre_technique: self.mitre_technique@,
            description: self.description@,
            files_involved: texts(self.files_involved@),
            staging_location: opt_text(self.staging_location),
            timestamp: self.timestamp,
        }
    }
}

impl Clone for StagingDetection {
    fn clone(&self) -> (r: StagingDetection)
        ensures
            r@ == self@,
    {
        StagingDetection {
            detection_type: self.detection_type,
            pid: self.pid,
            process_name: self.process_name.clone(),
            confidence: self.confidence,
            mitre_technique: self.mitre_technique.clone(),
            description: self.description.clone(),
            files_involved: copies(&self.files_involved),
            staging_location: opt_copy(&self.staging_location),
            timestamp: self.timestamp,
        }
    }
}

/// What detections say.
pub open spec fn staging_view(v: Seq<StagingDetection>) -> Seq<StagingModel> {
    v.map_values(|d: StagingDetection| d@)
}

/// A path with slashes for backslashes.
pub open spec fn slashed(path: Seq<char>) -> Seq<char> {
    replaced(path, '\\', '/')
}

/// Whether a path is one of those that are touched all the time.
pub open spec fn low_signal(path: Seq<char>) -> bool {
    any_occurs(LOW_SIGNAL_PATTERNS@, slashed(lowercase(path)))
}

/// Whether a path is that of a store of credentials.
pub open spec fn credential_store(path: Seq<char>) -> bool {
    let lower = lowercase(path);
    !low_signal(slashed(lower)) && (any_ends(slashed(lower), PROTECTED_STORES@) || any_occurs(
        CREDENTIAL_PATTERNS@,
        lower,
    ))
}

/// Whether a path is that of someone's document.
pub open spec fn sensitive_document(path: Seq<char>) -> bool {
    !occurs("/"@, slashed(path)) || any_occurs(SENSITIVE_ROOTS@, slashed(path))
}

/// Whether a path is that of someone's database.
pub open spec fn sensitive_database(path: Seq<char>) -> bool {
    let n = slashed(path);
    !occurs("/"@, n) || credential_store(n) || any_occurs(DATABASE_ROOTS@, n) || (occurs(
        "/library/application support/"@,
        n,
    ) && !occurs("/library/application support/google/chrome/"@, n) && !occurs(
        "/library/application support/firefox/"@,
        n,
    ))
}

/// Whether a path is in a place where data is put.
pub open spec fn staging_location(path: Seq<char>) -> bool {
    any_occurs(STAGING_PATTERNS@, lowercase(path))
}

/// Whether a path is that of an archive.
pub open spec fn archive(path: Seq<char>) -> bool {
    any_ends(lowercase(path), ARCHIVE_ENDINGS@)
}

/// Whether a path is that of a database.
pub open spec fn database(path: Seq<char>) -> bool {
    any_ends(lowercase(path), DATABASE_ENDINGS@)
}

/// Whether a path is that of mail.
pub open spec fn email_store(path: Seq<char>) -> bool {
    any_occurs(EMAIL_PATTERNS@, lowercase(path))
}

/// Whether a path is on the network.
pub open spec fn network_path(path: Seq<char>) -> bool {
    begins(path, "\\\\"@) || begins(path, "//"@) || occurs(":/"@, path)
}

/// Whether a path is on a medium that can be taken out: below a mount point for
/// such media, or on a drive from D to Z that is not the system's own.
pub open spec fn removable_media(path: Seq<char>, system_drive: Option<Seq<char>>) -> bool {
    let upper = uppercase(path);
    !(system_drive is Some && begins(upper, uppercase(system_drive->0))) && if begins(upper, "/"@) {
        begins(path, "/media/"@) || begins(path, "/mnt/"@) || begins(path, "/run/media/"@)
    } else {
        upper.len() >= 2 && 'D' <= upper[0] <= 'Z' && upper[1] == ':'
    }
}

/// Whether a path is that of a file that is worth taking.
pub open spec fn high_value(path: Seq<char>) -> bool {
    let lower = lowercase(path);
    !low_signal(lower) && (credential_store(lower) || email_store(lower) || (database(lower)
        && sensitive_database(lower)) || (any_ends(lower, HIGH_VALUE_ENDINGS@)
        && sensitive_document(lower)))
}

/// Whether an access writes.
pub open spec fn writes(t: FileAccessType) -> bool {
    t == FileAccessType::Write || t == FileAccessType::Create
}

/// Whether an access carries something over.
pub open spec fn carries(t: FileAccessType) -> bool {
    t == FileAccessType::Write || t == FileAccessType::Copy
}

/// A sum, up to the largest number.
pub open spec fn summed(a: u64, b: Option<u64>) -> u64 {
    match b {
        Some(n) => if a + n > u64::MAX {
            u64::MAX
        } else {
            (a + n) as u64
        },
        None => a,
    }
}

fn sum_up(a: u64, b: Option<u64>) -> (r: u64)
    ensures
        r == summed(a, b),
{
    match b {
        Some(n) => {
            if n > u64::MAX - a {
                u64::MAX
            } else {
                a + n
            }
        },
        None => a,
    }
}

/// What a process did with files.
pub struct ProcessActivity {
    pub files_read: TextSet,
    pub files_written: TextSet,
    pub dirs_enumerated: TextSet,
    pub high_value_files: TextSet,
    pub staging_writes: TextSet,
    /// The directory of the first of the staging writes.
    pub staging_directory: Option<String>,
    pub bytes_read: u64,
    pub bytes_written: u64,
    pub recent_events: VecDeque<FileAccessEvent>,
    pub first_activity: u64,
    pub last_activity: u64,
}

/// What is known of a process.
#[verifier::ext_equal]
pub struct ActivityModel {
    pub read: Seq<Seq<char>>,
    pub written: Seq<Seq<char>>,
    pub enumerated: Seq<Seq<char>>,
    pub high_value: Seq<Seq<char>>,
    pub staged: Seq<Seq<char>>,
    pub staging_directory: Option<Seq<char>>,
    pub bytes_read: u64,
    pub bytes_written: u64,
    pub recent: Seq<FileAccessModel>,
    pub first: u64,
    pub last: u64,
}

/// What accesses say.
pub open spec fn accesses_view(v: Seq<FileAccessEvent>) -> Seq<FileAccessModel> {
    v.map_values(|e: FileAccessEvent| e@)
}

impl View for ProcessActivity {
    type V = ActivityModel;

    open spec fn view(&self) -> ActivityModel {
        ActivityModel {
            read: self.files_read.members(),
            written: self.files_written.members(),
            enumerated: self.dirs_enumerated.members(),
            high_value: self.high_value_files.members(),
            staged: self.staging_writes.members(),
            staging_directory: opt_text(self.staging_directory),
            bytes_read: self.bytes_read,
            bytes_written: self.bytes_written,
            recent: accesses_view(self.recent_events@),
            first: self.first_activity,
            last: self.last_activity,
        }
    }
}

/// Nothing known of a process since a time.
pub open spec fn no_activity(timestamp: u64) -> ActivityModel {
    ActivityModel {
        read: Seq::empty(),
        written: Seq::empty(),
        enumerated: Seq::empty(),
        high_value: Seq::empty(),
        staged: Seq::empty(),
        staging_directory: None,
        bytes_read: 0,
        bytes_written: 0,
        recent: Seq::empty(),
        first: timestamp,
        last: 0,
    }
}

/// The last `max` of a sequence.
pub open spec fn last_of<T>(s: Seq<T>, max: nat) -> Seq<T> {
    if s.len() > max {
        s.skip(s.len() - max)
    } else {
        s
    }
}

/// What is known of a process after an access to a file in a directory.
pub open spec fn after_access(
    before: Option<ActivityModel>,
    e: FileAccessModel,
    directory: Option<Seq<char>>,
) -> ActivityModel {
    let a = match before {
        Some(a) => a,
        None => no_activity(e.timestamp),
    };
    let stages = staging_location(e.file_path) && writes(e.access_type);
    ActivityModel {
        read: if e.access_type == FileAccessType::Read {
            with_member(a.read, e.file_path)
        } else {
            a.read
        },
        written: if writes(e.access_type) {
            with_member(a.written, e.file_path)
        } else {
            a.written
        },
        enumerated: if e.access_type == FileAccessType::Enumerate && directory is Some {
            with_member(a.enumerated, directory->0)
        } else {
            a.enumerated
        },
        high_value: if high_value(e.file_path) {
            with_member(a.high_value, e.file_path)
        } else {
            a.high_value
        },
        staged: if stages {
            with_member(a.staged, e.file_path)
        } else {
            a.staged
        },
        staging_directory: if stages && a.staged.len() == 0 {
            directory
        } else {
            a.staging_directory
        },
        bytes_read: if e.access_type == FileAccessType::Read {
            summed(a.bytes_read, e.bytes_read)
        } else {
            a.bytes_read
        },
        bytes_written: if writes(e.access_type) {
            summed(a.bytes_written, e.bytes_written)
        } else {
            a.bytes_written
        },
        recent: last_of(a.recent.push(e), MAX_FILE_EVENTS as nat),
        first: a.first,
        last: e.timestamp,
    }
}

/// A share of a whole, at most the whole, in millionths.
pub open spec fn share(n: nat, each: nat) -> u32 {
    if n * each >= ONE {
        ONE
    } else {
        (n * each) as u32
    }
}

fn share_of(n: usize, each: u32) -> (r: u32)
    ensures
        r == share(n as nat, each as nat),
{
    assert(n * each <= 0xffff_ffff_ffff_ffff * 0xffff_ffff) by (nonlinear_arith)
        requires
            n <= 0xffff_ffff_ffff_ffff,
            each <= 0xffff_ffff,
    ;
    let product: u128 = n as u128 * each as u128;
    assert(product == n as nat * each as nat);
    if product >= ONE as u128 {
        ONE
    } else {
        product as u32
    }
}

/// A detection on an access.
pub open spec fn staging(
    t: StagingDetectionType,
    e: FileAccessModel,
    confidence: u32,
    description: Seq<char>,
    files: Seq<Seq<char>>,
    location: Option<Seq<char>>,
) -> StagingModel {
    StagingModel {
        detection_type: t,
        pid: e.pid,
        process_name: e.process_name,
        confidence,
        mitre_technique: t.technique(),
        description,
        files_involved: files,
        staging_location: location,
        timestamp: e.timestamp,
    }
}

fn staging_of(
    t: StagingDetectionType,
    e: &FileAccessEvent,
    confidence: u32,
    description: String,
    files: Vec<String>,
    location: Option<String>,
) -> (d: StagingDetection)
    ensures
        d@ == staging(t, e@, confidence, description@, texts(files@), opt_text(location)),
{
    StagingDetection {
        detection_type: t,
        pid: e.pid,
        process_name: e.process_name.clone(),
        confidence,
        mitre_technique: t.mitre_technique().to_string(),
        description,
        files_involved: files,
        staging_location: location,
        timestamp: e.timestamp,
    }
}

/// A detection, where a condition holds.
pub open spec fn when(c: bool, d: StagingModel) -> Seq<StagingModel> {
    if c {
        seq![d]
    } else {
        Seq::empty()
    }
}

/// What is found in what a process has done so far.
pub open spec fn collection_findings(
    e: FileAccessModel,
    a: ActivityModel,
    directory: Option<Seq<char>>,
) -> Seq<StagingModel> {
    let path = e.file_path;
    when(
        a.enumerated.len() > 10,
        staging(
            StagingDetectionType::BulkEnumeration,
            e,
            share(a.enumerated.len(), 20_000),
            "Process enumerated "@ + decimal(a.enumerated.len()) + " directories"@,
            Seq::empty(),
            None,
        ),
    ) + when(
        a.high_value.len() >= 5,
        staging(
            StagingDetectionType::HighValueFileCollection,
            e,
            share(a.high_value.len(), 50_000),
            "Process accessed "@ + decimal(a.high_value.len()) + " high-value files"@,
            first_members(a.high_value, 10),
            None,
        ),
    ) + when(
        a.staged.len() > 0 && a.read.len() > 10,
        staging(
            StagingDetectionType::StagingDirectoryWrite,
            e,
            700_000,
            "Process read "@ + decimal(a.read.len()) + " files and wrote to staging location"@,
            first_members(a.staged, 10),
            a.staging_directory,
        ),
    ) + when(
        archive(path) && writes(e.access_type) && a.read.len() > 5,
        staging(
            StagingDetectionType::ArchiveCreation,
            e,
            850_000,
            "Process created archive after reading "@ + decimal(a.read.len()) + " files"@,
            seq![path],
            directory,
        ),
    )
}

/// What is found in an access to a file in a directory, after it was noted.
pub open spec fn staging_findings(
    e: FileAccessModel,
    a: ActivityModel,
    directory: Option<Seq<char>>,
    system_drive: Option<Seq<char>>,
) -> Seq<StagingModel> {
    let path = e.file_path;
    collection_findings(e, a, directory) + when(
        credential_store(path),
        staging(
            StagingDetectionType::CredentialStoreAccess,
            e,
            900_000,
            "Process accessed credential store"@,
            seq![path],
            None,
        ),
    ) + when(
        database(path) && sensitive_database(path),
        staging(
            StagingDetectionType::DatabaseAccess,
            e,
            750_000,
            "Process accessed database file"@,
            seq![path],
            None,
        ),
    ) + when(
        email_store(path),
        staging(
            StagingDetectionType::EmailStoreAccess,
            e,
            850_000,
            "Process accessed email store"@,
            seq![path],
            None,
        ),
    ) + when(
        network_path(path) && carries(e.access_type),
        staging(
            StagingDetectionType::NetworkShareStaging,
            e,
            800_000,
            "Process wrote to network share"@,
            seq![path],
            Some(path),
        ),
    ) + when(
        removable_media(path, system_drive) && carries(e.access_type),
        staging(
            StagingDetectionType::RemovableMediaStaging,
            e,
            800_000,
            "Process wrote to removable media"@,
            seq![path],
            Some(path),
        ),
    )
}

/// What the detector knows.
#[verifier::ext_equal]
pub struct StagingState {
    pub activity: Map<u32, ActivityModel>,
    pub stored: Seq<StagingModel>,
}

/// What is known of each process.
pub open spec fn activity_view(m: Map<u32, ProcessActivity>) -> Map<u32, ActivityModel> {
    m.map_values(|a: ProcessActivity| a@)
}

/// What is known of a process.
pub open spec fn activity_of(m: Map<u32, ActivityModel>, pid: u32) -> Option<ActivityModel> {
    if m.contains_key(pid) {
        Some(m[pid])
    } else {
        None
    }
}

/// What the detector knows after an access to a file in a directory, and what
/// it reports. Files that are touched all the time are passed over.
pub open spec fn handled(
    s: StagingState,
    e: FileAccessModel,
    directory: Option<Seq<char>>,
    system_drive: Option<Seq<char>>,
) -> (StagingState, Seq<StagingModel>) {
    if low_signal(e.file_path) {
        (s, Seq::empty())
    } else {
        let a = after_access(activity_of(s.activity, e.pid), e, directory);
        let found = staging_findings(e, a, directory, system_drive);
        (
            StagingState {
                activity: s.activity.insert(e.pid, a),
                stored: last_of(s.stored + found, MAX_DETECTIONS as nat),
            },
            found,
        )
    }
}

/// Which drive is the system's own, by two settings: the drive where it is long
/// enough, or the first two bytes of the system's directory, or `C:`.
pub open spec fn is_system_drive(r: Seq<char>, drive: Option<Seq<char>>, root: Option<Seq<char>>) -> bool {
    if drive is Some && vstd::utf8::encode_utf8(drive->0).len() >= 2 {
        r == drive->0
    } else if root is Some && vstd::utf8::encode_utf8(root->0).len() >= 2
        && vstd::utf8::is_char_boundary(vstd::utf8::encode_utf8(root->0), 2) {
        vstd::utf8::encode_utf8(r) == vstd::utf8::encode_utf8(root->0).subrange(0, 2)
    } else {
        r == "C:"@
    }
}

/// Which drive is the system's own, by two settings.
pub fn system_drive(drive: Option<String>, root: Option<String>) -> (r: String)
    ensures
        is_system_drive(r@, opt_text(drive), opt_text(root)),
{
    if let Some(d) = &drive {
        if d.as_str().as_bytes().len() >= 2 {
            return d.clone();
        }
    }
    if let Some(d) = &root {
        let text = d.as_str();
        if text.as_bytes().len() >= 2 && text.is_char_boundary(2) {
            let (first, _rest) = text.split_at(2);
            return first.to_string();
        }
    }
    "C:".to_string()
}

/// The detector of collected data.
pub struct DataStagingDetector {
    pub process_activity: HashMap<u32, ProcessActivity>,
    pub detections: VecDeque<StagingDetection>,
    /// The system's own drive, where drives have letters.
    pub system_drive: Option<String>,
}

impl View for DataStagingDetector {
    type V = StagingState;

    open spec fn view(&self) -> StagingState {
        StagingState {
            activity: activity_view(self.process_activity@),
            stored: staging_view(self.detections@),
        }
    }
}

fn push_staging(list: &mut Vec<StagingDetection>, d: StagingDetection)
    ensures
        staging_view(final(list)@) == staging_view(old(list)@) + seq![d@],
{
    list.push(d);
    assert(staging_view(list@) =~= staging_view(old(list)@) + seq![d@]);
}

fn one_file(path: &String) -> (r: Vec<String>)
    ensures
        texts(r@) == seq![path@],
{
    let r = vec![path.clone()];
    assert(texts(r@) =~= seq![path@]);
    r
}

impl ProcessActivity {
    /// Nothing known of a process since a time.
    pub fn starting_at(timestamp: u64) -> (r: ProcessActivity)
        ensures
            r@ == no_activity(timestamp),
    {
        let r = ProcessActivity {
            files_read: TextSet::new(),
            files_written: TextSet::new(),
            dirs_enumerated: TextSet::new(),
            high_value_files: TextSet::new(),
            staging_writes: TextSet::new(),
            staging_directory: None,
            bytes_read: 0,
            bytes_written: 0,
            recent_events: VecDeque::new(),
            first_activity: timestamp,
            last_activity: 0,
        };
        assert(r@ =~= no_activity(timestamp));
        r
    }
}

impl DataStagingDetector {
    /// At most as many accesses and detections are remembered as fit.
    pub open spec fn wf(&self) -> bool {
        &&& self.detections@.len() <= MAX_DETECTIONS
        &&& forall|pid: u32|
            self.process_activity@.contains_key(pid) ==> (
            #[trigger] self.process_activity@[pid]).recent_events@.len() <= MAX_FILE_EVENTS
    }

    /// A detector on a machine whose own drive is given where drives have
    /// letters.
    pub fn on_system(system_drive: Option<String>) -> (r: DataStagingDetector)
        ensures
            r.wf(),
            r.system_drive == system_drive,
            r@ == (StagingState { activity: Map::empty(), stored: Seq::empty() }),
    {
        let r = DataStagingDetector {
            process_activity: HashMap::new(),
            detections: VecDeque::new(),
            system_drive,
        };
        assert(r@ =~= (StagingState { activity: Map::empty(), stored: Seq::empty() }));
        r
    }

    /// A detector on a machine whose drives have no letters.
    pub fn new() -> (r: DataStagingDetector)
        ensures
            r.wf(),
            r.system_drive is None,
            r@ == (StagingState { activity: Map::empty(), stored: Seq::empty() }),
    {
        DataStagingDetector::on_system(None)
    }

    /// Whether a path is one of those that are touched all the time.
    pub fn is_low_signal_path(&self, path: &str) -> (r: bool)
        ensures
            r == low_signal(path@),
    {
        let lower = to_lowercase(path);
        proof {
            reveal_strlit("/");
        }
        let n = replace_char(lower.as_str(), '\\', "/");
        contains_any(n.as_str(), &LOW_SIGNAL_PATTERNS)
    }

    /// Whether a path is that of someone's document.
    pub fn is_sensitive_document_path(&self, path: &str) -> (r: bool)
        ensures
            r == sensitive_document(path@),
    {
        proof {
            reveal_strlit("/");
        }
        let n = replace_char(path, '\\', "/");
        !contains(n.as_str(), "/") || contains_any(n.as_str(), &SENSITIVE_ROOTS)
    }

    /// Whether a path is that of someone's database.
    pub fn is_sensitive_database_path(&self, path: &str) -> (r: bool)
        ensures
            r == sensitive_database(path@),
    {
        proof {
            reveal_strlit("/");
        }
        let n = replace_char(path, '\\', "/");
        if !contains(n.as_str(), "/") {
            return true;
        }
        self.is_credential_store(n.as_str()) || contains_any(n.as_str(), &DATABASE_ROOTS) || (
        contains(n.as_str(), "/library/application support/") && !contains(
            n.as_str(),
            "/library/application support/google/chrome/",
        ) && !contains(n.as_str(), "/library/application support/firefox/"))
    }

    /// Whether a path is in a place where data is put.
    pub fn is_staging_location(&self, path: &str) -> (r: bool)
        ensures
            r == staging_location(path@),
    {
        contains_any(to_lowercase(path).as_str(), &STAGING_PATTERNS)
    }

    /// Whether a path is that of an archive.
    pub fn is_archive_file(&self, path: &str) -> (r: bool)
        ensures
            r == archive(path@),
    {
        ends_with_any(to_lowercase(path).as_str(), &ARCHIVE_ENDINGS)
    }

    /// Whether a path is that of a store of credentials.
    pub fn is_credential_store(&self, path: &str) -> (r: bool)
        ensures
            r == credential_store(path@),
    {
        let lower = to_lowercase(path);
        proof {
            reveal_strlit("/");
        }
        let n = replace_char(lower.as_str(), '\\', "/");
        if self.is_low_signal_path(n.as_str()) {
            return false;
        }
        ends_with_any(n.as_str(), &PROTECTED_STORES) || contains_any(
            lower.as_str(),
            &CREDENTIAL_PATTERNS,
        )
    }

    /// Whether a path is that of a database.
    pub fn is_database_file(&self, path: &str) -> (r: bool)
        ensures
            r == database(path@),
    {
        ends_with_any(to_lowercase(path).as_str(), &DATABASE_ENDINGS)
    }

    /// Whether a path is that of mail.
    pub fn is_email_store(&self, path: &str) -> (r: bool)
        ensures
            r == email_store(path@),
    {
        contains_any(to_lowercase(path).as_str(), &EMAIL_PATTERNS)
    }

    /// Whether a path is on the network.
    pub fn is_network_path(&self, path: &str) -> (r: bool)
        ensures
            r == network_path(path@),
    {
        starts_with(path, "\\\\") || starts_with(path, "//") || contains(path, ":/")
    }

    /// Whether a path is on a medium that can be taken out.
    pub fn is_removable_media(&self, path: &str) -> (r: bool)
        ensures
            r == removable_media(path@, opt_text(self.system_drive)),
    {
        let upper = to_uppercase(path);
        if let Some(drive) = &self.system_drive {
            if starts_with(upper.as_str(), to_uppercase(drive.as_str()).as_str()) {
                return false;
            }
        }
        if starts_with(upper.as_str(), "/") {
            return starts_with(path, "/media/") || starts_with(path, "/mnt/") || starts_with(
                path,
                "/run/media/",
            );
        }
        let chars = characters(upper.as_str());
        chars.len() >= 2 && 'D' <= chars[0] && chars[0] <= 'Z' && chars[1] == ':'
    }

    /// Whether a path is that of a file that is worth taking.
    pub fn is_high_value_file(&self, path: &str) -> (r: bool)
        ensures
            r == high_value(path@),
    {
        let text = to_lowercase(path);
        let lower = text.as_str();
        if self.is_low_signal_path(lower) {
            return false;
        }
        if self.is_credential_store(lower) || self.is_email_store(lower) || (self.is_database_file(
            lower,
        ) && self.is_sensitive_database_path(lower)) {
            return true;
        }
        ends_with_any(lower, &HIGH_VALUE_ENDINGS) && self.is_sensitive_document_path(lower)
    }

    fn note_access(
        &self,
        before: Option<ProcessActivity>,
        e: &FileAccessEvent,
        directory: Option<&str>,
    ) -> (r: ProcessActivity)
        requires
            before matches Some(a) ==> a.recent_events@.len() <= MAX_FILE_EVENTS,
        ensures
            r.recent_events@.len() <= MAX_FILE_EVENTS,
            r@ == after_access(
                match before {
                    Some(a) => Some(a@),
                    None => None,
                },
                e@,
                crate::behavioral::str_view(directory),
            ),
    {
        let mut a: ProcessActivity = match before {
            Some(a) => a,
            None => {
                let fresh = ProcessActivity::starting_at(e.timestamp);
                assert(fresh@.recent.len() == 0);
                assert(fresh.recent_events@.len() == 0);
                fresh
            },
        };
        a.last_activity = e.timestamp;
        match e.access_type {
            FileAccessType::Read => {
                a.files_read.insert(e.file_path.clone());
                a.bytes_read = sum_up(a.bytes_read, e.bytes_read);
            },
            FileAccessType::Write | FileAccessType::Create => {
                a.files_written.insert(e.file_path.clone());
                a.bytes_written = sum_up(a.bytes_written, e.bytes_written);
            },
            FileAccessType::Enumerate => {
                if let Some(d) = directory {
                    a.dirs_enumerated.insert(d.to_string());
                }
            },
            _ => {},
        }
        if self.is_high_value_file(e.file_path.as_str()) {
            a.high_value_files.insert(e.file_path.clone());
        }
        let is_write = e.access_type == FileAccessType::Write || e.access_type
            == FileAccessType::Create;
        if self.is_staging_location(e.file_path.as_str()) && is_write {
            if a.staging_writes.count() == 0 {
                a.staging_directory = match directory {
                    Some(d) => Some(d.to_string()),
                    None => None,
                };
            }
            a.staging_writes.insert(e.file_path.clone());
        }
        let ghost was = a.recent_events@;
        a.recent_events.push_back(e.clone());
        assert(accesses_view(a.recent_events@) =~= accesses_view(was).push(e@));
        if a.recent_events.len() > MAX_FILE_EVENTS {
            let ghost full = a.recent_events@;
            a.recent_events.pop_front();
            assert(accesses_view(a.recent_events@) =~= accesses_view(full).skip(1));
        }
        a
    }

    /// Holds an access to a file in a directory, which was noted, against the
    /// patterns of collecting.
    pub fn analyze_patterns(
        &self,
        event: &FileAccessEvent,
        activity: &ProcessActivity,
        directory: Option<&str>,
    ) -> (r: Vec<StagingDetection>)
        ensures
            staging_view(r@) == staging_findings(
                event@,
                activity@,
                crate::behavioral::str_view(directory),
                opt_text(self.system_drive),
            ),
    {
        let path = event.file_path.as_str();
        let ghost e = event@;
        let mut found: Vec<StagingDetection> = Vec::new();
        let read: usize = activity.files_read.count();
        let enumerated: usize = activity.dirs_enumerated.count();
        let valuable: usize = activity.high_value_files.count();
        let writes_now = event.access_type == FileAccessType::Write || event.access_type
            == FileAccessType::Create;
        let carries_now = event.access_type == FileAccessType::Write || event.access_type
            == FileAccessType::Copy;
        assert(staging_view(found@) =~= Seq::empty());
        if enumerated > 10 {
            let none: Vec<String> = Vec::new();
            assert(texts(none@) =~= Seq::empty());
            push_staging(
                &mut found,
                staging_of(
                    StagingDetectionType::BulkEnumeration,
                    event,
                    share_of(enumerated, 20_000),
                    "Process enumerated ".to_string().concat(
                        decimal_text(enumerated as u64).as_str(),
                    ).concat(" directories"),
                    none,
                    None,
                ),
            );
        }
        if valuable >= 5 {
            push_staging(
                &mut found,
                staging_of(
                    StagingDetectionType::HighValueFileCollection,
                    event,
                    share_of(valuable, 50_000),
                    "Process accessed ".to_string().concat(
                        decimal_text(valuable as u64).as_str(),
                    ).concat(" high-value files"),
                    activity.high_value_files.first(10),
                    None,
                ),
            );
        }
        if activity.staging_writes.count() > 0 && read > 10 {
            push_staging(
                &mut found,
                staging_of(
                    StagingDetectionType::StagingDirectoryWrite,
                    event,
                    700_000,
                    "Process read ".to_string().concat(decimal_text(read as u64).as_str()).concat(
                        " files and wrote to staging location",
                    ),
                    activity.staging_writes.first(10),
                    opt_copy(&activity.staging_directory),
                ),
            );
        }
        if self.is_archive_file(path) && writes_now && read > 5 {
            push_staging(
                &mut found,
                staging_of(
                    StagingDetectionType::ArchiveCreation,
                    event,
                    850_000,
                    "Process created archive after reading ".to_string().concat(
                        decimal_text(read as u64).as_str(),
                    ).concat(" files"),
                    one_file(&event.file_path),
                    match directory {
                        Some(d) => Some(d.to_string()),
                        None => None,
                    },
                ),
            );
        }
        if self.is_credential_store(path) {
            push_staging(
                &mut found,
                staging_of(
                    StagingDetectionType::CredentialStoreAccess,
                    event,
                    900_000,
                    "Process accessed credential store".to_string(),
                    one_file(&event.file_path),
                    None,
                ),
            );
        }
        if self.is_database_file(path) && self.is_sensitive_database_path(path) {
            push_staging(
                &mut found,
                staging_of(
                    StagingDetectionType::DatabaseAccess,
                    event,
                    750_000,
                    "Process accessed database file".to_string(),
                    one_file(&event.file_path),
                    None,
                ),
            );
        }
        if self.is_email_store(path) {
            push_staging(
                &mut found,
                staging_of(
                    StagingDetectionType::EmailStoreAccess,
                    event,
                    850_000,
                    "Process accessed email store".to_string(),
                    one_file(&event.file_path),
                    None,
                ),
            );
        }
        if self.is_network_path(path) && carries_now {
            push_staging(
                &mut found,
                staging_of(
                    StagingDetectionType::NetworkShareStaging,
                    event,
                    800_000,
                    "Process wrote to network share".to_string(),
                    one_file(&event.file_path),
                    Some(event.file_path.clone()),
                ),
            );
        }
        if self.is_removable_media(path) && carries_now {
            push_staging(
                &mut found,
                staging_of(
                    StagingDetectionType::RemovableMediaStaging,
                    event,
                    800_000,
                    "Process wrote to removable media".to_string(),
                    one_file(&event.file_path),
                    Some(event.file_path.clone()),
                ),
            );
        }
        assert(staging_view(found@) =~= staging_findings(
            e,
            activity@,
            crate::behavioral::str_view(directory),
            opt_text(self.system_drive),
        ));
        found
    }

    fn store(&mut self, found: &Vec<StagingDetection>)
        requires
            old(self).detections@.len() <= MAX_DETECTIONS,
        ensures
            final(self).process_activity == old(self).process_activity,
            final(self).system_drive == old(self).system_drive,
            final(self).detections@.len() <= MAX_DETECTIONS,
            staging_view(final(self).detections@) == last_of(
                staging_view(old(self).detections@) + staging_view(found@),
                MAX_DETECTIONS as nat,
            ),
    {
        let ghost was = staging_view(self.detections@);
        let ghost new = staging_view(found@);
        let mut i: usize = 0;
        assert(was + new.take(0) =~= was);
        while i < found.len()
            invariant
                i <= found@.len(),
                new == staging_view(found@),
                self.process_activity == old(self).process_activity,
                self.system_drive == old(self).system_drive,
                self.detections@.len() <= MAX_DETECTIONS,
                staging_view(self.detections@) == last_of(
                    was + new.take(i as int),
                    MAX_DETECTIONS as nat,
                ),
            decreases found@.len() - i,
        {
            let ghost before = self.detections@;
            self.detections.push_back(found[i].clone());
            let ghost full = self.detections@;
            assert(staging_view(full) =~= staging_view(before).push(new[i as int]));
            assert(was + new.take(i + 1) =~= (was + new.take(i as int)).push(new[i as int]));
            if self.detections.len() > MAX_DETECTIONS {
                self.detections.pop_front();
                assert(staging_view(self.detections@) =~= staging_view(full).skip(1));
            }
            assert(staging_view(self.detections@) =~= last_of(
                was + new.take(i + 1),
                MAX_DETECTIONS as nat,
            ));
            i += 1;
        }
        assert(new.take(i as int) =~= new);
    }

    /// Notes an access to a file in a directory, and reports what it shows.
    pub fn process_event_in(&mut self, event: &FileAccessEvent, directory: Option<&str>) -> (r: Vec<
        StagingDetection,
    >)
        requires
            old(self).wf(),
        ensures
            final(self).wf(),
            final(self).system_drive == old(self).system_drive,
            (final(self)@, staging_view(r@)) == handled(
                old(self)@,
                event@,
                crate::behavioral::str_view(directory),
                opt_text(old(self).system_drive),
            ),
    {
        if self.is_low_signal_path(event.file_path.as_str()) {
            let none: Vec<StagingDetection> = Vec::new();
            assert(staging_view(none@) =~= Seq::empty());
            return none;
        }
        let ghost before = self.process_activity@;
        let was = self.process_activity.remove(&event.pid);
        let activity = self.note_access(was, event, directory);
        let found = self.analyze_patterns(event, &activity, directory);
        self.process_activity.insert(event.pid, activity);
        assert(activity_view(self.process_activity@) =~= activity_view(before).insert(
            event.pid,
            activity@,
        ));
        self.store(&found);
        found
    }

    /// Notes an access to a file, and reports what it shows. Which directory the
    /// file is in the machine's rules for paths decide.
    pub fn process_event(&mut self, event: FileAccessEvent) -> (r: Vec<StagingDetection>)
        requires
            old(self).wf(),
        ensures
            final(self).wf(),
            final(self).system_drive == old(self).system_drive,
            exists|directory: Option<Seq<char>>|
                (final(self)@, staging_view(r@)) == #[trigger] handled(
                    old(self)@,
                    event@,
                    directory,
                    opt_text(old(self).system_drive),
                ) && is_directory_of(directory, event.file_path@),
    {
        let directory = crate::paths::parent_directory(event.file_path.as_str());
        let d: Option<&str> = match &directory {
            Some(s) => Some(s.as_str()),
            None => None,
        };
        assert(crate::behavioral::str_view(d) == opt_text(directory));
        let r = self.process_event_in(&event, d);
        assert((self@, staging_view(r@)) == handled(
            old(self)@,
            event@,
            crate::behavioral::str_view(d),
            opt_text(old(self).system_drive),
        ));
        r
    }

    /// The detections that are remembered.
    pub fn get_detections(&self) -> (r: Vec<StagingDetection>)
        ensures
            staging_view(r@) == self@.stored,
    {
        self.stored_from(0)
    }

    /// The detections that are remembered and at least seven tenths sure.
    pub fn get_high_confidence_detections(&self) -> (r: Vec<StagingDetection>)
        ensures
            staging_view(r@) == self@.stored.filter(sure_from(700_000)),
    {
        self.stored_from(700_000)
    }

    fn stored_from(&self, confidence: u32) -> (r: Vec<StagingDetection>)
        ensures
            staging_view(r@) == self@.stored.filter(sure_from(confidence)),
            confidence == 0 ==> staging_view(r@) == self@.stored,
    {
        let ghost all = self@.stored;
        let ghost p = sure_from(confidence);
        let mut r: Vec<StagingDetection> = Vec::new();
        let mut i: usize = 0;
        proof {
            crate::collect::lemma_filter_nothing(all, p);
            assert(staging_view(r@) =~= Seq::empty());
            assert(all.take(0) =~= Seq::empty());
        }
        while i < self.detections.len()
            invariant
                i <= self.detections@.len(),
                all == staging_view(self.detections@),
                p == sure_from(confidence),
                staging_view(r@) == all.take(i as int).filter(p),
                confidence == 0 ==> staging_view(r@) == all.take(i as int),
            decreases self.detections@.len() - i,
        {
            proof {
                crate::collect::lemma_filter_step(all, i as int, p);
            }
            assert(all.take(i + 1) =~= all.take(i as int).push(all[i as int]));
            if self.detections[i].confidence >= confidence {
                let ghost before = r@;
                r.push(self.detections[i].clone());
                assert(staging_view(r@) =~= staging_view(before).push(all[i as int]));
            }
            i += 1;
        }
        assert(all.take(i as int) =~= all);
        r
    }

    /// Forgets a process.
    pub fn clear_process(&mut self, pid: u32)
        requires
            old(self).wf(),
        ensures
            final(self).wf(),
            final(self).system_drive == old(self).system_drive,
            final(self)@ == (StagingState {
                activity: old(self)@.activity.remove(pid),
                stored: old(self)@.stored,
            }),
    {
        self.process_activity.remove(&pid);
        assert(activity_view(self.process_activity@) =~= activity_view(
            old(self).process_activity@,
        ).remove(pid));
    }
}

/// Whether a detection is at least so sure.
pub open spec fn sure_from(confidence: u32) -> spec_fn(StagingModel) -> bool {
    |d: StagingModel| d.confidence >= confidence
}

impl Default for DataStagingDetector {
    fn default() -> (r: DataStagingDetector)
        ensures
            r.wf(),
            r.system_drive is None,
            r@ == (StagingState { activity: Map::empty(), stored: Seq::empty() }),
    {
        DataStagingDetector::new()
    }
}

/// Files that are touched all the time are passed over: nothing is noted and
/// nothing reported.
pub proof fn law_low_signal_is_silent(
    s: StagingState,
    e: FileAccessModel,
    directory: Option<Seq<char>>,
    system_drive: Option<Seq<char>>,
)
    requires
        low_signal(e.file_path),
    ensures
        handled(s, e, directory, system_drive).0 == s,
        handled(s, e, directory, system_drive).1.len() == 0,
{
}

/// No more detections are remembered than fit, whatever happens.
pub proof fn law_memory_is_bounded(
    s: StagingState,
    e: FileAccessModel,
    directory: Option<Seq<char>>,
    system_drive: Option<Seq<char>>,
)
    requires
        s.stored.len() <= MAX_DETECTIONS,
    ensures
        handled(s, e, directory, system_drive).0.stored.len() <= MAX_DETECTIONS,
{
}

/// What one process does changes nothing of what is known of another.
pub proof fn law_processes_are_apart(
    s: StagingState,
    e: FileAccessModel,
    directory: Option<Seq<char>>,
    system_drive: Option<Seq<char>>,
    other: u32,
)
    requires
        other != e.pid,
    ensures
        activity_of(handled(s, e, directory, system_drive).0.activity, other) == activity_of(
            s.activity,
            other,
        ),
{
}

/// An archive that a process writes after it read more than five files is
/// reported.
pub proof fn law_archive_after_reading_is_reported(
    s: StagingState,
    e: FileAccessModel,
    directory: Option<Seq<char>>,
    system_drive: Option<Seq<char>>,
)
    requires
        !low_signal(e.file_path),
        archive(e.file_path),
        writes(e.access_type),
        s.activity.contains_key(e.pid),
        s.activity[e.pid].read.len() > 5,
    ensures
        exists|i: int|
            0 <= i < handled(s, e, directory, system_drive).1.len() && (
            #[trigger] handled(s, e, directory, system_drive).1[i]).detection_type
                == StagingDetectionType::ArchiveCreation,
{
    let a = after_access(activity_of(s.activity, e.pid), e, directory);
    let done = collection_findings(e, a, directory);
    let found = staging_findings(e, a, directory, system_drive);
    let last = done.len() - 1;
    assert(done[last].detection_type == StagingDetectionType::ArchiveCreation);
    assert(found[last] == done[last]);
    assert(handled(s, e, directory, system_drive).1[last] == found[last]);
}

/// Whether no detection is more than sure.
pub open spec fn within_bounds(v: Seq<StagingModel>) -> bool {
    forall|i: int| 0 <= i < v.len() ==> (#[trigger] v[i]).confidence <= ONE
}

proof fn lemma_within_bounds(v: Seq<StagingModel>, c: bool, d: StagingModel)
    requires
        within_bounds(v),
        d.confidence <= ONE,
    ensures
        within_bounds(v + when(c, d)),
{
    let all = v + when(c, d);
    assert forall|i: int| 0 <= i < all.len() implies (#[trigger] all[i]).confidence <= ONE by {
        if i < v.len() {
            assert(all[i] == v[i]);
        }
    }
}

/// A detection is never more than sure.
pub proof fn law_confidence_within_bounds(
    e: FileAccessModel,
    a: ActivityModel,
    directory: Option<Seq<char>>,
    system_drive: Option<Seq<char>>,
)
    ensures
        within_bounds(staging_findings(e, a, directory, system_drive)),
{
    let path = e.file_path;
    let file = seq![path];
    let d1 = staging(
        StagingDetectionType::BulkEnumeration,
        e,
        share(a.enumerated.len(), 20_000),
        "Process enumerated "@ + decimal(a.enumerated.len()) + " directories"@,
        Seq::empty(),
        None,
    );
    let d2 = staging(
        StagingDetectionType::HighValueFileCollection,
        e,
        share(a.high_value.len(), 50_000),
        "Process accessed "@ + decimal(a.high_value.len()) + " high-value files"@,
        first_members(a.high_value, 10),
        None,
    );
    let d3 = staging(
        StagingDetectionType::StagingDirectoryWrite,
        e,
        700_000,
        "Process read "@ + decimal(a.read.len()) + " files and wrote to staging location"@,
        first_members(a.staged, 10),
        a.staging_directory,
    );
    let d4 = staging(
        StagingDetectionType::ArchiveCreation,
        e,
        850_000,
        "Process created archive after reading "@ + decimal(a.read.len()) + " files"@,
        file,
        directory,
    );
    let d5 = staging(
        StagingDetectionType::CredentialStoreAccess,
        e,
        900_000,
        "Process accessed credential store"@,
        file,
        None,
    );
    let d6 = staging(
        StagingDetectionType::DatabaseAccess,
        e,
        750_000,
        "Process accessed database file"@,
        file,
        None,
    );
    let d7 = staging(
        StagingDetectionType::EmailStoreAccess,
        e,
        850_000,
        "Process accessed email store"@,
        file,
        None,
    );
    let d8 = staging(
        StagingDetectionType::NetworkShareStaging,
        e,
        800_000,
        "Process wrote to network share"@,
        file,
        Some(path),
    );
    let d9 = staging(
        StagingDetectionType::RemovableMediaStaging,
        e,
        800_000,
        "Process wrote to removable media"@,
        file,
        Some(path),
    );
    let s1 = when(a.enumerated.len() > 10, d1);
    let s2 = s1 + when(a.high_value.len() >= 5, d2);
    let s3 = s2 + when(a.staged.len() > 0 && a.read.len() > 10, d3);
    let s4 = s3 + when(archive(path) && writes(e.access_type) && a.read.len() > 5, d4);
    let s5 = s4 + when(credential_store(path), d5);
    let s6 = s5 + when(database(path) && sensitive_database(path), d6);
    let s7 = s6 + when(email_store(path), d7);
    let s8 = s7 + when(network_path(path) && carries(e.access_type), d8);
    let s9 = s8 + when(removable_media(path, system_drive) && carries(e.access_type), d9);
    lemma_within_bounds(s1, a.high_value.len() >= 5, d2);
    lemma_within_bounds(s2, a.staged.len() > 0 && a.read.len() > 10, d3);
    lemma_within_bounds(s3, archive(path) && writes(e.access_type) && a.read.len() > 5, d4);
    lemma_within_bounds(s4, credential_store(path), d5);
    lemma_within_bounds(s5, database(path) && sensitive_database(path), d6);
    lemma_within_bounds(s6, email_store(path), d7);
    lemma_within_bounds(s7, network_path(path) && carries(e.access_type), d8);
    lemma_within_bounds(s8, removable_media(path, system_drive) && carries(e.access_type), d9);
    assert(s9 == staging_findings(e, a, directory, system_drive));
}

/// Whether something of a type is among some detections.
pub open spec fn reports(v: Seq<StagingModel>, t: StagingDetectionType) -> bool {
    exists|i: int| 0 <= i < v.len() && (#[trigger] v[i]).detection_type == t
}

/// What is known of a process once an access of it was noted. Each kind of access adds
/// the file, or the directory of the file, to what it is about, and to nothing else:
/// what was enumerated grows by the directory of a file that was enumerated, what was
/// read by a file that was read, what was written by one that was written or created.
pub proof fn law_accesses_are_noted(
    s: StagingState,
    e: FileAccessModel,
    directory: Option<Seq<char>>,
    system_drive: Option<Seq<char>>,
    text: Seq<char>,
)
    requires
        !low_signal(e.file_path),
    ensures
        ({
            let known = activity_of(s.activity, e.pid);
            let after = activity_of(handled(s, e, directory, system_drive).0.activity, e.pid);
            &&& after matches Some(a)
            &&& a.enumerated.contains(text) <==> (known is Some && known->0.enumerated.contains(
                text,
            )) || (e.access_type == FileAccessType::Enumerate && directory == Some(text))
            &&& a.read.contains(text) <==> (known is Some && known->0.read.contains(text)) || (
            e.access_type == FileAccessType::Read && e.file_path == text)
            &&& a.written.contains(text) <==> (known is Some && known->0.written.contains(text))
                || ((e.access_type == FileAccessType::Write || e.access_type
                == FileAccessType::Create) && e.file_path == text)
            &&& a.high_value.contains(text) <==> (known is Some && known->0.high_value.contains(
                text,
            )) || (high_value(e.file_path) && e.file_path == text)
            &&& a.staged.contains(text) <==> (known is Some && known->0.staged.contains(text)) || ((
            e.access_type == FileAccessType::Write || e.access_type == FileAccessType::Create)
                && staging_location(e.file_path) && e.file_path == text)
            &&& a.last == e.timestamp
            &&& a.recent.last() == e
            &&& known is None ==> a.first == e.timestamp
            &&& known is Some ==> a.first == known->0.first
        }),
{
    let before = match activity_of(s.activity, e.pid) {
        Some(a) => a,
        None => no_activity(e.timestamp),
    };
    let a = handled(s, e, directory, system_drive).0.activity[e.pid];
    if directory is Some {
        lemma_member(before.enumerated, directory->0, text);
    }
    lemma_member(before.read, e.file_path, text);
    lemma_member(before.written, e.file_path, text);
    lemma_member(before.high_value, e.file_path, text);
    lemma_member(before.staged, e.file_path, text);
}

proof fn lemma_member(members: Seq<Seq<char>>, added: Seq<char>, text: Seq<char>)
    ensures
        with_member(members, added).contains(text) <==> members.contains(text) || added == text,
        members.no_duplicates() ==> with_member(members, added).no_duplicates(),
{
    let all = with_member(members, added);
    assert(forall|i: int| 0 <= i < members.len() ==> #[trigger] all[i] == members[i]);
    if members.contains(text) {
        let i = choose|i: int| 0 <= i < members.len() && members[i] == text;
        assert(all[i] == text);
    }
    if !members.contains(added) {
        assert(all.last() == added);
    }
}

proof fn lemma_reports(v: Seq<StagingModel>, c: bool, d: StagingModel, t: StagingDetectionType)
    ensures
        reports(v + when(c, d), t) <==> reports(v, t) || (c && d.detection_type == t),
{
    let all = v + when(c, d);
    assert(forall|i: int| 0 <= i < v.len() ==> #[trigger] all[i] == v[i]);
    if reports(v, t) {
        let i = choose|i: int| 0 <= i < v.len() && (#[trigger] v[i]).detection_type == t;
        assert(all[i].detection_type == t);
    }
    if c {
        assert(all[v.len() as int] == d);
    }
}

/// What a detection of each type says, on an access after which this is known of the
/// process.
pub open spec fn says_what_it_found(
    d: StagingModel,
    e: FileAccessModel,
    a: ActivityModel,
    directory: Option<Seq<char>>,
) -> bool {
    &&& d.pid == e.pid
    &&& d.process_name == e.process_name
    &&& d.timestamp == e.timestamp
    &&& match d.detection_type {
        StagingDetectionType::BulkEnumeration => {
            &&& d.mitre_technique == "T1083"@
            &&& d.description == "Process enumerated "@ + decimal(a.enumerated.len())
                + " directories"@
            &&& a.enumerated.len() <= 50 ==> d.confidence == a.enumerated.len() * 20_000
            &&& a.enumerated.len() > 50 ==> d.confidence == 1_000_000
        },
        StagingDetectionType::HighValueFileCollection => {
            &&& d.mitre_technique == "T1005"@
            &&& d.description == "Process accessed "@ + decimal(a.high_value.len())
                + " high-value files"@
            &&& a.high_value.len() <= 20 ==> d.confidence == a.high_value.len() * 50_000
            &&& a.high_value.len() > 20 ==> d.confidence == 1_000_000
            &&& forall|k: int|
                0 <= k < d.files_involved.len() ==> a.high_value.contains(
                    #[trigger] d.files_involved[k],
                )
        },
        StagingDetectionType::StagingDirectoryWrite => {
            &&& d.mitre_technique == "T1074"@
            &&& d.confidence == 700_000
            &&& d.staging_location == a.staging_directory
            &&& forall|k: int|
                0 <= k < d.files_involved.len() ==> a.staged.contains(
                    #[trigger] d.files_involved[k],
                )
        },
        StagingDetectionType::ArchiveCreation => {
            &&& d.mitre_technique == "T1560"@
            &&& d.confidence == 850_000
            &&& d.staging_location == directory
            &&& d.files_involved == seq![e.file_path]
        },
        StagingDetectionType::CredentialStoreAccess => {
            &&& d.mitre_technique == "T1555"@
            &&& d.confidence == 900_000
            &&& d.files_involved == seq![e.file_path]
        },
        StagingDetectionType::DatabaseAccess => {
            &&& d.mitre_technique == "T1005"@
            &&& d.confidence == 750_000
            &&& d.files_involved == seq![e.file_path]
        },
        StagingDetectionType::EmailStoreAccess => {
            &&& d.mitre_technique == "T1114"@
            &&& d.confidence == 850_000
            &&& d.files_involved == seq![e.file_path]
        },
        StagingDetectionType::NetworkShareStaging => {
            &&& d.mitre_technique == "T1039"@
            &&& d.confidence == 800_000
            &&& d.files_involved == seq![e.file_path]
            &&& d.staging_location == Some(e.file_path)
        },
        StagingDetectionType::RemovableMediaStaging => {
            &&& d.mitre_technique == "T1052"@
            &&& d.confidence == 800_000
            &&& d.files_involved == seq![e.file_path]
            &&& d.staging_location == Some(e.file_path)
        },
        StagingDetectionType::CrossDirectoryCollection => false,
    }
}

proof fn lemma_says(
    v: Seq<StagingModel>,
    c: bool,
    d: StagingModel,
    e: FileAccessModel,
    a: ActivityModel,
    directory: Option<Seq<char>>,
)
    requires
        forall|i: int|
            0 <= i < v.len() ==> says_what_it_found(#[trigger] v[i], e, a, directory),
        c ==> says_what_it_found(d, e, a, directory),
    ensures
        forall|i: int|
            0 <= i < (v + when(c, d)).len() ==> says_what_it_found(
                #[trigger] (v + when(c, d))[i],
                e,
                a,
                directory,
            ),
{
    let all = v + when(c, d);
    assert forall|i: int| 0 <= i < all.len() implies says_what_it_found(
        #[trigger] all[i],
        e,
        a,
        directory,
    ) by {
        if i < v.len() {
            assert(all[i] == v[i]);
        }
    }
}

proof fn lemma_first_members(members: Seq<Seq<char>>, n: nat)
    ensures
        forall|k: int|
            0 <= k < first_members(members, n).len() ==> members.contains(
                #[trigger] first_members(members, n)[k],
            ),
{
    assert forall|k: int| 0 <= k < first_members(members, n).len() implies members.contains(
        #[trigger] first_members(members, n)[k],
    ) by {
        assert(first_members(members, n)[k] == members[k]);
    }
}

#[verifier::rlimit(40)]
proof fn lemma_findings(
    e: FileAccessModel,
    a: ActivityModel,
    directory: Option<Seq<char>>,
    system_drive: Option<Seq<char>>,
)
    ensures
        ({
            let found = staging_findings(e, a, directory, system_drive);
            let path = e.file_path;
            let written = e.access_type == FileAccessType::Write || e.access_type
                == FileAccessType::Create;
            let carried = e.access_type == FileAccessType::Write || e.access_type
                == FileAccessType::Copy;
            &&& reports(found, StagingDetectionType::BulkEnumeration) <==> a.enumerated.len() > 10
            &&& reports(found, StagingDetectionType::HighValueFileCollection)
                <==> a.high_value.len() >= 5
            &&& reports(found, StagingDetectionType::StagingDirectoryWrite) <==> a.staged.len() > 0
                && a.read.len() > 10
            &&& reports(found, StagingDetectionType::ArchiveCreation) <==> archive(path) && written
                && a.read.len() > 5
            &&& reports(found, StagingDetectionType::CredentialStoreAccess) <==> credential_store(
                path,
            )
            &&& reports(found, StagingDetectionType::DatabaseAccess) <==> database(path)
                && sensitive_database(path)
            &&& reports(found, StagingDetectionType::EmailStoreAccess) <==> email_store(path)
            &&& reports(found, StagingDetectionType::NetworkShareStaging) <==> network_path(path)
                && carried
            &&& reports(found, StagingDetectionType::RemovableMediaStaging) <==> removable_media(
                path,
                system_drive,
            ) && carried
            &&& !reports(found, StagingDetectionType::CrossDirectoryCollection)
            &&& forall|i: int|
                0 <= i < found.len() ==> says_what_it_found(#[trigger] found[i], e, a, directory)
        }),
{
    let path = e.file_path;
    let file = seq![path];
    let c1 = a.enumerated.len() > 10;
    let d1 = staging(
        StagingDetectionType::BulkEnumeration,
        e,
        share(a.enumerated.len(), 20_000),
        "Process enumerated "@ + decimal(a.enumerated.len()) + " directories"@,
        Seq::empty(),
        None,
    );
    let c2 = a.high_value.len() >= 5;
    let d2 = staging(
        StagingDetectionType::HighValueFileCollection,
        e,
        share(a.high_value.len(), 50_000),
        "Process accessed "@ + decimal(a.high_value.len()) + " high-value files"@,
        first_members(a.high_value, 10),
        None,
    );
    let c3 = a.staged.len() > 0 && a.read.len() > 10;
    let d3 = staging(
        StagingDetectionType::StagingDirectoryWrite,
        e,
        700_000,
        "Process read "@ + decimal(a.read.len()) + " files and wrote to staging location"@,
        first_members(a.staged, 10),
        a.staging_directory,
    );
    let c4 = archive(path) && writes(e.access_type) && a.read.len() > 5;
    let d4 = staging(
        StagingDetectionType::ArchiveCreation,
        e,
        850_000,
        "Process created archive after reading "@ + decimal(a.read.len()) + " files"@,
        file,
        directory,
    );
    let c5 = credential_store(path);
    let d5 = staging(
        StagingDetectionType::CredentialStoreAccess,
        e,
        900_000,
        "Process accessed credential store"@,
        file,
        None,
    );
    let c6 = database(path) && sensitive_database(path);
    let d6 = staging(
        StagingDetectionType::DatabaseAccess,
        e,
        750_000,
        "Process accessed database file"@,
        file,
        None,
    );
    let c7 = email_store(path);
    let d7 = staging(
        StagingDetectionType::EmailStoreAccess,
        e,
        850_000,
        "Process accessed email store"@,
        file,
        None,
    );
    let c8 = network_path(path) && carries(e.access_type);
    let d8 = staging(
        StagingDetectionType::NetworkShareStaging,
        e,
        800_000,
        "Process wrote to network share"@,
        file,
        Some(path),
    );
    let c9 = removable_media(path, system_drive) && carries(e.access_type);
    let d9 = staging(
        StagingDetectionType::RemovableMediaStaging,
        e,
        800_000,
        "Process wrote to removable media"@,
        file,
        Some(path),
    );
    lemma_first_members(a.high_value, 10);
    lemma_first_members(a.staged, 10);
    let c = seq![c1, c2, c3, c4, c5, c6, c7, c8, c9];
    let d = seq![d1, d2, d3, d4, d5, d6, d7, d8, d9];
    lemma_nine(c, d);
    assert(staging_findings(e, a, directory, system_drive) == gathered(c, d, 9));
    assert(says_what_it_found(d1, e, a, directory));
    assert(says_what_it_found(d2, e, a, directory));
    assert(says_what_it_found(d3, e, a, directory));
    assert(says_what_it_found(d4, e, a, directory));
    assert(says_what_it_found(d5, e, a, directory));
    assert(says_what_it_found(d6, e, a, directory));
    assert(says_what_it_found(d7, e, a, directory));
    assert(says_what_it_found(d8, e, a, directory));
    assert(says_what_it_found(d9, e, a, directory));
    lemma_gathered_say(c, d, 9, e, a, directory);
    lemma_gathered_type(c, d, 9, 0, d1.detection_type);
    lemma_gathered_type(c, d, 9, 1, d2.detection_type);
    lemma_gathered_type(c, d, 9, 2, d3.detection_type);
    lemma_gathered_type(c, d, 9, 3, d4.detection_type);
    lemma_gathered_type(c, d, 9, 4, d5.detection_type);
    lemma_gathered_type(c, d, 9, 5, d6.detection_type);
    lemma_gathered_type(c, d, 9, 6, d7.detection_type);
    lemma_gathered_type(c, d, 9, 7, d8.detection_type);
    lemma_gathered_type(c, d, 9, 8, d9.detection_type);
    lemma_gathered_type(c, d, 9, -1, StagingDetectionType::CrossDirectoryCollection);
}

/// What is reported of an access, by what is known of the process after it: more than
/// ten directories that it enumerated, five or more files worth taking, something put
/// away after it read more than ten files, an archive written after it read more than
/// five; and, whatever else it did, a store of credentials, a database of someone or
/// a store of mail that it touched, and what it wrote or copied to the network or to
/// a medium that can be taken out. Each detection says what was found.
pub proof fn law_what_is_reported(
    s: StagingState,
    e: FileAccessModel,
    directory: Option<Seq<char>>,
    system_drive: Option<Seq<char>>,
)
    requires
        !low_signal(e.file_path),
    ensures
        ({
            let (after, found) = handled(s, e, directory, system_drive);
            let a = after.activity[e.pid];
            let path = e.file_path;
            let written = e.access_type == FileAccessType::Write || e.access_type
                == FileAccessType::Create;
            let carried = e.access_type == FileAccessType::Write || e.access_type
                == FileAccessType::Copy;
            &&& reports(found, StagingDetectionType::BulkEnumeration) <==> a.enumerated.len() > 10
            &&& reports(found, StagingDetectionType::HighValueFileCollection)
                <==> a.high_value.len() >= 5
            &&& reports(found, StagingDetectionType::StagingDirectoryWrite) <==> a.staged.len() > 0
                && a.read.len() > 10
            &&& reports(found, StagingDetectionType::ArchiveCreation) <==> archive(path) && written
                && a.read.len() > 5
            &&& reports(found, StagingDetectionType::CredentialStoreAccess) <==> credential_store(
                path,
            )
            &&& reports(found, StagingDetectionType::DatabaseAccess) <==> database(path)
                && sensitive_database(path)
            &&& reports(found, StagingDetectionType::EmailStoreAccess) <==> email_store(path)
            &&& reports(found, StagingDetectionType::NetworkShareStaging) <==> network_path(path)
                && carried
            &&& reports(found, StagingDetectionType::RemovableMediaStaging) <==> removable_media(
                path,
                system_drive,
            ) && carried
            &&& !reports(found, StagingDetectionType::CrossDirectoryCollection)
            &&& forall|i: int|
                0 <= i < found.len() ==> says_what_it_found(#[trigger] found[i], e, a, directory)
        }),
{
    let a = handled(s, e, directory, system_drive).0.activity[e.pid];
    assert(a == after_access(activity_of(s.activity, e.pid), e, directory));
    lemma_findings(e, a, directory, system_drive);
}

spec fn gathered(c: Seq<bool>, d: Seq<StagingModel>, n: nat) -> Seq<StagingModel>
    decreases n,
{
    if n == 0 {
        Seq::empty()
    } else {
        gathered(c, d, (n - 1) as nat) + when(c[n - 1], d[n - 1])
    }
}

proof fn lemma_nine(c: Seq<bool>, d: Seq<StagingModel>)
    ensures
        gathered(c, d, 9) == when(c[0], d[0]) + when(c[1], d[1]) + when(c[2], d[2]) + when(
            c[3],
            d[3],
        ) + when(c[4], d[4]) + when(c[5], d[5]) + when(c[6], d[6]) + when(c[7], d[7]) + when(
            c[8],
            d[8],
        ),
{
    reveal_with_fuel(gathered, 10);
    assert(gathered(c, d, 1) =~= when(c[0], d[0]));
}

proof fn lemma_gathered_type(
    c: Seq<bool>,
    d: Seq<StagingModel>,
    n: nat,
    k: int,
    t: StagingDetectionType,
)
    requires
        forall|j: int| 0 <= j < n ==> ((#[trigger] d[j]).detection_type == t <==> j == k),
    ensures
        reports(gathered(c, d, n), t) <==> 0 <= k < n && c[k],
    decreases n,
{
    if n > 0 {
        let before = gathered(c, d, (n - 1) as nat);
        lemma_reports(before, c[n - 1], d[n - 1], t);
        lemma_gathered_type(c, d, (n - 1) as nat, k, t);
        assert(d[n - 1].detection_type == t <==> n - 1 == k);
    }
}

proof fn lemma_gathered_say(
    c: Seq<bool>,
    d: Seq<StagingModel>,
    n: nat,
    e: FileAccessModel,
    a: ActivityModel,
    directory: Option<Seq<char>>,
)
    requires
        forall|k: int|
            0 <= k < n && c[k] ==> says_what_it_found(#[trigger] d[k], e, a, directory),
    ensures
        forall|i: int|
            0 <= i < gathered(c, d, n).len() ==> says_what_it_found(
                #[trigger] gathered(c, d, n)[i],
                e,
                a,
                directory,
            ),
    decreases n,
{
    if n > 0 {
        lemma_gathered_say(c, d, (n - 1) as nat, e, a, directory);
        if c[n - 1] {
            assert(says_what_it_found(d[n - 1], e, a, directory));
        }
        lemma_says(gathered(c, d, (n - 1) as nat), c[n - 1], d[n - 1], e, a, directory);
    }
}

/// What the detector knows after the first `n` of some accesses to files in
/// directories.
pub open spec fn known_after(
    s: StagingState,
    accesses: Seq<FileAccessModel>,
    directories: Seq<Option<Seq<char>>>,
    system_drive: Option<Seq<char>>,
    n: nat,
) -> StagingState
    decreases n,
{
    if n == 0 {
        s
    } else {
        handled(
            known_after(s, accesses, directories, system_drive, (n - 1) as nat),
            accesses[n - 1],
            directories[n - 1],
            system_drive,
        ).0
    }
}

proof fn lemma_known_directory(
    s: StagingState,
    accesses: Seq<FileAccessModel>,
    directories: Seq<Option<Seq<char>>>,
    system_drive: Option<Seq<char>>,
    n: nat,
    i: int,
)
    requires
        n <= accesses.len(),
        accesses.len() == directories.len(),
        0 <= i < n,
        accesses[i].access_type == FileAccessType::Enumerate,
        !low_signal(accesses[i].file_path),
        directories[i] is Some,
    ensures
        ({
            let known = known_after(s, accesses, directories, system_drive, n).activity;
            &&& known.contains_key(accesses[i].pid)
            &&& known[accesses[i].pid].enumerated.contains(directories[i]->0)
        }),
    decreases n,
{
    let before = known_after(s, accesses, directories, system_drive, (n - 1) as nat);
    let e = accesses[n - 1];
    if i < n - 1 {
        lemma_known_directory(s, accesses, directories, system_drive, (n - 1) as nat, i);
    }
    if !low_signal(e.file_path) {
        law_accesses_are_noted(before, e, directories[n - 1], system_drive, directories[i]->0);
    }
}

/// A process that enumerated more than ten different directories, whatever else it or
/// others did in between, is reported with each access from then on, unless the access
/// is to a file that is touched all the time.
pub proof fn law_bulk_enumeration_is_reported(
    s: StagingState,
    accesses: Seq<FileAccessModel>,
    directories: Seq<Option<Seq<char>>>,
    system_drive: Option<Seq<char>>,
    picked: Seq<int>,
    pid: u32,
    n: nat,
)
    requires
        accesses.len() == directories.len(),
        0 < n <= accesses.len(),
        accesses[n - 1].pid == pid,
        !low_signal(accesses[n - 1].file_path),
        picked.len() > 10,
        forall|k: int|
            0 <= k < picked.len() ==> 0 <= #[trigger] picked[k] < n && accesses[picked[k]].pid
                == pid && accesses[picked[k]].access_type == FileAccessType::Enumerate
                && !low_signal(accesses[picked[k]].file_path) && directories[picked[k]] is Some,
        forall|j: int, k: int|
            0 <= j < k < picked.len() ==> directories[#[trigger] picked[j]]
                != directories[#[trigger] picked[k]],
    ensures
        ({
            let before = known_after(s, accesses, directories, system_drive, (n - 1) as nat);
            reports(
                handled(before, accesses[n - 1], directories[n - 1], system_drive).1,
                StagingDetectionType::BulkEnumeration,
            )
        }),
{
    let before = known_after(s, accesses, directories, system_drive, (n - 1) as nat);
    let after = known_after(s, accesses, directories, system_drive, n);
    let all = after.activity[pid].enumerated;
    let named = Seq::new(picked.len(), |k: int| directories[picked[k]]->0);
    assert forall|k: int| 0 <= k < picked.len() implies all.contains(#[trigger] named[k]) by {
        lemma_known_directory(s, accesses, directories, system_drive, n, picked[k]);
    }
    assert(named.no_duplicates()) by {
        assert forall|j: int, k: int| 0 <= j < k < named.len() implies named[j] != named[k] by {
            assert(directories[picked[j]] != directories[picked[k]]);
            assert(directories[picked[j]] is Some && directories[picked[k]] is Some);
        }
    }
    lemma_at_least(named, all);
    law_what_is_reported(before, accesses[n - 1], directories[n - 1], system_drive);
}

proof fn lemma_at_least(part: Seq<Seq<char>>, all: Seq<Seq<char>>)
    requires
        part.no_duplicates(),
        forall|k: int| 0 <= k < part.len() ==> all.contains(#[trigger] part[k]),
    ensures
        part.len() <= all.len(),
{
    part.unique_seq_to_set();
    all.lemma_cardinality_of_set();
    assert(part.to_set().subset_of(all.to_set())) by {
        assert forall|x: Seq<char>| part.to_set().contains(x) implies all.to_set().contains(x) by {
            let k = choose|k: int| 0 <= k < part.len() && part[k] == x;
            assert(all.contains(part[k]));
        }
    }
    vstd::set_lib::lemma_len_subset(part.to_set(), all.to_set());
}

/// What is reported is remembered, behind what was, as long as there is room.
pub proof fn law_detections_are_remembered(
    s: StagingState,
    e: FileAccessModel,
    directory: Option<Seq<char>>,
    system_drive: Option<Seq<char>>,
)
    ensures
        ({
            let (after, found) = handled(s, e, directory, system_drive);
            &&& s.stored.len() + found.len() <= 100 ==> after.stored == s.stored + found
            &&& s.stored.len() <= 100 && s.stored.len() + found.len() > 100 ==> after.stored.len()
                == 100 && after.stored == (s.stored + found).skip(s.stored.len() + found.len() - 100)
        }),
{
    if low_signal(e.file_path) {
        assert(s.stored + Seq::<StagingModel>::empty() =~= s.stored);
    }
}

/// A path is touched all the time where the path of a build, a cache, a log or the like
/// stands in it, whatever the case of letters and whichever slashes it has.
pub proof fn law_paths_that_are_touched_all_the_time(path: Seq<char>)
    ensures
        low_signal(path) <==> any_occurs(
            seq![
                "/target/debug/",
                "/target/release/",
                "/target/.rustc_info.json",
                "/node_modules/",
                "/.git/",
                "/.cargo/registry/",
                "/.cargo/git/",
                "/.codex/",
                "/library/caches/",
                "/library/assistant/sirivocabulary/",
                "/library/identityservices/",
                "/library/application support/spotify/",
                "/library/application support/com.apple.ap.promotedcontentd/",
                "/pictures/photos library.photoslibrary/private/com.apple.photoanalysisd/caches/",
                "/movies/tv/tv library.tvlibrary/",
                "/cache/cache_data/",
                "/appdata/local/steam/htmlcache/",
                "/appdata/local/microsoft/windows/inetcache/",
                "/windows/system32/winevt/logs/",
                "/windows/system32/logfiles/wmi/rtbackup/",
                "/windows/system32/tasks/microsoft/windows/",
                "/programdata/microsoft/network/downloader/",
                "/programdata/microsoft/windows defender/scans/",
            ],
            slashed(lowercase(path)),
        ),
{
    assert(LOW_SIGNAL_PATTERNS@ =~= seq![
        "/target/debug/",
        "/target/release/",
        "/target/.rustc_info.json",
        "/node_modules/",
        "/.git/",
        "/.cargo/registry/",
        "/.cargo/git/",
        "/.codex/",
        "/library/caches/",
        "/library/assistant/sirivocabulary/",
        "/library/identityservices/",
        "/library/application support/spotify/",
        "/library/application support/com.apple.ap.promotedcontentd/",
        "/pictures/photos library.photoslibrary/private/com.apple.photoanalysisd/caches/",
        "/movies/tv/tv library.tvlibrary/",
        "/cache/cache_data/",
        "/appdata/local/steam/htmlcache/",
        "/appdata/local/microsoft/windows/inetcache/",
        "/windows/system32/winevt/logs/",
        "/windows/system32/logfiles/wmi/rtbackup/",
        "/windows/system32/tasks/microsoft/windows/",
        "/programdata/microsoft/network/downloader/",
        "/programdata/microsoft/windows defender/scans/",
    ]);
}

/// A path is that of a store of credentials where it ends in one of the files of the
/// system, or the name of such a store stands in it, unless it is touched all the time.
pub proof fn law_stores_of_credentials(path: Seq<char>)
    requires
        lowercase(path) == path,
        slashed(path) == path,
    ensures
        credential_store(path) <==> !low_signal(path) && (any_ends(
            path,
            seq![
                "/windows/system32/config/sam",
                "/windows/system32/config/security",
                "/windows/system32/config/system",
                "/windows/ntds/ntds.dit",
                "/etc/shadow",
                "/etc/security/passwd",
            ],
        ) || any_occurs(
            seq![
                "login data",
                "cookies",
                "key3.db",
                "key4.db",
                "logins.json",
                "signons.sqlite",
                "credentials",
                ".kdbx",
                "vault",
                "keychain",
                "credential manager",
                "ntds.dit",
            ],
            path,
        )),
{
    assert(PROTECTED_STORES@ =~= seq![
        "/windows/system32/config/sam",
        "/windows/system32/config/security",
        "/windows/system32/config/system",
        "/windows/ntds/ntds.dit",
        "/etc/shadow",
        "/etc/security/passwd",
    ]);
    assert(CREDENTIAL_PATTERNS@ =~= seq![
        "login data",
        "cookies",
        "key3.db",
        "key4.db",
        "logins.json",
        "signons.sqlite",
        "credentials",
        ".kdbx",
        "vault",
        "keychain",
        "credential manager",
        "ntds.dit",
    ]);
}

/// Where data is put, archives, databases and mail are known by what their paths have in
/// them or end in, whatever the case of letters.
pub proof fn law_kinds_of_paths(path: Seq<char>)
    ensures
        staging_location(path) <==> any_occurs(
            seq![
                "temp",
                "tmp",
                "appdata\\local\\temp",
                "programdata",
                "public",
                "downloads",
                "desktop",
                "recycler",
                "recycle.bin",
                "/tmp",
                "/var/tmp",
                "/dev/shm",
            ],
            lowercase(path),
        ),
        archive(path) <==> any_ends(
            lowercase(path),
            seq![
                ".zip",
                ".7z",
                ".rar",
                ".tar",
                ".gz",
                ".bz2",
                ".xz",
                ".cab",
            ],
        ),
        database(path) <==> any_ends(
            lowercase(path),
            seq![
                ".db",
                ".sqlite",
                ".sqlite3",
                ".mdb",
                ".accdb",
                ".sql",
                ".mdf",
                ".ldf",
            ],
        ),
        email_store(path) <==> any_occurs(
            seq![
                ".pst",
                ".ost",
                ".msg",
                ".eml",
                ".mbox",
                "mail",
                "thunderbird",
            ],
            lowercase(path),
        ),
{
    assert(STAGING_PATTERNS@ =~= seq![
        "temp",
        "tmp",
        "appdata\\local\\temp",
        "programdata",
        "public",
        "downloads",
        "desktop",
        "recycler",
        "recycle.bin",
        "/tmp",
        "/var/tmp",
        "/dev/shm",
    ]);
    assert(ARCHIVE_ENDINGS@ =~= seq![
        ".zip",
        ".7z",
        ".rar",
        ".tar",
        ".gz",
        ".bz2",
        ".xz",
        ".cab",
    ]);
    assert(DATABASE_ENDINGS@ =~= seq![
        ".db",
        ".sqlite",
        ".sqlite3",
        ".mdb",
        ".accdb",
        ".sql",
        ".mdf",
        ".ldf",
    ]);
    assert(EMAIL_PATTERNS@ =~= seq![
        ".pst",
        ".ost",
        ".msg",
        ".eml",
        ".mbox",
        "mail",
        "thunderbird",
    ]);
}

/// A document is someone's where its path names no directory or one of those that people
/// keep documents in; a database also where it is a store of credentials or lies with what
/// programs keep for someone, but for the two browsers.
pub proof fn law_paths_of_people(path: Seq<char>)
    requires
        slashed(path) == path,
    ensures
        sensitive_document(path) <==> !occurs("/"@, path) || any_occurs(
            seq![
                "/documents/",
                "/desktop/",
                "/downloads/",
                "/onedrive/",
                "/dropbox/",
                "/google drive/",
                "/icloud drive/",
                "/users/public/",
                "/home/",
                "/srv/",
                "/var/www/",
            ],
            path,
        ),
        !occurs("/"@, path) ==> sensitive_database(path),
        credential_store(path) ==> sensitive_database(path),
        any_occurs(
            seq![
                "/documents/",
                "/desktop/",
                "/downloads/",
                "/appdata/roaming/",
            ],
            path,
        ) ==> sensitive_database(path),
        occurs("/library/application support/"@, path) && !occurs(
            "/library/application support/google/chrome/"@,
            path,
        ) && !occurs("/library/application support/firefox/"@, path) ==> sensitive_database(path),
        sensitive_database(path) && occurs("/"@, path) && !credential_store(path) && !occurs(
            "/library/application support/"@,
            path,
        ) ==> any_occurs(
            seq![
                "/documents/",
                "/desktop/",
                "/downloads/",
                "/appdata/roaming/",
            ],
            path,
        ),
{
    assert(SENSITIVE_ROOTS@ =~= seq![
        "/documents/",
        "/desktop/",
        "/downloads/",
        "/onedrive/",
        "/dropbox/",
        "/google drive/",
        "/icloud drive/",
        "/users/public/",
        "/home/",
        "/srv/",
        "/var/www/",
    ]);
    assert(DATABASE_ROOTS@ =~= seq![
        "/documents/",
        "/desktop/",
        "/downloads/",
        "/appdata/roaming/",
    ]);
}

/// A file is worth taking where it is a store of credentials, mail, someone's database or
/// someone's document of a kind that matters, and not where its path is touched all the
/// time.
pub proof fn law_files_worth_taking(path: Seq<char>)
    requires
        lowercase(path) == path,
        slashed(path) == path,
    ensures
        low_signal(path) ==> !high_value(path),
        credential_store(path) ==> high_value(path),
        !low_signal(path) && email_store(path) ==> high_value(path),
        !low_signal(path) && database(path) && sensitive_database(path) ==> high_value(path),
        !low_signal(path) && sensitive_document(path) && any_ends(
            path,
            seq![
                ".doc",
                ".docx",
                ".xls",
                ".xlsx",
                ".ppt",
                ".pptx",
                ".pdf",
                ".txt",
                ".rtf",
                ".csv",
                ".json",
                ".xml",
                ".sql",
                ".db",
                ".sqlite",
                ".mdb",
                ".accdb",
                ".key",
                ".pem",
                ".crt",
                ".cer",
                ".pfx",
                ".p12",
                ".jks",
                ".kdbx",
                ".1pux",
                ".agilekeychain",
                ".keychain",
                ".zip",
                ".7z",
                ".rar",
                ".tar",
                ".gz",
                ".bz2",
                ".pst",
                ".ost",
                ".msg",
                ".eml",
                ".bak",
                ".backup",
                ".old",
            ],
        ) ==> high_value(path),
        high_value(path) ==> credential_store(path) || email_store(path) || (database(path)
            && sensitive_database(path)) || (sensitive_document(path) && any_ends(
            path,
            seq![
                ".doc",
                ".docx",
                ".xls",
                ".xlsx",
                ".ppt",
                ".pptx",
                ".pdf",
                ".txt",
                ".rtf",
                ".csv",
                ".json",
                ".xml",
                ".sql",
                ".db",
                ".sqlite",
                ".mdb",
                ".accdb",
                ".key",
                ".pem",
                ".crt",
                ".cer",
                ".pfx",
                ".p12",
                ".jks",
                ".kdbx",
                ".1pux",
                ".agilekeychain",
                ".keychain",
                ".zip",
                ".7z",
                ".rar",
                ".tar",
                ".gz",
                ".bz2",
                ".pst",
                ".ost",
                ".msg",
                ".eml",
                ".bak",
                ".backup",
                ".old",
            ],
        )),
{
    assert(HIGH_VALUE_ENDINGS@ =~= seq![
        ".doc",
        ".docx",
        ".xls",
        ".xlsx",
        ".ppt",
        ".pptx",
        ".pdf",
        ".txt",
        ".rtf",
        ".csv",
        ".json",
        ".xml",
        ".sql",
        ".db",
        ".sqlite",
        ".mdb",
        ".accdb",
        ".key",
        ".pem",
        ".crt",
        ".cer",
        ".pfx",
        ".p12",
        ".jks",
        ".kdbx",
        ".1pux",
        ".agilekeychain",
        ".keychain",
        ".zip",
        ".7z",
        ".rar",
        ".tar",
        ".gz",
        ".bz2",
        ".pst",
        ".ost",
        ".msg",
        ".eml",
        ".bak",
        ".backup",
        ".old",
    ]);
}

/// A path is on the network where it begins with two slashes of one kind, or a colon and a
/// slash stand in it.
pub proof fn law_paths_on_the_network(path: Seq<char>)
    ensures
        network_path(path) <==> (path.len() >= 2 && path[0] == path[1] && (path[0] == '\\' || path[0]
            == '/')) || exists|i: int|
            0 <= i < path.len() - 1 && (#[trigger] path[i]) == ':' && path[i + 1] == '/',
{
    reveal_strlit("\\\\");
    reveal_strlit("//");
    reveal_strlit(":/");
    if begins(path, "\\\\"@) {
        assert(path.subrange(0, 2)[0] == path[0] && path.subrange(0, 2)[1] == path[1]);
    }
    if begins(path, "//"@) {
        assert(path.subrange(0, 2)[0] == path[0] && path.subrange(0, 2)[1] == path[1]);
    }
    if path.len() >= 2 && path[0] == path[1] && path[0] == '\\' {
        assert(path.subrange(0, 2) =~= "\\\\"@);
    }
    if path.len() >= 2 && path[0] == path[1] && path[0] == '/' {
        assert(path.subrange(0, 2) =~= "//"@);
    }
    if occurs(":/"@, path) {
        let i = choose|i: int| occurs_at(":/"@, path, i);
        assert(path.subrange(i, i + 2)[0] == path[i] && path.subrange(i, i + 2)[1] == path[i + 1]);
    }
    if exists|i: int| 0 <= i < path.len() - 1 && (#[trigger] path[i]) == ':' && path[i + 1] == '/' {
        let i = choose|i: int|
            0 <= i < path.len() - 1 && (#[trigger] path[i]) == ':' && path[i + 1] == '/';
        assert(path.subrange(i, i + 2) =~= ":/"@);
        assert(occurs_at(":/"@, path, i));
    }
}

/// A path is on a medium that can be taken out where a drive from D to Z is named in front
/// of it, or one of the directories in which such media appear; never where it begins with
/// the drive of the system.
pub proof fn law_paths_on_media_that_can_be_taken_out(path: Seq<char>, drive: Seq<char>)
    ensures
        begins(uppercase(path), uppercase(drive)) ==> !removable_media(path, Some(drive)),
        !begins(uppercase(path), uppercase(drive)) ==> (removable_media(path, Some(drive))
            <==> removable_media(path, None)),
        !begins(uppercase(path), "/"@) ==> (removable_media(path, None) <==> uppercase(path).len()
            >= 2 && uppercase(path)[1] == ':' && 'D' <= uppercase(path)[0] <= 'Z'),
        begins(uppercase(path), "/"@) ==> (removable_media(path, None) <==> begins(path, "/media/"@)
            || begins(path, "/mnt/"@) || begins(path, "/run/media/"@)),
{
}

} // verus!
