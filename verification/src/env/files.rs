//! File operations: which of them to perform, and what comes of the system's answer.

use crate::json::text_option;
use crate::message::optional_text;
use crate::path::{name_of, name_text};
use vstd::prelude::*;

verus! {

// ---------------------------------------------------------------------------------------------
// Errors
// ---------------------------------------------------------------------------------------------

/// What kind of error the system reports, as far as it makes a difference.
#[derive(Clone, Copy, Debug, PartialEq, Eq, Structural)]
pub enum IoErrorKind {
    NotFound,
    PermissionDenied,
    InvalidInput,
    InvalidData,
    Other,
}

/// An error that the system reports.
#[derive(Debug, PartialEq)]
pub struct IoFailure {
    pub kind: IoErrorKind,
    pub message: String,
}

/// What went wrong with a file.
#[derive(Clone, Copy, Debug, PartialEq, Eq, Structural)]
pub enum FileErrorCode {
    NotFound,
    PermissionDenied,
    InvalidPath,
    Unknown,
}

/// Why a file operation failed.
#[derive(Debug, PartialEq)]
pub struct FileError {
    pub code: FileErrorCode,
    pub message: String,
    /// The path that the operation was on.
    pub path: Option<String>,
}

impl FileError {
    /// An error on no path in particular.
    pub fn new(code: FileErrorCode, message: String) -> (r: FileError)
        ensures
            r.code == code,
            r.message == message,
            r.path is None,
    {
        FileError { code, message, path: None }
    }

    /// The same error on `path`.
    pub fn with_path(self, path: &str) -> (r: FileError)
        ensures
            r.code == self.code,
            r.message == self.message,
            optional_text(r.path) == Some(path@),
    {
        FileError { code: self.code, message: self.message, path: Some(path.to_string()) }
    }
}

/// What an error of the system means for a file.
pub open spec fn code_of(kind: IoErrorKind) -> FileErrorCode {
    match kind {
        IoErrorKind::NotFound => FileErrorCode::NotFound,
        IoErrorKind::PermissionDenied => FileErrorCode::PermissionDenied,
        IoErrorKind::InvalidInput => FileErrorCode::InvalidPath,
        IoErrorKind::InvalidData => FileErrorCode::InvalidPath,
        IoErrorKind::Other => FileErrorCode::Unknown,
    }
}

/// `error` is what the failure means, on `path` where one is given.
pub open spec fn reports(error: FileError, failure: IoFailure, path: Option<Seq<char>>) -> bool {
    &&& error.code == code_of(failure.kind)
    &&& error.message == failure.message
    &&& optional_text(error.path) == path
}

/// What a failure means, on `path` where one is given.
pub fn map_io_error(failure: IoFailure, path: Option<&str>) -> (r: FileError)
    ensures
        reports(r, failure, text_option(path)),
{
    let code = match failure.kind {
        IoErrorKind::NotFound => FileErrorCode::NotFound,
        IoErrorKind::PermissionDenied => FileErrorCode::PermissionDenied,
        IoErrorKind::InvalidInput => FileErrorCode::InvalidPath,
        IoErrorKind::InvalidData => FileErrorCode::InvalidPath,
        IoErrorKind::Other => FileErrorCode::Unknown,
    };
    let error = FileError::new(code, failure.message);
    match path {
        Some(path) => error.with_path(path),
        None => error,
    }
}

/// The outcome of an operation on `path`: what the system gives, or what its failure means.
pub fn outcome_on<T>(answer: Result<T, IoFailure>, path: Option<&str>) -> (r: Result<T, FileError>)
    ensures
        match answer {
            Ok(value) => r == Ok::<T, FileError>(value),
            Err(failure) => r matches Err(error) && reports(error, failure, text_option(path)),
        },
{
    match answer {
        Ok(value) => Ok(value),
        Err(failure) => Err(map_io_error(failure, path)),
    }
}

// ---------------------------------------------------------------------------------------------
// What a file is
// ---------------------------------------------------------------------------------------------

#[derive(Clone, Copy, Debug, PartialEq, Eq, Structural)]
pub enum FileKind {
    File,
    Directory,
    Symlink,
}

/// What is known of a file.
#[derive(Debug, PartialEq)]
pub struct FileInfo {
    pub name: String,
    pub path: String,
    pub kind: FileKind,
    /// Bytes.
    pub size: u64,
    /// When it was last changed, in milliseconds since 1970; 0 where that is not known.
    pub mtime_ms: i64,
}

/// What the system says of a file.
#[derive(Clone, Copy, Debug, PartialEq, Eq, Structural)]
pub struct FileMetadata {
    pub is_symlink: bool,
    pub is_dir: bool,
    /// Bytes.
    pub len: u64,
    /// Milliseconds from 1970 to the last change, where the system knows it and it lies after 1970.
    pub modified_ms: Option<u128>,
}

/// A link is a link, whatever it points to; what is neither that nor a directory is a file.
pub open spec fn kind_of(metadata: FileMetadata) -> FileKind {
    if metadata.is_symlink {
        FileKind::Symlink
    } else if metadata.is_dir {
        FileKind::Directory
    } else {
        FileKind::File
    }
}

/// The time of the last change, cut to 64 bits.
pub open spec fn mtime_of(metadata: FileMetadata) -> i64 {
    match metadata.modified_ms {
        Some(ms) => ms as i64,
        None => 0,
    }
}

/// What is known of a file from what the system says of it.
pub fn file_info_from_meta(name: String, path: String, metadata: FileMetadata) -> (r: FileInfo)
    ensures
        r == (FileInfo {
            name,
            path,
            kind: kind_of(metadata),
            size: metadata.len,
            mtime_ms: mtime_of(metadata),
        }),
{
    let kind = if metadata.is_symlink {
        FileKind::Symlink
    } else if metadata.is_dir {
        FileKind::Directory
    } else {
        FileKind::File
    };
    let mtime_ms = match metadata.modified_ms {
        Some(ms) => ms as i64,
        None => 0,
    };
    FileInfo { name, path, kind, size: metadata.len, mtime_ms }
}

/// The time of a change that 63 bits can hold is reported as it is.
pub proof fn law_mtime_is_exact(metadata: FileMetadata)
    requires
        metadata.modified_ms is Some,
        metadata.modified_ms.unwrap() <= i64::MAX,
    ensures
        mtime_of(metadata) == metadata.modified_ms.unwrap(),
{
}

/// `r` is what is known of the file at `resolved`, which was asked for as `path`. The root and a path
/// that ends in `..` have no name.
pub open spec fn tells(
    r: Result<FileInfo, FileError>,
    path: Seq<char>,
    resolved: Seq<char>,
    answer: Result<FileMetadata, IoFailure>,
) -> bool {
    match (answer, r) {
        (Ok(metadata), Ok(info)) => {
            &&& info.path@ == resolved
            &&& info.name@ == match name_text(resolved) {
                Some(name) => name,
                None => Seq::empty(),
            }
            &&& info.kind == kind_of(metadata)
            &&& info.size == metadata.len
            &&& info.mtime_ms == mtime_of(metadata)
        },
        (Err(failure), Err(error)) => reports(error, failure, Some(path)),
        _ => false,
    }
}

/// What is known of the file at `resolved`, which was asked for as `path`.
pub(crate) fn file_info(
    path: &str,
    resolved: String,
    answer: Result<FileMetadata, IoFailure>,
) -> (r: Result<FileInfo, FileError>)
    ensures
        tells(r, path@, resolved@, answer),
{
    match answer {
        Ok(metadata) => {
            let name = match name_of(resolved.as_str()) {
                Some(name) => name,
                None => {
                    let empty = String::new();
                    assert(empty@ =~= Seq::<char>::empty());
                    empty
                },
            };
            Ok(file_info_from_meta(name, resolved, metadata))
        },
        Err(failure) => Err(map_io_error(failure, Some(path))),
    }
}

// ---------------------------------------------------------------------------------------------
// Lists
// ---------------------------------------------------------------------------------------------

/// One entry of a directory: its name, its path and what the system says of it.
#[derive(Debug, PartialEq)]
pub struct DirEntry {
    pub name: String,
    pub path: String,
    pub metadata: Result<FileMetadata, IoFailure>,
}

/// What is known of the file that a directory entry stands for.
pub open spec fn entry_info(entry: DirEntry) -> FileInfo {
    let metadata = entry.metadata->Ok_0;
    FileInfo {
        name: entry.name,
        path: entry.path,
        kind: kind_of(metadata),
        size: metadata.len,
        mtime_ms: mtime_of(metadata),
    }
}

/// A directory that is being listed.
#[derive(Debug, PartialEq)]
pub struct DirListing {
    pub entries: Vec<FileInfo>,
}

/// A listing goes on from `before` to `after` with the next entry of the directory at `path`, and `r`
/// tells whether there was one.
pub open spec fn lists(
    r: Result<bool, FileError>,
    before: Seq<FileInfo>,
    after: Seq<FileInfo>,
    next: Result<Option<DirEntry>, IoFailure>,
    path: Seq<char>,
) -> bool {
    match next {
        Err(failure) => after == before && (r matches Err(error) && reports(
            error,
            failure,
            Some(path),
        )),
        Ok(None) => after == before && r == Ok::<bool, FileError>(false),
        Ok(Some(entry)) => match entry.metadata {
            Err(failure) => after == before && (r matches Err(error) && reports(
                error,
                failure,
                Some(entry.path@),
            )),
            Ok(_) => r == Ok::<bool, FileError>(true) && after == before.push(entry_info(entry)),
        },
    }
}

impl DirListing {
    /// Nothing is listed yet.
    pub fn new() -> (r: DirListing)
        ensures
            r.entries@ == Seq::<FileInfo>::empty(),
    {
        DirListing { entries: Vec::new() }
    }

    /// Takes the next entry of the directory at `path`. Tells whether there was one. An error in
    /// reading on bears the directory's path, an error with an entry bears the entry's own.
    pub fn on_entry(&mut self, next: Result<Option<DirEntry>, IoFailure>, path: &str) -> (r: Result<
        bool,
        FileError,
    >)
        ensures
            match next {
                Err(failure) => final(self).entries@ == old(self).entries@ && (r matches Err(error)
                    && reports(error, failure, Some(path@))),
                Ok(None) => final(self).entries@ == old(self).entries@ && r == Ok::<
                    bool,
                    FileError,
                >(false),
                Ok(Some(entry)) => match entry.metadata {
                    Err(failure) => final(self).entries@ == old(self).entries@ && (r matches Err(
                        error,
                    ) && reports(error, failure, Some(entry.path@))),
                    Ok(_) => r == Ok::<bool, FileError>(true) && final(self).entries@ == old(
                        self,
                    ).entries@.push(entry_info(entry)),
                },
            },
            lists(r, old(self).entries@, final(self).entries@, next, path@),
    {
        match next {
            Err(failure) => Err(map_io_error(failure, Some(path))),
            Ok(None) => Ok(false),
            Ok(Some(entry)) => match entry.metadata {
                Err(failure) => Err(map_io_error(failure, Some(entry.path.as_str()))),
                Ok(metadata) => {
                    self.entries.push(file_info_from_meta(entry.name, entry.path, metadata));
                    Ok(true)
                },
            },
        }
    }
}

/// The line of a file at `i`, or nothing behind its end.
pub open spec fn line_at(file: Seq<String>, i: int) -> Option<String> {
    if 0 <= i < file.len() {
        Some(file[i])
    } else {
        None
    }
}

/// A file whose first lines are being read.
#[derive(Debug, PartialEq)]
pub struct LineReader {
    pub lines: Vec<String>,
    /// How many lines are wanted at most.
    pub cap: usize,
}

/// How many lines are wanted at most.
pub open spec fn wanted_lines(max_lines: Option<usize>) -> nat {
    match max_lines {
        Some(max) => max as nat,
        None => usize::MAX as nat,
    }
}

/// A reader goes on from `before` to `after` with the next line of the file at `path`, and `r` tells
/// whether there was one.
pub open spec fn reads(
    r: Result<bool, FileError>,
    before: Seq<String>,
    after: Seq<String>,
    next: Result<Option<String>, IoFailure>,
    path: Seq<char>,
) -> bool {
    match next {
        Ok(Some(line)) => r == Ok::<bool, FileError>(true) && after == before.push(line),
        Ok(None) => r == Ok::<bool, FileError>(false) && after == before,
        Err(failure) => after == before && (r matches Err(error) && reports(
            error,
            failure,
            Some(path),
        )),
    }
}

impl LineReader {
    /// No more than `cap` lines have been read.
    pub open spec fn wf(self) -> bool {
        self.lines@.len() <= self.cap
    }

    /// Nothing is read yet; without a limit all lines are wanted.
    pub fn new(max_lines: Option<usize>) -> (r: LineReader)
        ensures
            r.wf(),
            r.lines@ == Seq::<String>::empty(),
            r.cap == match max_lines {
                Some(max) => max,
                None => usize::MAX,
            },
            r.cap == wanted_lines(max_lines),
    {
        let cap = match max_lines {
            Some(max) => max,
            None => usize::MAX,
        };
        LineReader { lines: Vec::new(), cap }
    }

    /// Whether another line is wanted.
    pub fn wants_more(&self) -> (r: bool)
        ensures
            r == (self.lines@.len() < self.cap),
    {
        self.lines.len() < self.cap
    }

    /// Takes the next line of the file at `path`. Tells whether there was one.
    pub fn on_line(&mut self, next: Result<Option<String>, IoFailure>, path: &str) -> (r: Result<
        bool,
        FileError,
    >)
        requires
            old(self).lines@.len() < old(self).cap,
        ensures
            final(self).wf(),
            final(self).cap == old(self).cap,
            match next {
                Ok(Some(line)) => r == Ok::<bool, FileError>(true) && final(self).lines@ == old(
                    self,
                ).lines@.push(line),
                Ok(None) => r == Ok::<bool, FileError>(false) && final(self).lines@ == old(
                    self,
                ).lines@,
                Err(failure) => final(self).lines@ == old(self).lines@ && (r matches Err(error)
                    && reports(error, failure, Some(path@))),
            },
            reads(r, old(self).lines@, final(self).lines@, next, path@),
            forall|file: Seq<String>| #[trigger]
                old(self).lines@.is_prefix_of(file) && next == Ok::<Option<String>, IoFailure>(
                    line_at(file, old(self).lines@.len() as int),
                ) ==> final(self).lines@.is_prefix_of(file),
    {
        match next {
            Ok(Some(line)) => {
                self.lines.push(line);
                Ok(true)
            },
            Ok(None) => Ok(false),
            Err(failure) => Err(map_io_error(failure, Some(path))),
        }
    }
}

/// Once no more is wanted, or the file has ended, just the first lines of the file have been read,
/// as many as were wanted or as there are.
pub proof fn law_first_lines_are_read(reader: LineReader, file: Seq<String>)
    requires
        reader.wf(),
        reader.lines@.is_prefix_of(file),
        reader.lines@.len() == reader.cap || line_at(file, reader.lines@.len() as int) is None,
    ensures
        reader.lines@ == if file.len() <= reader.cap {
            file
        } else {
            file.take(reader.cap as int)
        },
{
    let wanted = if file.len() <= reader.cap {
        file
    } else {
        file.take(reader.cap as int)
    };
    assert(reader.lines@ =~= wanted);
}

// ---------------------------------------------------------------------------------------------
// Existence, creation and removal
// ---------------------------------------------------------------------------------------------

/// The failure says that there is nothing at the path.
pub open spec fn is_absence(failure: IoFailure) -> bool {
    failure.kind == IoErrorKind::NotFound
}

/// Whether there is a file at `path`: not finding it is an answer, any other failure is an error.
pub fn found(answer: Result<FileMetadata, IoFailure>, path: &str) -> (r: Result<bool, FileError>)
    ensures
        match answer {
            Ok(_) => r == Ok::<bool, FileError>(true),
            Err(failure) => if failure.kind == IoErrorKind::NotFound {
                r == Ok::<bool, FileError>(false)
            } else {
                r matches Err(error) && reports(error, failure, Some(path@))
            },
        },
        r is Err <==> answer is Err && !is_absence(answer->Err_0),
        r is Ok ==> r->Ok_0 == (answer is Ok),
{
    match answer {
        Ok(_) => Ok(true),
        Err(failure) => match failure.kind {
            IoErrorKind::NotFound => Ok(false),
            _ => Err(map_io_error(failure, Some(path))),
        },
    }
}

/// What the system is asked for to make a directory.
#[derive(Clone, Copy, Debug, PartialEq, Eq, Structural)]
pub enum CreateAction {
    /// The directory alone.
    Directory,
    /// The directory and those above it that are missing.
    DirectoryAndParents,
}

/// How to make a directory.
pub open spec fn creation_of(recursive: bool) -> CreateAction {
    if recursive {
        CreateAction::DirectoryAndParents
    } else {
        CreateAction::Directory
    }
}

/// How to make a directory.
pub fn create_action(recursive: bool) -> (r: CreateAction)
    ensures
        r == if recursive {
            CreateAction::DirectoryAndParents
        } else {
            CreateAction::Directory
        },
        r == creation_of(recursive),
{
    if recursive {
        CreateAction::DirectoryAndParents
    } else {
        CreateAction::Directory
    }
}

/// What the system is asked for to remove something.
#[derive(Clone, Copy, Debug, PartialEq, Eq, Structural)]
pub enum RemoveAction {
    /// Nothing is there.
    Nothing,
    File,
    /// A directory that has to be empty.
    Directory,
    /// A directory with all that is in it.
    Tree,
}

/// How to remove what the system says is there.
pub open spec fn removal_of(metadata: FileMetadata, recursive: bool) -> RemoveAction {
    if !metadata.is_dir {
        RemoveAction::File
    } else if recursive {
        RemoveAction::Tree
    } else {
        RemoveAction::Directory
    }
}

/// How to remove what is at `path`: where nothing is, nothing has to be done.
pub fn remove_action(
    answer: Result<FileMetadata, IoFailure>,
    recursive: bool,
    path: &str,
) -> (r: Result<RemoveAction, FileError>)
    ensures
        match answer {
            Ok(metadata) => r == Ok::<RemoveAction, FileError>(
                if !metadata.is_dir {
                    RemoveAction::File
                } else if recursive {
                    RemoveAction::Tree
                } else {
                    RemoveAction::Directory
                },
            ),
            Err(failure) => if failure.kind == IoErrorKind::NotFound {
                r == Ok::<RemoveAction, FileError>(RemoveAction::Nothing)
            } else {
                r matches Err(error) && reports(error, failure, Some(path@))
            },
        },
        answer is Ok ==> r == Ok::<RemoveAction, FileError>(removal_of(answer->Ok_0, recursive)),
        r is Err <==> answer is Err && !is_absence(answer->Err_0),
        r is Ok && answer is Err ==> r->Ok_0 is Nothing,
{
    match answer {
        Ok(metadata) => if !metadata.is_dir {
            Ok(RemoveAction::File)
        } else if recursive {
            Ok(RemoveAction::Tree)
        } else {
            Ok(RemoveAction::Directory)
        },
        Err(failure) => match failure.kind {
            IoErrorKind::NotFound => Ok(RemoveAction::Nothing),
            _ => Err(map_io_error(failure, Some(path))),
        },
    }
}

// ---------------------------------------------------------------------------------------------
// Laws
// ---------------------------------------------------------------------------------------------

/// A failure keeps its words and gets the path that it was on. What was not found and what was not
/// allowed are told from what cannot be a path; everything else is unknown.
pub proof fn law_failures_keep_their_meaning(
    error: FileError,
    failure: IoFailure,
    path: Option<Seq<char>>,
)
    requires
        reports(error, failure, path),
    ensures
        error.message == failure.message,
        path is Some ==> error.path is Some && error.path->0@ == path->0,
        path is None ==> error.path is None,
        error.code is NotFound <==> failure.kind is NotFound,
        error.code is PermissionDenied <==> failure.kind is PermissionDenied,
        error.code is InvalidPath <==> failure.kind is InvalidInput || failure.kind is InvalidData,
        error.code is Unknown <==> failure.kind is Other,
{
}

/// A link is told as a link even where it leads to a directory; of the rest, what is a directory is
/// one, and what is not is a file.
pub proof fn law_links_are_told_from_what_they_lead_to(metadata: FileMetadata)
    ensures
        kind_of(metadata) is Symlink <==> metadata.is_symlink,
        kind_of(metadata) is Directory <==> metadata.is_dir && !metadata.is_symlink,
        kind_of(metadata) is File <==> !metadata.is_dir && !metadata.is_symlink,
{
}

/// The time of a change that is not known is reported as 0.
pub proof fn law_unknown_mtime_is_zero(metadata: FileMetadata)
    requires
        metadata.modified_ms is None,
    ensures
        mtime_of(metadata) == 0,
{
}

/// What is known of a file is where it was looked for, the last part of that for its name, and its
/// size; a failure is told of the path as it was asked for.
pub proof fn law_file_is_told_by_its_place(
    r: Result<FileInfo, FileError>,
    path: Seq<char>,
    resolved: Seq<char>,
    answer: Result<FileMetadata, IoFailure>,
)
    requires
        tells(r, path, resolved, answer),
    ensures
        r is Ok <==> answer is Ok,
        r is Ok ==> r->Ok_0.path@ == resolved && r->Ok_0.size == answer->Ok_0.len,
        r is Ok && name_text(resolved) is Some ==> r->Ok_0.name@ == name_text(resolved)->0,
        r is Ok && name_text(resolved) is None ==> r->Ok_0.name@.len() == 0,
        r is Err ==> r->Err_0.message == answer->Err_0.message && r->Err_0.path is Some
            && r->Err_0.path->0@ == path,
{
}

/// An entry of a directory is told by its own name, path, kind and size.
pub proof fn law_entry_is_told_as_it_is(entry: DirEntry)
    ensures
        entry_info(entry).name == entry.name,
        entry_info(entry).path == entry.path,
        entry_info(entry).size == entry.metadata->Ok_0.len,
        entry_info(entry).kind == kind_of(entry.metadata->Ok_0),
        entry_info(entry).mtime_ms == mtime_of(entry.metadata->Ok_0),
{
}

/// Only a directory is removed as one, and what is in it only where that was asked for.
pub proof fn law_removal_goes_no_further_than_asked(metadata: FileMetadata, recursive: bool)
    ensures
        removal_of(metadata, recursive) is Tree <==> metadata.is_dir && recursive,
        removal_of(metadata, recursive) is Directory <==> metadata.is_dir && !recursive,
        removal_of(metadata, recursive) is File <==> !metadata.is_dir,
{
}

/// Not to be found is an answer; every other failure is none.
pub proof fn law_only_absence_is_an_answer(failure: IoFailure)
    ensures
        is_absence(failure) <==> failure.kind is NotFound,
        !is_absence(failure) <==> failure.kind is PermissionDenied || failure.kind is InvalidInput
            || failure.kind is InvalidData || failure.kind is Other,
{
}

/// Directories above a new one are made just where that was asked for.
pub proof fn law_parents_are_made_when_asked(recursive: bool)
    ensures
        creation_of(recursive) is DirectoryAndParents <==> recursive,
        creation_of(recursive) is Directory <==> !recursive,
{
}

/// Each entry that can be looked at is listed behind the others and counts as one more; the end of
/// the directory and a failure list nothing. A failure to read on is told of the directory, and one
/// with an entry of that entry.
pub proof fn law_listing_takes_each_entry(
    r: Result<bool, FileError>,
    before: Seq<FileInfo>,
    after: Seq<FileInfo>,
    next: Result<Option<DirEntry>, IoFailure>,
    path: Seq<char>,
)
    requires
        lists(r, before, after, next, path),
    ensures
        next is Err ==> after == before && r is Err && r->Err_0.message == next->Err_0.message
            && r->Err_0.path is Some && r->Err_0.path->0@ == path,
        next is Ok && next->Ok_0 is None ==> after == before && r is Ok && !r->Ok_0,
        next is Ok && next->Ok_0 is Some && next->Ok_0->0.metadata is Err ==> after == before && r
            is Err && r->Err_0.message == next->Ok_0->0.metadata->Err_0.message && r->Err_0.path
            is Some && r->Err_0.path->0@ == next->Ok_0->0.path@,
        next is Ok && next->Ok_0 is Some && next->Ok_0->0.metadata is Ok ==> r is Ok && r->Ok_0
            && after.len() == before.len() + 1 && after.drop_last() == before && after.last().path
            == next->Ok_0->0.path && after.last().name == next->Ok_0->0.name,
{
    if next is Ok && next->Ok_0 is Some && next->Ok_0->0.metadata is Ok {
        assert(after.drop_last() =~= before);
    }
}

/// Each line is read behind the others as it is; the end of the file and a failure read nothing, and
/// a failure is told of the file. Without a limit as many lines are wanted as can be counted.
pub proof fn law_reading_takes_each_line(
    r: Result<bool, FileError>,
    before: Seq<String>,
    after: Seq<String>,
    next: Result<Option<String>, IoFailure>,
    path: Seq<char>,
    max: usize,
)
    requires
        reads(r, before, after, next, path),
    ensures
        next is Err ==> after == before && r is Err && r->Err_0.message == next->Err_0.message
            && r->Err_0.path is Some && r->Err_0.path->0@ == path,
        next is Ok && next->Ok_0 is None ==> after == before && r is Ok && !r->Ok_0,
        next is Ok && next->Ok_0 is Some ==> r is Ok && r->Ok_0 && after.len() == before.len() + 1
            && after.drop_last() == before && after.last() == next->Ok_0->0,
        wanted_lines(Some(max)) == max,
        wanted_lines(None) == usize::MAX,
{
    if next is Ok && next->Ok_0 is Some {
        assert(after.drop_last() =~= before);
    }
}

} // verus!
