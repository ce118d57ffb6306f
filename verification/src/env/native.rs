//! The machine that the program runs on.

use crate::env::exec::{runs, start_exec, ExecOptions, ExecPlan, StartingExec};
use crate::env::files::{file_info, tells, FileError, FileInfo, FileMetadata, IoFailure};
use crate::json::text_option;
use crate::message::optional_text;
use crate::outside::{random_uuid_simple, simple_uuid};
use crate::path::{join, join_all, joined_parts, joined_path, parent_of, parent_text};
use vstd::prelude::*;

verus! {

/// An environment that works on this machine, from a directory of its own.
pub struct NativeEnv {
    cwd: String,
}

impl View for NativeEnv {
    type V = Seq<char>;

    /// The directory that it works from.
    closed spec fn view(&self) -> Seq<char> {
        self.cwd@
    }
}

/// The name of a temporary directory, for a unique part.
pub open spec fn temp_dir_name(prefix: Option<Seq<char>>, unique: Seq<char>) -> Seq<char> {
    (match prefix {
        Some(prefix) => prefix,
        None => "tmp-"@,
    }) + "-"@ + unique
}

/// The name of a temporary file, for a unique part.
pub open spec fn temp_file_name(
    prefix: Option<Seq<char>>,
    unique: Seq<char>,
    suffix: Option<Seq<char>>,
) -> Seq<char> {
    let before = match prefix {
        Some(prefix) => prefix,
        None => Seq::empty(),
    };
    let behind = match suffix {
        Some(suffix) => suffix,
        None => Seq::empty(),
    };
    before + unique + behind
}

impl NativeEnv {
    /// An environment that works from `cwd`.
    pub fn new(cwd: String) -> (r: NativeEnv)
        ensures
            r@ == cwd@,
    {
        NativeEnv { cwd }
    }

    /// The directory that it works from.
    pub fn cwd(&self) -> (r: &str)
        ensures
            r@ == self@,
    {
        self.cwd.as_str()
    }

    /// Where `path` lies, seen from the environment's directory.
    pub fn resolve(&self, path: &str) -> (r: String)
        ensures
            r@ == join(self@, path@),
    {
        joined_path(self.cwd.as_str(), path)
    }

    /// Where `path` lies, seen from the environment's directory.
    pub fn absolute_path(&self, path: &str) -> (r: String)
        ensures
            r@ == join(self@, path@),
    {
        self.resolve(path)
    }

    /// Parts put behind each other. The environment's directory has no part in it.
    pub fn join_path(&self, parts: &[&str]) -> (r: String)
        ensures
            r@ == join_all(parts@),
    {
        joined_parts(parts)
    }

    /// The directory that has to be there before a file is written at `path`, where there is one.
    pub fn parent_to_make(&self, path: &str) -> (r: Option<String>)
        ensures
            optional_text(r) == parent_text(join(self@, path@)),
    {
        parent_of(self.resolve(path).as_str())
    }

    /// What is known of the file at `path`, once the system has answered.
    pub fn file_info(&self, path: &str, answer: Result<FileMetadata, IoFailure>) -> (r: Result<
        FileInfo,
        FileError,
    >)
        ensures
            tells(r, path@, join(self@, path@), answer),
    {
        file_info(path, self.resolve(path), answer)
    }

    /// Begins to run `command` in a shell: the process that is to be started for it.
    pub fn exec(&self, command: &str, options: ExecOptions) -> (r: (StartingExec, ExecPlan))
        ensures
            r.0.timeout() == options.timeout_secs,
            runs(r.1, command@, self@, options),
    {
        start_exec(command, self.cwd.as_str(), options)
    }

    /// Where a new temporary directory goes.
    pub fn create_temp_dir(&self, temp_root: &str, prefix: Option<&str>) -> (r: String)
        ensures
            exists|unique: Seq<char>|
                simple_uuid(unique) && r@ == join(
                    temp_root@,
                    #[trigger] temp_dir_name(text_option(prefix), unique),
                ),
    {
        temp_dir_path(temp_root, prefix, random_uuid_simple().as_str())
    }

    /// Where a new temporary file goes.
    pub fn create_temp_file(
        &self,
        temp_root: &str,
        prefix: Option<&str>,
        suffix: Option<&str>,
    ) -> (r: String)
        ensures
            exists|unique: Seq<char>|
                simple_uuid(unique) && r@ == join(
                    temp_root@,
                    #[trigger] temp_file_name(text_option(prefix), unique, text_option(suffix)),
                ),
    {
        temp_file_path(temp_root, prefix, random_uuid_simple().as_str(), suffix)
    }
}

/// Where a temporary directory goes, for a unique part.
pub fn temp_dir_path(temp_root: &str, prefix: Option<&str>, unique: &str) -> (r: String)
    ensures
        r@ == join(temp_root@, temp_dir_name(text_option(prefix), unique@)),
{
    let mut name = String::new();
    match prefix {
        Some(prefix) => {
            name.push_str(prefix);
        },
        None => {
            name.push_str("tmp-");
        },
    }
    name.push_str("-");
    name.push_str(unique);
    assert(name@ =~= temp_dir_name(text_option(prefix), unique@));
    joined_path(temp_root, name.as_str())
}

/// Where a temporary file goes, for a unique part.
pub fn temp_file_path(
    temp_root: &str,
    prefix: Option<&str>,
    unique: &str,
    suffix: Option<&str>,
) -> (r: String)
    ensures
        r@ == join(temp_root@, temp_file_name(text_option(prefix), unique@, text_option(suffix))),
{
    let mut name = String::new();
    if let Some(prefix) = prefix {
        name.push_str(prefix);
    }
    name.push_str(unique);
    if let Some(suffix) = suffix {
        name.push_str(suffix);
    }
    assert(name@ =~= temp_file_name(text_option(prefix), unique@, text_option(suffix)));
    joined_path(temp_root, name.as_str())
}

// ---------------------------------------------------------------------------------------------
// Laws
// ---------------------------------------------------------------------------------------------

/// A temporary directory is called by its prefix, a dash and the unique part; without a prefix by
/// "tmp-" in its place. A temporary file is called by its prefix, the unique part and its suffix
/// with nothing between them.
pub proof fn law_temporary_names(prefix: Seq<char>, unique: Seq<char>, suffix: Seq<char>)
    ensures
        temp_dir_name(Some(prefix), unique) == prefix + seq!['-'] + unique,
        temp_dir_name(None, unique) == seq!['t', 'm', 'p', '-', '-'] + unique,
        temp_file_name(Some(prefix), unique, Some(suffix)) == prefix + unique + suffix,
        temp_file_name(None, unique, Some(suffix)) == unique + suffix,
        temp_file_name(Some(prefix), unique, None) == prefix + unique,
        temp_file_name(None, unique, None) == unique,
{
    reveal_strlit("-");
    reveal_strlit("tmp-");
    assert(temp_dir_name(Some(prefix), unique) =~= prefix + seq!['-'] + unique);
    assert(temp_dir_name(None, unique) =~= seq!['t', 'm', 'p', '-', '-'] + unique);
    assert(temp_file_name(None, unique, Some(suffix)) =~= unique + suffix);
    assert(temp_file_name(Some(prefix), unique, None) =~= prefix + unique);
    assert(temp_file_name(None, unique, None) =~= unique);
}

/// Two unique parts make two names, whatever the prefix and the suffix are.
pub proof fn law_temporary_names_are_told_apart(
    a: Seq<char>,
    b: Seq<char>,
    prefix: Option<Seq<char>>,
    suffix: Option<Seq<char>>,
)
    requires
        a.len() == b.len(),
        a != b,
    ensures
        temp_dir_name(prefix, a) != temp_dir_name(prefix, b),
        temp_file_name(prefix, a, suffix) != temp_file_name(prefix, b, suffix),
{
    let head = (match prefix {
        Some(prefix) => prefix,
        None => "tmp-"@,
    }) + "-"@;
    let before = match prefix {
        Some(prefix) => prefix,
        None => Seq::empty(),
    };
    let n = a.len() as int;
    assert(temp_dir_name(prefix, a).skip(head.len() as int) =~= a);
    assert(temp_dir_name(prefix, b).skip(head.len() as int) =~= b);
    assert(temp_file_name(prefix, a, suffix).subrange(before.len() as int, before.len() + n)
        =~= a);
    assert(temp_file_name(prefix, b, suffix).subrange(before.len() as int, before.len() + n)
        =~= b);
}

} // verus!
