use vstd::prelude::*;
use vstd::string::StringExecFns;

verus! {

/// How a tool ended: `Ok` for success, else its exit code.
pub type CommandExit = Result<(), u8>;

/// The exit of a process whose status code is `code`; `None` is a process
/// that a signal ended. Whatever is no success and does not fit an exit code
/// counts as 1.
pub open spec fn exit_of(code: Option<i32>) -> CommandExit {
    match code {
        Some(c) => if c == 0 {
            Ok(())
        } else if 0 < c <= 255 {
            Err(c as u8)
        } else {
            Err(1u8)
        },
        None => Err(1u8),
    }
}

/// What has a status code that can be read as an exit.
pub trait CommandOutputExt {
    /// The status code, as the operating system reported it.
    spec fn status_code(&self) -> Option<i32>;

    /// Reads the status code as an exit.
    fn to_exitcode(&self) -> (r: CommandExit)
        ensures
            r == exit_of(self.status_code()),
    ;
}

impl CommandOutputExt for Option<i32> {
    open spec fn status_code(&self) -> Option<i32> {
        *self
    }

    fn to_exitcode(&self) -> (r: CommandExit) {
        match *self {
            Some(c) => if c == 0 {
                Ok(())
            } else if 0 < c && c <= 255 {
                Err(c as u8)
            } else {
                Err(1)
            },
            None => Err(1),
        }
    }
}

/// The file name of `path` as `std::path::Path::file_name` finds it on the
/// platform the library is built for.
pub uninterp spec fn file_name_of(path: Seq<char>) -> Option<Seq<char>>;

/// `path` with its extension set to `extension`, as
/// `std::path::Path::with_extension` builds it.
pub uninterp spec fn with_extension_of(path: Seq<char>, extension: Seq<char>) -> Seq<char>;

/// `path` with its file name set to `name`, as
/// `std::path::Path::with_file_name` builds it.
pub uninterp spec fn with_file_name_of(path: Seq<char>, name: Seq<char>) -> Seq<char>;

/// Whether `std::path::is_separator` takes `c` for a path separator on the
/// platform the library is built for.
pub uninterp spec fn is_separator(c: char) -> bool;

/// Whether `c` splits a path: a slash or a backslash that the platform takes
/// for a separator.
pub open spec fn separates(c: char) -> bool {
    (c == '/' || c == '\\') && is_separator(c)
}

/// No character of `text` splits a path.
pub open spec fn no_separator(text: Seq<char>) -> bool {
    forall|i: int| 0 <= i < text.len() ==> !separates(#[trigger] text[i])
}

/// Where the last dot of `name` stands, or -1 where it has none.
pub open spec fn last_dot(name: Seq<char>) -> int
    decreases name.len(),
{
    if name.len() == 0 {
        -1
    } else if name.last() == '.' {
        name.len() - 1
    } else {
        last_dot(name.drop_last())
    }
}

/// The extension of `path`: what follows the last dot of its file name. A
/// path without a file name has none, nor has a file name without a dot, nor
/// one whose only dot is its first character.
pub open spec fn extension_of(path: Seq<char>) -> Option<Seq<char>> {
    match file_name_of(path) {
        Some(name) => if last_dot(name) > 0 {
            Some(name.skip(last_dot(name) + 1))
        } else {
            None
        },
        None => None,
    }
}

/// Calls `std::path::is_separator`. The result is the platform's answer.
#[verifier::external_body]
fn is_path_separator(c: char) -> (r: bool)
    ensures
        r == is_separator(c),
{
    std::path::is_separator(c)
}

/// Calls `std::path::Path::extension`. The result is the part of the file
/// name that std documents as the extension: what follows its last dot,
/// unless the file name is missing, has no dot, or has its only dot in front.
#[verifier::external_body]
pub(crate) fn path_extension(path: &str) -> (r: Option<String>)
    ensures
        match r {
            Some(x) => extension_of(path@) == Some(x@),
            None => extension_of(path@) is None,
        },
{
    match std::path::Path::new(path).extension() {
        Some(x) => Some(x.to_string_lossy().into_owned()),
        None => None,
    }
}

/// Calls `std::path::Path::file_name`. The result is the file name that std
/// finds.
#[verifier::external_body]
pub(crate) fn path_file_name(path: &str) -> (r: Option<String>)
    ensures
        match r {
            Some(x) => file_name_of(path@) == Some(x@),
            None => file_name_of(path@) is None,
        },
{
    match std::path::Path::new(path).file_name() {
        Some(x) => Some(x.to_string_lossy().into_owned()),
        None => None,
    }
}

/// Calls `std::path::Path::with_extension`, which panics on an extension that
/// holds a separator; std knows no separator but the slash and the backslash.
/// The result is the path that std builds.
#[verifier::external_body]
pub(crate) fn path_with_extension(path: &str, extension: &str) -> (r: String)
    requires
        no_separator(extension@),
    ensures
        r@ == with_extension_of(path@, extension@),
{
    std::path::Path::new(path).with_extension(extension).to_string_lossy().into_owned()
}

/// Calls `std::path::Path::with_file_name`. The result is the path that std
/// builds.
#[verifier::external_body]
pub(crate) fn path_with_file_name(path: &str, name: &str) -> (r: String)
    ensures
        r@ == with_file_name_of(path@, name@),
{
    std::path::Path::new(path).with_file_name(name).to_string_lossy().into_owned()
}

/// The extension that `path` gets when `suffix` is put before its own: the
/// suffix, a dot and the extension, or the suffix alone where the path has no
/// extension.
pub open spec fn suffixed_extension(path: Seq<char>, suffix: Seq<char>) -> Seq<char> {
    match extension_of(path) {
        Some(x) => suffix + seq!['.'] + x,
        None => suffix,
    }
}

/// `path` can take `suffix` before its extension: the extension that comes
/// of it splits no path.
pub open spec fn takes_suffix(path: Seq<char>, suffix: Seq<char>) -> bool {
    no_separator(suffixed_extension(path, suffix))
}

/// `path` with `suffix` put before its extension: `file.txt` with `temp`
/// is `file.temp.txt`. A path without an extension gets the suffix for one.
pub open spec fn suffixed(path: Seq<char>, suffix: Seq<char>) -> Seq<char> {
    with_extension_of(path, suffixed_extension(path, suffix))
}

/// `path` with `prefix` put before its file name: `/etc/file.txt` with
/// `temp.` is `/etc/temp.file.txt`. A path without a file name gets the
/// prefix for one.
pub open spec fn prefixed(path: Seq<char>, prefix: Seq<char>) -> Seq<char> {
    with_file_name_of(
        path,
        match file_name_of(path) {
            Some(x) => prefix + x,
            None => prefix,
        },
    )
}

/// Puts `suffix` before the extension of `path`, and hands back the
/// extension that comes of it.
pub fn suffix_extension(path: &str, suffix: &str) -> (r: String)
    ensures
        r@ == suffixed_extension(path@, suffix@),
{
    let mut extension = String::from_str(suffix);
    match path_extension(path) {
        Some(x) => {
            extension.append(".");
            extension.append(x.as_str());
            proof {
                reveal_strlit(".");
                assert(extension@ =~= suffix@ + seq!['.'] + x@);
            }
        },
        None => {},
    }
    extension
}

/// Names beside a path, for the files that an operation writes.
pub trait PathExt {
    /// The path as text.
    spec fn path_text(&self) -> Seq<char>;

    /// The path with `suffix` before its extension.
    fn with_suffix(&self, suffix: &str) -> (r: String)
        requires
            takes_suffix(self.path_text(), suffix@),
        ensures
            r@ == suffixed(self.path_text(), suffix@),
    ;

    /// The path with `prefix` before its file name.
    fn with_prefix(&self, prefix: &str) -> (r: String)
        ensures
            r@ == prefixed(self.path_text(), prefix@),
    ;
}

impl PathExt for str {
    open spec fn path_text(&self) -> Seq<char> {
        self@
    }

    fn with_suffix(&self, suffix: &str) -> (r: String) {
        let extension = suffix_extension(self, suffix);
        path_with_extension(self, extension.as_str())
    }

    fn with_prefix(&self, prefix: &str) -> (r: String) {
        let mut name = String::from_str(prefix);
        match path_file_name(self) {
            Some(x) => {
                name.append(x.as_str());
            },
            None => {},
        }
        path_with_file_name(self, name.as_str())
    }
}

impl PathExt for String {
    open spec fn path_text(&self) -> Seq<char> {
        self@
    }

    fn with_suffix(&self, suffix: &str) -> (r: String) {
        self.as_str().with_suffix(suffix)
    }

    fn with_prefix(&self, prefix: &str) -> (r: String) {
        self.as_str().with_prefix(prefix)
    }
}

/// Whether no character of `text` splits a path.
pub fn has_no_separator(text: &str) -> (ok: bool)
    ensures
        ok == no_separator(text@),
{
    let mut ok = true;
    for c in it: text.chars()
        invariant
            it.seq() == text@,
            ok == no_separator(text@.take(it.index() as int)),
    {
        if (c == '/' || c == '\\') && is_path_separator(c) {
            ok = false;
        }
        proof {
            let done = text@.take(it.index() as int);
            let next = text@.take(it.index() + 1);
            assert(next.drop_last() =~= done);
            assert(next.last() == c);
            assert forall|i: int| 0 <= i < done.len() implies done[i] == next[i] by {}
        }
    }
    proof {
        assert(text@.take(text@.len() as int) =~= text@);
    }
    ok
}

/// Whether `path` can take `suffix` before its extension.
pub fn can_take_suffix(path: &str, suffix: &str) -> (ok: bool)
    ensures
        ok == takes_suffix(path@, suffix@),
{
    has_no_separator(suffix_extension(path, suffix).as_str())
}

/// `path` with `suffix` before its extension, or `None` where the extension
/// that comes of it would split a path.
pub fn checked_with_suffix(path: &str, suffix: &str) -> (r: Option<String>)
    ensures
        match r {
            Some(p) => takes_suffix(path@, suffix@) && p@ == suffixed(path@, suffix@),
            None => !takes_suffix(path@, suffix@),
        },
{
    if can_take_suffix(path, suffix) {
        Some(path.with_suffix(suffix))
    } else {
        None
    }
}

} // verus!
