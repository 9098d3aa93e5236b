//! What a walk of a tree hands over, which of its entries are scanned, and
//! which ignore rules the walk applies.
use crate::text::{chars_of, starts_with_at};
use vstd::prelude::*;

verus! {

/// Where the last component of `path` begins: after its last `/`, or at its start.
pub open spec fn file_name_start(path: Seq<char>) -> nat
    decreases path.len(),
{
    if path.len() > 0 && path.last() != '/' {
        file_name_start(path.drop_last())
    } else {
        path.len()
    }
}

/// The last component of `path`: what follows its last `/`.
pub open spec fn file_name(path: Seq<char>) -> Seq<char> {
    path.skip(file_name_start(path) as int)
}

/// The name of the file that lists what a scan leaves out. It is honoured by
/// the walk whatever the other ignore rules are, and is never scanned itself.
pub open spec fn ignore_file_name() -> Seq<char> {
    ".tdignore"@
}

/// A place `i` that follows a `/` or is the start of `path`, with no `/` from
/// there on, is where the last component of `path` begins.
pub proof fn lemma_file_name_start_is(path: Seq<char>, i: nat)
    requires
        i <= path.len(),
        forall|k: int| i <= k < path.len() ==> #[trigger] path[k] != '/',
        i > 0 ==> path[i - 1] == '/',
    ensures
        file_name_start(path) == i,
    decreases path.len(),
{
    if i < path.len() {
        let front = path.drop_last();
        assert forall|k: int| i <= k < front.len() implies #[trigger] front[k] != '/' by {
            assert(front[k] == path[k]);
        }
        lemma_file_name_start_is(front, i);
    }
}

/// Whether the last component of `path` is the name of the ignore file.
pub fn is_ignore_file(path: &str) -> (r: bool)
    ensures
        r == (file_name(path@) == ignore_file_name()),
{
    let chars = chars_of(path);
    let name = chars_of(".tdignore");
    let n = chars.len();
    let mut start: usize = n;
    while start > 0 && chars[start - 1] != '/'
        invariant
            start <= n == chars.len(),
            forall|k: int| start <= k < n ==> #[trigger] chars@[k] != '/',
        decreases start,
    {
        start = start - 1;
    }
    proof {
        lemma_file_name_start_is(chars@, start as nat);
        assert(chars@.skip(start as int) =~= chars@.subrange(start as int, n as int));
    }
    n - start == name.len() && starts_with_at(chars.as_slice(), start, name.as_slice())
}

/// Whether a glob pattern is one that globset accepts and can build a matcher
/// for: what `Glob::new`, then `GlobSet::new` on that one glob, make of it.
pub uninterp spec fn glob_compiles(pattern: Seq<char>) -> bool;

/// Whether the glob `pattern` matches `path`, as globset decides it where
/// `/` is the only separator of path components: `GlobSet::is_match` of the
/// set built from that one glob. On a pattern that does not compile it is
/// false. Paths are handed over with `/` between their components, so that
/// the answer is the same wherever the library runs.
pub uninterp spec fn glob_matches(pattern: Seq<char>, path: Seq<char>) -> bool;

/// Calls globset's `Glob::new` on the pattern and `GlobSet::new` on the glob,
/// and tells whether both succeed. Whether they do depends on the pattern
/// alone; it is named by [`glob_compiles`], not spelled out.
#[verifier::external_body]
fn glob_builds(pattern: &str) -> (r: bool)
    ensures
        r == glob_compiles(pattern@),
{
    match globset::Glob::new(pattern) {
        Ok(glob) => globset::GlobSet::new([glob]).is_ok(),
        Err(_) => false,
    }
}

/// Builds the set of the one glob `pattern` as [`glob_builds`] does and calls
/// globset's `GlobSet::is_match` on the path; false where the set cannot be
/// built. The answer depends on the two texts alone where `/` is the only
/// separator of path components; elsewhere globset first turns the other
/// separators of the path into `/`, which changes nothing for a path that is
/// handed over with `/` alone. It is named by [`glob_matches`], not spelled
/// out.
#[verifier::external_body]
fn glob_is_match(pattern: &str, path: &str) -> (r: bool)
    ensures
        r == glob_matches(pattern@, path@),
        r ==> glob_compiles(pattern@),
{
    match globset::Glob::new(pattern) {
        Ok(glob) => match globset::GlobSet::new([glob]) {
            Ok(set) => set.is_match(path),
            Err(_) => false,
        },
        Err(_) => false,
    }
}

/// Whether `pattern` is a glob. A walk is not begun on one that is none.
pub fn is_glob(pattern: &str) -> (r: bool)
    ensures
        r == glob_compiles(pattern@),
{
    glob_builds(pattern)
}

/// Whether a walked entry is scanned: it is a regular file, its path matches
/// the pattern, and it is not the ignore file.
pub open spec fn eligible(pattern: Seq<char>, path: Seq<char>, is_file: bool) -> bool {
    is_file && glob_matches(pattern, path) && file_name(path) != ignore_file_name()
}

/// Whether a walked entry is scanned.
pub fn is_eligible(pattern: &str, path: &str, is_file: bool) -> (r: bool)
    ensures
        r == eligible(pattern@, path@, is_file),
{
    is_file && glob_is_match(pattern, path) && !is_ignore_file(path)
}

/// Which ignore rules a walk of the tree applies.
#[derive(Debug, Clone, Copy, PartialEq, Eq, Structural)]
pub struct WalkPolicy {
    /// Hidden files are left out, and what the ignore files of version
    /// control exclude.
    pub standard_filters: bool,
    /// What the files named [`ignore_file_name`] exclude is left out.
    pub honour_ignore_file: bool,
}

impl WalkPolicy {
    /// The rules of a walk: the standard ones unless `no_ignore` is set, and
    /// the ignore file in either case.
    pub fn new(no_ignore: bool) -> (r: WalkPolicy)
        ensures
            r.standard_filters == !no_ignore,
            r.honour_ignore_file,
    {
        WalkPolicy { standard_filters: !no_ignore, honour_ignore_file: true }
    }
}

/// The name of the file that lists what a scan leaves out.
pub fn ignore_file() -> (r: &'static str)
    ensures
        r@ == ignore_file_name(),
{
    ".tdignore"
}

/// One entry of the walk of a tree.
#[derive(Debug)]
pub struct FileEntry {
    /// The path, as the walk gave it, with `/` between its components.
    pub path: String,
    /// Whether the entry is a regular file.
    pub is_file: bool,
    /// The text of the file. `None` where there is none to hand over: the
    /// entry is not one that is scanned, or it could not be read as UTF-8 text.
    pub contents: Option<String>,
}

/// A [`FileEntry`] as a mathematical value.
pub struct FileEntryView {
    pub path: Seq<char>,
    pub is_file: bool,
    pub contents: Option<Seq<char>>,
}

impl View for FileEntry {
    type V = FileEntryView;

    open spec fn view(&self) -> FileEntryView {
        FileEntryView {
            path: self.path@,
            is_file: self.is_file,
            contents: match self.contents {
                Some(text) => Some(text@),
                None => None,
            },
        }
    }
}

/// The views of `entries`, one by one.
pub open spec fn entry_views(entries: Seq<FileEntry>) -> Seq<FileEntryView> {
    entries.map_values(|e: FileEntry| e@)
}

} // verus!
