//! The group file format and what a group resolves to.
//!
//! A group file lists one token per line. A line whose first character is
//! `#` is a comment. Every other line is trimmed; what is left is either a
//! package name (possibly empty) or, where it begins with `groups/`, a
//! reference to another group file below the tree root.

use crate::text::{lines, starts_with, trim, trimmed};
use vstd::prelude::*;
use vstd::string::*;

verus! {

/// The deepest nesting at which a group file is still read.
pub const MAX_DEPTH: usize = 32;

/// The marker that tells a group reference from a package name: `groups/`.
pub open spec fn group_prefix() -> Seq<char> {
    seq!['g', 'r', 'o', 'u', 'p', 's', '/']
}

/// The directory that group references are resolved against: `./TREE/`.
pub open spec fn tree_root() -> Seq<char> {
    seq!['.', '/', 'T', 'R', 'E', 'E', '/']
}

/// Whether `token` refers to a group.
pub open spec fn is_group(token: Seq<char>) -> bool {
    group_prefix().is_prefix_of(token)
}

/// Whether `line` is a comment: its first character, before any trimming, is
/// `#`.
pub open spec fn is_comment(line: Seq<char>) -> bool {
    line.len() > 0 && line.first() == '#'
}

/// The path of the file that the group reference `token` names.
pub open spec fn group_path(token: Seq<char>) -> Seq<char> {
    tree_root() + token
}

/// What one line of a group file stands for.
pub ghost enum Entry {
    Comment,
    Package(Seq<char>),
    Group(Seq<char>),
}

/// The meaning of `line`.
pub open spec fn entry(line: Seq<char>) -> Entry {
    if is_comment(line) {
        Entry::Comment
    } else if is_group(trimmed(line)) {
        Entry::Group(trimmed(line))
    } else {
        Entry::Package(trimmed(line))
    }
}

/// Why a group could not be resolved.
pub ghost enum Failure {
    /// A reference sat deeper than [`MAX_DEPTH`].
    DepthExceeded,
    /// A file could not be read; the reader's message.
    Io(Seq<char>),
}

/// `tokens` in front of what `rest` resolved to; the failure of `rest`
/// otherwise.
pub open spec fn followed_by(
    tokens: Seq<Seq<char>>,
    rest: Result<Seq<Seq<char>>, Failure>,
) -> Result<Seq<Seq<char>>, Failure> {
    match rest {
        Ok(more) => Ok(tokens + more),
        Err(e) => Err(e),
    }
}

/// The tokens that the group file at `path`, opened at nesting `depth`,
/// resolves to when every file reads as `files` says.
///
/// Nothing is read deeper than [`MAX_DEPTH`]. The first failure, in reading
/// order, is the result.
pub open spec fn resolve(
    files: spec_fn(Seq<char>) -> Result<Seq<char>, Seq<char>>,
    path: Seq<char>,
    depth: nat,
) -> Result<Seq<Seq<char>>, Failure>
    decreases 33 - depth, 1int, 0int,
{
    if depth > 32 {
        Err(Failure::DepthExceeded)
    } else {
        match files(path) {
            Err(message) => Err(Failure::Io(message)),
            Ok(text) => resolve_lines(files, lines(text), depth),
        }
    }
}

/// The tokens that `rows`, lines of a file opened at nesting `depth`,
/// resolve to: packages stay where they stand, and each group reference is
/// replaced, in place, by what its file resolves to.
pub open spec fn resolve_lines(
    files: spec_fn(Seq<char>) -> Result<Seq<char>, Seq<char>>,
    rows: Seq<Seq<char>>,
    depth: nat,
) -> Result<Seq<Seq<char>>, Failure>
    decreases 33 - depth, 0int, rows.len(),
{
    if rows.len() == 0 {
        Ok(Seq::empty())
    } else {
        match entry(rows.first()) {
            Entry::Comment => resolve_lines(files, rows.drop_first(), depth),
            Entry::Package(token) => followed_by(
                seq![token],
                resolve_lines(files, rows.drop_first(), depth),
            ),
            Entry::Group(token) => if depth >= 32 {
                Err(Failure::DepthExceeded)
            } else {
                match resolve(files, group_path(token), depth + 1) {
                    Err(e) => Err(e),
                    Ok(nested) => followed_by(
                        nested,
                        resolve_lines(files, rows.drop_first(), depth),
                    ),
                }
            },
        }
    }
}

/// Why a group could not be resolved.
#[derive(Debug, PartialEq, Eq)]
pub enum ResolveError {
    /// A reference sat deeper than [`MAX_DEPTH`].
    DepthExceeded,
    /// A file could not be read; the reader's message.
    Io(String),
}

impl View for ResolveError {
    type V = Failure;

    open spec fn view(&self) -> Failure {
        match self {
            ResolveError::DepthExceeded => Failure::DepthExceeded,
            ResolveError::Io(message) => Failure::Io(message@),
        }
    }
}

/// The text that describes `failure`.
pub open spec fn failure_text(failure: Failure) -> Seq<char> {
    match failure {
        Failure::DepthExceeded => "Nested group exceeded 32 levels! Potential infinite loop."@,
        Failure::Io(message) => message,
    }
}

impl ResolveError {
    /// The text that describes this error.
    pub fn message(&self) -> (text: String)
        ensures
            text@ == failure_text(self@),
    {
        match self {
            ResolveError::DepthExceeded => String::from_str(
                "Nested group exceeded 32 levels! Potential infinite loop.",
            ),
            ResolveError::Io(message) => message.clone(),
        }
    }

    /// A copy of this error.
    pub fn duplicate(&self) -> (copy: ResolveError)
        ensures
            copy@ == self@,
    {
        match self {
            ResolveError::DepthExceeded => ResolveError::DepthExceeded,
            ResolveError::Io(message) => ResolveError::Io(message.clone()),
        }
    }
}

/// What one line of a group file stands for.
#[derive(Debug, PartialEq, Eq)]
pub enum Line {
    Comment,
    Package(String),
    Group(String),
}

impl View for Line {
    type V = Entry;

    open spec fn view(&self) -> Entry {
        match self {
            Line::Comment => Entry::Comment,
            Line::Package(token) => Entry::Package(token@),
            Line::Group(token) => Entry::Group(token@),
        }
    }
}

/// Whether `token` refers to a group.
pub fn is_group_reference(token: &str) -> (b: bool)
    ensures
        b == is_group(token@),
{
    proof {
        reveal_strlit("groups/");
        assert("groups/"@ =~= group_prefix());
    }
    starts_with(token, "groups/")
}

/// Reads one line of a group file.
pub fn parse_line(line: &str) -> (parsed: Line)
    ensures
        parsed@ == entry(line@),
{
    proof {
        reveal_strlit("#");
        assert("#"@.is_prefix_of(line@) <==> is_comment(line@)) by {
            if is_comment(line@) {
                assert("#"@ =~= line@.subrange(0, 1));
            }
            if "#"@.is_prefix_of(line@) {
                assert(line@.subrange(0, 1)[0] == line@[0]);
            }
        }
    }
    if starts_with(line, "#") {
        return Line::Comment;
    }
    let token = trim(line);
    if is_group_reference(token) {
        Line::Group(token.to_owned())
    } else {
        Line::Package(token.to_owned())
    }
}

/// The path of the file that the group reference `token` names.
pub fn locate_group(token: &str) -> (path: String)
    ensures
        path@ == group_path(token@),
{
    proof {
        reveal_strlit("./TREE/");
        assert("./TREE/"@ =~= tree_root());
    }
    let mut path = String::from_str("./TREE/");
    path.append(token);
    path
}

} // verus!
