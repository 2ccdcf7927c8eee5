//! Resolution of a group file, one read at a time.
//!
//! A [`Resolver`] never touches the file system. It names the file it needs
//! next; the caller reads that file and supplies its text, or the reason why
//! it could not be read. This repeats until the resolver is done.

use crate::group::{
    entry, followed_by, group_path, locate_group, parse_line, resolve, resolve_lines, Entry,
    Failure, Line, ResolveError, MAX_DEPTH,
};
use crate::text::{lines, split_lines, texts};
use vstd::prelude::*;

verus! {

/// The unread rest of a group file that is open at nesting `depth`.
pub ghost struct Frame {
    pub rows: Seq<Seq<char>>,
    pub depth: nat,
}

/// The state of a resolution.
pub ghost enum Resolution {
    /// The file at `path`, at nesting `depth`, is to be read next. `frames`
    /// are the files that are open, the innermost last, and `tokens` is what
    /// has been resolved so far.
    Reading { path: Seq<char>, depth: nat, frames: Seq<Frame>, tokens: Seq<Seq<char>> },
    /// The resolution has ended with this result.
    Done(Result<Seq<Seq<char>>, Failure>),
}

/// The state in which the resolution of the file at `path`, at nesting
/// `depth`, starts.
pub open spec fn begin(path: Seq<char>, depth: nat) -> Resolution {
    if depth > 32 {
        Resolution::Done(Err(Failure::DepthExceeded))
    } else {
        Resolution::Reading { path, depth, frames: Seq::empty(), tokens: Seq::empty() }
    }
}

/// `frames` with the first row of the innermost file taken off.
pub open spec fn without_first_row(frames: Seq<Frame>) -> Seq<Frame> {
    frames.drop_last().push(
        Frame { rows: frames.last().rows.drop_first(), depth: frames.last().depth },
    )
}

/// The state reached from the open files `frames` and the resolved `tokens`
/// by working through the rows up to the next group reference, or to the end
/// of the outermost file.
pub open spec fn advance(frames: Seq<Frame>, tokens: Seq<Seq<char>>) -> Resolution
    decreases frames.len(),
        (if frames.len() > 0 {
            frames.last().rows.len()
        } else {
            0
        }),
{
    if frames.len() == 0 {
        Resolution::Done(Ok(tokens))
    } else if frames.last().rows.len() == 0 {
        advance(frames.drop_last(), tokens)
    } else {
        match entry(frames.last().rows.first()) {
            Entry::Comment => advance(without_first_row(frames), tokens),
            Entry::Package(token) => advance(without_first_row(frames), tokens.push(token)),
            Entry::Group(token) => if frames.last().depth >= 32 {
                Resolution::Done(Err(Failure::DepthExceeded))
            } else {
                Resolution::Reading {
                    path: group_path(token),
                    depth: frames.last().depth + 1,
                    frames: without_first_row(frames),
                    tokens,
                }
            },
        }
    }
}

/// The state that follows `state` once the awaited file has been read with
/// the outcome `content`: its text, or the reader's message. A resolution
/// that is done stays as it is.
pub open spec fn supply(state: Resolution, content: Result<Seq<char>, Seq<char>>) -> Resolution {
    match state {
        Resolution::Done(_) => state,
        Resolution::Reading { path, depth, frames, tokens } => match content {
            Err(message) => Resolution::Done(Err(Failure::Io(message))),
            Ok(text) => advance(frames.push(Frame { rows: lines(text), depth }), tokens),
        },
    }
}

/// The characters of a file's text, or of the reader's message.
pub open spec fn content_view(content: Result<String, String>) -> Result<Seq<char>, Seq<char>> {
    match content {
        Ok(text) => Ok(text@),
        Err(message) => Err(message@),
    }
}

/// The characters of a path, if there is one.
pub open spec fn option_text(path: Option<String>) -> Option<Seq<char>> {
    match path {
        Some(p) => Some(p@),
        None => None,
    }
}

/// The characters of a resolution's result.
pub open spec fn result_view(result: Result<Vec<String>, ResolveError>) -> Result<
    Seq<Seq<char>>,
    Failure,
> {
    match result {
        Ok(tokens) => Ok(texts(tokens@)),
        Err(e) => Err(e@),
    }
}

struct OpenFile {
    rows: Vec<String>,
    next: usize,
    depth: usize,
}

impl OpenFile {
    spec fn model(self) -> Frame {
        Frame {
            rows: if self.next <= self.rows@.len() {
                texts(self.rows@).skip(self.next as int)
            } else {
                Seq::empty()
            },
            depth: self.depth as nat,
        }
    }
}

spec fn frames_of(files: Seq<OpenFile>) -> Seq<Frame> {
    files.map_values(|f: OpenFile| f.model())
}

/// A resolution in progress.
pub struct Resolver {
    frames: Vec<OpenFile>,
    tokens: Vec<String>,
    awaited: Option<(String, usize)>,
    failure: Option<ResolveError>,
}

impl View for Resolver {
    type V = Resolution;

    closed spec fn view(&self) -> Resolution {
        match (self.awaited, self.failure) {
            (Some(file), _) => Resolution::Reading {
                path: file.0@,
                depth: file.1 as nat,
                frames: frames_of(self.frames@),
                tokens: texts(self.tokens@),
            },
            (None, Some(e)) => Resolution::Done(Err(e@)),
            (None, None) => Resolution::Done(Ok(texts(self.tokens@))),
        }
    }
}

/// Starts to resolve the group file `filename` at nesting `depth`.
///
/// Deeper than [`MAX_DEPTH`] the resolution has failed before anything is
/// read.
pub fn read_package_list(filename: &str, depth: usize) -> (resolver: Resolver)
    ensures
        resolver@ == begin(filename@, depth as nat),
{
    if depth > MAX_DEPTH {
        Resolver {
            frames: Vec::new(),
            tokens: Vec::new(),
            awaited: None,
            failure: Some(ResolveError::DepthExceeded),
        }
    } else {
        let resolver = Resolver {
            frames: Vec::new(),
            tokens: Vec::new(),
            awaited: Some((filename.to_owned(), depth)),
            failure: None,
        };
        assert(frames_of(resolver.frames@) =~= Seq::empty());
        assert(texts(resolver.tokens@) =~= Seq::empty());
        resolver
    }
}

impl Resolver {
    /// The path of the file to read next, or `None` once the resolution is
    /// done.
    pub fn pending(&self) -> (path: Option<String>)
        ensures
            path is Some <==> self@ is Reading,
            path matches Some(p) ==> p@ == self@->path,
    {
        match &self.awaited {
            Some(file) => Some(file.0.clone()),
            None => None,
        }
    }

    /// Takes the outcome of reading the pending file and moves on to the
    /// next read, or to the end.
    pub fn supply(&mut self, content: Result<String, String>)
        ensures
            final(self)@ == supply(old(self)@, content_view(content)),
    {
        let awaited = self.awaited.take();
        match awaited {
            None => {},
            Some(file) => match content {
                Err(message) => {
                    self.failure = Some(ResolveError::Io(message));
                },
                Ok(text) => {
                    let ghost before = self.frames@;
                    let rows = split_lines(text.as_str());
                    let opened = OpenFile { rows, next: 0, depth: file.1 };
                    assert(opened.model().rows =~= lines(text@));
                    self.frames.push(opened);
                    assert(frames_of(self.frames@) =~= frames_of(before).push(
                        Frame { rows: lines(text@), depth: file.1 as nat },
                    ));
                    self.failure = None;
                    self.advance();
                },
            },
        }
    }

    /// Gives up the result, or `None` while a read is pending.
    pub fn into_result(self) -> (result: Option<Result<Vec<String>, ResolveError>>)
        ensures
            result is Some <==> self@ is Done,
            result matches Some(r) ==> result_view(r) == self@->Done_0,
    {
        if self.awaited.is_some() {
            None
        } else {
            match self.failure {
                Some(e) => Some(Err(e)),
                None => Some(Ok(self.tokens)),
            }
        }
    }

    fn advance(&mut self)
        requires
            old(self).awaited is None,
            old(self).failure is None,
        ensures
            final(self)@ == advance(frames_of(old(self).frames@), texts(old(self).tokens@)),
    {
        let ghost target = advance(frames_of(self.frames@), texts(self.tokens@));
        while self.awaited.is_none() && self.failure.is_none() && self.frames.len() > 0
            invariant
                (self.awaited is None && self.failure is None) ==> advance(
                    frames_of(self.frames@),
                    texts(self.tokens@),
                ) == target,
                !(self.awaited is None && self.failure is None) ==> self@ == target,
            decreases
                    self.frames@.len(),
                    (if self.frames@.len() > 0 {
                        frames_of(self.frames@).last().rows.len()
                    } else {
                        0
                    }),
        {
            let ghost files = self.frames@;
            let ghost frames = frames_of(files);
            let ghost tokens = texts(self.tokens@);
            let mut top = self.frames.pop().unwrap();
            assert(frames_of(self.frames@) =~= frames.drop_last());
            assert(frames.last() == top.model());
            if top.next < top.rows.len() {
                let parsed = parse_line(top.rows[top.next].as_str());
                assert(top.model().rows.first() == top.rows@[top.next as int]@);
                let ghost rows = top.model().rows;
                top.next += 1;
                assert(top.model().rows =~= rows.drop_first());
                let depth: usize = top.depth;
                self.frames.push(top);
                assert(frames_of(self.frames@) =~= without_first_row(frames));
                match parsed {
                    Line::Comment => {},
                    Line::Package(token) => {
                        self.tokens.push(token);
                        assert(texts(self.tokens@) =~= tokens.push(token@));
                    },
                    Line::Group(token) => {
                        if depth >= MAX_DEPTH {
                            self.failure = Some(ResolveError::DepthExceeded);
                        } else {
                            self.awaited = Some((locate_group(token.as_str()), depth + 1));
                        }
                    },
                }
            }
        }
    }
}

/// The state that `state` has come to after at most `fuel` reads, each
/// answered as `files` says.
pub open spec fn run(
    files: spec_fn(Seq<char>) -> Result<Seq<char>, Seq<char>>,
    state: Resolution,
    fuel: nat,
) -> Resolution
    decreases fuel,
{
    match state {
        Resolution::Done(_) => state,
        Resolution::Reading { path, .. } => if fuel == 0 {
            state
        } else {
            run(files, supply(state, files(path)), (fuel - 1) as nat)
        },
    }
}

/// A bound on the number of reads that resolving the file at `path`, at
/// nesting `depth`, takes.
pub open spec fn reads(
    files: spec_fn(Seq<char>) -> Result<Seq<char>, Seq<char>>,
    path: Seq<char>,
    depth: nat,
) -> nat
    decreases 33 - depth, 1int, 0int,
{
    if depth > 32 {
        0
    } else {
        match files(path) {
            Err(_) => 1,
            Ok(text) => 1 + reads_in(files, lines(text), depth),
        }
    }
}

/// A bound on the number of reads that resolving `rows`, lines of a file
/// open at nesting `depth`, takes.
pub open spec fn reads_in(
    files: spec_fn(Seq<char>) -> Result<Seq<char>, Seq<char>>,
    rows: Seq<Seq<char>>,
    depth: nat,
) -> nat
    decreases 33 - depth, 0int, rows.len(),
{
    if rows.len() == 0 {
        0
    } else {
        match entry(rows.first()) {
            Entry::Group(token) => if depth >= 32 {
                reads_in(files, rows.drop_first(), depth)
            } else {
                reads(files, group_path(token), depth + 1) + reads_in(
                    files,
                    rows.drop_first(),
                    depth,
                )
            },
            _ => reads_in(files, rows.drop_first(), depth),
        }
    }
}

/// A bound on the number of reads that the open files `frames` still take.
pub open spec fn reads_left(
    files: spec_fn(Seq<char>) -> Result<Seq<char>, Seq<char>>,
    frames: Seq<Frame>,
) -> nat
    decreases frames.len(),
{
    if frames.len() == 0 {
        0
    } else {
        reads_in(files, frames.last().rows, frames.last().depth) + reads_left(
            files,
            frames.drop_last(),
        )
    }
}

/// What the open files `frames` add to `tokens`: the rest of the innermost
/// file first, then the rest of the file that referred to it, and so on
/// outwards.
pub open spec fn finish(
    files: spec_fn(Seq<char>) -> Result<Seq<char>, Seq<char>>,
    frames: Seq<Frame>,
    tokens: Seq<Seq<char>>,
) -> Result<Seq<Seq<char>>, Failure>
    decreases frames.len(),
{
    if frames.len() == 0 {
        Ok(tokens)
    } else {
        match resolve_lines(files, frames.last().rows, frames.last().depth) {
            Err(e) => Err(e),
            Ok(more) => finish(files, frames.drop_last(), tokens + more),
        }
    }
}

/// The result that `state` leads to when every file reads as `files` says.
pub open spec fn outcome(
    files: spec_fn(Seq<char>) -> Result<Seq<char>, Seq<char>>,
    state: Resolution,
) -> Result<Seq<Seq<char>>, Failure> {
    match state {
        Resolution::Done(result) => result,
        Resolution::Reading { path, depth, frames, tokens } => match resolve(
            files,
            path,
            depth,
        ) {
            Err(e) => Err(e),
            Ok(more) => finish(files, frames, tokens + more),
        },
    }
}

/// A bound on the number of reads that `state` still takes.
pub open spec fn cost(
    files: spec_fn(Seq<char>) -> Result<Seq<char>, Seq<char>>,
    state: Resolution,
) -> nat {
    match state {
        Resolution::Done(_) => 0,
        Resolution::Reading { path, depth, frames, .. } => reads(files, path, depth) + reads_left(
            files,
            frames,
        ),
    }
}

/// No file is awaited deeper than the deepest nesting.
pub open spec fn within_depth(state: Resolution) -> bool {
    state matches Resolution::Reading { depth, .. } ==> depth <= 32
}

/// Working through open files changes neither the result they lead to nor
/// raises the number of reads they take, and awaits nothing too deep.
pub proof fn lemma_advance(
    files: spec_fn(Seq<char>) -> Result<Seq<char>, Seq<char>>,
    frames: Seq<Frame>,
    tokens: Seq<Seq<char>>,
)
    ensures
        outcome(files, advance(frames, tokens)) == finish(files, frames, tokens),
        cost(files, advance(frames, tokens)) <= reads_left(files, frames),
        within_depth(advance(frames, tokens)),
    decreases frames.len(),
        (if frames.len() > 0 {
            frames.last().rows.len()
        } else {
            0
        }),
{
    if frames.len() == 0 {
    } else if frames.last().rows.len() == 0 {
        lemma_advance(files, frames.drop_last(), tokens);
        assert(tokens + Seq::<Seq<char>>::empty() =~= tokens);
    } else {
        let top = frames.last();
        let rest = without_first_row(frames);
        assert(rest.drop_last() =~= frames.drop_last());
        let after = resolve_lines(files, top.rows.drop_first(), top.depth);
        match entry(top.rows.first()) {
            Entry::Comment => {
                lemma_advance(files, rest, tokens);
            },
            Entry::Package(token) => {
                lemma_advance(files, rest, tokens.push(token));
                if let Ok(more) = after {
                    assert(tokens.push(token) + more =~= tokens + (seq![token] + more));
                }
            },
            Entry::Group(token) => {
                if top.depth < 32 {
                    if let Ok(nested) = resolve(files, group_path(token), top.depth + 1) {
                        if let Ok(more) = after {
                            assert((tokens + nested) + more =~= tokens + (nested + more));
                        }
                    }
                }
            },
        }
    }
}

/// Answering the pending read as `files` says keeps the result that the
/// state leads to, and leaves fewer reads to make.
pub proof fn lemma_supply(
    files: spec_fn(Seq<char>) -> Result<Seq<char>, Seq<char>>,
    state: Resolution,
)
    requires
        state is Reading,
        within_depth(state),
    ensures
        outcome(files, supply(state, files(state->path))) == outcome(files, state),
        cost(files, supply(state, files(state->path))) < cost(files, state),
        within_depth(supply(state, files(state->path))),
{
    let frames = state->frames;
    let tokens = state->tokens;
    if let Ok(text) = files(state->path) {
        let opened = frames.push(Frame { rows: lines(text), depth: state->depth });
        lemma_advance(files, opened, tokens);
        assert(opened.drop_last() =~= frames);
    }
}

/// With enough reads answered as `files` says, a resolution is done, and
/// its result is the one that its state led to.
pub proof fn lemma_run(
    files: spec_fn(Seq<char>) -> Result<Seq<char>, Seq<char>>,
    state: Resolution,
    fuel: nat,
)
    requires
        within_depth(state),
        fuel >= cost(files, state),
    ensures
        run(files, state, fuel) == Resolution::Done(outcome(files, state)),
    decreases fuel,
{
    if state is Reading {
        lemma_supply(files, state);
        lemma_run(files, supply(state, files(state->path)), (fuel - 1) as nat);
    }
}

/// Resolution terminates, and yields the tokens in file order with nested
/// groups expanded in place: started on any file at any nesting and
/// answered as `files` says, the resolver is done after at most
/// `reads(files, path, depth)` reads, with the result
/// `resolve(files, path, depth)`.
pub proof fn lemma_resolution_completes(
    files: spec_fn(Seq<char>) -> Result<Seq<char>, Seq<char>>,
    path: Seq<char>,
    depth: nat,
    fuel: nat,
)
    requires
        fuel >= reads(files, path, depth),
    ensures
        run(files, begin(path, depth), fuel) == Resolution::Done(resolve(files, path, depth)),
{
    lemma_run(files, begin(path, depth), fuel);
    if let Ok(more) = resolve(files, path, depth) {
        assert(Seq::<Seq<char>>::empty() + more =~= more);
    }
}

/// File order: the rows `first + second` resolve to what `first` resolves
/// to followed by what `second` resolves to, and fail with the first
/// failure among them.
pub proof fn lemma_resolve_in_order(
    files: spec_fn(Seq<char>) -> Result<Seq<char>, Seq<char>>,
    first: Seq<Seq<char>>,
    second: Seq<Seq<char>>,
    depth: nat,
)
    ensures
        resolve_lines(files, first + second, depth) == match resolve_lines(files, first, depth) {
            Err(e) => Err(e),
            Ok(tokens) => followed_by(tokens, resolve_lines(files, second, depth)),
        },
    decreases first.len(),
{
    if first.len() == 0 {
        assert(first + second =~= second);
        if let Ok(more) = resolve_lines(files, second, depth) {
            assert(Seq::<Seq<char>>::empty() + more =~= more);
        }
    } else {
        let rows = first + second;
        assert(rows.first() == first.first());
        assert(rows.drop_first() =~= first.drop_first() + second);
        lemma_resolve_in_order(files, first.drop_first(), second, depth);
        let head: Seq<Seq<char>> = match entry(first.first()) {
            Entry::Comment => Seq::empty(),
            Entry::Package(token) => seq![token],
            Entry::Group(token) => match resolve(files, group_path(token), depth + 1) {
                Ok(nested) => nested,
                Err(_) => Seq::empty(),
            },
        };
        if let Ok(middle) = resolve_lines(files, first.drop_first(), depth) {
            if let Ok(tail) = resolve_lines(files, second, depth) {
                assert(head + (middle + tail) =~= (head + middle) + tail);
            }
        }
    }
}

/// Deeper than the deepest nesting a resolution fails whatever the files
/// hold, and before anything is read.
pub proof fn lemma_too_deep_fails(
    files: spec_fn(Seq<char>) -> Result<Seq<char>, Seq<char>>,
    path: Seq<char>,
    depth: nat,
)
    requires
        depth > 32,
    ensures
        resolve(files, path, depth) == Err::<Seq<Seq<char>>, Failure>(Failure::DepthExceeded),
        begin(path, depth) == Resolution::Done(Err(Failure::DepthExceeded)),
{
}

/// Whether no row of `rows` is a group reference.
pub open spec fn plain(rows: Seq<Seq<char>>) -> bool {
    forall|i: int| 0 <= i < rows.len() ==> !(#[trigger] entry(rows[i]) is Group)
}

/// Rows without a group reference resolve, whatever the files hold.
pub proof fn lemma_plain_rows_resolve(
    files: spec_fn(Seq<char>) -> Result<Seq<char>, Seq<char>>,
    rows: Seq<Seq<char>>,
    depth: nat,
)
    requires
        plain(rows),
    ensures
        resolve_lines(files, rows, depth) is Ok,
    decreases rows.len(),
{
    if rows.len() > 0 {
        assert(!(entry(rows[0]) is Group));
        assert forall|i: int| 0 <= i < rows.drop_first().len() implies !(#[trigger] entry(
            rows.drop_first()[i],
        ) is Group) by {
            assert(rows.drop_first()[i] == rows[i + 1]);
        }
        lemma_plain_rows_resolve(files, rows.drop_first(), depth);
    }
}

/// A group that refers to itself is not found out at once: it is read
/// again and again, and fails only where the nesting goes beyond the
/// deepest. Where the first reference in the file at `path` names that
/// file, its resolution fails with the depth exceeded, from any nesting.
pub proof fn lemma_self_reference_fails(
    files: spec_fn(Seq<char>) -> Result<Seq<char>, Seq<char>>,
    path: Seq<char>,
    before: Seq<Seq<char>>,
    row: Seq<char>,
    after: Seq<Seq<char>>,
    depth: nat,
)
    requires
        files(path) is Ok,
        lines(files(path)->Ok_0) == before + seq![row] + after,
        plain(before),
        entry(row) is Group,
        group_path(entry(row)->Group_0) == path,
    ensures
        resolve(files, path, depth) == Err::<Seq<Seq<char>>, Failure>(Failure::DepthExceeded),
    decreases 33 - depth,
{
    if depth <= 32 {
        let rest = seq![row] + after;
        assert(before + seq![row] + after =~= before + rest);
        lemma_resolve_in_order(files, before, rest, depth);
        lemma_plain_rows_resolve(files, before, depth);
        assert(rest.first() == row);
        if depth < 32 {
            lemma_self_reference_fails(files, path, before, row, after, depth + 1);
        }
    }
}

} // verus!
