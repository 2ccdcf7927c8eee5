//! Flattening of a package list: names stay, group references give way to
//! what their files resolve to.

use crate::group::{group_path, is_group, is_group_reference, locate_group, resolve};
use crate::notice::{reports, Notice, Report};
use crate::resolver::{
    begin, content_view, lemma_supply, outcome, read_package_list, reads, within_depth, Resolution,
    Resolver,
};
use crate::text::texts;
use vstd::prelude::*;

verus! {

/// A flattened package list, and what was noted on the way.
pub ghost struct Expanded {
    pub packages: Seq<Seq<char>>,
    pub notes: Seq<Report>,
}

/// What the list `tokens` expands to when every file reads as `files` says.
///
/// A token that is no group reference stays. A group reference is resolved
/// from nesting 0 and replaced by the result, which is noted with its
/// length; where that fails, the failure is noted and the reference is
/// dropped. Nothing is removed for occurring twice.
pub open spec fn expand(
    files: spec_fn(Seq<char>) -> Result<Seq<char>, Seq<char>>,
    tokens: Seq<Seq<char>>,
) -> Expanded
    decreases tokens.len(),
{
    if tokens.len() == 0 {
        Expanded { packages: Seq::empty(), notes: Seq::empty() }
    } else {
        let token = tokens.first();
        let rest = expand(files, tokens.drop_first());
        if !is_group(token) {
            Expanded { packages: seq![token] + rest.packages, notes: rest.notes }
        } else {
            match resolve(files, group_path(token), 0) {
                Ok(list) => Expanded {
                    packages: list + rest.packages,
                    notes: seq![Report::GroupResolved { group: token, count: list.len() }]
                        + rest.notes,
                },
                Err(failure) => Expanded {
                    packages: rest.packages,
                    notes: seq![Report::GroupFailed { group: token, failure }] + rest.notes,
                },
            }
        }
    }
}

/// The state of an expansion.
pub ghost enum Expansion {
    /// The reference `group` is being resolved; `rest` are the tokens that
    /// follow it.
    Resolving {
        group: Seq<char>,
        resolution: Resolution,
        rest: Seq<Seq<char>>,
        packages: Seq<Seq<char>>,
        notes: Seq<Report>,
    },
    /// Every token has been dealt with.
    Done { packages: Seq<Seq<char>>, notes: Seq<Report> },
}

/// The state reached from the tokens `todo` that are left, by taking names
/// over up to the next group reference.
pub open spec fn scan(
    todo: Seq<Seq<char>>,
    packages: Seq<Seq<char>>,
    notes: Seq<Report>,
) -> Expansion
    decreases todo.len(),
{
    if todo.len() == 0 {
        Expansion::Done { packages, notes }
    } else if is_group(todo.first()) {
        Expansion::Resolving {
            group: todo.first(),
            resolution: begin(group_path(todo.first()), 0),
            rest: todo.drop_first(),
            packages,
            notes,
        }
    } else {
        scan(todo.drop_first(), packages.push(todo.first()), notes)
    }
}

/// The state in which the expansion of `tokens` starts.
pub open spec fn start(tokens: Seq<Seq<char>>) -> Expansion {
    scan(tokens, Seq::empty(), Seq::empty())
}

/// The state that follows the resolution of `group` having come to
/// `resolution`.
pub open spec fn settle(
    group: Seq<char>,
    resolution: Resolution,
    rest: Seq<Seq<char>>,
    packages: Seq<Seq<char>>,
    notes: Seq<Report>,
) -> Expansion {
    match resolution {
        Resolution::Reading { .. } => Expansion::Resolving {
            group,
            resolution,
            rest,
            packages,
            notes,
        },
        Resolution::Done(Ok(list)) => scan(
            rest,
            packages + list,
            notes.push(Report::GroupResolved { group, count: list.len() }),
        ),
        Resolution::Done(Err(failure)) => scan(
            rest,
            packages,
            notes.push(Report::GroupFailed { group, failure }),
        ),
    }
}

/// The state that follows `state` once the awaited file has been read with
/// the outcome `content`. An expansion that is done stays as it is.
pub open spec fn supply(state: Expansion, content: Result<Seq<char>, Seq<char>>) -> Expansion {
    match state {
        Expansion::Done { .. } => state,
        Expansion::Resolving { group, resolution, rest, packages, notes } => settle(
            group,
            crate::resolver::supply(resolution, content),
            rest,
            packages,
            notes,
        ),
    }
}

/// The file that `state` waits for, if any.
pub open spec fn awaited(state: Expansion) -> Option<Seq<char>> {
    match state {
        Expansion::Resolving { resolution: Resolution::Reading { path, .. }, .. } => Some(path),
        _ => None,
    }
}

/// An expansion in progress.
pub struct Expander {
    todo: Vec<String>,
    next: usize,
    packages: Vec<String>,
    notices: Vec<Notice>,
    active: Option<(String, Resolver)>,
}

impl View for Expander {
    type V = Expansion;

    closed spec fn view(&self) -> Expansion {
        match self.active {
            Some(active) => Expansion::Resolving {
                group: active.0@,
                resolution: active.1@,
                rest: self.rest(),
                packages: texts(self.packages@),
                notes: reports(self.notices@),
            },
            None => Expansion::Done {
                packages: texts(self.packages@),
                notes: reports(self.notices@),
            },
        }
    }
}

/// Starts to expand `packages`.
pub fn expand_package_list(packages: Vec<String>) -> (expander: Expander)
    ensures
        expander@ == start(texts(packages@)),
{
    let mut expander = Expander {
        todo: packages,
        next: 0,
        packages: Vec::new(),
        notices: Vec::new(),
        active: None,
    };
    assert(texts(expander.packages@) =~= Seq::empty());
    assert(reports(expander.notices@) =~= Seq::empty());
    assert(expander.rest() =~= texts(packages@));
    expander.scan();
    expander
}

impl Expander {
    spec fn rest(&self) -> Seq<Seq<char>> {
        if self.next <= self.todo@.len() {
            texts(self.todo@).skip(self.next as int)
        } else {
            Seq::empty()
        }
    }

    /// The path of the file to read next, or `None` once the expansion is
    /// done.
    pub fn pending(&self) -> (path: Option<String>)
        ensures
            crate::resolver::option_text(path) == awaited(self@),
    {
        match &self.active {
            Some(active) => active.1.pending(),
            None => None,
        }
    }

    /// Whether every token has been dealt with.
    pub fn is_done(&self) -> (done: bool)
        ensures
            done == (self@ is Done),
    {
        self.active.is_none()
    }

    /// Takes the outcome of reading the pending file and moves on to the
    /// next read, or to the end.
    pub fn supply(&mut self, content: Result<String, String>)
        ensures
            final(self)@ == supply(old(self)@, content_view(content)),
    {
        let active = self.active.take();
        match active {
            None => {},
            Some(pair) => {
                let (group, mut resolver) = pair;
                resolver.supply(content);
                let ghost resolution = resolver@;
                let ghost packages = texts(self.packages@);
                let ghost notes = reports(self.notices@);
                if resolver.pending().is_some() {
                    self.active = Some((group, resolver));
                } else {
                    match resolver.into_result() {
                        Some(Ok(mut list)) => {
                            let count: usize = list.len();
                            self.packages.append(&mut list);
                            self.notices.push(Notice::GroupResolved { group, count });
                            assert(texts(self.packages@) =~= packages + resolution->Done_0->Ok_0);
                            assert(reports(self.notices@) =~= notes.push(
                                Report::GroupResolved { group: group@, count: count as nat },
                            ));
                            self.scan();
                        },
                        Some(Err(error)) => {
                            self.notices.push(Notice::GroupFailed { group, error });
                            assert(reports(self.notices@) =~= notes.push(
                                Report::GroupFailed { group: group@, failure: error@ },
                            ));
                            self.scan();
                        },
                        None => {},
                    }
                }
            },
        }
    }

    /// Gives up the flattened list and the notices, in this order, or `None`
    /// while a read is pending.
    pub fn into_parts(self) -> (parts: Option<(Vec<String>, Vec<Notice>)>)
        ensures
            parts is Some <==> self@ is Done,
            parts matches Some(p) ==> texts(p.0@) == self@->Done_packages && reports(p.1@)
                == self@->Done_notes,
    {
        if self.active.is_some() {
            None
        } else {
            Some((self.packages, self.notices))
        }
    }

    fn scan(&mut self)
        requires
            old(self).active is None,
        ensures
            final(self)@ == scan(
                old(self).rest(),
                texts(old(self).packages@),
                reports(old(self).notices@),
            ),
    {
        let ghost target = scan(self.rest(), texts(self.packages@), reports(self.notices@));
        while self.active.is_none() && self.next < self.todo.len()
            invariant
                self.notices == old(self).notices,
                self.active is None ==> scan(
                    self.rest(),
                    texts(self.packages@),
                    reports(self.notices@),
                ) == target,
                self.active is Some ==> self@ == target,
            decreases self.todo.len() - self.next,
        {
            let ghost rest = self.rest();
            let ghost packages = texts(self.packages@);
            let token = self.todo[self.next].clone();
            assert(rest.first() == token@);
            self.next += 1;
            assert(self.rest() =~= rest.drop_first());
            if is_group_reference(token.as_str()) {
                let path = locate_group(token.as_str());
                let resolver = read_package_list(path.as_str(), 0);
                self.active = Some((token, resolver));
            } else {
                self.packages.push(token);
                assert(texts(self.packages@) =~= packages.push(token@));
            }
        }
    }
}

/// The state that `state` has come to after at most `fuel` reads, each
/// answered as `files` says.
pub open spec fn run(
    files: spec_fn(Seq<char>) -> Result<Seq<char>, Seq<char>>,
    state: Expansion,
    fuel: nat,
) -> Expansion
    decreases fuel,
{
    match awaited(state) {
        None => state,
        Some(path) => if fuel == 0 {
            state
        } else {
            run(files, supply(state, files(path)), (fuel - 1) as nat)
        },
    }
}

/// A bound on the number of reads that expanding `tokens` takes.
pub open spec fn expansion_reads(
    files: spec_fn(Seq<char>) -> Result<Seq<char>, Seq<char>>,
    tokens: Seq<Seq<char>>,
) -> nat
    decreases tokens.len(),
{
    if tokens.len() == 0 {
        0
    } else if is_group(tokens.first()) {
        reads(files, group_path(tokens.first()), 0) + expansion_reads(files, tokens.drop_first())
    } else {
        expansion_reads(files, tokens.drop_first())
    }
}

/// `packages` and `notes`, each followed by its part of `more`.
pub open spec fn joined(packages: Seq<Seq<char>>, notes: Seq<Report>, more: Expanded) -> Expanded {
    Expanded { packages: packages + more.packages, notes: notes + more.notes }
}

/// What `state` leads to when every file reads as `files` says.
pub open spec fn expansion_outcome(
    files: spec_fn(Seq<char>) -> Result<Seq<char>, Seq<char>>,
    state: Expansion,
) -> Expanded {
    match state {
        Expansion::Done { packages, notes } => Expanded { packages, notes },
        Expansion::Resolving { group, resolution, rest, packages, notes } => match outcome(
            files,
            resolution,
        ) {
            Ok(list) => joined(
                packages + list,
                notes.push(Report::GroupResolved { group, count: list.len() }),
                expand(files, rest),
            ),
            Err(failure) => joined(
                packages,
                notes.push(Report::GroupFailed { group, failure }),
                expand(files, rest),
            ),
        },
    }
}

/// A bound on the number of reads that `state` still takes.
pub open spec fn expansion_cost(
    files: spec_fn(Seq<char>) -> Result<Seq<char>, Seq<char>>,
    state: Expansion,
) -> nat {
    match state {
        Expansion::Done { .. } => 0,
        Expansion::Resolving { resolution, rest, .. } => crate::resolver::cost(files, resolution)
            + expansion_reads(files, rest),
    }
}

/// While a group is being resolved, a file is awaited, and none too deep.
pub open spec fn in_order(state: Expansion) -> bool {
    state matches Expansion::Resolving { resolution, .. } ==> resolution is Reading
        && within_depth(resolution)
}

/// Taking names over changes nothing in what the expansion leads to.
pub proof fn lemma_scan(
    files: spec_fn(Seq<char>) -> Result<Seq<char>, Seq<char>>,
    todo: Seq<Seq<char>>,
    packages: Seq<Seq<char>>,
    notes: Seq<Report>,
)
    ensures
        expansion_outcome(files, scan(todo, packages, notes)) == joined(
            packages,
            notes,
            expand(files, todo),
        ),
        expansion_cost(files, scan(todo, packages, notes)) == expansion_reads(files, todo),
        in_order(scan(todo, packages, notes)),
    decreases todo.len(),
{
    let all = expand(files, todo);
    if todo.len() == 0 {
        assert(packages + all.packages =~= packages);
        assert(notes + all.notes =~= notes);
    } else {
        let token = todo.first();
        let rest = expand(files, todo.drop_first());
        if is_group(token) {
            match resolve(files, group_path(token), 0) {
                Ok(list) => {
                    assert(Seq::<Seq<char>>::empty() + list =~= list);
                    assert((packages + list) + rest.packages =~= packages + all.packages);
                    assert(notes.push(Report::GroupResolved { group: token, count: list.len() })
                        + rest.notes =~= notes + all.notes);
                },
                Err(failure) => {
                    assert(notes.push(Report::GroupFailed { group: token, failure }) + rest.notes
                        =~= notes + all.notes);
                },
            }
        } else {
            lemma_scan(files, todo.drop_first(), packages.push(token), notes);
            assert(packages.push(token) + rest.packages =~= packages + all.packages);
        }
    }
}

/// Answering the pending read as `files` says keeps what the expansion
/// leads to, and leaves fewer reads to make.
pub proof fn lemma_expansion_supply(
    files: spec_fn(Seq<char>) -> Result<Seq<char>, Seq<char>>,
    state: Expansion,
)
    requires
        state is Resolving,
        in_order(state),
    ensures
        awaited(state) is Some,
        expansion_outcome(files, supply(state, files(awaited(state)->0))) == expansion_outcome(
            files,
            state,
        ),
        expansion_cost(files, supply(state, files(awaited(state)->0))) < expansion_cost(
            files,
            state,
        ),
        in_order(supply(state, files(awaited(state)->0))),
{
    let resolution = state->resolution;
    lemma_supply(files, resolution);
    let next = crate::resolver::supply(resolution, files(resolution->path));
    match next {
        Resolution::Reading { .. } => {},
        Resolution::Done(Ok(list)) => {
            lemma_scan(
                files,
                state->rest,
                state->Resolving_packages + list,
                state->Resolving_notes.push(
                    Report::GroupResolved { group: state->group, count: list.len() },
                ),
            );
        },
        Resolution::Done(Err(failure)) => {
            lemma_scan(
                files,
                state->rest,
                state->Resolving_packages,
                state->Resolving_notes.push(Report::GroupFailed { group: state->group, failure }),
            );
        },
    }
}

/// With enough reads answered as `files` says, an expansion is done, with
/// what its state led to.
pub proof fn lemma_expansion_run(
    files: spec_fn(Seq<char>) -> Result<Seq<char>, Seq<char>>,
    state: Expansion,
    fuel: nat,
)
    requires
        in_order(state),
        fuel >= expansion_cost(files, state),
    ensures
        run(files, state, fuel) == (Expansion::Done {
            packages: expansion_outcome(files, state).packages,
            notes: expansion_outcome(files, state).notes,
        }),
    decreases fuel,
{
    if state is Resolving {
        lemma_expansion_supply(files, state);
        lemma_expansion_run(files, supply(state, files(awaited(state)->0)), (fuel - 1) as nat);
    }
}

/// An expansion terminates, and yields the flattened list in the order of
/// its tokens: started on `tokens` and answered as `files` says, the
/// expander is done after at most `expansion_reads(files, tokens)` reads,
/// with the packages and notes of `expand(files, tokens)`.
pub proof fn lemma_expansion_completes(
    files: spec_fn(Seq<char>) -> Result<Seq<char>, Seq<char>>,
    tokens: Seq<Seq<char>>,
    fuel: nat,
)
    requires
        fuel >= expansion_reads(files, tokens),
    ensures
        run(files, start(tokens), fuel) == (Expansion::Done {
            packages: expand(files, tokens).packages,
            notes: expand(files, tokens).notes,
        }),
{
    let all = expand(files, tokens);
    lemma_scan(files, tokens, Seq::empty(), Seq::empty());
    lemma_expansion_run(files, start(tokens), fuel);
    assert(Seq::<Seq<char>>::empty() + all.packages =~= all.packages);
    assert(Seq::<Report>::empty() + all.notes =~= all.notes);
}

/// Order is kept: a list expands to what its front expands to followed by
/// what its back expands to, in packages and in notes.
pub proof fn lemma_expand_in_order(
    files: spec_fn(Seq<char>) -> Result<Seq<char>, Seq<char>>,
    front: Seq<Seq<char>>,
    back: Seq<Seq<char>>,
)
    ensures
        expand(files, front + back) == joined(
            expand(files, front).packages,
            expand(files, front).notes,
            expand(files, back),
        ),
    decreases front.len(),
{
    let all = expand(files, front + back);
    let tail = expand(files, back);
    if front.len() == 0 {
        assert(front + back =~= back);
        assert(Seq::<Seq<char>>::empty() + tail.packages =~= tail.packages);
        assert(Seq::<Report>::empty() + tail.notes =~= tail.notes);
    } else {
        let token = front.first();
        assert((front + back).first() == token);
        assert((front + back).drop_first() =~= front.drop_first() + back);
        lemma_expand_in_order(files, front.drop_first(), back);
        let head = expand(files, front);
        let middle = expand(files, front.drop_first());
        let own_packages: Seq<Seq<char>> = if !is_group(token) {
            seq![token]
        } else {
            match resolve(files, group_path(token), 0) {
                Ok(list) => list,
                Err(_) => Seq::empty(),
            }
        };
        let own_notes: Seq<Report> = if !is_group(token) {
            Seq::empty()
        } else {
            match resolve(files, group_path(token), 0) {
                Ok(list) => seq![Report::GroupResolved { group: token, count: list.len() }],
                Err(failure) => seq![Report::GroupFailed { group: token, failure }],
            }
        };
        assert(head.packages =~= own_packages + middle.packages);
        assert(head.notes =~= own_notes + middle.notes);
        assert(all.packages =~= own_packages + (middle.packages + tail.packages));
        assert(all.notes =~= own_notes + (middle.notes + tail.notes));
        assert(all.packages =~= head.packages + tail.packages);
        assert(all.notes =~= head.notes + tail.notes);
    }
}

/// A group that resolves is expanded in place: its tokens stand between
/// what the tokens before it and the tokens after it expand to. Each
/// occurrence of a reference brings its tokens again.
pub proof fn lemma_group_expands_in_place(
    files: spec_fn(Seq<char>) -> Result<Seq<char>, Seq<char>>,
    before: Seq<Seq<char>>,
    group: Seq<char>,
    after: Seq<Seq<char>>,
)
    requires
        is_group(group),
        resolve(files, group_path(group), 0) is Ok,
    ensures
        expand(files, before + seq![group] + after).packages == expand(files, before).packages
            + resolve(files, group_path(group), 0)->Ok_0 + expand(files, after).packages,
        expand(files, before + seq![group] + after).notes == expand(files, before).notes + seq![
            Report::GroupResolved {
                group,
                count: resolve(files, group_path(group), 0)->Ok_0.len(),
            },
        ] + expand(files, after).notes,
{
    lemma_expand_in_order(files, before + seq![group], after);
    lemma_expand_in_order(files, before, seq![group]);
    lemma_expand_single(files, group);
}

/// A group that fails to resolve takes nothing else with it: the list
/// expands to what the tokens before it and the tokens after it expand to,
/// and the failure is noted between their notes.
pub proof fn lemma_failed_group_is_dropped(
    files: spec_fn(Seq<char>) -> Result<Seq<char>, Seq<char>>,
    before: Seq<Seq<char>>,
    group: Seq<char>,
    after: Seq<Seq<char>>,
)
    requires
        is_group(group),
        resolve(files, group_path(group), 0) is Err,
    ensures
        expand(files, before + seq![group] + after).packages == expand(files, before).packages
            + expand(files, after).packages,
        expand(files, before + seq![group] + after).notes == expand(files, before).notes + seq![
            Report::GroupFailed { group, failure: resolve(files, group_path(group), 0)->Err_0 },
        ] + expand(files, after).notes,
{
    lemma_expand_in_order(files, before + seq![group], after);
    lemma_expand_in_order(files, before, seq![group]);
    lemma_expand_single(files, group);
    assert(expand(files, before).packages + Seq::<Seq<char>>::empty() =~= expand(
        files,
        before,
    ).packages);
}

/// What a list of one token expands to.
pub proof fn lemma_expand_single(
    files: spec_fn(Seq<char>) -> Result<Seq<char>, Seq<char>>,
    token: Seq<char>,
)
    ensures
        expand(files, seq![token]) == if !is_group(token) {
            Expanded { packages: seq![token], notes: Seq::empty() }
        } else {
            match resolve(files, group_path(token), 0) {
                Ok(list) => Expanded {
                    packages: list,
                    notes: seq![Report::GroupResolved { group: token, count: list.len() }],
                },
                Err(failure) => Expanded {
                    packages: Seq::empty(),
                    notes: seq![Report::GroupFailed { group: token, failure }],
                },
            }
        },
{
    let tokens = seq![token];
    assert(tokens.drop_first() =~= Seq::<Seq<char>>::empty());
    let rest = expand(files, tokens.drop_first());
    let all = expand(files, tokens);
    assert(rest.packages =~= Seq::<Seq<char>>::empty());
    assert(rest.notes =~= Seq::<Report>::empty());
    if !is_group(token) {
        assert(all.packages =~= seq![token]);
        assert(all.notes =~= Seq::<Report>::empty());
    } else {
        match resolve(files, group_path(token), 0) {
            Ok(list) => {
                assert(all.packages =~= list);
                assert(all.notes =~= seq![
                    Report::GroupResolved { group: token, count: list.len() },
                ]);
            },
            Err(failure) => {
                assert(all.packages =~= Seq::<Seq<char>>::empty());
                assert(all.notes =~= seq![Report::GroupFailed { group: token, failure }]);
            },
        }
    }
}

/// An expansion that is not done waits for a file, wherever it has come
/// from.
pub proof fn lemma_scan_waits(todo: Seq<Seq<char>>, packages: Seq<Seq<char>>, notes: Seq<Report>)
    ensures
        scan(todo, packages, notes) is Done || awaited(scan(todo, packages, notes)) is Some,
    decreases todo.len(),
{
    if todo.len() > 0 && !is_group(todo.first()) {
        lemma_scan_waits(todo.drop_first(), packages.push(todo.first()), notes);
    }
}

/// After a file has been supplied, an expansion is done or waits for the
/// next file.
pub proof fn lemma_supply_waits(state: Expansion, content: Result<Seq<char>, Seq<char>>)
    ensures
        supply(state, content) is Done || awaited(supply(state, content)) is Some,
{
    if let Expansion::Resolving { group, resolution, rest, packages, notes } = state {
        match crate::resolver::supply(resolution, content) {
            Resolution::Reading { .. } => {},
            Resolution::Done(Ok(list)) => {
                lemma_scan_waits(
                    rest,
                    packages + list,
                    notes.push(Report::GroupResolved { group, count: list.len() }),
                );
            },
            Resolution::Done(Err(failure)) => {
                lemma_scan_waits(
                    rest,
                    packages,
                    notes.push(Report::GroupFailed { group, failure }),
                );
            },
        }
    }
}

} // verus!
