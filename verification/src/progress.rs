//! The course of one application through a run: what is decided at each
//! step, and what is to be done next. The caller does the outside work
//! (fetching, printing, writing, staging, committing) and reports how it
//! went.

use crate::backends::helm::Helm;
use crate::error::ErrorKind;
use crate::frontend::Application;
use crate::text::{closed_with, same_text, trim_leading, without_leading};
use vstd::prelude::*;
use vstd::string::StrSliceExecFns;
use vstd::string::StringExecFns;

verus! {

/// What the user asked for.
#[derive(Clone, Copy, PartialEq, Eq, Debug, Structural)]
pub struct Options {
    /// Rewrite the record where an application is outdated.
    pub update: bool,
    /// Commit each rewrite.
    pub commit: bool,
}

/// Where an application stands in its run.
#[derive(Clone, Copy, PartialEq, Eq, Debug, Structural)]
pub enum Stage {
    /// Nothing was done yet; the configuration is being validated.
    Pending,
    /// The index is being fetched.
    Fetching,
    /// The index is in hand; the latest version is being resolved and
    /// compared with the declared one.
    Resolved,
    /// The declared version is the latest. The run of this application ends
    /// here.
    UpToDate,
    /// The declared version is not the latest; the application is being
    /// reported as outdated. Without an update, its run ends here.
    Outdated,
    /// The record is being rewritten.
    Updating,
    /// The record was rewritten. With a commit, the rewritten file is being
    /// staged; without one, the run of this application ends here.
    Updated,
    /// The staged change is being committed.
    Committing,
    /// The change was committed.
    Done,
    /// A step failed; the whole run ends.
    Failed,
}

/// How the step that was asked for went.
#[derive(Clone, Copy, PartialEq, Eq, Debug, Structural)]
pub enum Event {
    /// It succeeded.
    Succeeded,
    /// The latest version was resolved and is the declared one.
    FoundSame,
    /// The latest version was resolved and differs from the declared one.
    FoundDifferent,
    /// It failed.
    Failed(ErrorKind),
}

/// What the caller is to do next.
#[derive(Clone, Copy, PartialEq, Eq, Debug, Structural)]
pub enum Action {
    /// Fetch the index of the repository.
    Fetch,
    /// Resolve the latest version from the index and compare it with the
    /// declared one.
    Compare,
    /// Report the application as up to date.
    ReportUpToDate,
    /// Report the application as outdated.
    ReportOutdated,
    /// Rewrite the record.
    Update,
    /// Stage the rewritten record for the commit.
    Stage,
    /// Commit what was staged.
    Commit,
    /// Go on to the next application.
    Finish,
    /// End the run with this failure.
    Abort(ErrorKind),
    /// Nothing: the event does not belong to this stage.
    Nothing,
}

impl Stage {
    /// Whether outside work is awaited at this stage. An outdated
    /// application goes on only where an update was asked for, and an updated
    /// one only where a commit was asked for.
    pub open spec fn awaits(self, options: Options) -> bool {
        match self {
            Stage::Pending | Stage::Fetching | Stage::Resolved | Stage::Updating
            | Stage::Committing => true,
            Stage::Outdated => options.update,
            Stage::Updated => options.commit,
            Stage::UpToDate | Stage::Done | Stage::Failed => false,
        }
    }
}

impl Action {
    /// Whether this action changes the record or the history.
    pub open spec fn changes_anything(self) -> bool {
        self == Action::Update || self == Action::Stage || self == Action::Commit
    }
}

/// Whether the progression of an application leads from `from` straight to
/// `to`.
pub open spec fn follows(from: Stage, to: Stage) -> bool {
    match (from, to) {
        (Stage::Pending, Stage::Fetching) => true,
        (Stage::Fetching, Stage::Resolved) => true,
        (Stage::Resolved, Stage::UpToDate) => true,
        (Stage::Resolved, Stage::Outdated) => true,
        (Stage::Outdated, Stage::Updating) => true,
        (Stage::Updating, Stage::Updated) => true,
        (Stage::Updated, Stage::Committing) => true,
        (Stage::Committing, Stage::Done) => true,
        _ => false,
    }
}

/// The stage that follows `stage` on `event`, and what is to be done there.
///
/// Validation comes before the fetch, the fetch before the comparison. An
/// application that is up to date ends there; one that is outdated is
/// reported, then rewritten only where an update was asked for; the rewrite
/// is staged and committed only where a commit was asked for. The first
/// failure ends the run.
pub open spec fn next(stage: Stage, event: Event, options: Options) -> (Stage, Action) {
    match (stage, event) {
        (Stage::Pending, Event::Succeeded) => (Stage::Fetching, Action::Fetch),
        (Stage::Fetching, Event::Succeeded) => (Stage::Resolved, Action::Compare),
        (Stage::Resolved, Event::FoundSame) => (Stage::UpToDate, Action::ReportUpToDate),
        (Stage::Resolved, Event::FoundDifferent) => (Stage::Outdated, Action::ReportOutdated),
        (Stage::Outdated, Event::Succeeded) => if options.update {
            (Stage::Updating, Action::Update)
        } else {
            (stage, Action::Nothing)
        },
        (Stage::Updating, Event::Succeeded) => if options.commit {
            (Stage::Updated, Action::Stage)
        } else {
            (Stage::Updated, Action::Finish)
        },
        (Stage::Updated, Event::Succeeded) => if options.commit {
            (Stage::Committing, Action::Commit)
        } else {
            (stage, Action::Nothing)
        },
        (Stage::Committing, Event::Succeeded) => (Stage::Done, Action::Finish),
        (_, Event::Failed(kind)) => if stage.awaits(options) {
            (Stage::Failed, Action::Abort(kind))
        } else {
            (stage, Action::Nothing)
        },
        _ => (stage, Action::Nothing),
    }
}

/// Takes one step: the stage that follows `stage` on `event`, and what the
/// caller is to do next.
pub fn step(stage: Stage, event: Event, options: Options) -> (r: (Stage, Action))
    ensures
        r == next(stage, event, options),
{
    match event {
        Event::Failed(kind) => {
            let awaited = match stage {
                Stage::Pending | Stage::Fetching | Stage::Resolved | Stage::Updating
                | Stage::Committing => true,
                Stage::Outdated => options.update,
                Stage::Updated => options.commit,
                Stage::UpToDate | Stage::Done | Stage::Failed => false,
            };
            if awaited {
                (Stage::Failed, Action::Abort(kind))
            } else {
                (stage, Action::Nothing)
            }
        },
        Event::Succeeded => {
            match stage {
                Stage::Pending => (Stage::Fetching, Action::Fetch),
                Stage::Fetching => (Stage::Resolved, Action::Compare),
                Stage::Outdated => if options.update {
                    (Stage::Updating, Action::Update)
                } else {
                    (stage, Action::Nothing)
                },
                Stage::Updating => if options.commit {
                    (Stage::Updated, Action::Stage)
                } else {
                    (Stage::Updated, Action::Finish)
                },
                Stage::Updated => if options.commit {
                    (Stage::Committing, Action::Commit)
                } else {
                    (stage, Action::Nothing)
                },
                Stage::Committing => (Stage::Done, Action::Finish),
                _ => (stage, Action::Nothing),
            }
        },
        Event::FoundSame => {
            match stage {
                Stage::Resolved => (Stage::UpToDate, Action::ReportUpToDate),
                _ => (stage, Action::Nothing),
            }
        },
        Event::FoundDifferent => {
            match stage {
                Stage::Resolved => (Stage::Outdated, Action::ReportOutdated),
                _ => (stage, Action::Nothing),
            }
        },
    }
}

/// The actions that a sequence of events brings about, from `stage` on.
pub open spec fn actions(stage: Stage, events: Seq<Event>, options: Options) -> Seq<Action>
    decreases events.len(),
{
    if events.len() == 0 {
        Seq::empty()
    } else {
        let (then, action) = next(stage, events[0], options);
        seq![action] + actions(then, events.drop_first(), options)
    }
}

/// The stage that a sequence of events leads to, from `stage` on.
pub open spec fn reached(stage: Stage, events: Seq<Event>, options: Options) -> Stage
    decreases events.len(),
{
    if events.len() == 0 {
        stage
    } else {
        reached(next(stage, events[0], options).0, events.drop_first(), options)
    }
}

/// Whether none of `actions` changes the record or the history.
pub open spec fn changes_nothing(actions: Seq<Action>) -> bool {
    forall|i: int| 0 <= i < actions.len() ==> !(#[trigger] actions[i]).changes_anything()
}

/// Every step keeps to the progression: it leaves the stage as it is, goes
/// to the stage that follows it, or ends the run on a failure of what was
/// awaited. An outdated application is rewritten only where an update was
/// asked for, and a rewrite committed only where a commit was asked for.
pub proof fn lemma_steps_follow_the_progression(stage: Stage, event: Event, options: Options)
    ensures
        ({
            let to = next(stage, event, options).0;
            &&& to == stage || follows(stage, to) || (to == Stage::Failed && stage.awaits(options))
            &&& stage == Stage::Outdated && to == Stage::Updating ==> options.update
            &&& stage == Stage::Updated && to == Stage::Committing ==> options.commit
        }),
{
}

/// Where outside work is no longer awaited, nothing is asked for any more,
/// whatever is reported.
pub proof fn lemma_ended_runs_do_nothing(stage: Stage, events: Seq<Event>, options: Options)
    requires
        !stage.awaits(options),
    ensures
        reached(stage, events, options) == stage,
        forall|i: int|
            0 <= i < actions(stage, events, options).len() ==> (#[trigger] actions(
                stage,
                events,
                options,
            )[i]) == Action::Nothing,
    decreases events.len(),
{
    if events.len() > 0 {
        lemma_ended_runs_do_nothing(stage, events.drop_first(), options);
        let rest = actions(stage, events.drop_first(), options);
        assert forall|i: int| 0 <= i < actions(stage, events, options).len() implies (
        #[trigger] actions(stage, events, options)[i]) == Action::Nothing by {
            if i > 0 {
                assert(actions(stage, events, options)[i] == rest[i - 1]);
            }
        }
    }
}

/// What the comparison of a declared version with the latest published one
/// finds. The two are the same where the texts are equal, and also where
/// they are equal but for the `v`s that the published one starts with.
pub open spec fn assessment(declared: Seq<char>, published: Seq<char>) -> Event {
    if published == declared || without_leading(published, 'v') == declared {
        Event::FoundSame
    } else {
        Event::FoundDifferent
    }
}

/// An application whose declared version is the latest is left alone: where
/// the declared version equals the published one, as it stands or without
/// its leading `v`s, neither a rewrite nor a commit follows, whatever was
/// asked for and whatever is reported afterwards.
pub proof fn lemma_up_to_date_changes_nothing(
    declared: Seq<char>,
    published: Seq<char>,
    events: Seq<Event>,
    options: Options,
)
    requires
        published == declared || without_leading(published, 'v') == declared,
    ensures
        changes_nothing(
            actions(Stage::Resolved, seq![assessment(declared, published)] + events, options),
        ),
{
    let all = seq![Event::FoundSame] + events;
    assert(all.drop_first() =~= events);
    lemma_ended_runs_do_nothing(Stage::UpToDate, events, options);
    let rest = actions(Stage::UpToDate, events, options);
    assert forall|i: int| 0 <= i < actions(Stage::Resolved, all, options).len() implies !(
    #[trigger] actions(Stage::Resolved, all, options)[i]).changes_anything() by {
        if i > 0 {
            assert(actions(Stage::Resolved, all, options)[i] == rest[i - 1]);
        }
    }
}

/// Whether `stage` can be where a run stands under `options`: the record is
/// being rewritten, or was, only where an update was asked for, and a change
/// is being committed only where a commit was asked for too.
pub open spec fn fits(stage: Stage, options: Options) -> bool {
    match stage {
        Stage::Updating | Stage::Updated => options.update,
        Stage::Committing => options.update && options.commit,
        _ => true,
    }
}

/// The record is rewritten only where an update was asked for, and a change
/// staged or committed only where a commit was asked for and an update too.
pub proof fn lemma_changes_are_asked_for(stage: Stage, events: Seq<Event>, options: Options)
    requires
        fits(stage, options),
    ensures
        forall|i: int|
            0 <= i < actions(stage, events, options).len() ==> {
                let action = #[trigger] actions(stage, events, options)[i];
                &&& action == Action::Update ==> options.update
                &&& action == Action::Stage ==> options.update && options.commit
                &&& action == Action::Commit ==> options.update && options.commit
            },
    decreases events.len(),
{
    if events.len() > 0 {
        let (then, first) = next(stage, events[0], options);
        lemma_changes_are_asked_for(then, events.drop_first(), options);
        let rest = actions(then, events.drop_first(), options);
        assert forall|i: int| 0 <= i < actions(stage, events, options).len() implies {
            let action = #[trigger] actions(stage, events, options)[i];
            &&& action == Action::Update ==> options.update
            &&& action == Action::Stage ==> options.update && options.commit
            &&& action == Action::Commit ==> options.update && options.commit
        } by {
            if i > 0 {
                assert(actions(stage, events, options)[i] == rest[i - 1]);
            }
        }
    }
}

/// A failure ends the run at once: where the step awaited at `stage` fails,
/// the run is aborted with that failure and nothing is asked for afterwards.
/// In particular a configuration that does not validate is never fetched.
pub proof fn lemma_first_failure_ends_the_run(
    stage: Stage,
    kind: ErrorKind,
    events: Seq<Event>,
    options: Options,
)
    requires
        stage.awaits(options),
    ensures
        actions(stage, seq![Event::Failed(kind)] + events, options)[0] == Action::Abort(kind),
        reached(stage, seq![Event::Failed(kind)] + events, options) == Stage::Failed,
        forall|i: int|
            1 <= i < actions(stage, seq![Event::Failed(kind)] + events, options).len() ==> (
            #[trigger] actions(stage, seq![Event::Failed(kind)] + events, options)[i])
                == Action::Nothing,
{
    let all = seq![Event::Failed(kind)] + events;
    assert(all.drop_first() =~= events);
    lemma_ended_runs_do_nothing(Stage::Failed, events, options);
    let rest = actions(Stage::Failed, events, options);
    assert forall|i: int| 1 <= i < actions(stage, all, options).len() implies (#[trigger] actions(
        stage,
        all,
        options,
    )[i]) == Action::Nothing by {
        assert(actions(stage, all, options)[i] == rest[i - 1]);
    }
}

/// Whether the application called `name` takes part in a run that was
/// restricted to `only`, if it was restricted at all.
pub fn is_selected(only: Option<&str>, name: &str) -> (r: bool)
    ensures
        r == match only {
            Some(wanted) => wanted@ == name@,
            None => true,
        },
{
    match only {
        Some(wanted) => same_text(wanted, name),
        None => true,
    }
}

/// The address of a repository as a base for its documents: `helm` itself,
/// with a slash at its end where it has none.
pub fn repository_address(helm: &str) -> (r: String)
    ensures
        r@ == closed_with(helm@, '/'),
{
    let n = helm.unicode_len();
    if n > 0 && helm.get_char(n - 1) == '/' {
        String::from_str(helm)
    } else {
        proof {
            reveal_strlit("/");
        }
        let closed = String::from_str(helm).concat("/");
        assert(closed@ =~= helm@.push('/'));
        closed
    }
}

/// The chart that publishes an application: the one that the record names,
/// or else the one called like the application.
pub fn chart_name(app: &Application, name: &str) -> (r: String)
    ensures
        r@ == match app.chart {
            Some(chart) => chart@,
            None => name@,
        },
{
    match &app.chart {
        Some(chart) => String::from_str(chart.as_str()),
        None => String::from_str(name),
    }
}

/// The backend of an application: the Helm chart that publishes it, in
/// the repository that the record names. `None` where the record names no
/// repository for it.
pub fn helm_backend(app: &Application, name: &str) -> (r: Option<Helm>)
    ensures
        match (app.helm, r) {
            (Some(repo), Some(helm)) => helm.repo@ == closed_with(repo@, '/') && helm.chart@
                == match app.chart {
                Some(chart) => chart@,
                None => name@,
            },
            (None, None) => true,
            _ => false,
        },
{
    match &app.helm {
        Some(repo) => Some(Helm::new(repository_address(repo.as_str()), chart_name(app, name))),
        None => None,
    }
}

/// A published version as the record writes versions: without the `v`s that
/// it may start with.
pub fn plain_version(published: &str) -> (r: String)
    ensures
        r@ == without_leading(published@, 'v'),
{
    trim_leading(published, 'v')
}

/// Compares the version that the record declares with the latest one that
/// was published. The two are the same where the texts are equal, as they
/// stand or once the published one has lost the `v`s that it starts with.
pub fn assess(declared: &str, published: &str) -> (r: Event)
    ensures
        r == assessment(declared@, published@),
{
    if same_text(published, declared) {
        return Event::FoundSame;
    }
    let latest = plain_version(published);
    if same_text(latest.as_str(), declared) {
        Event::FoundSame
    } else {
        Event::FoundDifferent
    }
}

} // verus!
