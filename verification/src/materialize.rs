//! Writing a resolved playlist to its destination.
//!
//! A playlist is made in three stages: a name is asked for until one is given,
//! the playlist is created under that name, and the tracks are put in one by one,
//! in order. The caller does the asking and the network calls; [`Materialization`]
//! says what to do next and takes in what came of it. Any failure of the service
//! ends the run at once: what was inserted before stays where it is, and nothing
//! after it is attempted.

use vstd::prelude::*;
use crate::text::{is_white_space, lemma_blank_text_is_trimmed_away, trim, trimmed};
use crate::types::{MusicClient, PlaylistItem, Service, ServiceError, Track};

verus! {

/// The ids, in order, of the tracks that `target` knows as they are.
pub open spec fn native_ids(tracks: Seq<Track>, target: Service) -> Seq<Seq<char>>
    decreases tracks.len(),
{
    if tracks.len() == 0 {
        Seq::empty()
    } else {
        let before = native_ids(tracks.drop_last(), target);
        if tracks.last().id.service() == target {
            before.push(tracks.last().id.opaque_id())
        } else {
            before
        }
    }
}

/// Where a materialization stands, as the contracts see it.
pub ghost enum Phase {
    /// A name is wanted; `prompts_left` answers may still be given.
    AwaitingName { prompts_left: nat },
    /// A playlist called `name` is to be created.
    Creating { name: Seq<char> },
    /// The playlist exists and holds the first `inserted` tracks.
    Inserting { playlist: Seq<char>, inserted: nat },
    /// Every track is in the playlist.
    Done { playlist: Seq<char>, inserted: nat },
    /// The run was given up. `left_behind` is the playlist that stays on the
    /// service, if one had been created, and `inserted` the number of tracks in it.
    Failed { error: ServiceError, left_behind: Option<Seq<char>>, inserted: nat },
}

/// What happened outside, as the contracts see it.
pub ghost enum Outcome {
    /// The user answered the prompt with a line whose trimmed text is `name`.
    Named { name: Seq<char> },
    /// The playlist was created and is known by `playlist`.
    Created { playlist: Seq<char> },
    /// The track that was asked for is in the playlist.
    Inserted,
    /// The service failed at what it was asked.
    Refused { error: ServiceError },
}

/// The phase in which a materialization starts when the name may be asked for
/// `prompts` times.
pub open spec fn first_phase(prompts: nat) -> Phase {
    if prompts == 0 {
        Phase::Failed { error: ServiceError::InvalidInput, left_behind: None, inserted: 0 }
    } else {
        Phase::AwaitingName { prompts_left: prompts }
    }
}

/// The phase that follows `phase` when `outcome` comes in, for a playlist of
/// `count` tracks. An outcome that the phase does not wait for changes nothing.
pub open spec fn next_phase(count: nat, phase: Phase, outcome: Outcome) -> Phase {
    match (phase, outcome) {
        (Phase::AwaitingName { prompts_left }, Outcome::Named { name }) => {
            if name.len() > 0 {
                Phase::Creating { name }
            } else if prompts_left <= 1 {
                Phase::Failed { error: ServiceError::InvalidInput, left_behind: None, inserted: 0 }
            } else {
                Phase::AwaitingName { prompts_left: (prompts_left - 1) as nat }
            }
        },
        (Phase::Creating { name }, Outcome::Created { playlist }) => {
            if count == 0 {
                Phase::Done { playlist, inserted: 0 }
            } else {
                Phase::Inserting { playlist, inserted: 0 }
            }
        },
        (Phase::Creating { name }, Outcome::Refused { error }) => {
            Phase::Failed { error, left_behind: None, inserted: 0 }
        },
        (Phase::Inserting { playlist, inserted }, Outcome::Inserted) => {
            if inserted + 1 >= count {
                Phase::Done { playlist, inserted: inserted + 1 }
            } else {
                Phase::Inserting { playlist, inserted: inserted + 1 }
            }
        },
        (Phase::Inserting { playlist, inserted }, Outcome::Refused { error }) => {
            Phase::Failed { error, left_behind: Some(playlist), inserted }
        },
        _ => phase,
    }
}

/// What the caller is to do in a phase, as the contracts see it.
pub ghost enum Task {
    /// Ask the user for a playlist name.
    AskName,
    /// Create a playlist called `name`.
    Create { name: Seq<char> },
    /// Append the track `id` to `playlist`.
    Insert { playlist: Seq<char>, id: Seq<char> },
    /// Report that `playlist` holds all `inserted` tracks.
    Finish { playlist: Seq<char>, inserted: nat },
    /// Report `error`. The playlist `left_behind`, if there is one, keeps the
    /// `inserted` tracks it has.
    Abort { error: ServiceError, left_behind: Option<Seq<char>>, inserted: nat },
}

/// The task that a phase sets for a playlist made of `ids`.
pub open spec fn task_of(ids: Seq<Seq<char>>, phase: Phase) -> Task
    recommends
        phase_fits(ids.len(), phase),
{
    match phase {
        Phase::AwaitingName { .. } => Task::AskName,
        Phase::Creating { name } => Task::Create { name },
        Phase::Inserting { playlist, inserted } => Task::Insert {
            playlist,
            id: ids[inserted as int],
        },
        Phase::Done { playlist, inserted } => Task::Finish { playlist, inserted },
        Phase::Failed { error, left_behind, inserted } => Task::Abort {
            error,
            left_behind,
            inserted,
        },
    }
}

/// A phase that a playlist of `count` tracks can be in.
pub open spec fn phase_fits(count: nat, phase: Phase) -> bool {
    match phase {
        Phase::AwaitingName { prompts_left } => prompts_left > 0,
        Phase::Creating { name } => name.len() > 0,
        Phase::Inserting { playlist, inserted } => inserted < count,
        Phase::Done { playlist, inserted } => inserted == count,
        Phase::Failed { error, left_behind, inserted } => if left_behind is Some {
            inserted < count
        } else {
            inserted == 0
        },
    }
}

/// What came of the last thing the caller was asked to do.
#[derive(Debug)]
pub enum Event {
    /// The user gave this name; the white space round it is already gone.
    Named(String),
    /// The playlist was created and is known by this handle.
    Created(String),
    /// The track that was asked for is in the playlist.
    Inserted,
    /// The service failed at what it was asked.
    Refused(ServiceError),
}

impl View for Event {
    type V = Outcome;

    open spec fn view(&self) -> Outcome {
        match self {
            Event::Named(name) => Outcome::Named { name: name@ },
            Event::Created(playlist) => Outcome::Created { playlist: playlist@ },
            Event::Inserted => Outcome::Inserted,
            Event::Refused(error) => Outcome::Refused { error: *error },
        }
    }
}

/// What the caller is to do next.
#[derive(Debug)]
pub enum Step {
    /// Ask the user for a playlist name.
    AskName,
    /// Create a playlist with this name.
    Create { name: String },
    /// Append the track `id` to `playlist`.
    Insert { playlist: String, id: String },
    /// Report that `playlist` holds all `inserted` tracks.
    Finish { playlist: String, inserted: usize },
    /// Report `error`. The playlist `left_behind`, if there is one, keeps the
    /// `inserted` tracks it has.
    Abort { error: ServiceError, left_behind: Option<String>, inserted: usize },
}

impl View for Step {
    type V = Task;

    open spec fn view(&self) -> Task {
        match self {
            Step::AskName => Task::AskName,
            Step::Create { name } => Task::Create { name: name@ },
            Step::Insert { playlist, id } => Task::Insert { playlist: playlist@, id: id@ },
            Step::Finish { playlist, inserted } => Task::Finish {
                playlist: playlist@,
                inserted: *inserted as nat,
            },
            Step::Abort { error, left_behind, inserted } => Task::Abort {
                error: *error,
                left_behind: left_behind.deep_view(),
                inserted: *inserted as nat,
            },
        }
    }
}

enum Stage {
    AwaitingName { prompts_left: usize },
    Creating { name: String },
    Inserting { playlist: String, inserted: usize },
    Done { playlist: String, inserted: usize },
    Failed { error: ServiceError, left_behind: Option<String>, inserted: usize },
}

impl View for Stage {
    type V = Phase;

    closed spec fn view(&self) -> Phase {
        match self {
            Stage::AwaitingName { prompts_left } => Phase::AwaitingName {
                prompts_left: *prompts_left as nat,
            },
            Stage::Creating { name } => Phase::Creating { name: name@ },
            Stage::Inserting { playlist, inserted } => Phase::Inserting {
                playlist: playlist@,
                inserted: *inserted as nat,
            },
            Stage::Done { playlist, inserted } => Phase::Done {
                playlist: playlist@,
                inserted: *inserted as nat,
            },
            Stage::Failed { error, left_behind, inserted } => Phase::Failed {
                error: *error,
                left_behind: left_behind.deep_view(),
                inserted: *inserted as nat,
            },
        }
    }
}

/// The making of one playlist on the destination service.
pub struct Materialization {
    target: Service,
    ids: Vec<String>,
    stage: Stage,
}

/// Collects the ids of the tracks that `target` knows as they are, in order.
pub fn collect_native_ids(items: &Vec<PlaylistItem>, target: Service) -> (ids: Vec<String>)
    ensures
        ids.deep_view() == native_ids(items.deep_view(), target),
{
    let mut ids: Vec<String> = Vec::new();
    let mut at: usize = 0;
    while at < items.len()
        invariant
            at <= items.len(),
            ids.deep_view() == native_ids(items.deep_view().take(at as int), target),
        decreases items.len() - at,
    {
        let item = &items[at];
        assert(items.deep_view().take(at + 1).drop_last() =~= items.deep_view().take(at as int));
        if item.id.service() == target {
            ids.push(item.id.to_string());
        }
        at += 1;
    }
    assert(items.deep_view().take(at as int) =~= items.deep_view());
    ids
}

impl Materialization {
    #[verifier::type_invariant]
    spec fn well_formed(&self) -> bool {
        phase_fits(self.ids@.len(), self.stage@)
    }

    /// The service on which the playlist is made.
    pub closed spec fn target(&self) -> Service {
        self.target
    }

    /// The ids of the tracks to insert, in order.
    pub closed spec fn ids(&self) -> Seq<Seq<char>> {
        self.ids.deep_view()
    }

    /// Where the run stands.
    pub closed spec fn phase(&self) -> Phase {
        self.stage@
    }

    /// Starts the making of a playlist on `target` out of `items`. The tracks that
    /// `target` does not know as they are stay out. The name may be asked for
    /// `prompts` times.
    pub fn begin(items: &Vec<PlaylistItem>, target: Service, prompts: usize) -> (run: Self)
        ensures
            run.target() == target,
            run.ids() == native_ids(items.deep_view(), target),
            run.phase() == first_phase(prompts as nat),
            phase_fits(run.ids().len(), run.phase()),
    {
        let ids = collect_native_ids(items, target);
        let stage = if prompts == 0 {
            Stage::Failed { error: ServiceError::InvalidInput, left_behind: None, inserted: 0 }
        } else {
            Stage::AwaitingName { prompts_left: prompts }
        };
        Materialization { target, ids, stage }
    }

    /// What the caller is to do now.
    pub fn next_step(&self) -> (step: Step)
        ensures
            phase_fits(self.ids().len(), self.phase()),
            step@ == task_of(self.ids(), self.phase()),
    {
        proof {
            use_type_invariant(self);
        }
        match &self.stage {
            Stage::AwaitingName { .. } => Step::AskName,
            Stage::Creating { name } => Step::Create { name: name.clone() },
            Stage::Inserting { playlist, inserted } => Step::Insert {
                playlist: playlist.clone(),
                id: self.ids[*inserted].clone(),
            },
            Stage::Done { playlist, inserted } => Step::Finish {
                playlist: playlist.clone(),
                inserted: *inserted,
            },
            Stage::Failed { error, left_behind, inserted } => Step::Abort {
                error: *error,
                left_behind: left_behind.clone(),
                inserted: *inserted,
            },
        }
    }

    /// Takes in what came of the last step. An event that the run does not wait
    /// for changes nothing.
    pub fn handle(&mut self, event: Event)
        ensures
            final(self).target() == old(self).target(),
            final(self).ids() == old(self).ids(),
            final(self).phase() == next_phase(old(self).ids().len(), old(self).phase(), event@),
            phase_fits(final(self).ids().len(), final(self).phase()),
    {
        proof {
            use_type_invariant(&*self);
        }
        let count = self.ids.len();
        let next = match (&self.stage, event) {
            (Stage::AwaitingName { prompts_left }, Event::Named(name)) => {
                if !name.as_str().is_empty() {
                    Some(Stage::Creating { name })
                } else if *prompts_left <= 1 {
                    Some(
                        Stage::Failed {
                            error: ServiceError::InvalidInput,
                            left_behind: None,
                            inserted: 0,
                        },
                    )
                } else {
                    Some(Stage::AwaitingName { prompts_left: *prompts_left - 1 })
                }
            },
            (Stage::Creating { .. }, Event::Created(playlist)) => {
                if count == 0 {
                    Some(Stage::Done { playlist, inserted: 0 })
                } else {
                    Some(Stage::Inserting { playlist, inserted: 0 })
                }
            },
            (Stage::Creating { .. }, Event::Refused(error)) => Some(
                Stage::Failed { error, left_behind: None, inserted: 0 },
            ),
            (Stage::Inserting { playlist, inserted }, Event::Inserted) => {
                if *inserted + 1 >= count {
                    Some(Stage::Done { playlist: playlist.clone(), inserted: *inserted + 1 })
                } else {
                    Some(Stage::Inserting { playlist: playlist.clone(), inserted: *inserted + 1 })
                }
            },
            (Stage::Inserting { playlist, inserted }, Event::Refused(error)) => Some(
                Stage::Failed { error, left_behind: Some(playlist.clone()), inserted: *inserted },
            ),
            _ => None,
        };
        if let Some(stage) = next {
            self.stage = stage;
        }
    }

    /// Takes in the line that the user typed when asked for a name: the white
    /// space round it is dropped, and what is left is the name that was given.
    pub fn answer(&mut self, line: &str)
        ensures
            final(self).target() == old(self).target(),
            final(self).ids() == old(self).ids(),
            final(self).phase() == next_phase(
                old(self).ids().len(),
                old(self).phase(),
                Outcome::Named { name: trimmed(line@) },
            ),
            phase_fits(final(self).ids().len(), final(self).phase()),
    {
        let name = trim(line);
        self.handle(Event::Named(name.to_owned()));
    }
}

/// How many events a run can still take in, at most, before it is over.
pub open spec fn events_left(count: nat, phase: Phase) -> nat {
    match phase {
        Phase::AwaitingName { prompts_left } => prompts_left + count + 1,
        Phase::Creating { .. } => count + 1,
        Phase::Inserting { inserted, .. } => (count - inserted) as nat,
        Phase::Done { .. } => 0,
        Phase::Failed { .. } => 0,
    }
}

/// A run that is over: nothing is left to do but to report.
pub open spec fn is_over(phase: Phase) -> bool {
    phase is Done || phase is Failed
}

/// An event that a phase waits for.
pub open spec fn awaits(phase: Phase, outcome: Outcome) -> bool {
    match phase {
        Phase::AwaitingName { .. } => outcome is Named,
        Phase::Creating { .. } => outcome is Created || outcome is Refused,
        Phase::Inserting { .. } => outcome is Inserted || outcome is Refused,
        Phase::Done { .. } => false,
        Phase::Failed { .. } => false,
    }
}

/// Every event that a run waits for brings it nearer to its end, and leaves it
/// in a phase that fits the playlist.
pub proof fn lemma_events_run_out(count: nat, phase: Phase, outcome: Outcome)
    requires
        phase_fits(count, phase),
        awaits(phase, outcome),
    ensures
        phase_fits(count, next_phase(count, phase, outcome)),
        events_left(count, next_phase(count, phase, outcome)) < events_left(count, phase),
{
}

/// A run that is over stays as it is, whatever comes in.
pub proof fn lemma_over_is_over(count: nat, phase: Phase, outcome: Outcome)
    requires
        is_over(phase),
    ensures
        next_phase(count, phase, outcome) == phase,
{
}

/// A refusal while the tracks are put in ends the run with the playlist left on
/// the service and the tracks that were in it still there: the count of inserted
/// tracks is what it was, and no further track is asked for.
pub proof fn lemma_refused_insert_keeps_prefix(
    ids: Seq<Seq<char>>,
    playlist: Seq<char>,
    inserted: nat,
    error: ServiceError,
)
    requires
        inserted < ids.len(),
    ensures
        ({
            let phase = next_phase(
                ids.len(),
                Phase::Inserting { playlist, inserted },
                Outcome::Refused { error },
            );
            &&& phase == Phase::Failed { error, left_behind: Some(playlist), inserted }
            &&& task_of(ids, phase) == Task::Abort { error, left_behind: Some(playlist), inserted }
        }),
{
}

/// The phase that a run comes to from `phase` when `outcomes` come in one after
/// the other.
pub open spec fn phase_after(count: nat, phase: Phase, outcomes: Seq<Outcome>) -> Phase
    decreases outcomes.len(),
{
    if outcomes.len() == 0 {
        phase
    } else {
        next_phase(count, phase_after(count, phase, outcomes.drop_last()), outcomes.last())
    }
}

/// `n` tracks put in, one after the other.
pub open spec fn inserts(n: nat) -> Seq<Outcome> {
    Seq::new(n, |i: int| Outcome::Inserted)
}

/// A playlist that has just been created holds, after `n` tracks were put in, the
/// first `n` tracks, and is done when it holds them all.
pub proof fn lemma_tracks_go_in_one_by_one(ids: Seq<Seq<char>>, playlist: Seq<char>, n: nat)
    requires
        0 < ids.len(),
        n <= ids.len(),
    ensures
        phase_after(ids.len(), Phase::Inserting { playlist, inserted: 0 }, inserts(n)) == if n
            < ids.len() {
            Phase::Inserting { playlist, inserted: n }
        } else {
            Phase::Done { playlist, inserted: n }
        },
        n < ids.len() ==> task_of(
            ids,
            phase_after(ids.len(), Phase::Inserting { playlist, inserted: 0 }, inserts(n)),
        ) == (Task::Insert { playlist, id: ids[n as int] }),
    decreases n,
{
    if n > 0 {
        lemma_tracks_go_in_one_by_one(ids, playlist, (n - 1) as nat);
        assert(inserts(n).drop_last() =~= inserts((n - 1) as nat));
    }
}

/// Where the service refuses a track after `n` tracks were put in, the run is
/// given up with those `n` tracks left in the playlist, and whatever comes in
/// later changes nothing.
pub proof fn lemma_inserted_tracks_stay(
    ids: Seq<Seq<char>>,
    playlist: Seq<char>,
    n: nat,
    error: ServiceError,
    later: Outcome,
)
    requires
        n < ids.len(),
    ensures
        ({
            let start = Phase::Inserting { playlist, inserted: 0 };
            let failed = phase_after(
                ids.len(),
                start,
                inserts(n).push(Outcome::Refused { error }),
            );
            &&& failed == Phase::Failed { error, left_behind: Some(playlist), inserted: n }
            &&& next_phase(ids.len(), failed, later) == failed
        }),
{
    lemma_tracks_go_in_one_by_one(ids, playlist, n);
    assert(inserts(n).push(Outcome::Refused { error }).drop_last() =~= inserts(n));
}

/// Every outcome of `outcomes` is one that the run, started in `phase`, waits
/// for when it comes in.
pub open spec fn all_awaited(count: nat, phase: Phase, outcomes: Seq<Outcome>) -> bool
    decreases outcomes.len(),
{
    outcomes.len() == 0 || (all_awaited(count, phase, outcomes.drop_last()) && awaits(
        phase_after(count, phase, outcomes.drop_last()),
        outcomes.last(),
    ))
}

/// A line of nothing but white space gives no name: the name is asked for once
/// more, or, where that was the last prompt, the run is given up for want of a
/// name.
pub proof fn lemma_blank_line_is_no_name(count: nat, prompts_left: nat, line: Seq<char>)
    requires
        forall|i: int| 0 <= i < line.len() ==> is_white_space(#[trigger] line[i]),
    ensures
        next_phase(
            count,
            Phase::AwaitingName { prompts_left },
            Outcome::Named { name: trimmed(line) },
        ) == if prompts_left <= 1 {
            Phase::Failed { error: ServiceError::InvalidInput, left_behind: None, inserted: 0 }
        } else {
            Phase::AwaitingName { prompts_left: (prompts_left - 1) as nat }
        },
{
    lemma_blank_text_is_trimmed_away(line);
}

/// A run that is over waits for nothing: no outcome follows its end.
pub proof fn lemma_nothing_follows_the_end(count: nat, phase: Phase, outcomes: Seq<Outcome>)
    requires
        is_over(phase),
        all_awaited(count, phase, outcomes),
    ensures
        outcomes.len() == 0,
    decreases outcomes.len(),
{
    if outcomes.len() > 0 {
        lemma_nothing_follows_the_end(count, phase, outcomes.drop_last());
    }
}

/// What the creation of a playlist came to.
pub open spec fn creation(result: Result<String, ServiceError>) -> Outcome {
    match result {
        Ok(playlist) => Outcome::Created { playlist: playlist@ },
        Err(error) => Outcome::Refused { error },
    }
}

/// What the insertion of a track came to.
pub open spec fn insertion(result: Result<(), ServiceError>) -> Outcome {
    match result {
        Ok(_) => Outcome::Inserted,
        Err(error) => Outcome::Refused { error },
    }
}

/// `outcome` is what came of the task that `phase` sets: of a line that `ask`
/// gave, of a playlist that `client` was asked to create under the name given,
/// or of the next track of `ids` that `client` was asked to put into the
/// playlist.
pub open spec fn caused_by<C: MusicClient, A: Fn() -> String>(
    client: &C,
    ask: A,
    ids: Seq<Seq<char>>,
    phase: Phase,
    outcome: Outcome,
) -> bool {
    match phase {
        Phase::AwaitingName { .. } => exists|line: String| #[trigger]
            call_ensures(ask, (), line) && outcome == (Outcome::Named { name: trimmed(line@) }),
        Phase::Creating { name } => exists|given: String, result: Result<String, ServiceError>|
            given@ == name && #[trigger] call_ensures(C::create_playlist, (client, &given), result)
                && outcome == creation(result),
        Phase::Inserting { playlist, inserted } => exists|
            into: String,
            id: String,
            result: Result<(), ServiceError>,
        |
            into@ == playlist && inserted < ids.len() && id@ == ids[inserted as int]
                && #[trigger] call_ensures(C::insert_track, (client, &into, &id), result)
                && outcome == insertion(result),
        Phase::Done { .. } => false,
        Phase::Failed { .. } => false,
    }
}

/// Every outcome of `outcomes` is what came of the task that the run, started
/// in `phase`, had set when the outcome came in.
pub open spec fn all_caused<C: MusicClient, A: Fn() -> String>(
    client: &C,
    ask: A,
    ids: Seq<Seq<char>>,
    phase: Phase,
    outcomes: Seq<Outcome>,
) -> bool
    decreases outcomes.len(),
{
    outcomes.len() == 0 || (all_caused(client, ask, ids, phase, outcomes.drop_last())
        && caused_by(
        client,
        ask,
        ids,
        phase_after(ids.len(), phase, outcomes.drop_last()),
        outcomes.last(),
    ))
}

/// Makes a playlist on the service that `client` names, out of the tracks of
/// `items` that the service knows, in their order. The name is asked for through
/// `ask` for as long as the answer is empty, `prompts` times at most; with no
/// prompt allowed the run fails at once, before anything is asked of anyone.
///
/// The run that comes back is over: it has put every track in, or it has stopped
/// at the first failure. It got there from its first phase by what came of the
/// tasks it set, one after the other, and by nothing else.
pub fn materialize<C: MusicClient, A: Fn() -> String>(
    client: &C,
    items: &Vec<PlaylistItem>,
    prompts: usize,
    ask: A,
) -> (run: Materialization)
    requires
        ask.requires(()),
    ensures
        call_ensures(C::service, (client,), run.target()),
        run.ids() == native_ids(items.deep_view(), run.target()),
        phase_fits(run.ids().len(), run.phase()),
        is_over(run.phase()),
        prompts == 0 ==> run.phase() == (Phase::Failed {
            error: ServiceError::InvalidInput,
            left_behind: None,
            inserted: 0,
        }),
        exists|outcomes: Seq<Outcome>|
            all_awaited(run.ids().len(), first_phase(prompts as nat), outcomes) && all_caused(
                client,
                ask,
                run.ids(),
                first_phase(prompts as nat),
                outcomes,
            ) && run.phase() == #[trigger] phase_after(
                run.ids().len(),
                first_phase(prompts as nat),
                outcomes,
            ),
{
    let target = client.service();
    let mut run = Materialization::begin(items, target, prompts);
    let ghost start = first_phase(prompts as nat);
    let ghost ids = run.ids();
    let ghost mut outcomes: Seq<Outcome> = Seq::empty();
    loop
        invariant
            ask.requires(()),
            call_ensures(C::service, (client,), target),
            run.target() == target,
            run.ids() == ids,
            ids == native_ids(items.deep_view(), target),
            start == first_phase(prompts as nat),
            phase_fits(ids.len(), run.phase()),
            all_awaited(ids.len(), start, outcomes),
            all_caused(client, ask, ids, start, outcomes),
            run.phase() == phase_after(ids.len(), start, outcomes),
        decreases events_left(run.ids().len(), run.phase()),
    {
        let ghost seen = outcomes;
        match run.next_step() {
            Step::AskName => {
                let line = ask();
                run.answer(line.as_str());
                proof {
                    outcomes = seen.push(Outcome::Named { name: trimmed(line@) });
                }
            },
            Step::Create { name } => {
                let result = client.create_playlist(&name);
                proof {
                    outcomes = seen.push(creation(result));
                }
                match result {
                    Ok(playlist) => run.handle(Event::Created(playlist)),
                    Err(error) => run.handle(Event::Refused(error)),
                }
            },
            Step::Insert { playlist, id } => {
                let result = client.insert_track(&playlist, &id);
                proof {
                    outcomes = seen.push(insertion(result));
                }
                match result {
                    Ok(()) => run.handle(Event::Inserted),
                    Err(error) => run.handle(Event::Refused(error)),
                }
            },
            _ => {
                proof {
                    if prompts == 0 {
                        lemma_nothing_follows_the_end(ids.len(), start, outcomes);
                    }
                }
                return run;
            },
        }
        assert(outcomes.drop_last() =~= seen);
    }
}

} // verus!
