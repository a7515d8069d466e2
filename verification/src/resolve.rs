//! Finding, for every track of a playlist, the track that stands for it on
//! another service.
//!
//! Tracks are taken one at a time, in the order of the playlist. A track that the
//! destination already knows is kept as it is, without a search. Any other track
//! is searched for by its handle: the first hit gives it its new identity, no hit
//! drops it from the result, and a failure of the service ends the run, leaving
//! what was resolved before in the caller's hands.

use vstd::prelude::*;
use crate::types::{MusicClient, PlaylistItem, Service, ServiceError, Track, TrackIdentity};

verus! {

/// What a search for one track came to.
pub ghost enum Lookup {
    /// The first hit of the search has this id.
    Found { id: Seq<char> },
    /// The search had no hit, or its first hit was no track.
    Missing,
    /// The service could not be asked.
    Failed { error: ServiceError },
}

/// Reads the answer of a service to a search. A service that reports
/// [`ServiceError::NotFound`] has answered: it found nothing.
pub open spec fn lookup_of(reply: Result<Option<String>, ServiceError>) -> Lookup {
    match reply {
        Ok(Some(id)) => Lookup::Found { id: id@ },
        Ok(None) => Lookup::Missing,
        Err(error) => if error.is_fatal() {
            Lookup::Failed { error }
        } else {
            Lookup::Missing
        },
    }
}

/// A track that `target` knows as it is.
pub open spec fn is_native(track: Track, target: Service) -> bool {
    track.id.service() == target
}

/// The track with the identity that `target` gave it. Name, artists and handle
/// are carried over as they are.
pub open spec fn retagged(track: Track, target: Service, id: Seq<char>) -> Track {
    Track { id: TrackIdentity::on(target, id), ..track }
}

/// A track that has a place in the result: it is native, or it was found.
pub open spec fn survives(track: Track, target: Service, lookup: Lookup) -> bool {
    is_native(track, target) || lookup is Found
}

/// A track whose search could not be made: the run ends on it.
pub open spec fn halts(track: Track, target: Service, lookup: Lookup) -> bool {
    !is_native(track, target) && lookup is Failed
}

/// What a surviving track looks like in the result.
pub open spec fn emitted(track: Track, target: Service, lookup: Lookup) -> Track
    recommends
        survives(track, target, lookup),
{
    if is_native(track, target) {
        track
    } else {
        retagged(track, target, lookup->id)
    }
}

/// A resolution under way, as the contracts see it.
pub ghost struct Run {
    /// The playlist that is being resolved.
    pub source: Seq<Track>,
    /// The service on which the tracks are wanted.
    pub target: Service,
    /// The number of tracks that have been dealt with.
    pub position: nat,
    /// What has been resolved so far.
    pub resolved: Seq<Track>,
    /// The number of searches that have been answered.
    pub searches: nat,
    /// The failure that ended the run, if one did.
    pub failure: Option<ServiceError>,
}

/// What a run asks of its caller.
pub ghost enum Demand {
    /// Announce the track at `position` (counted from 1) of `total`; it needs no
    /// search.
    Keep { position: nat, total: nat, name: Seq<char> },
    /// Announce the track at `position` (counted from 1) of `total`, and search the
    /// destination for `query`.
    Search { position: nat, total: nat, name: Seq<char>, query: Seq<char> },
    /// Report that `resolved` of `total` tracks were resolved.
    Finish { resolved: nat, total: nat },
    /// Report `error`, met at `position` (counted from 1) of `total`.
    Abort { error: ServiceError, position: nat, total: nat },
}

/// A run that has not looked at any track yet.
pub open spec fn initial(source: Seq<Track>, target: Service) -> Run {
    Run { source, target, position: 0, resolved: Seq::empty(), searches: 0, failure: None }
}

/// A state that a run can be in.
pub open spec fn coherent(run: Run) -> bool {
    &&& run.position <= run.source.len()
    &&& run.resolved.len() <= run.position
    &&& run.failure is None ==> run.searches <= run.position
    &&& run.failure is Some ==> run.position < run.source.len() && run.searches <= run.position
        + 1
}

/// What the run asks for in this state.
pub open spec fn demand(run: Run) -> Demand {
    let total = run.source.len();
    if let Some(error) = run.failure {
        Demand::Abort { error, position: run.position + 1, total }
    } else if run.position >= total {
        Demand::Finish { resolved: run.resolved.len(), total }
    } else {
        let track = run.source[run.position as int];
        if is_native(track, run.target) {
            Demand::Keep { position: run.position + 1, total, name: track.name }
        } else {
            Demand::Search { position: run.position + 1, total, name: track.name, query: track.handle }
        }
    }
}

/// The run after a track that needs no search was kept. Where the run asks for
/// something else, nothing changes.
pub open spec fn kept(run: Run) -> Run {
    if demand(run) is Keep {
        Run {
            position: run.position + 1,
            resolved: run.resolved.push(run.source[run.position as int]),
            ..run
        }
    } else {
        run
    }
}

/// The run after the search it asked for came to `lookup`. Where the run asks for
/// something else, nothing changes.
pub open spec fn answered(run: Run, lookup: Lookup) -> Run {
    if demand(run) is Search {
        let track = run.source[run.position as int];
        match lookup {
            Lookup::Found { id } => Run {
                position: run.position + 1,
                resolved: run.resolved.push(retagged(track, run.target, id)),
                searches: run.searches + 1,
                ..run
            },
            Lookup::Missing => Run {
                position: run.position + 1,
                searches: run.searches + 1,
                ..run
            },
            Lookup::Failed { error } => Run {
                searches: run.searches + 1,
                failure: Some(error),
                ..run
            },
        }
    } else {
        run
    }
}

/// The run one track further, `lookup` being what a search for that track comes
/// to. It is consulted only where the track needs a search.
pub open spec fn step(run: Run, lookup: Lookup) -> Run {
    if demand(run) is Keep {
        kept(run)
    } else {
        answered(run, lookup)
    }
}

/// The run over `source` after `n` steps, `lookups[i]` being what a search for the
/// track at `i` comes to.
pub open spec fn after(source: Seq<Track>, target: Service, lookups: Seq<Lookup>, n: nat) -> Run
    decreases n,
{
    if n == 0 {
        initial(source, target)
    } else {
        step(after(source, target, lookups, (n - 1) as nat), lookups[n - 1])
    }
}

/// The whole run over `source`.
pub open spec fn resolve(source: Seq<Track>, target: Service, lookups: Seq<Lookup>) -> Run {
    after(source, target, lookups, source.len())
}

/// The places in `source`, among the first `n`, of the tracks that survive.
pub open spec fn origins(source: Seq<Track>, target: Service, lookups: Seq<Lookup>, n: nat) -> Seq<
    int,
>
    decreases n,
{
    if n == 0 {
        Seq::empty()
    } else {
        let before = origins(source, target, lookups, (n - 1) as nat);
        if survives(source[n - 1], target, lookups[n - 1]) {
            before.push(n - 1)
        } else {
            before
        }
    }
}

/// The tracks that survive among the first `n` of `source`, as they look in the
/// result.
pub open spec fn survivors(source: Seq<Track>, target: Service, lookups: Seq<Lookup>, n: nat) -> Seq<
    Track,
> {
    origins(source, target, lookups, n).map_values(
        |i: int| emitted(source[i], target, lookups[i]),
    )
}

/// The number of tracks among the first `n` of `source` that need a search.
pub open spec fn foreign_count(source: Seq<Track>, target: Service, n: nat) -> nat
    decreases n,
{
    if n == 0 {
        0
    } else {
        let before = foreign_count(source, target, (n - 1) as nat);
        if is_native(source[n - 1], target) {
            before
        } else {
            before + 1
        }
    }
}

/// The place of the first track among the first `n` of `source` on which the run
/// ends; `n` where there is none.
pub open spec fn halt_point(source: Seq<Track>, target: Service, lookups: Seq<Lookup>, n: nat) -> nat
    decreases n,
{
    if n == 0 {
        0
    } else {
        let before = halt_point(source, target, lookups, (n - 1) as nat);
        if before < n - 1 {
            before
        } else if halts(source[n - 1], target, lookups[n - 1]) {
            (n - 1) as nat
        } else {
            n
        }
    }
}

/// The halt point is the first track on which the run ends.
pub proof fn lemma_halt_point(source: Seq<Track>, target: Service, lookups: Seq<Lookup>, n: nat)
    requires
        n <= source.len(),
        lookups.len() == source.len(),
    ensures
        halt_point(source, target, lookups, n) <= n,
        forall|i: int|
            0 <= i < halt_point(source, target, lookups, n) ==> !halts(
                #[trigger] source[i],
                target,
                lookups[i],
            ),
        halt_point(source, target, lookups, n) < n ==> halts(
            source[halt_point(source, target, lookups, n) as int],
            target,
            lookups[halt_point(source, target, lookups, n) as int],
        ),
    decreases n,
{
    if n > 0 {
        lemma_halt_point(source, target, lookups, (n - 1) as nat);
    }
}

/// The places of the survivors are places of `source`, in rising order, and they
/// are the places of exactly the tracks that survive.
pub proof fn lemma_origins(source: Seq<Track>, target: Service, lookups: Seq<Lookup>, n: nat)
    requires
        n <= source.len(),
        lookups.len() == source.len(),
    ensures
        origins(source, target, lookups, n).len() <= n,
        forall|j: int|
            0 <= j < origins(source, target, lookups, n).len() ==> {
                let i = #[trigger] origins(source, target, lookups, n)[j];
                0 <= i < n && survives(source[i], target, lookups[i])
            },
        forall|j: int, k: int|
            0 <= j < k < origins(source, target, lookups, n).len() ==> origins(
                source,
                target,
                lookups,
                n,
            )[j] < origins(source, target, lookups, n)[k],
        forall|i: int|
            0 <= i < n && survives(#[trigger] source[i], target, lookups[i]) ==> origins(
                source,
                target,
                lookups,
                n,
            ).contains(i),
    decreases n,
{
    if n > 0 {
        let before = origins(source, target, lookups, (n - 1) as nat);
        let now = origins(source, target, lookups, n);
        lemma_origins(source, target, lookups, (n - 1) as nat);
        assert forall|i: int|
            0 <= i < n && survives(#[trigger] source[i], target, lookups[i]) implies now.contains(
            i,
        ) by {
            if i < n - 1 {
                let j = choose|j: int| 0 <= j < before.len() && before[j] == i;
                assert(now[j] == i);
            } else {
                assert(now[now.len() - 1] == i);
            }
        }
    }
}

/// Where a run stands after `n` steps: on the first track that ended it, or past
/// the first `n` tracks; with the survivors among the tracks it has passed; and
/// with one search answered for each track that needed one.
pub proof fn lemma_after(source: Seq<Track>, target: Service, lookups: Seq<Lookup>, n: nat)
    requires
        n <= source.len(),
        lookups.len() == source.len(),
    ensures
        ({
            let run = after(source, target, lookups, n);
            let stop = halt_point(source, target, lookups, n);
            &&& coherent(run)
            &&& run.source == source
            &&& run.target == target
            &&& run.position == stop
            &&& run.resolved == survivors(source, target, lookups, stop)
            &&& run.failure == if stop < n {
                Some(lookups[stop as int]->error)
            } else {
                None
            }
            &&& run.searches == foreign_count(source, target, stop) + if stop < n {
                1nat
            } else {
                0nat
            }
        }),
    decreases n,
{
    if n > 0 {
        let m = (n - 1) as nat;
        lemma_after(source, target, lookups, m);
    }
}

/// Every track of a result is one that the destination knows as it is.
pub proof fn lemma_result_is_native(
    source: Seq<Track>,
    target: Service,
    lookups: Seq<Lookup>,
    n: nat,
)
    requires
        n <= source.len(),
        lookups.len() == source.len(),
    ensures
        forall|j: int|
            0 <= j < after(source, target, lookups, n).resolved.len() ==> is_native(
                #[trigger] after(source, target, lookups, n).resolved[j],
                target,
            ),
{
    lemma_after(source, target, lookups, n);
}

/// A playlist whose tracks the destination all knows stays as it is, through
/// every step, and no search is asked for.
proof fn lemma_native_prefix(source: Seq<Track>, target: Service, lookups: Seq<Lookup>, n: nat)
    requires
        n <= source.len(),
        lookups.len() == source.len(),
        forall|i: int| 0 <= i < source.len() ==> is_native(#[trigger] source[i], target),
    ensures
        halt_point(source, target, lookups, n) == n,
        origins(source, target, lookups, n) == Seq::new(n, |i: int| i),
        survivors(source, target, lookups, n) == source.take(n as int),
        foreign_count(source, target, n) == 0,
    decreases n,
{
    if n > 0 {
        lemma_native_prefix(source, target, lookups, (n - 1) as nat);
    }
}

/// Resolving a playlist that is already the destination's own gives it back
/// unchanged, and at no point of the run is a search asked for.
pub proof fn lemma_resolving_again_changes_nothing(
    source: Seq<Track>,
    target: Service,
    lookups: Seq<Lookup>,
)
    requires
        lookups.len() == source.len(),
        forall|i: int| 0 <= i < source.len() ==> is_native(#[trigger] source[i], target),
    ensures
        resolve(source, target, lookups).resolved == source,
        resolve(source, target, lookups).failure is None,
        resolve(source, target, lookups).searches == 0,
        forall|n: nat|
            n <= source.len() ==> !(demand(#[trigger] after(source, target, lookups, n)) is Search),
{
    lemma_after(source, target, lookups, source.len());
    lemma_native_prefix(source, target, lookups, source.len());
    assert forall|n: nat| n <= source.len() implies !(demand(
        #[trigger] after(source, target, lookups, n),
    ) is Search) by {
        lemma_after(source, target, lookups, n);
    }
}

/// What a run gives back, resolved once more on the same destination, comes out
/// unchanged, whatever the searches would say.
pub proof fn lemma_resolution_is_idempotent(
    source: Seq<Track>,
    target: Service,
    lookups: Seq<Lookup>,
    again: Seq<Lookup>,
)
    requires
        lookups.len() == source.len(),
        again.len() == resolve(source, target, lookups).resolved.len(),
    ensures
        resolve(resolve(source, target, lookups).resolved, target, again).resolved == resolve(
            source,
            target,
            lookups,
        ).resolved,
        resolve(resolve(source, target, lookups).resolved, target, again).searches == 0,
        resolve(resolve(source, target, lookups).resolved, target, again).failure is None,
{
    lemma_result_is_native(source, target, lookups, source.len());
    lemma_resolving_again_changes_nothing(resolve(source, target, lookups).resolved, target, again);
}

/// The tracks of a result stand in the order in which the playlist had them:
/// the places they come from rise along the result, and each track is the one
/// that stood at its place, with its name, artists and handle as they were.
pub proof fn lemma_order_is_preserved(source: Seq<Track>, target: Service, lookups: Seq<Lookup>)
    requires
        lookups.len() == source.len(),
    ensures
        ({
            let run = resolve(source, target, lookups);
            let from = origins(source, target, lookups, run.position);
            &&& run.resolved.len() == from.len()
            &&& forall|j: int|
                0 <= j < from.len() ==> {
                    let i = #[trigger] from[j];
                    &&& 0 <= i < run.position
                    &&& run.resolved[j] == emitted(source[i], target, lookups[i])
                    &&& run.resolved[j].name == source[i].name
                    &&& run.resolved[j].artists == source[i].artists
                    &&& run.resolved[j].handle == source[i].handle
                }
            &&& forall|j: int, k: int| 0 <= j < k < from.len() ==> from[j] < from[k]
        }),
{
    lemma_after(source, target, lookups, source.len());
    lemma_origins(source, target, lookups, resolve(source, target, lookups).position);
}

/// All of the first `n` tracks survive exactly when there are `n` survivors.
proof fn lemma_full_house(source: Seq<Track>, target: Service, lookups: Seq<Lookup>, n: nat)
    requires
        n <= source.len(),
        lookups.len() == source.len(),
    ensures
        origins(source, target, lookups, n).len() <= n,
        origins(source, target, lookups, n).len() == n <==> forall|i: int|
            0 <= i < n ==> survives(#[trigger] source[i], target, lookups[i]),
    decreases n,
{
    if n > 0 {
        lemma_full_house(source, target, lookups, (n - 1) as nat);
    }
}

/// A result is never longer than the playlist it was made from, and it is as long
/// exactly when every track was found or was the destination's own.
pub proof fn lemma_length_is_bounded(source: Seq<Track>, target: Service, lookups: Seq<Lookup>)
    requires
        lookups.len() == source.len(),
    ensures
        resolve(source, target, lookups).resolved.len() <= source.len(),
        resolve(source, target, lookups).resolved.len() == source.len() <==> forall|i: int|
            0 <= i < source.len() ==> survives(#[trigger] source[i], target, lookups[i]),
{
    let run = resolve(source, target, lookups);
    lemma_after(source, target, lookups, source.len());
    lemma_halt_point(source, target, lookups, source.len());
    lemma_full_house(source, target, lookups, run.position);
}

/// A track that the destination does not know and that no search finds is left
/// out of the result, and the run goes on to the next track: the step over it
/// moves the run one place on and changes nothing else but the count of searches.
pub proof fn lemma_unmatched_track_is_dropped(
    source: Seq<Track>,
    target: Service,
    lookups: Seq<Lookup>,
    at: nat,
)
    requires
        lookups.len() == source.len(),
        at < source.len(),
        !is_native(source[at as int], target),
        lookups[at as int] is Missing,
    ensures
        forall|n: nat|
            n <= source.len() ==> !(#[trigger] origins(source, target, lookups, n)).contains(
                at as int,
            ),
        after(source, target, lookups, at).failure is None ==> {
            let before = after(source, target, lookups, at);
            let next = after(source, target, lookups, at + 1);
            &&& next.failure is None
            &&& next.position == at + 1
            &&& next.resolved == before.resolved
            &&& next.searches == before.searches + 1
        },
        halt_point(source, target, lookups, source.len()) != at,
{
    assert forall|n: nat| n <= source.len() implies !(#[trigger] origins(
        source,
        target,
        lookups,
        n,
    )).contains(at as int) by {
        lemma_origins(source, target, lookups, n);
    }
    lemma_after(source, target, lookups, at);
    lemma_halt_point(source, target, lookups, source.len());
}

/// A run that has ended on a failure stays as it is, whatever comes.
proof fn lemma_halted_run_stays(
    source: Seq<Track>,
    target: Service,
    lookups: Seq<Lookup>,
    m: nat,
    n: nat,
)
    requires
        m <= n <= source.len(),
        lookups.len() == source.len(),
        after(source, target, lookups, m).failure is Some,
    ensures
        after(source, target, lookups, n) == after(source, target, lookups, m),
    decreases n,
{
    if m < n {
        lemma_halted_run_stays(source, target, lookups, m, (n - 1) as nat);
    }
}

/// A failure of the service on a track ends the run there: the tracks after it
/// are not looked at, and what was resolved before it is still in the run.
pub proof fn lemma_failure_ends_the_run(
    source: Seq<Track>,
    target: Service,
    lookups: Seq<Lookup>,
    at: nat,
)
    requires
        lookups.len() == source.len(),
        at < source.len(),
        halts(source[at as int], target, lookups[at as int]),
        forall|i: int| 0 <= i < at ==> !halts(#[trigger] source[i], target, lookups[i]),
    ensures
        resolve(source, target, lookups).failure == Some(lookups[at as int]->error),
        resolve(source, target, lookups).position == at,
        resolve(source, target, lookups).resolved == after(source, target, lookups, at).resolved,
        after(source, target, lookups, at).failure is None,
        forall|n: nat|
            at < n <= source.len() ==> #[trigger] after(source, target, lookups, n) == resolve(
                source,
                target,
                lookups,
            ),
        demand(resolve(source, target, lookups)) is Abort,
{
    lemma_after(source, target, lookups, at);
    lemma_halt_point(source, target, lookups, at + 1);
    assert forall|n: nat| at < n <= source.len() implies #[trigger] after(
        source,
        target,
        lookups,
        n,
    ) == after(source, target, lookups, at + 1) by {
        lemma_halted_run_stays(source, target, lookups, at + 1, n);
    }
}

/// What a run asks of its caller.
#[derive(Debug)]
pub enum Request {
    /// Announce the track at `position` (counted from 1) of `total`; it needs no
    /// search. Go on with [`Resolution::keep`].
    Keep { position: usize, total: usize, name: String },
    /// Announce the track at `position` (counted from 1) of `total`, search the
    /// destination for `query`, and hand the answer to [`Resolution::record`].
    Search { position: usize, total: usize, name: String, query: String },
    /// Report that `resolved` of `total` tracks were resolved.
    Finish { resolved: usize, total: usize },
    /// Report `error`, met at `position` (counted from 1) of `total`.
    Abort { error: ServiceError, position: usize, total: usize },
}

impl View for Request {
    type V = Demand;

    open spec fn view(&self) -> Demand {
        match self {
            Request::Keep { position, total, name } => Demand::Keep {
                position: *position as nat,
                total: *total as nat,
                name: name@,
            },
            Request::Search { position, total, name, query } => Demand::Search {
                position: *position as nat,
                total: *total as nat,
                name: name@,
                query: query@,
            },
            Request::Finish { resolved, total } => Demand::Finish {
                resolved: *resolved as nat,
                total: *total as nat,
            },
            Request::Abort { error, position, total } => Demand::Abort {
                error: *error,
                position: *position as nat,
                total: *total as nat,
            },
        }
    }
}

/// Reads the answer of a service to a search.
pub fn read_reply(reply: Result<Option<String>, ServiceError>) -> (outcome: Result<
    Option<String>,
    ServiceError,
>)
    ensures
        lookup_of(outcome) == lookup_of(reply),
        outcome matches Err(error) ==> error.is_fatal(),
        outcome matches Ok(Some(id)) ==> reply matches Ok(Some(given)) && given@ == id@,
{
    match reply {
        Ok(found) => Ok(found),
        Err(error) => if error.fatal() {
            Err(error)
        } else {
            Ok(None)
        },
    }
}

/// The resolution of one playlist on one destination.
pub struct Resolution {
    source: Vec<PlaylistItem>,
    target: Service,
    position: usize,
    resolved: Vec<PlaylistItem>,
    searches: usize,
    failure: Option<ServiceError>,
}

impl View for Resolution {
    type V = Run;

    closed spec fn view(&self) -> Run {
        Run {
            source: self.source.deep_view(),
            target: self.target,
            position: self.position as nat,
            resolved: self.resolved.deep_view(),
            searches: self.searches as nat,
            failure: self.failure,
        }
    }
}

impl Resolution {
    #[verifier::type_invariant]
    spec fn well_formed(&self) -> bool {
        coherent(self@)
    }

    /// Starts the resolution of `source` on `target`.
    pub fn begin(source: Vec<PlaylistItem>, target: Service) -> (run: Self)
        ensures
            run@ == initial(source.deep_view(), target),
    {
        let run = Resolution {
            source,
            target,
            position: 0,
            resolved: Vec::new(),
            searches: 0,
            failure: None,
        };
        assert(run.resolved.deep_view() =~= Seq::<Track>::empty());
        run
    }

    /// What the run asks for now.
    pub fn request(&self) -> (request: Request)
        ensures
            coherent(self@),
            request@ == demand(self@),
    {
        proof {
            use_type_invariant(self);
        }
        let total = self.source.len();
        if let Some(error) = self.failure {
            Request::Abort { error, position: self.position + 1, total }
        } else if self.position >= total {
            Request::Finish { resolved: self.resolved.len(), total }
        } else {
            let item = &self.source[self.position];
            if item.is_native_to(self.target) {
                Request::Keep { position: self.position + 1, total, name: item.name.clone() }
            } else {
                Request::Search {
                    position: self.position + 1,
                    total,
                    name: item.name.clone(),
                    query: item.handle.clone(),
                }
            }
        }
    }

    /// Keeps the track that the run is at, where it needs no search.
    pub fn keep(&mut self)
        ensures
            coherent(final(self)@),
            final(self)@ == kept(old(self)@),
    {
        proof {
            use_type_invariant(&*self);
        }
        if self.failure.is_none() && self.position < self.source.len() {
            let item = &self.source[self.position];
            if item.is_native_to(self.target) {
                let copy = item.clone();
                self.position = self.position + 1;
                self.append(copy);
            }
        }
    }

    /// Takes in the answer to the search that the run asked for.
    pub fn record(&mut self, reply: Result<Option<String>, ServiceError>)
        ensures
            coherent(final(self)@),
            final(self)@ == answered(old(self)@, lookup_of(reply)),
    {
        proof {
            use_type_invariant(&*self);
        }
        if self.failure.is_none() && self.position < self.source.len() {
            let item = &self.source[self.position];
            if !item.is_native_to(self.target) {
                match read_reply(reply) {
                    Ok(Some(id)) => {
                        let found = item.resolved_as(self.target, id);
                        self.position = self.position + 1;
                        self.searches = self.searches + 1;
                        self.append(found);
                    },
                    Ok(None) => {
                        self.position = self.position + 1;
                        self.searches = self.searches + 1;
                    },
                    Err(error) => {
                        self.failure = Some(error);
                        self.searches = self.searches + 1;
                    },
                }
            }
        }
    }

    /// Puts `track` at the end of what has been resolved.
    fn append(&mut self, track: PlaylistItem)
        requires
            old(self)@.resolved.len() < old(self)@.position,
        ensures
            final(self)@ == (Run { resolved: old(self)@.resolved.push(track@), ..old(self)@ }),
    {
        proof {
            use_type_invariant(&*self);
        }
        let mut tracks: Vec<PlaylistItem> = Vec::new();
        core::mem::swap(&mut self.resolved, &mut tracks);
        let ghost before = tracks.deep_view();
        tracks.push(track);
        assert(tracks.deep_view() =~= before.push(track@));
        core::mem::swap(&mut self.resolved, &mut tracks);
    }

    /// The tracks that have been resolved so far.
    pub fn resolved(&self) -> (tracks: &Vec<PlaylistItem>)
        ensures
            tracks.deep_view() == self@.resolved,
    {
        &self.resolved
    }

    /// Ends the run and hands out what it has resolved, be it all of the playlist
    /// or what came before a failure.
    pub fn into_resolved(self) -> (tracks: Vec<PlaylistItem>)
        ensures
            tracks.deep_view() == self@.resolved,
    {
        self.resolved
    }

    /// The failure that ended the run, if one did.
    pub fn failure(&self) -> (failure: Option<ServiceError>)
        ensures
            failure == self@.failure,
    {
        self.failure
    }

    /// The number of searches that have been answered.
    pub fn searches(&self) -> (searches: usize)
        ensures
            searches == self@.searches,
    {
        self.searches
    }
}

/// What a run has come to after `n` steps rests on the first `n` lookups alone.
proof fn lemma_after_reads_prefix(
    source: Seq<Track>,
    target: Service,
    lookups: Seq<Lookup>,
    others: Seq<Lookup>,
    n: nat,
)
    requires
        n <= lookups.len(),
        n <= others.len(),
        forall|i: int| 0 <= i < n ==> lookups[i] == others[i],
    ensures
        after(source, target, lookups, n) == after(source, target, others, n),
    decreases n,
{
    if n > 0 {
        lemma_after_reads_prefix(source, target, lookups, others, (n - 1) as nat);
    }
}

/// `lookup` is what came of an answer that `client` gave when it was searched
/// for `handle`.
pub open spec fn answered_by<C: MusicClient>(client: &C, handle: Seq<char>, lookup: Lookup) -> bool {
    exists|query: String, reply: Result<Option<String>, ServiceError>|
        query@ == handle && #[trigger] call_ensures(C::search, (client, &query), reply)
            && lookup_of(reply) == lookup
}

/// The number of tracks that a run has looked at: those it has dealt with, and
/// the one it failed on.
pub open spec fn looked_at(run: Run) -> nat {
    if run.failure is Some {
        run.position + 1
    } else {
        run.position
    }
}

/// For every track that `run` has looked at and that needed a search,
/// `lookups` holds what came of an answer of `client` to the track's handle.
pub open spec fn told_by<C: MusicClient>(client: &C, run: Run, lookups: Seq<Lookup>) -> bool {
    forall|i: int|
        0 <= i < looked_at(run) && i < lookups.len() && !is_native(run.source[i], run.target)
            ==> answered_by(client, run.source[i].handle, #[trigger] lookups[i])
}

/// Resolves `playlist_items` on the service of `client`, one track after the
/// other, and hands back the run when it has finished or failed. Before each
/// track, and once at the end, `observe` is shown what the run is about to do.
///
/// The destination is the service that `client` names. Whatever `client`
/// answers, the run that comes back is the one that [`resolve`] describes for
/// its answers: every track that the run looked at and that needed a search
/// was searched for by its handle, and what came of the answer is what the run
/// went by.
pub fn parse_playlist_items<C: MusicClient, F: Fn(&Request)>(
    client: &C,
    playlist_items: Vec<PlaylistItem>,
    observe: F,
) -> (run: Resolution)
    requires
        forall|request: &Request| observe.requires((request,)),
    ensures
        run@.source == playlist_items.deep_view(),
        call_ensures(C::service, (client,), run@.target),
        demand(run@) is Finish || demand(run@) is Abort,
        exists|lookups: Seq<Lookup>|
            lookups.len() == run@.source.len() && told_by(client, run@, lookups) && run@
                == #[trigger] resolve(run@.source, run@.target, lookups),
{
    let target = client.service();
    let ghost source = playlist_items.deep_view();
    let mut run = Resolution::begin(playlist_items, target);
    let ghost mut lookups = Seq::new(source.len(), |i: int| Lookup::Missing);
    let ghost mut steps: nat = 0;
    loop
        invariant
            forall|request: &Request| observe.requires((request,)),
            call_ensures(C::service, (client,), target),
            source == playlist_items.deep_view(),
            lookups.len() == source.len(),
            steps <= source.len(),
            steps <= run@.position + 1,
            run@ == after(source, target, lookups, steps),
            forall|i: int|
                0 <= i < steps && !is_native(source[i], target) ==> answered_by(
                    client,
                    source[i].handle,
                    #[trigger] lookups[i],
                ),
        decreases source.len() - steps,
    {
        proof {
            lemma_after(source, target, lookups, steps);
        }
        let request = run.request();
        observe(&request);
        match request {
            Request::Keep { .. } => {
                run.keep();
                proof {
                    steps = steps + 1;
                }
            },
            Request::Search { position, total, name, query } => {
                let reply = client.search(&query);
                proof {
                    let told = lookups.update(steps as int, lookup_of(reply));
                    lemma_after_reads_prefix(source, target, lookups, told, steps);
                    lookups = told;
                    steps = steps + 1;
                }
                run.record(reply);
            },
            _ => {
                proof {
                    if steps < source.len() {
                        lemma_halted_run_stays(source, target, lookups, steps, source.len());
                    }
                    assert(run@ == resolve(run@.source, run@.target, lookups));
                }
                return run;
            },
        }
    }
}

} // verus!
