//! One reconciliation pass after another, as a state machine: each outcome of
//! outside work is an event, and the answer to it is the next piece of
//! outside work to do.

use crate::ip::{lemma_response_address_is_ipv4, read_response, response_address};
use crate::tracker::{
    lemma_first_pending, lemma_fresh_only_with_current_ip, lemma_lookup_keeps_staleness,
    lemma_new_ip_leaves_stale, App, AppView, UpsertRequest,
    UpsertRequestView,
};
use crate::zone::HostedZone;
use vstd::prelude::*;
use vstd::string::*;

verus! {

/// Seconds that a daemon waits between two passes.
pub const POLL_INTERVAL_SECS: u64 = 300;

/// How long the updater runs.
#[derive(Clone, Copy, Debug)]
pub enum Mode {
    /// A single pass, in which every step must succeed.
    OneShot,
    /// Pass after pass; a failure is reported and retried in a later pass.
    Daemon,
}

/// Where a pass stands.
#[derive(Clone, Copy, Debug)]
pub enum Phase {
    /// Between passes.
    Idle,
    /// The public address has been asked for.
    ResolvingIp,
    /// The hosted zones have been asked for.
    ListingZones,
    /// The record of the domain at this place is being published.
    Upserting(usize),
    /// Nothing more will be done.
    Stopped,
}

/// What the outside world reports back.
#[derive(Debug)]
pub enum Event {
    /// It is time for a pass.
    Wake,
    /// The public-address service answered; this is the text of its answer.
    IpResolved(String),
    /// The public-address service could not be reached or did not answer.
    IpFailed,
    /// The provider listed these hosted zones.
    ZonesListed(Vec<HostedZone>),
    /// The provider could not list the hosted zones.
    ZonesFailed,
    /// The provider confirmed the record.
    UpsertDone,
    /// The provider refused the record or could not be reached.
    UpsertFailed,
}

/// What went wrong in a pass.
#[derive(Clone, Copy, Debug)]
pub enum Failure {
    /// The public address could not be found.
    IpResolution,
    /// The hosted zones could not be listed.
    ZoneList,
    /// No hosted zone covers the domain at this place.
    ZoneMatch(usize),
    /// The record of the domain at this place could not be published.
    Upsert(usize),
}

/// The outside work to do next.
#[derive(Debug)]
pub enum Action {
    /// Find the public address.
    ResolveIp,
    /// List the provider's hosted zones.
    ListZones,
    /// Create or replace this address record.
    Upsert(UpsertRequest),
    /// The pass is over: wait this many seconds, then start the next one.
    Sleep(u64),
    /// The single pass is over and all went well.
    Finish,
    /// The single pass has failed for this reason.
    Abort(Failure),
    /// The event was not awaited: go on as before.
    Ignore,
}

/// Mathematical model of an [`Action`].
pub ghost enum ActionView {
    ResolveIp,
    ListZones,
    Upsert(UpsertRequestView),
    Sleep(u64),
    Finish,
    Abort(Failure),
    Ignore,
}

impl View for Action {
    type V = ActionView;

    open spec fn view(&self) -> ActionView {
        match self {
            Action::ResolveIp => ActionView::ResolveIp,
            Action::ListZones => ActionView::ListZones,
            Action::Upsert(request) => ActionView::Upsert(request@),
            Action::Sleep(seconds) => ActionView::Sleep(*seconds),
            Action::Finish => ActionView::Finish,
            Action::Abort(failure) => ActionView::Abort(*failure),
            Action::Ignore => ActionView::Ignore,
        }
    }
}

/// The answer to an event.
#[derive(Debug)]
pub struct Outcome {
    /// The outside work to do next.
    pub action: Action,
    /// Failures that do not end the run, to be made known.
    pub reports: Vec<Failure>,
}

/// The managed domains together with the place that the current pass has reached.
#[derive(Debug)]
pub struct Reconciler {
    /// The managed domains and the public address.
    pub app: App,
    /// How long the updater runs.
    pub mode: Mode,
    /// Where the current pass stands.
    pub phase: Phase,
}

/// The pass is over: a daemon sleeps until the next, a single pass finishes.
pub open spec fn ends_pass(mode: Mode, phase: Phase, action: ActionView) -> bool {
    match mode {
        Mode::Daemon => phase == Phase::Idle && action == ActionView::Sleep(POLL_INTERVAL_SECS),
        Mode::OneShot => phase == Phase::Stopped && action == ActionView::Finish,
    }
}

/// Publishing goes on at place `from`: with the first domain from there on
/// that needs publishing and has its zone, or with the end of the pass.
pub open spec fn continues(app: AppView, mode: Mode, from: int, phase: Phase, action: ActionView) -> bool {
    match app.first_pending(from) {
        Some(i) => phase == Phase::Upserting(i as usize) && action == ActionView::Upsert(
            app.request_for(i),
        ),
        None => ends_pass(mode, phase, action),
    }
}

/// A step of the pass has failed: a single pass is aborted, a daemon reports
/// the failure and waits for the next pass.
pub open spec fn gives_up(mode: Mode, failure: Failure, phase: Phase, outcome: Outcome) -> bool {
    match mode {
        Mode::OneShot => {
            &&& phase == Phase::Stopped
            &&& outcome.action@ == ActionView::Abort(failure)
            &&& outcome.reports@ == Seq::<Failure>::empty()
        },
        Mode::Daemon => {
            &&& phase == Phase::Idle
            &&& outcome.action@ == ActionView::Sleep(POLL_INTERVAL_SECS)
            &&& outcome.reports@ == seq![failure]
        },
    }
}

/// The zone-match failures of the domains at the places `missed`.
pub open spec fn zone_misses(missed: Seq<usize>) -> Seq<Failure> {
    Seq::new(missed.len(), |a: int| Failure::ZoneMatch(missed[a]))
}

/// What follows the lookup of the zones, in which the domains at the places
/// `missed` found none: a single pass is aborted at the first of them; else
/// they are reported and publishing starts.
pub open spec fn after_lookup(missed: Seq<usize>, post: Reconciler, outcome: Outcome) -> bool {
    if post.mode is OneShot && missed.len() > 0 {
        &&& post.phase == Phase::Stopped
        &&& outcome.action@ == ActionView::Abort(Failure::ZoneMatch(missed[0]))
        &&& outcome.reports@ == Seq::<Failure>::empty()
    } else {
        &&& outcome.reports@ == zone_misses(missed)
        &&& continues(post.app@, post.mode, 0, post.phase, outcome.action@)
    }
}

/// What one step does: `post` and `outcome` are what `event` makes of `pre`.
pub open spec fn transition(pre: Reconciler, event: Event, post: Reconciler, outcome: Outcome) -> bool {
    &&& post.mode == pre.mode
    &&& match (pre.phase, event) {
        (Phase::Idle, Event::Wake) => {
            &&& post.app@ == pre.app@
            &&& post.phase == Phase::ResolvingIp
            &&& outcome.action@ == ActionView::ResolveIp
            &&& outcome.reports@ == Seq::<Failure>::empty()
        },
        (Phase::ResolvingIp, Event::IpFailed) => {
            &&& post.app@ == pre.app@
            &&& gives_up(pre.mode, Failure::IpResolution, post.phase, outcome)
        },
        (Phase::ResolvingIp, Event::IpResolved(raw)) => match response_address(raw@) {
            Some(ip) => {
                &&& post.app@ == pre.app@.with_public_ip(ip)
                &&& outcome.reports@ == Seq::<Failure>::empty()
                &&& if post.app@.any_stale() {
                    post.phase == Phase::ListingZones && outcome.action@ == ActionView::ListZones
                } else {
                    ends_pass(pre.mode, post.phase, outcome.action@)
                }
            },
            None => {
                &&& post.app@ == pre.app@
                &&& gives_up(pre.mode, Failure::IpResolution, post.phase, outcome)
            },
        },
        (Phase::ListingZones, Event::ZonesFailed) => {
            &&& post.app@ == pre.app@
            &&& gives_up(pre.mode, Failure::ZoneList, post.phase, outcome)
        },
        (Phase::ListingZones, Event::ZonesListed(zones)) => {
            &&& pre.app@.zones_assigned(zones@, post.app@)
            &&& exists|missed: Seq<usize>|
                pre.app@.is_unmatched(zones@, missed) && #[trigger] after_lookup(
                    missed,
                    post,
                    outcome,
                )
        },
        (Phase::Upserting(i), Event::UpsertDone) => {
            &&& post.app@ == pre.app@.with_fresh(i as int, pre.app@.current_ip)
            &&& outcome.reports@ == Seq::<Failure>::empty()
            &&& continues(post.app@, pre.mode, i + 1, post.phase, outcome.action@)
        },
        (Phase::Upserting(i), Event::UpsertFailed) => {
            &&& post.app@ == pre.app@
            &&& match pre.mode {
                Mode::OneShot => {
                    &&& post.phase == Phase::Stopped
                    &&& outcome.action@ == ActionView::Abort(Failure::Upsert(i))
                    &&& outcome.reports@ == Seq::<Failure>::empty()
                },
                Mode::Daemon => {
                    &&& outcome.reports@ == seq![Failure::Upsert(i)]
                    &&& continues(post.app@, pre.mode, i + 1, post.phase, outcome.action@)
                },
            }
        },
        _ => {
            &&& post.app@ == pre.app@
            &&& post.phase == pre.phase
            &&& outcome.action@ == ActionView::Ignore
            &&& outcome.reports@ == Seq::<Failure>::empty()
        },
    }
}

impl Reconciler {
    /// The place that the pass has reached names a managed domain.
    pub open spec fn wf(&self) -> bool {
        match self.phase {
            Phase::Upserting(i) => i < self.app.domains@.len(),
            _ => true,
        }
    }

    /// A reconciler between passes.
    pub fn new(app: App, mode: Mode) -> (made: Reconciler)
        ensures
            made.wf(),
            made.app == app,
            made.mode == mode,
            made.phase == Phase::Idle,
    {
        Reconciler { app, mode, phase: Phase::Idle }
    }

    /// Whether the place that the pass has reached names a managed domain.
    pub fn is_well_formed(&self) -> (ok: bool)
        ensures
            ok == self.wf(),
    {
        match self.phase {
            Phase::Upserting(i) => i < self.app.domains.len(),
            _ => true,
        }
    }

    /// Ends the pass.
    fn end_pass(&mut self) -> (action: Action)
        ensures
            final(self).app == old(self).app,
            final(self).mode == old(self).mode,
            final(self).wf(),
            ends_pass(old(self).mode, final(self).phase, action@),
    {
        match self.mode {
            Mode::Daemon => {
                self.phase = Phase::Idle;
                Action::Sleep(POLL_INTERVAL_SECS)
            },
            Mode::OneShot => {
                self.phase = Phase::Stopped;
                Action::Finish
            },
        }
    }

    /// Goes on with the first domain from place `from` on that can be
    /// published, or ends the pass.
    fn publish_from(&mut self, from: usize) -> (action: Action)
        ensures
            final(self).app == old(self).app,
            final(self).mode == old(self).mode,
            final(self).wf(),
            continues(old(self).app@, old(self).mode, from as int, final(self).phase, action@),
    {
        match self.app.next_pending(from) {
            Some(i) => {
                self.phase = Phase::Upserting(i);
                Action::Upsert(self.app.upsert_request(i))
            },
            None => self.end_pass(),
        }
    }

    /// Answers a failed step: a single pass is aborted, a daemon reports the
    /// failure and waits for the next pass.
    fn give_up(&mut self, failure: Failure) -> (outcome: Outcome)
        ensures
            final(self).app == old(self).app,
            final(self).mode == old(self).mode,
            final(self).wf(),
            gives_up(old(self).mode, failure, final(self).phase, outcome),
    {
        match self.mode {
            Mode::OneShot => {
                self.phase = Phase::Stopped;
                Outcome { action: Action::Abort(failure), reports: Vec::new() }
            },
            Mode::Daemon => {
                self.phase = Phase::Idle;
                let mut reports: Vec<Failure> = Vec::new();
                reports.push(failure);
                assert(reports@ =~= seq![failure]);
                Outcome { action: Action::Sleep(POLL_INTERVAL_SECS), reports }
            },
        }
    }

    /// Takes the zones that the provider listed: looks up the unresolved
    /// domains, then starts publishing.
    fn take_zones(&mut self, zones: &Vec<HostedZone>) -> (outcome: Outcome)
        requires
            old(self).phase is ListingZones,
        ensures
            final(self).wf(),
            transition(*old(self), Event::ZonesListed(*zones), *final(self), outcome),
    {
        let missed: Vec<usize> = self.app.assign_zones(zones);
        let single: bool = match self.mode {
            Mode::OneShot => true,
            Mode::Daemon => false,
        };
        if single && missed.len() > 0 {
            self.phase = Phase::Stopped;
            let outcome = Outcome {
                action: Action::Abort(Failure::ZoneMatch(missed[0])),
                reports: Vec::new(),
            };
            assert(after_lookup(missed@, *self, outcome));
            return outcome;
        }
        let mut reports: Vec<Failure> = Vec::new();
        let mut a: usize = 0;
        while a < missed.len()
            invariant
                a <= missed@.len(),
                reports@.len() == a,
                forall|b: int| 0 <= b < a ==> reports@[b] == Failure::ZoneMatch(missed@[b]),
            decreases missed@.len() - a,
        {
            reports.push(Failure::ZoneMatch(missed[a]));
            a = a + 1;
        }
        assert(reports@ =~= zone_misses(missed@));
        let action = self.publish_from(0);
        let outcome = Outcome { action, reports };
        proof {
            assert(after_lookup(missed@, *self, outcome));
        }
        outcome
    }

    /// Answers `event`: moves the pass on and says what outside work is next.
    ///
    /// A pass asks for the public address, then, if a domain needs
    /// publishing, for the hosted zones, then publishes one record after
    /// another. An answer of the public-address service that holds no IPv4
    /// address counts as none. In a single pass the first failure aborts; a
    /// daemon reports it, leaves the domain stale and goes on. An event that
    /// the phase does not await changes nothing.
    pub fn step(&mut self, event: Event) -> (outcome: Outcome)
        requires
            old(self).wf(),
        ensures
            final(self).wf(),
            transition(*old(self), event, *final(self), outcome),
    {
        match event {
            Event::Wake => match self.phase {
                Phase::Idle => {
                    self.phase = Phase::ResolvingIp;
                    Outcome { action: Action::ResolveIp, reports: Vec::new() }
                },
                _ => Outcome { action: Action::Ignore, reports: Vec::new() },
            },
            Event::IpFailed => match self.phase {
                Phase::ResolvingIp => self.give_up(Failure::IpResolution),
                _ => Outcome { action: Action::Ignore, reports: Vec::new() },
            },
            Event::IpResolved(raw) => match self.phase {
                Phase::ResolvingIp => match read_response(raw.as_str()) {
                    Some(ip) => {
                        self.app.refresh_public_ip(ip);
                        if self.app.any_stale() {
                            self.phase = Phase::ListingZones;
                            Outcome { action: Action::ListZones, reports: Vec::new() }
                        } else {
                            let action = self.end_pass();
                            Outcome { action, reports: Vec::new() }
                        }
                    },
                    None => self.give_up(Failure::IpResolution),
                },
                _ => Outcome { action: Action::Ignore, reports: Vec::new() },
            },
            Event::ZonesFailed => match self.phase {
                Phase::ListingZones => self.give_up(Failure::ZoneList),
                _ => Outcome { action: Action::Ignore, reports: Vec::new() },
            },
            Event::ZonesListed(zones) => match self.phase {
                Phase::ListingZones => self.take_zones(&zones),
                _ => Outcome { action: Action::Ignore, reports: Vec::new() },
            },
            Event::UpsertDone => match self.phase {
                Phase::Upserting(i) => {
                    let count: usize = self.app.domains.len();
                    assert(i < count);
                    let ip = self.app.current_ip.clone();
                    self.app.mark_fresh(i, ip.as_str());
                    let action = self.publish_from(i + 1);
                    Outcome { action, reports: Vec::new() }
                },
                _ => Outcome { action: Action::Ignore, reports: Vec::new() },
            },
            Event::UpsertFailed => match self.phase {
                Phase::Upserting(i) => match self.mode {
                    Mode::OneShot => {
                        self.phase = Phase::Stopped;
                        Outcome { action: Action::Abort(Failure::Upsert(i)), reports: Vec::new() }
                    },
                    Mode::Daemon => {
                        let count: usize = self.app.domains.len();
                        assert(i < count);
                        let mut reports: Vec<Failure> = Vec::new();
                        reports.push(Failure::Upsert(i));
                        assert(reports@ =~= seq![Failure::Upsert(i)]);
                        let action = self.publish_from(i + 1);
                        Outcome { action, reports }
                    },
                },
                _ => Outcome { action: Action::Ignore, reports: Vec::new() },
            },
        }
    }
}

/// A failed attempt to publish a record leaves every domain as stale as it was.
pub proof fn lemma_failed_upsert_keeps_stale(pre: Reconciler, post: Reconciler, outcome: Outcome, i: usize)
    requires
        pre.phase == Phase::Upserting(i),
        transition(pre, Event::UpsertFailed, post, outcome),
    ensures
        forall|j: int| 0 <= j < pre.app@.domains.len() ==> (#[trigger] post.app@.stale(j)
            <==> pre.app@.stale(j)),
{
}

/// Only a confirmed record makes a domain fresh: whatever the event, a domain
/// that was stale stays stale, unless its record was just confirmed or the
/// public address just learnt is the one published for it.
pub proof fn lemma_fresh_only_when_confirmed(
    pre: Reconciler,
    event: Event,
    post: Reconciler,
    outcome: Outcome,
    j: int,
)
    requires
        pre.wf(),
        transition(pre, event, post, outcome),
        0 <= j < pre.app@.domains.len(),
        pre.app@.stale(j),
        !(event is UpsertDone && pre.phase == Phase::Upserting(j as usize)),
        !(event matches Event::IpResolved(raw) && response_address(raw@) == Some(
            pre.app@.domains[j].published_ip,
        )),
    ensures
        post.app@.stale(j),
{
    match (pre.phase, event) {
        (Phase::ListingZones, Event::ZonesListed(zones)) => {
            lemma_lookup_keeps_staleness(pre.app@, zones@, post.app@);
        },
        (Phase::Upserting(i), Event::UpsertDone) => {
            lemma_fresh_only_with_current_ip(pre.app@, i as int, pre.app@.current_ip);
        },
        _ => {},
    }
}

/// Learning the public address changes no domain: what was published and
/// which zone was found stay as they were.
pub proof fn lemma_address_keeps_domains(pre: Reconciler, raw: String, post: Reconciler, outcome: Outcome)
    requires
        transition(pre, Event::IpResolved(raw), post, outcome),
    ensures
        post.app@.domains == pre.app@.domains,
{
}

/// A new public address leaves stale every domain for which it was not the
/// address published: every domain that was fresh, and every domain for
/// which nothing was published. Where there is such a domain the hosted
/// zones are asked for.
pub proof fn lemma_new_address_leaves_stale(
    pre: Reconciler,
    raw: String,
    post: Reconciler,
    outcome: Outcome,
)
    requires
        pre.phase == Phase::ResolvingIp,
        response_address(raw@) is Some,
        response_address(raw@) != Some(pre.app@.current_ip),
        transition(pre, Event::IpResolved(raw), post, outcome),
    ensures
        Some(post.app@.current_ip) == response_address(raw@),
        forall|i: int|
            0 <= i < pre.app@.domains.len() ==> (#[trigger] post.app@.stale(i) <==> Some(
                pre.app@.domains[i].published_ip,
            ) != response_address(raw@)),
        forall|i: int|
            0 <= i < pre.app@.domains.len() && !pre.app@.stale(i) ==> #[trigger] post.app@.stale(i),
        forall|i: int|
            0 <= i < pre.app@.domains.len() && pre.app@.domains[i].published_ip.len() == 0
                ==> #[trigger] post.app@.stale(i),
        (exists|i: int| 0 <= i < pre.app@.domains.len() && #[trigger] post.app@.stale(i))
            ==> outcome.action@ == ActionView::ListZones,
{
    let ip = response_address(raw@)->Some_0;
    lemma_response_address_is_ipv4(raw@);
    lemma_new_ip_leaves_stale(pre.app@, ip);
}

/// A record is only ever published for a managed domain that is stale and
/// has its zone, with that zone, the domain's name and the current address.
pub proof fn lemma_upsert_only_when_pending(
    pre: Reconciler,
    event: Event,
    post: Reconciler,
    outcome: Outcome,
    request: UpsertRequestView,
)
    requires
        pre.wf(),
        transition(pre, event, post, outcome),
        outcome.action@ == ActionView::Upsert(request),
    ensures
        exists|i: int|
            0 <= i < post.app@.domains.len() && post.phase == Phase::Upserting(i as usize)
                && #[trigger] post.app@.pending(i) && request == post.app@.request_for(i),
{
    match (pre.phase, event) {
        (Phase::ListingZones, Event::ZonesListed(zones)) => {
            lemma_first_pending(post.app@, 0);
            let i = post.app@.first_pending(0)->Some_0;
            assert(post.app@.pending(i));
        },
        (Phase::Upserting(k), Event::UpsertDone) => {
            lemma_first_pending(post.app@, k + 1);
            let i = post.app@.first_pending(k + 1)->Some_0;
            assert(post.app@.pending(i));
        },
        (Phase::Upserting(k), Event::UpsertFailed) => {
            lemma_first_pending(post.app@, k + 1);
            let i = post.app@.first_pending(k + 1)->Some_0;
            assert(post.app@.pending(i));
        },
        _ => {},
    }
}

/// When the public address learnt is the one already known and no domain is
/// stale, the pass ends at once: no zones are listed and nothing is published.
pub proof fn lemma_unchanged_ip_ends_pass(pre: Reconciler, raw: String, post: Reconciler, outcome: Outcome)
    requires
        pre.phase == Phase::ResolvingIp,
        response_address(raw@) == Some(pre.app@.current_ip),
        !pre.app@.any_stale(),
        transition(pre, Event::IpResolved(raw), post, outcome),
    ensures
        post.app@ == pre.app@,
        ends_pass(pre.mode, post.phase, outcome.action@),
{
}

} // verus!
