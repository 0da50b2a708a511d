//! The set of managed domains, the public address they are compared with, and
//! which of them still need their record published.

use crate::domain::{is_valid_domain_name, valid_domain_name, Domain, DomainView};
use crate::zone::{find_zone, is_best_zone, no_zone_covers, HostedZone};
use vstd::prelude::*;
use vstd::string::*;

verus! {

/// A name given for management cannot be managed.
#[derive(Debug)]
pub struct ConfigError {
    /// The first name that was refused.
    pub name: String,
}

/// Time to live, in seconds, of every record that is published.
pub const RECORD_TTL: u64 = 300;

/// What is handed to the DNS provider to create or replace one address record.
#[derive(Debug)]
pub struct UpsertRequest {
    /// Identifier of the hosted zone that receives the record.
    pub zone_id: String,
    /// The record's name.
    pub name: String,
    /// The IPv4 address that the record points to.
    pub ip: String,
    /// The record's time to live, in seconds.
    pub ttl: u64,
}

/// Mathematical model of an [`UpsertRequest`].
pub ghost struct UpsertRequestView {
    pub zone_id: Seq<char>,
    pub name: Seq<char>,
    pub ip: Seq<char>,
    pub ttl: int,
}

impl View for UpsertRequest {
    type V = UpsertRequestView;

    open spec fn view(&self) -> UpsertRequestView {
        UpsertRequestView {
            zone_id: self.zone_id@,
            name: self.name@,
            ip: self.ip@,
            ttl: self.ttl as int,
        }
    }
}

/// The managed domains and the public address last learnt.
#[derive(Debug)]
pub struct App {
    /// The current public address; empty until one has been learnt.
    pub current_ip: String,
    /// The managed domains, in the order in which they were given.
    pub domains: Vec<Domain>,
}

/// Mathematical model of an [`App`].
pub ghost struct AppView {
    pub current_ip: Seq<char>,
    pub domains: Seq<DomainView>,
}

impl AppView {
    /// Domain `i` needs publishing: what was published for it is not the current address.
    pub open spec fn stale(self, i: int) -> bool {
        self.domains[i].published_ip != self.current_ip
    }

    /// Some domain needs publishing.
    pub open spec fn any_stale(self) -> bool {
        exists|i: int| 0 <= i < self.domains.len() && #[trigger] self.stale(i)
    }

    /// Domain `i` can be published now: it needs publishing and its zone is known.
    pub open spec fn pending(self, i: int) -> bool {
        self.stale(i) && self.domains[i].zone_id.len() > 0
    }

    /// Domain `i` needs publishing and its zone is to be looked up.
    pub open spec fn unresolved(self, i: int) -> bool {
        self.stale(i) && self.domains[i].zone_id.len() == 0
    }

    /// The first domain from place `from` on that can be published now, if any.
    pub open spec fn first_pending(self, from: int) -> Option<int>
        decreases self.domains.len() - from,
    {
        if from < 0 || from >= self.domains.len() {
            None
        } else if self.pending(from) {
            Some(from)
        } else {
            self.first_pending(from + 1)
        }
    }

    /// The same, with `ip` published for domain `i`.
    pub open spec fn with_fresh(self, i: int, ip: Seq<char>) -> AppView {
        AppView {
            current_ip: self.current_ip,
            domains: self.domains.update(
                i,
                DomainView {
                    name: self.domains[i].name,
                    zone_id: self.domains[i].zone_id,
                    published_ip: ip,
                },
            ),
        }
    }

    /// What becomes of the state when `ip` is learnt as the public address:
    /// it is the current address from now on. The domains keep what was
    /// published for them, so each is stale unless just that address was.
    pub open spec fn with_public_ip(self, ip: Seq<char>) -> AppView {
        AppView { current_ip: ip, domains: self.domains }
    }

    /// The request that publishes the current address for domain `i`: a
    /// create-or-replace of its address record, with the fixed time to live.
    pub open spec fn request_for(self, i: int) -> UpsertRequestView {
        UpsertRequestView {
            zone_id: self.domains[i].zone_id,
            name: self.domains[i].name,
            ip: self.current_ip,
            ttl: RECORD_TTL as int,
        }
    }

    /// `after` is this state once the unresolved domains have been looked up
    /// in `zones`: each of them that a zone covers has the identifier of the
    /// chosen zone, and nothing else has changed.
    pub open spec fn zones_assigned(self, zones: Seq<HostedZone>, after: AppView) -> bool {
        &&& after.current_ip == self.current_ip
        &&& after.domains.len() == self.domains.len()
        &&& forall|i: int|
            0 <= i < self.domains.len() ==> {
                &&& (#[trigger] after.domains[i]).name == self.domains[i].name
                &&& after.domains[i].published_ip == self.domains[i].published_ip
                &&& (!self.unresolved(i) || no_zone_covers(self.domains[i].name, zones))
                    ==> after.domains[i].zone_id == self.domains[i].zone_id
                &&& forall|k: int|
                    self.unresolved(i) && is_best_zone(self.domains[i].name, zones, k)
                        ==> after.domains[i].zone_id == zones[k]@.id
            }
    }

    /// `missed` lists, in rising order, the unresolved domains that no zone of
    /// `zones` covers.
    pub open spec fn is_unmatched(self, zones: Seq<HostedZone>, missed: Seq<usize>) -> bool {
        &&& forall|a: int, b: int| 0 <= a < b < missed.len() ==> missed[a] < missed[b]
        &&& forall|i: usize|
            i < self.domains.len() ==> (#[trigger] missed.contains(i) <==> self.unresolved(i as int)
                && no_zone_covers(self.domains[i as int].name, zones))
        &&& forall|a: int| 0 <= a < missed.len() ==> (#[trigger] missed[a]) < self.domains.len()
    }
}

impl View for App {
    type V = AppView;

    open spec fn view(&self) -> AppView {
        AppView {
            current_ip: self.current_ip@,
            domains: Seq::new(self.domains@.len(), |i: int| self.domains@[i]@),
        }
    }
}

/// The domains that `names` start out as: nothing found, nothing published.
pub open spec fn initial_domains(names: Seq<String>) -> Seq<DomainView> {
    Seq::new(
        names.len(),
        |i: int|
            DomainView {
                name: names[i]@,
                zone_id: Seq::<char>::empty(),
                published_ip: Seq::<char>::empty(),
            },
    )
}

/// `k` is the place of the first name in `names` that cannot be managed.
pub open spec fn first_invalid_name(names: Seq<String>, k: int) -> bool {
    &&& 0 <= k < names.len()
    &&& !valid_domain_name(names[k]@)
    &&& forall|j: int| 0 <= j < k ==> valid_domain_name(#[trigger] names[j]@)
}

impl App {
    /// Starts managing `names`. Every name must be one that can be managed;
    /// the first that is not is handed back in the error. No public address is
    /// known yet, no zone found and nothing published.
    pub fn new(names: Vec<String>) -> (made: Result<App, ConfigError>)
        ensures
            match made {
                Ok(app) => {
                    &&& forall|j: int| 0 <= j < names@.len() ==> valid_domain_name(#[trigger] names@[j]@)
                    &&& app@.current_ip == Seq::<char>::empty()
                    &&& app@.domains == initial_domains(names@)
                },
                Err(e) => exists|k: int| first_invalid_name(names@, k) && e.name@ == names@[k]@,
            },
    {
        let mut domains: Vec<Domain> = Vec::with_capacity(names.len());
        let mut i: usize = 0;
        while i < names.len()
            invariant
                i <= names@.len(),
                domains@.len() == i,
                forall|j: int| 0 <= j < i ==> valid_domain_name(#[trigger] names@[j]@),
                forall|j: int|
                    0 <= j < i ==> (#[trigger] domains@[j])@ == initial_domains(names@)[j],
            decreases names@.len() - i,
        {
            if !is_valid_domain_name(names[i].as_str()) {
                assert(first_invalid_name(names@, i as int));
                return Err(ConfigError { name: names[i].clone() });
            }
            domains.push(Domain::new(names[i].clone()));
            i = i + 1;
        }
        let app = App { current_ip: String::new(), domains };
        assert(app@.domains =~= initial_domains(names@));
        Ok(app)
    }

    /// Whether domain `i` needs publishing.
    pub fn is_stale(&self, i: usize) -> (stale: bool)
        requires
            i < self.domains@.len(),
        ensures
            stale == self@.stale(i as int),
    {
        self.domains[i].published_ip != self.current_ip
    }

    /// Whether any domain needs publishing.
    pub fn any_stale(&self) -> (any: bool)
        ensures
            any == self@.any_stale(),
    {
        let mut i: usize = 0;
        while i < self.domains.len()
            invariant
                i <= self.domains@.len(),
                forall|j: int| 0 <= j < i ==> !#[trigger] self@.stale(j),
            decreases self.domains@.len() - i,
        {
            if self.is_stale(i) {
                return true;
            }
            i = i + 1;
        }
        false
    }

    /// Records that `ip` is now published for domain `i`.
    pub fn mark_fresh(&mut self, i: usize, ip: &str)
        requires
            i < old(self).domains@.len(),
        ensures
            final(self)@ == old(self)@.with_fresh(i as int, ip@),
    {
        self.domains[i].published_ip = String::from_str(ip);
        assert(self@.domains =~= old(self)@.with_fresh(i as int, ip@).domains);
    }

    /// Takes `ip` as the public address just learnt. It becomes the current
    /// address; the domains are left as they are, so a new address leaves
    /// stale every domain for which another address was published or none.
    /// The result says whether the address was new.
    pub fn refresh_public_ip(&mut self, ip: String) -> (changed: bool)
        ensures
            changed == (ip@ != old(self)@.current_ip),
            final(self)@ == old(self)@.with_public_ip(ip@),
            final(self).domains == old(self).domains,
    {
        if ip != self.current_ip {
            self.current_ip = ip;
            true
        } else {
            assert(self@ =~= old(self)@.with_public_ip(ip@));
            false
        }
    }

    /// Looks up every unresolved domain in `zones` and keeps the identifier
    /// of the zone chosen for it. The result lists the unresolved domains that
    /// no zone covers; they stay unresolved.
    pub fn assign_zones(&mut self, zones: &Vec<HostedZone>) -> (missed: Vec<usize>)
        ensures
            old(self)@.zones_assigned(zones@, final(self)@),
            old(self)@.is_unmatched(zones@, missed@),
    {
        let mut missed: Vec<usize> = Vec::new();
        let mut i: usize = 0;
        while i < self.domains.len()
            invariant
                i <= self.domains@.len(),
                self.current_ip == old(self).current_ip,
                self.domains@.len() == old(self).domains@.len(),
                forall|j: int|
                    i <= j < self.domains@.len() ==> #[trigger] self.domains@[j] == old(self).domains@[j],
                forall|j: int|
                    0 <= j < i ==> {
                        &&& (#[trigger] self.domains@[j])@.name == old(self)@.domains[j].name
                        &&& self.domains@[j]@.published_ip == old(self)@.domains[j].published_ip
                        &&& (!old(self)@.unresolved(j) || no_zone_covers(
                            old(self)@.domains[j].name,
                            zones@,
                        )) ==> self.domains@[j]@.zone_id == old(self)@.domains[j].zone_id
                        &&& forall|k: int|
                            old(self)@.unresolved(j) && is_best_zone(
                                old(self)@.domains[j].name,
                                zones@,
                                k,
                            ) ==> self.domains@[j]@.zone_id == zones@[k]@.id
                    },
                forall|a: int, b: int| 0 <= a < b < missed@.len() ==> missed@[a] < missed@[b],
                forall|a: int| 0 <= a < missed@.len() ==> (#[trigger] missed@[a]) < i,
                forall|j: usize|
                    j < i ==> (#[trigger] missed@.contains(j) <==> old(self)@.unresolved(j as int)
                        && no_zone_covers(old(self)@.domains[j as int].name, zones@)),
            decreases self.domains@.len() - i,
        {
            let ghost before = missed@;
            if self.is_stale(i) && self.domains[i].zone_id.as_str().is_empty() {
                match find_zone(self.domains[i].name.as_str(), zones) {
                    Some(k) => {
                        proof {
                            lemma_best_zone_unique(self.domains@[i as int]@.name, zones@, k as int);
                        }
                        self.domains[i].zone_id = zones[k].id.clone();
                    },
                    None => {
                        missed.push(i);
                    },
                }
            }
            proof {
                assert forall|j: usize| j <= i implies (#[trigger] missed@.contains(j) <==> (
                    before.contains(j) || (j == i && missed@.len() > before.len()))) by {
                    if before.contains(j) {
                        let a = choose|a: int| 0 <= a < before.len() && before[a] == j;
                        assert(missed@[a] == j);
                    }
                    if j == i && missed@.len() > before.len() {
                        assert(missed@[before.len() as int] == i);
                    }
                }
                assert(!before.contains(i));
            }
            i = i + 1;
        }
        missed
    }

    /// The first domain from place `from` on that needs publishing and whose
    /// zone is known.
    pub fn next_pending(&self, from: usize) -> (next: Option<usize>)
        ensures
            match next {
                Some(i) => i < self.domains@.len() && self@.first_pending(from as int) == Some(i as int),
                None => self@.first_pending(from as int) == None::<int>,
            },
    {
        let mut i: usize = from;
        while i < self.domains.len()
            invariant
                from <= i,
                self@.first_pending(from as int) == self@.first_pending(i as int),
            decreases self.domains@.len() - i,
        {
            if self.is_stale(i) && !self.domains[i].zone_id.as_str().is_empty() {
                return Some(i);
            }
            i = i + 1;
        }
        None
    }

    /// The request that publishes the current address for domain `i`.
    pub fn upsert_request(&self, i: usize) -> (request: UpsertRequest)
        requires
            i < self.domains@.len(),
        ensures
            request@ == self@.request_for(i as int),
    {
        UpsertRequest {
            zone_id: self.domains[i].zone_id.clone(),
            name: self.domains[i].name.clone(),
            ip: self.current_ip.clone(),
            ttl: RECORD_TTL,
        }
    }
}

/// At most one zone is the chosen one.
pub proof fn lemma_best_zone_unique(domain: Seq<char>, zones: Seq<HostedZone>, k: int)
    requires
        is_best_zone(domain, zones, k),
    ensures
        !no_zone_covers(domain, zones),
        forall|m: int| is_best_zone(domain, zones, m) ==> m == k,
{
    assert forall|m: int| is_best_zone(domain, zones, m) implies m == k by {
        if m < k {
        } else if k < m {
        }
    }
}

/// A new public address leaves stale every domain that was fresh, and every
/// domain for which nothing was published. In general a domain is stale
/// afterwards exactly when the new address is not the one published for it.
pub proof fn lemma_new_ip_leaves_stale(app: AppView, ip: Seq<char>)
    requires
        ip != app.current_ip,
    ensures
        app.with_public_ip(ip).domains == app.domains,
        forall|i: int|
            0 <= i < app.domains.len() ==> (#[trigger] app.with_public_ip(ip).stale(i)
                <==> app.domains[i].published_ip != ip),
        forall|i: int|
            0 <= i < app.domains.len() && !app.stale(i) ==> #[trigger] app.with_public_ip(ip).stale(i),
        forall|i: int|
            0 <= i < app.domains.len() && app.domains[i].published_ip.len() == 0 && ip.len() > 0
                ==> #[trigger] app.with_public_ip(ip).stale(i),
{
}

/// Marking a domain fresh ends its staleness exactly when the address given
/// is the current one, and changes the staleness of no other domain.
pub proof fn lemma_fresh_only_with_current_ip(app: AppView, i: int, ip: Seq<char>)
    requires
        0 <= i < app.domains.len(),
    ensures
        app.with_fresh(i, ip).stale(i) <==> ip != app.current_ip,
        forall|j: int|
            0 <= j < app.domains.len() && j != i ==> (#[trigger] app.with_fresh(i, ip).stale(j)
                <==> app.stale(j)),
{
}

/// What the first domain that can be published is: it stands at or behind
/// the place asked from, it is stale with its zone known, and no domain
/// between the two is; where there is none, no domain from that place on is.
pub proof fn lemma_first_pending(app: AppView, from: int)
    requires
        0 <= from,
    ensures
        match app.first_pending(from) {
            Some(i) => {
                &&& from <= i < app.domains.len()
                &&& app.pending(i)
                &&& forall|j: int| from <= j < i ==> !#[trigger] app.pending(j)
            },
            None => forall|j: int| from <= j < app.domains.len() ==> !#[trigger] app.pending(j),
        },
    decreases app.domains.len() - from,
{
    if from < app.domains.len() && !app.pending(from) {
        lemma_first_pending(app, from + 1);
    }
}

/// Looking up zones changes the staleness of no domain.
pub proof fn lemma_lookup_keeps_staleness(app: AppView, zones: Seq<HostedZone>, after: AppView)
    requires
        app.zones_assigned(zones, after),
    ensures
        forall|i: int| 0 <= i < app.domains.len() ==> (#[trigger] after.stale(i) <==> app.stale(i)),
{
    assert forall|i: int| 0 <= i < app.domains.len() implies (#[trigger] after.stale(i)
        <==> app.stale(i)) by {
        assert(after.domains[i].published_ip == app.domains[i].published_ip);
    }
}

} // verus!
