//! Hosted zones and the choice of the zone that a domain name belongs to.

use vstd::prelude::*;
use vstd::string::*;

verus! {

/// A hosted zone as listed by the DNS provider.
#[derive(Debug)]
pub struct HostedZone {
    /// DNS suffix of the zone, with or without trailing dots.
    pub name: String,
    /// Identifier under which the provider knows the zone.
    pub id: String,
}

/// Mathematical model of a [`HostedZone`].
pub ghost struct HostedZoneView {
    pub name: Seq<char>,
    pub id: Seq<char>,
}

impl View for HostedZone {
    type V = HostedZoneView;

    open spec fn view(&self) -> HostedZoneView {
        HostedZoneView { name: self.name@, id: self.id@ }
    }
}

/// Number of bytes that `s` takes in UTF-8.
pub open spec fn byte_len(s: Seq<char>) -> nat {
    vstd::utf8::encode_utf8(s).len()
}

/// `s` without the dots at its end.
pub open spec fn strip_trailing_dots(s: Seq<char>) -> Seq<char>
    decreases s.len(),
{
    if s.len() > 0 && s.last() == '.' {
        strip_trailing_dots(s.drop_last())
    } else {
        s
    }
}

/// How specific a zone named `zone_name` is: the number of bytes of its name
/// without the trailing dots.
pub open spec fn zone_depth(zone_name: Seq<char>) -> nat {
    byte_len(strip_trailing_dots(zone_name))
}

/// `s` ends with `suffix`.
pub open spec fn ends_with(s: Seq<char>, suffix: Seq<char>) -> bool {
    suffix.len() <= s.len() && s.subrange(s.len() - suffix.len(), s.len() as int) == suffix
}

/// A zone named `zone_name` can hold `domain`: the domain ends with the zone's
/// name (trailing dots aside), and that ending starts the domain or follows a dot.
pub open spec fn zone_covers(domain: Seq<char>, zone_name: Seq<char>) -> bool {
    let suffix = strip_trailing_dots(zone_name);
    &&& ends_with(domain, suffix)
    &&& (domain.len() == suffix.len() || domain[domain.len() - suffix.len() - 1] == '.')
}

/// Zone `i` of `zones` is the one chosen for `domain`: it covers the domain, no
/// covering zone is more specific, and of the covering zones that are as
/// specific it is the last listed.
pub open spec fn is_best_zone(domain: Seq<char>, zones: Seq<HostedZone>, i: int) -> bool {
    &&& 0 <= i < zones.len()
    &&& zone_covers(domain, zones[i]@.name)
    &&& forall|j: int|
        0 <= j < zones.len() && #[trigger] zone_covers(domain, zones[j]@.name) ==> zone_depth(
            zones[j]@.name,
        ) <= zone_depth(zones[i]@.name)
    &&& forall|j: int|
        i < j < zones.len() && #[trigger] zone_covers(domain, zones[j]@.name) ==> zone_depth(
            zones[j]@.name,
        ) < zone_depth(zones[i]@.name)
}

/// No zone of `zones` covers `domain`.
pub open spec fn no_zone_covers(domain: Seq<char>, zones: Seq<HostedZone>) -> bool {
    forall|j: int| 0 <= j < zones.len() ==> !#[trigger] zone_covers(domain, zones[j]@.name)
}

/// Number of bytes that `s` takes in UTF-8.
pub fn utf8_len(s: &str) -> (n: usize)
    ensures
        n == byte_len(s@),
{
    s.as_bytes().len()
}

/// Length in characters of `name` without its trailing dots.
pub fn trimmed_len(name: &str) -> (n: usize)
    ensures
        n <= name@.len(),
        name@.subrange(0, n as int) == strip_trailing_dots(name@),
{
    let mut n: usize = name.unicode_len();
    assert(name@.subrange(0, n as int) =~= name@);
    while n > 0 && name.get_char(n - 1) == '.'
        invariant
            n <= name@.len(),
            strip_trailing_dots(name@.subrange(0, n as int)) == strip_trailing_dots(name@),
        decreases n,
    {
        assert(name@.subrange(0, n as int).drop_last() =~= name@.subrange(0, n - 1));
        n = n - 1;
    }
    n
}

/// How specific a zone named `zone_name` is: the number of bytes of its name
/// without the trailing dots.
pub fn depth_of(zone_name: &str) -> (depth: usize)
    ensures
        depth == zone_depth(zone_name@),
{
    let kept: usize = trimmed_len(zone_name);
    utf8_len(zone_name.substring_char(0, kept))
}

/// Whether a zone named `zone_name` can hold `domain`.
pub fn covers(domain: &str, zone_name: &str) -> (b: bool)
    ensures
        b == zone_covers(domain@, zone_name@),
{
    let dl: usize = domain.unicode_len();
    let sl: usize = trimmed_len(zone_name);
    let ghost suffix = strip_trailing_dots(zone_name@);
    if sl > dl {
        return false;
    }
    let cut: usize = dl - sl;
    let mut i: usize = 0;
    while i < sl
        invariant
            i <= sl,
            sl <= zone_name@.len(),
            dl == domain@.len(),
            cut + sl == dl,
            suffix == zone_name@.subrange(0, sl as int),
            suffix == strip_trailing_dots(zone_name@),
            forall|k: int| 0 <= k < i ==> domain@[cut + k] == suffix[k],
        decreases sl - i,
    {
        if domain.get_char(cut + i) != zone_name.get_char(i) {
            proof {
                let tail = domain@.subrange(domain@.len() - suffix.len(), domain@.len() as int);
                assert(tail[i as int] == domain@[cut + i]);
                assert(suffix[i as int] == zone_name@[i as int]);
            }
            return false;
        }
        i = i + 1;
    }
    assert(domain@.subrange(cut as int, dl as int) =~= suffix);
    cut == 0 || domain.get_char(cut - 1) == '.'
}

/// Chooses the hosted zone for `domain`: among the zones that cover it the
/// most specific one, that is the one with the longest name once trailing
/// dots are taken off; the last listed where several are that specific. The
/// result is the zone's place in `zones`; `None` means that no zone covers
/// the domain.
pub fn find_zone(domain: &str, zones: &Vec<HostedZone>) -> (found: Option<usize>)
    ensures
        match found {
            Some(i) => is_best_zone(domain@, zones@, i as int),
            None => no_zone_covers(domain@, zones@),
        },
{
    let mut best: Option<usize> = None;
    let mut i: usize = 0;
    while i < zones.len()
        invariant
            i <= zones.len(),
            match best {
                Some(b) => {
                    &&& b < i
                    &&& zone_covers(domain@, zones@[b as int]@.name)
                    &&& forall|j: int|
                        0 <= j < i && #[trigger] zone_covers(domain@, zones@[j]@.name)
                            ==> zone_depth(zones@[j]@.name) <= zone_depth(zones@[b as int]@.name)
                    &&& forall|j: int|
                        b < j < i && #[trigger] zone_covers(domain@, zones@[j]@.name)
                            ==> zone_depth(zones@[j]@.name) < zone_depth(zones@[b as int]@.name)
                },
                None => forall|j: int|
                    0 <= j < i ==> !#[trigger] zone_covers(domain@, zones@[j]@.name),
            },
        decreases zones.len() - i,
    {
        if covers(domain, zones[i].name.as_str()) {
            let longer: bool = match best {
                Some(b) => depth_of(zones[i].name.as_str()) >= depth_of(zones[b].name.as_str()),
                None => true,
            };
            if longer {
                best = Some(i);
            }
        }
        i = i + 1;
    }
    best
}

/// A zone covers a domain exactly when the domain is the zone's name or ends
/// with a dot followed by the zone's name, trailing dots of the zone's name
/// aside. So a zone never covers a domain that merely ends with its letters.
pub proof fn lemma_covers_iff_same_or_subdomain(domain: Seq<char>, zone_name: Seq<char>)
    ensures
        zone_covers(domain, zone_name) <==> (domain == strip_trailing_dots(zone_name) || ends_with(
            domain,
            seq!['.'] + strip_trailing_dots(zone_name),
        )),
{
    let suffix = strip_trailing_dots(zone_name);
    let dotted = seq!['.'] + suffix;
    let n = domain.len() as int;
    if zone_covers(domain, zone_name) {
        let cut = n - suffix.len();
        if cut == 0 {
            assert(domain =~= domain.subrange(0, n));
        } else {
            assert(domain.subrange(cut - 1, n) =~= dotted);
        }
    }
    if domain == suffix {
        assert(domain.subrange(0, n) =~= domain);
    }
    if ends_with(domain, dotted) {
        let cut = n - suffix.len();
        let tail = domain.subrange(cut - 1, n);
        assert(tail == dotted);
        assert(tail[0] == '.');
        assert(domain.subrange(cut, n) =~= tail.subrange(1, tail.len() as int));
        assert(dotted.subrange(1, dotted.len() as int) =~= suffix);
    }
}

/// With a single zone listed, that zone is chosen exactly when the domain is
/// the zone's name or ends with a dot followed by it; otherwise none is.
pub proof fn lemma_single_zone_match(domain: Seq<char>, zone: HostedZone)
    ensures
        is_best_zone(domain, seq![zone], 0) <==> (domain == strip_trailing_dots(zone@.name)
            || ends_with(domain, seq!['.'] + strip_trailing_dots(zone@.name))),
        no_zone_covers(domain, seq![zone]) <==> !is_best_zone(domain, seq![zone], 0),
{
    lemma_covers_iff_same_or_subdomain(domain, zone@.name);
    let zones = seq![zone];
    assert(zones[0] == zone);
    if no_zone_covers(domain, zones) {
        assert(!zone_covers(domain, zones[0]@.name));
    }
}

/// Where two listed zones cover a domain and one is the more specific, the
/// other is not chosen; with only those two listed, the more specific one is.
pub proof fn lemma_longer_zone_wins(
    domain: Seq<char>,
    zones: Seq<HostedZone>,
    shorter: int,
    longer: int,
    chosen: int,
)
    requires
        0 <= shorter < zones.len(),
        0 <= longer < zones.len(),
        zone_covers(domain, zones[shorter]@.name),
        zone_covers(domain, zones[longer]@.name),
        zone_depth(zones[shorter]@.name) < zone_depth(zones[longer]@.name),
        is_best_zone(domain, zones, chosen),
    ensures
        chosen != shorter,
        zone_depth(zones[chosen]@.name) >= zone_depth(zones[longer]@.name),
        zones.len() == 2 ==> chosen == longer,
{
}

} // verus!
