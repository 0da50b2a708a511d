//! A managed domain name and what is known of its address record.

use crate::zone::{byte_len, utf8_len};
use vstd::prelude::*;
use vstd::string::*;

verus! {

/// A fully-qualified domain name whose address record is kept up to date.
#[derive(Debug)]
pub struct Domain {
    /// The domain name.
    pub name: String,
    /// Identifier of the hosted zone that holds the name; empty until one is found.
    pub zone_id: String,
    /// The address last confirmed as published for the name; empty while none is.
    pub published_ip: String,
}

/// Mathematical model of a [`Domain`].
pub ghost struct DomainView {
    pub name: Seq<char>,
    pub zone_id: Seq<char>,
    pub published_ip: Seq<char>,
}

impl View for Domain {
    type V = DomainView;

    open spec fn view(&self) -> DomainView {
        DomainView { name: self.name@, zone_id: self.zone_id@, published_ip: self.published_ip@ }
    }
}

/// A name that can be managed: at least three bytes long, with a dot in it.
pub open spec fn valid_domain_name(name: Seq<char>) -> bool {
    byte_len(name) >= 3 && name.contains('.')
}

/// Whether `name` can be managed.
pub fn is_valid_domain_name(name: &str) -> (ok: bool)
    ensures
        ok == valid_domain_name(name@),
{
    if utf8_len(name) < 3 {
        return false;
    }
    let n: usize = name.unicode_len();
    let mut i: usize = 0;
    while i < n
        invariant
            i <= n,
            n == name@.len(),
            byte_len(name@) >= 3,
            forall|k: int| 0 <= k < i ==> name@[k] != '.',
        decreases n - i,
    {
        if name.get_char(i) == '.' {
            assert(name@[i as int] == '.');
            return true;
        }
        i = i + 1;
    }
    false
}

impl Domain {
    /// A domain with no zone found and no address published yet.
    pub fn new(name: String) -> (domain: Domain)
        ensures
            domain@ == (DomainView {
                name: name@,
                zone_id: Seq::<char>::empty(),
                published_ip: Seq::<char>::empty(),
            }),
    {
        Domain { name, zone_id: String::new(), published_ip: String::new() }
    }
}

} // verus!
