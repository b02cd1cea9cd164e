//! NDI senders, and the bound on remembered senders that Dante shares.

use vstd::prelude::*;

use crate::net::Ipv4Addr;
use crate::scan::opt_text;
use crate::table::{put, with, without, KeySet, Table};

verus! {

/// How many senders are remembered at most. Their addresses can be forged, so
/// they must not pile up.
pub const MAX_SOURCES: usize = 4096;

/// Who leaves when `ip` comes: the first sender, once the set is full and `ip` is
/// not in it.
pub open spec fn evicted(sources: Seq<Ipv4Addr>, ip: Ipv4Addr) -> Option<Ipv4Addr> {
    if !sources.contains(ip) && sources.len() >= MAX_SOURCES {
        Some(sources[0])
    } else {
        None
    }
}

/// The senders after `ip` was recorded.
pub open spec fn sources_with(sources: Seq<Ipv4Addr>, ip: Ipv4Addr) -> Seq<Ipv4Addr> {
    if evicted(sources, ip) is Some {
        with(sources.remove(0), ip)
    } else {
        with(sources, ip)
    }
}

/// A table without the entry of who leaves.
pub open spec fn spared<M>(t: Seq<(Ipv4Addr, M)>, gone: Option<Ipv4Addr>) -> Seq<(Ipv4Addr, M)> {
    match gone {
        Some(ip) => without(t, ip),
        None => t,
    }
}

/// A table of names with one more, where there is one.
pub open spec fn named(
    t: Seq<(Ipv4Addr, Seq<char>)>,
    ip: Ipv4Addr,
    name: Option<Seq<char>>,
) -> Seq<(Ipv4Addr, Seq<char>)> {
    match name {
        Some(n) => put(t, ip, n),
        None => t,
    }
}

/// Records a sender, and tells who left for it and whether it is new.
pub fn record_bounded_source(sources: &mut KeySet<Ipv4Addr>, ip: Ipv4Addr) -> (r: (
    Option<Ipv4Addr>,
    bool,
))
    ensures
        final(sources)@ == sources_with(old(sources)@, ip),
        r.0 == evicted(old(sources)@, ip),
        r.1 == !old(sources)@.contains(ip),
{
    let new: bool = !sources.contains(&ip);
    let mut gone: Option<Ipv4Addr> = None;
    if new && sources.len() >= MAX_SOURCES {
        gone = Some(*sources.at(0));
        sources.remove_at(0);
    }
    sources.insert(ip);
    (gone, new)
}

/// A recorded set never grows over the bound.
pub proof fn law_sources_stay_bounded(sources: Seq<Ipv4Addr>, ip: Ipv4Addr)
    requires
        sources.len() <= MAX_SOURCES,
    ensures
        sources_with(sources, ip).len() <= MAX_SOURCES,
        sources_with(sources, ip).contains(ip),
{
    let s = if evicted(sources, ip) is Some {
        sources.remove(0)
    } else {
        sources
    };
    if !s.contains(ip) {
        assert(s.push(ip)[s.len() as int] == ip);
    }
}

/// Adds a name.
pub fn insert_name(names: &mut Table<Ipv4Addr, String>, ip: Ipv4Addr, name: &Option<String>)
    ensures
        final(names)@ == named(old(names)@, ip, opt_text(*name)),
{
    if let Some(n) = name {
        names.insert(ip, n.clone());
    }
}

/// NDI senders that announced themselves, and their names. They are kept for the
/// session, so that a later flow can be named.
#[derive(Debug)]
pub struct NdiState {
    pub sources: KeySet<Ipv4Addr>,
    pub names: Table<Ipv4Addr, String>,
}

/// NDI senders, in specifications.
pub struct NdiView {
    pub sources: Seq<Ipv4Addr>,
    pub names: Seq<(Ipv4Addr, Seq<char>)>,
}

impl View for NdiState {
    type V = NdiView;

    open spec fn view(&self) -> NdiView {
        NdiView { sources: self.sources@, names: self.names@ }
    }
}

/// The senders after one was recorded.
pub open spec fn ndi_with(v: NdiView, ip: Ipv4Addr, name: Option<Seq<char>>) -> NdiView {
    NdiView {
        sources: sources_with(v.sources, ip),
        names: named(spared(v.names, evicted(v.sources, ip)), ip, name),
    }
}

impl NdiState {
    /// No sender yet.
    pub fn new() -> (r: Self)
        ensures
            r@ == (NdiView { sources: Seq::empty(), names: Seq::empty() }),
    {
        NdiState { sources: KeySet::new(), names: Table::new() }
    }

    /// Records a sender and its name, and tells whether it is new.
    pub fn record_source(&mut self, ip: Ipv4Addr, name: &Option<String>) -> (new: bool)
        ensures
            final(self)@ == ndi_with(old(self)@, ip, opt_text(*name)),
            new == !old(self)@.sources.contains(ip),
    {
        let (gone, new) = record_bounded_source(&mut self.sources, ip);
        if let Some(victim) = gone {
            self.names.remove(&victim);
        }
        insert_name(&mut self.names, ip, name);
        new
    }
}

impl Default for NdiState {
    fn default() -> (r: Self)
        ensures
            r@ == (NdiView { sources: Seq::empty(), names: Seq::empty() }),
    {
        Self::new()
    }
}

} // verus!
