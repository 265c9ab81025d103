//! Classifying ownership-change events and driving the registry.
//!
//! A name is of interest only when it starts with the well-known
//! media-player namespace prefix. An event of interest is an arrival
//! when the old owner is empty, a departure when the new owner is
//! empty, and otherwise a hand-off between owners, which deliberately
//! changes nothing.

use vstd::prelude::*;
use vstd::string::StrSliceExecFns;
use crate::registry::Registry;

verus! {

/// The namespace prefix that marks a service name as a media player.
pub open spec fn player_prefix() -> Seq<char> {
    "org.mpris.MediaPlayer2"@
}

/// Whether a service name lies in the media-player namespace.
pub open spec fn is_player_name(name: Seq<char>) -> bool {
    name.len() >= player_prefix().len() && name.subrange(
        0,
        player_prefix().len() as int,
    ) == player_prefix()
}

/// Whether a service name lies in the media-player namespace: it
/// starts with the well-known prefix.
pub fn matches_player_prefix(name: &str) -> (r: bool)
    ensures
        r == is_player_name(name@),
{
    let prefix = "org.mpris.MediaPlayer2";
    let n = name.unicode_len();
    let p = prefix.unicode_len();
    if n < p {
        return false;
    }
    let mut i: usize = 0;
    while i < p
        invariant
            i <= p,
            p == prefix@.len(),
            n == name@.len(),
            p <= n,
            prefix@ == player_prefix(),
            forall|j: int| 0 <= j < i ==> name@[j] == prefix@[j],
        decreases p - i,
    {
        if name.get_char(i) != prefix.get_char(i) {
            proof {
                assert(name@.subrange(0, p as int)[i as int] != player_prefix()[i as int]);
            }
            return false;
        }
        i += 1;
    }
    proof {
        assert(name@.subrange(0, p as int) =~= player_prefix());
    }
    true
}

/// What an ownership-change event means for the tracked name.
#[derive(Clone, Copy, Debug, PartialEq, Eq, Structural)]
pub enum EventClass {
    /// The name gained an owner it had none before: a player appeared.
    Arrival,
    /// The name lost its owner: a player disappeared.
    Departure,
    /// The name passed between two owners, or the event carries no
    /// ownership change of interest; the registry stays as it is.
    HandoffOrNoop,
}

/// The classification of an event by its two owner fields, an empty
/// owner meaning "none": departure when the new owner is empty, else
/// arrival when the old owner is empty, else a hand-off.
pub open spec fn classify_spec(old_owner: Seq<char>, new_owner: Seq<char>) -> EventClass {
    if new_owner.len() == 0 {
        EventClass::Departure
    } else if old_owner.len() == 0 {
        EventClass::Arrival
    } else {
        EventClass::HandoffOrNoop
    }
}

/// Classifies one ownership-change event by its owner fields.
pub fn classify(old_owner: &str, new_owner: &str) -> (r: EventClass)
    ensures
        r == classify_spec(old_owner@, new_owner@),
{
    if new_owner.is_empty() {
        EventClass::Departure
    } else if old_owner.is_empty() {
        EventClass::Arrival
    } else {
        EventClass::HandoffOrNoop
    }
}

/// Applies one ownership-change event `(name, old_owner, new_owner)`
/// to the registry and says whether a metadata fetch for `name` must
/// follow. A name outside the player namespace changes nothing and
/// triggers no fetch; a departure removes the name; an arrival inserts
/// it and asks for a fetch — the insertion stands whatever that later
/// fetch yields; a hand-off changes nothing.
pub fn handle_event(reg: &mut Registry, name: &String, old_owner: &str, new_owner: &str) -> (fetch:
    bool)
    requires
        old(reg).wf(),
    ensures
        final(reg).wf(),
        !is_player_name(name@) ==> final(reg)@ == old(reg)@ && !fetch
            && final(reg).enumeration() == old(reg).enumeration(),
        is_player_name(name@) && classify_spec(old_owner@, new_owner@) is Departure
            ==> final(reg)@ == old(reg)@.remove(name@) && !fetch
            && final(reg).enumeration() == old(reg).enumeration().remove_value(name@),
        is_player_name(name@) && classify_spec(old_owner@, new_owner@) is Arrival
            ==> final(reg)@ == old(reg)@.insert(name@) && fetch
            && final(reg).enumeration() == if old(reg)@.contains(name@) {
                old(reg).enumeration()
            } else {
                old(reg).enumeration().push(name@)
            },
        is_player_name(name@) && classify_spec(old_owner@, new_owner@) is HandoffOrNoop
            ==> final(reg)@ == old(reg)@ && !fetch
            && final(reg).enumeration() == old(reg).enumeration(),
        fetch ==> final(reg)@.contains(name@),
{
    if !matches_player_prefix(name.as_str()) {
        return false;
    }
    match classify(old_owner, new_owner) {
        EventClass::Departure => {
            reg.remove(name);
            false
        },
        EventClass::Arrival => {
            reg.insert(name.clone());
            true
        },
        EventClass::HandoffOrNoop => false,
    }
}

/// The sublist of a directory listing that names media players, in
/// listing order.
pub open spec fn filter_players(names: Seq<Seq<char>>) -> Seq<Seq<char>> {
    names.filter(player_name_pred())
}

/// The player-namespace test, as a value for sequence filtering.
pub open spec fn player_name_pred() -> spec_fn(Seq<char>) -> bool {
    |n: Seq<char>| is_player_name(n)
}

/// Seeds the registry from the directory's full listing: exactly the
/// listed names in the player namespace become the membership, and
/// those names, each once, are returned for eager metadata fetching.
pub fn startup(reg: &mut Registry, listing: &Vec<String>) -> (to_fetch: Vec<String>)
    ensures
        final(reg).wf(),
        final(reg)@ == filter_players(listing.deep_view()).to_set(),
        to_fetch.deep_view() == final(reg).enumeration(),
        to_fetch.deep_view().to_set() == final(reg)@,
        to_fetch.deep_view().no_duplicates(),
{
    let ghost all = listing.deep_view();
    let mut filtered: Vec<String> = Vec::new();
    let mut i: usize = 0;
    while i < listing.len()
        invariant
            i <= listing.len(),
            all == listing.deep_view(),
            filtered.deep_view() == filter_players(all.subrange(0, i as int)),
        decreases listing.len() - i,
    {
        let e = &listing[i];
        let ghost pre = all.subrange(0, i as int);
        proof {
            assert(all[i as int] == listing@[i as int]@);
            assert(all.subrange(0, i + 1) =~= pre.push(e@));
            pre.lemma_filter_push(e@, player_name_pred());
        }
        if matches_player_prefix(e.as_str()) {
            let ghost held = filtered.deep_view();
            filtered.push(e.clone());
            proof {
                assert(player_name_pred()(e@));
                assert(filtered.deep_view() =~= held.push(e@));
            }
        } else {
            proof {
                assert(!player_name_pred()(e@));
            }
        }
        i += 1;
    }
    proof {
        assert(all.subrange(0, all.len() as int) =~= all);
    }
    reg.replace(filtered);
    reg.snapshot()
}

} // verus!
