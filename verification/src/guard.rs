//! Guards against handling the same delivery twice and against routing a
//! link back into the router while it is being routed.

use vstd::prelude::*;

verus! {

/// The texts held by a list of strings, as a set.
pub open spec fn text_set(v: Seq<String>) -> Set<Seq<char>> {
    Set::new(|t: Seq<char>| exists|i: int| 0 <= i < v.len() && (#[trigger] v[i])@ == t)
}

/// A text is in the set of a list exactly when the list's texts hold it.
pub proof fn lemma_text_set_contains(v: Seq<String>, t: Seq<char>)
    ensures
        text_set(v).contains(t) == crate::text::string_texts(v).contains(t),
{
    if text_set(v).contains(t) {
        let i = choose|i: int| 0 <= i < v.len() && (#[trigger] v[i])@ == t;
        assert(crate::text::string_texts(v)[i] == t);
    }
    if crate::text::string_texts(v).contains(t) {
        let i = choose|i: int| 0 <= i < v.len() && crate::text::string_texts(v)[i] == t;
        assert(v[i]@ == t);
    }
}

/// Whether the list holds the text.
pub fn text_list_holds(v: &Vec<String>, t: &str) -> (r: bool)
    ensures
        r == text_set(v@).contains(t@),
{
    let mut i: usize = 0;
    while i < v.len()
        invariant
            i <= v@.len(),
            forall|j: int| 0 <= j < i ==> (#[trigger] v@[j])@ != t@,
        decreases v.len() - i,
    {
        if crate::text::text_eq(v[i].as_str(), t) {
            assert(text_set(v@).contains(t@));
            return true;
        }
        i = i + 1;
    }
    false
}

/// Adds the text to the list unless it is there; tells whether it was added.
fn insert_text(v: &mut Vec<String>, t: &str) -> (r: bool)
    ensures
        text_set(final(v)@) == text_set(old(v)@).insert(t@),
        r == !text_set(old(v)@).contains(t@),
{
    if text_list_holds(v, t) {
        assert(text_set(v@) =~= text_set(v@).insert(t@));
        false
    } else {
        let ghost before = v@;
        v.push(t.to_owned());
        assert(text_set(v@) =~= text_set(before).insert(t@)) by {
            assert forall|x: Seq<char>| #[trigger] text_set(v@).contains(x) implies text_set(
                before,
            ).insert(t@).contains(x) by {
                let i = choose|i: int| 0 <= i < v@.len() && (#[trigger] v@[i])@ == x;
                if i < before.len() {
                    assert(before[i] == v@[i]);
                }
            }
            assert forall|x: Seq<char>| #[trigger] text_set(before).insert(t@).contains(x) implies text_set(
                v@,
            ).contains(x) by {
                if x == t@ {
                    assert(v@[before.len() as int]@ == x);
                } else {
                    let i = choose|i: int| 0 <= i < before.len() && (#[trigger] before[i])@ == x;
                    assert(v@[i] == before[i]);
                }
            }
        }
        true
    }
}

/// Removes every copy of the text from the list.
fn drop_text(v: &mut Vec<String>, t: &str)
    ensures
        text_set(final(v)@) == text_set(old(v)@).remove(t@),
{
    let ghost before = v@;
    let mut kept: Vec<String> = Vec::new();
    let mut i: usize = 0;
    while i < v.len()
        invariant
            v@ == before,
            i <= before.len(),
            forall|j: int| 0 <= j < kept@.len() ==> (#[trigger] kept@[j])@ != t@,
            text_set(kept@) == text_set(before.subrange(0, i as int)).remove(t@),
        decreases v.len() - i,
    {
        let ghost old_kept = kept@;
        if !crate::text::text_eq(v[i].as_str(), t) {
            kept.push(v[i].clone());
        }
        assert(text_set(kept@) =~= text_set(before.subrange(0, i + 1)).remove(t@)) by {
            assert forall|x: Seq<char>| #[trigger] text_set(kept@).contains(x) implies text_set(
                before.subrange(0, i + 1),
            ).remove(t@).contains(x) by {
                let k = choose|k: int| 0 <= k < kept@.len() && (#[trigger] kept@[k])@ == x;
                if k < old_kept.len() {
                    assert(old_kept[k] == kept@[k]);
                    assert(text_set(old_kept).contains(x));
                    let m = choose|m: int|
                        0 <= m < i && (#[trigger] before.subrange(0, i as int)[m])@ == x;
                    assert(before.subrange(0, i + 1)[m] == before.subrange(0, i as int)[m]);
                } else {
                    assert(before.subrange(0, i + 1)[i as int] == before[i as int]);
                }
            }
            assert forall|x: Seq<char>| #[trigger] text_set(before.subrange(0, i + 1)).remove(
                t@,
            ).contains(x) implies text_set(kept@).contains(x) by {
                let m = choose|m: int|
                    0 <= m < i + 1 && (#[trigger] before.subrange(0, i + 1)[m])@ == x;
                if m < i {
                    assert(before.subrange(0, i as int)[m] == before.subrange(0, i + 1)[m]);
                    assert(text_set(before.subrange(0, i as int)).contains(x));
                    assert(text_set(before.subrange(0, i as int)).remove(t@).contains(x));
                    assert(text_set(old_kept).contains(x));
                    let k = choose|k: int| 0 <= k < old_kept.len() && (#[trigger] old_kept[k])@ == x;
                    assert(kept@[k] == old_kept[k]);
                } else {
                    assert(kept@[kept@.len() - 1]@ == x);
                }
            }
        }
        i = i + 1;
    }
    assert(before.subrange(0, before.len() as int) =~= before);
    *v = kept;
}

/// Event identifiers already handled, and link fingerprints being routed.
#[derive(Debug, Default)]
pub struct RouterGuard {
    seen_events: Vec<String>,
    in_flight_urls: Vec<String>,
}

impl RouterGuard {
    /// The event identifiers already handled.
    pub closed spec fn seen(&self) -> Set<Seq<char>> {
        text_set(self.seen_events@)
    }

    /// The fingerprints of links being routed.
    pub closed spec fn in_flight(&self) -> Set<Seq<char>> {
        text_set(self.in_flight_urls@)
    }

    /// A guard that has seen nothing.
    pub fn new() -> (r: Self)
        ensures
            r.seen() == Set::<Seq<char>>::empty(),
            r.in_flight() == Set::<Seq<char>>::empty(),
    {
        let r = RouterGuard { seen_events: Vec::new(), in_flight_urls: Vec::new() };
        assert(r.seen() =~= Set::<Seq<char>>::empty());
        assert(r.in_flight() =~= Set::<Seq<char>>::empty());
        r
    }

    /// Whether the event was already handled.
    pub fn is_duplicate(&self, event_id: &str) -> (r: bool)
        ensures
            r == self.seen().contains(event_id@),
    {
        text_list_holds(&self.seen_events, event_id)
    }

    /// Records the event as handled.
    pub fn mark_seen(&mut self, event_id: &str)
        ensures
            final(self).seen() == old(self).seen().insert(event_id@),
            final(self).in_flight() == old(self).in_flight(),
    {
        insert_text(&mut self.seen_events, event_id);
    }

    /// Starts routing the link; false where it is already being routed.
    pub fn begin_route(&mut self, url_fingerprint: &str) -> (r: bool)
        ensures
            r == !old(self).in_flight().contains(url_fingerprint@),
            final(self).in_flight() == old(self).in_flight().insert(url_fingerprint@),
            final(self).seen() == old(self).seen(),
    {
        insert_text(&mut self.in_flight_urls, url_fingerprint)
    }

    /// Finishes routing the link.
    pub fn end_route(&mut self, url_fingerprint: &str)
        ensures
            final(self).in_flight() == old(self).in_flight().remove(url_fingerprint@),
            final(self).seen() == old(self).seen(),
    {
        drop_text(&mut self.in_flight_urls, url_fingerprint);
    }

    /// Whether the link is being routed.
    pub fn is_in_flight(&self, url_fingerprint: &str) -> (r: bool)
        ensures
            r == self.in_flight().contains(url_fingerprint@),
    {
        text_list_holds(&self.in_flight_urls, url_fingerprint)
    }
}

/// A link that is not being routed can be routed once; beginning it again
/// is refused until it ends, and ending it leaves the guard as before.
pub proof fn law_route_guard_round_trip(in_flight: Set<Seq<char>>, fingerprint: Seq<char>)
    requires
        !in_flight.contains(fingerprint),
    ensures
        in_flight.insert(fingerprint).contains(fingerprint),
        in_flight.insert(fingerprint).remove(fingerprint) == in_flight,
{
    assert(in_flight.insert(fingerprint).remove(fingerprint) =~= in_flight);
}

} // verus!
