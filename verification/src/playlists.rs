use vstd::prelude::*;
use crate::art::ArtState;
use crate::playback::{CondensedPlaylist, TrackId, lemma_first_exists, url_of};
use crate::text::{chars_less, chars_le, str_less, lemma_chars_less_total, lemma_chars_less_transitive};

verus! {

/// The name of the rating playlist for rating index `index`: `"0.5"` for
/// index 0 up to `"5.0"` for index 9.
pub open spec fn rating_name(index: int) -> Seq<char> {
    let halves = index + 1;
    let whole = halves / 2;
    seq![('0' as int + whole) as char, '.', if halves % 2 == 0 { '0' } else { '5' }]
}

fn rating_name_of(index: usize) -> (name: String)
    requires
        index < 10,
    ensures
        name@ == rating_name(index as int),
{
    let halves = index + 1;
    let whole = (halves / 2) as u32;
    let digit: char = match whole {
        0 => '0',
        1 => '1',
        2 => '2',
        3 => '3',
        4 => '4',
        _ => '5',
    };
    let mut name = String::new();
    crate::text::push_char(&mut name, digit);
    crate::text::push_char(&mut name, '.');
    crate::text::push_char(&mut name, if halves % 2 == 0 { '0' } else { '5' });
    proof {
        assert(digit == ('0' as int + whole) as char);
        assert(name@ =~= rating_name(index as int));
    }
    name
}

/// The rating a playlist named `name` stands for, when ratings are enabled:
/// the position of its name among the rating playlists.
pub fn rating_index(enabled: bool, name: &String) -> (index: Option<u8>)
    ensures
        match index {
            Some(i) => enabled && i < 10 && rating_name(i as int) == name@,
            None => !enabled || forall|i: int| 0 <= i < 10 ==> rating_name(i) != name@,
        },
{
    if !enabled {
        return None;
    }
    let mut i: usize = 0;
    while i < 10
        invariant
            0 <= i <= 10,
            enabled,
            forall|k: int| 0 <= k < i ==> rating_name(k) != name@,
        decreases 10 - i,
    {
        if rating_name_of(i) == *name {
            return Some(i as u8);
        }
        i += 1;
    }
    None
}

impl CondensedPlaylist {
    /// No track occurs twice.
    pub open spec fn wf(&self) -> bool {
        self.tracks@.no_duplicates()
    }

    /// Whether the playlist holds the track.
    pub fn contains(&self, track: TrackId) -> (found: bool)
        ensures
            found == self.tracks@.contains(track),
    {
        let mut i: usize = 0;
        while i < self.tracks.len()
            invariant
                0 <= i <= self.tracks@.len(),
                forall|k: int| 0 <= k < i ==> self.tracks@[k] != track,
            decreases self.tracks@.len() - i,
        {
            if self.tracks[i].0 == track.0 {
                return true;
            }
            i += 1;
        }
        false
    }

    /// Adds the track to the playlist or removes it from it, and says whether
    /// that changed the playlist.
    pub fn set_membership(&mut self, track: TrackId, add: bool) -> (changed: bool)
        requires
            old(self).wf(),
        ensures
            final(self).wf(),
            changed == (old(self).tracks@.contains(track) != add),
            final(self).tracks@.to_set() == if add {
                old(self).tracks@.to_set().insert(track)
            } else {
                old(self).tracks@.to_set().remove(track)
            },
            final(self).id == old(self).id,
            final(self).name == old(self).name,
            final(self).image_url == old(self).image_url,
            final(self).rating_index == old(self).rating_index,
            final(self).art == old(self).art,
    {
        let mut i: usize = 0;
        while i < self.tracks.len()
            invariant
                0 <= i <= self.tracks@.len(),
                *self == *old(self),
                old(self).wf(),
                forall|k: int| 0 <= k < i ==> self.tracks@[k] != track,
            decreases self.tracks@.len() - i,
        {
            if self.tracks[i].0 == track.0 {
                assert(self.tracks@[i as int] == track);
                if add {
                    assert(self.tracks@.to_set() =~= self.tracks@.to_set().insert(track));
                    return false;
                }
                let ghost before = self.tracks@;
                self.tracks.remove(i);
                proof {
                    let after = self.tracks@;
                    assert(after =~= before.remove(i as int));
                    assert forall|a: int, b: int| 0 <= a < after.len() && 0 <= b < after.len() && a != b
                        implies #[trigger] after[a] != #[trigger] after[b] by {
                        let ia = if a < i { a } else { a + 1 };
                        let ib = if b < i { b } else { b + 1 };
                        assert(after[a] == before[ia] && after[b] == before[ib]);
                    }
                    assert forall|x: TrackId| #[trigger] after.contains(x) <==> (before.contains(x) && x
                        != track) by {
                        if after.contains(x) {
                            let k = choose|k: int| 0 <= k < after.len() && after[k] == x;
                            if k < i {
                                assert(before[k] == x);
                            } else {
                                assert(before[k + 1] == x);
                            }
                        }
                        if before.contains(x) && x != track {
                            let k = choose|k: int| 0 <= k < before.len() && before[k] == x;
                            if k < i {
                                assert(after[k] == x);
                            } else {
                                assert(after[k - 1] == x);
                            }
                        }
                    }
                    assert(after.to_set() =~= before.to_set().remove(track));
                }
                return true;
            }
            i += 1;
        }
        assert(!self.tracks@.contains(track));
        if add {
            let ghost before = self.tracks@;
            self.tracks.push(track);
            proof {
                let after = self.tracks@;
                assert forall|a: int, b: int| 0 <= a < after.len() && 0 <= b < after.len() && a != b
                    implies #[trigger] after[a] != #[trigger] after[b] by {
                    if a < before.len() && b < before.len() {
                        assert(after[a] == before[a] && after[b] == before[b]);
                    } else if a < before.len() {
                        assert(after[a] == before[a]);
                    } else {
                        assert(after[b] == before[b]);
                    }
                }
                assert forall|x: TrackId| #[trigger] after.contains(x) <==> (before.contains(x) || x
                    == track) by {
                    if after.contains(x) {
                        let k = choose|k: int| 0 <= k < after.len() && after[k] == x;
                        if k < before.len() {
                            assert(before[k] == x);
                        }
                    }
                    if before.contains(x) {
                        let k = choose|k: int| 0 <= k < before.len() && before[k] == x;
                        assert(after[k] == x);
                    }
                    if x == track {
                        assert(after[before.len() as int] == x);
                    }
                }
                assert(after.to_set() =~= before.to_set().insert(track));
            }
            true
        } else {
            assert(self.tracks@.to_set() =~= self.tracks@.to_set().remove(track));
            false
        }
    }
}

/// Whether the playlists are in name order.
pub open spec fn sorted_by_name(playlists: Seq<CondensedPlaylist>) -> bool {
    forall|i: int, j: int| 0 <= i < j < playlists.len() ==> chars_le(#[trigger] playlists[i].name@, #[trigger] playlists[j].name@)
}

/// The playlists after the bar learns of `update`: it replaces the playlist
/// with its ID (keeping that playlist's art when the image did not change),
/// or joins the end.
pub open spec fn with_update(playlists: Seq<CondensedPlaylist>, update: CondensedPlaylist) -> Seq<CondensedPlaylist> {
    if exists|i: int| 0 <= i < playlists.len() && #[trigger] playlists[i].id == update.id {
        let i = choose|i: int|
            0 <= i < playlists.len() && playlists[i].id == update.id && forall|k: int|
                0 <= k < i ==> #[trigger] playlists[k].id != update.id;
        let art = if url_of(playlists[i].image_url) == url_of(update.image_url) {
            playlists[i].art
        } else {
            update.art
        };
        playlists.update(i, CondensedPlaylist { art, ..update })
    } else {
        playlists.push(update)
    }
}

fn image_same(a: &Option<String>, b: &Option<String>) -> (same: bool)
    ensures
        same == (url_of(*a) == url_of(*b)),
{
    match (a, b) {
        (Some(x), Some(y)) => *x == *y,
        (None, None) => true,
        _ => false,
    }
}

/// Inserts `playlist` after every playlist whose name is not greater.
fn insert_sorted(sorted: &mut Vec<CondensedPlaylist>, playlist: CondensedPlaylist)
    requires
        sorted_by_name(old(sorted)@),
    ensures
        sorted_by_name(final(sorted)@),
        final(sorted)@.to_multiset() == old(sorted)@.to_multiset().insert(playlist),
{
    let mut i: usize = 0;
    while i < sorted.len() && !str_less(playlist.name.as_str(), sorted[i].name.as_str())
        invariant
            0 <= i <= sorted@.len(),
            sorted@ == old(sorted)@,
            forall|k: int| 0 <= k < i ==> chars_le(#[trigger] sorted@[k].name@, playlist.name@),
        decreases sorted@.len() - i,
    {
        proof {
            lemma_chars_less_total(playlist.name@, sorted@[i as int].name@);
        }
        i += 1;
    }
    let position = i;
    let ghost before = sorted@;
    sorted.insert(position, playlist);
    proof {
        let after = sorted@;
        assert forall|a: int, b: int| 0 <= a < b < after.len() implies chars_le(
            #[trigger] after[a].name@,
            #[trigger] after[b].name@,
        ) by {
            if a < position && b == position {
            } else if a == position && b > position {
                let x = after[b].name@;
                let y = before[position as int].name@;
                assert(chars_le(y, x));
                if y != x {
                    lemma_chars_less_transitive(playlist.name@, y, x);
                }
            } else if a < position && b > position {
                assert(after[a] == before[a] && after[b] == before[b - 1]);
            } else if a > position {
                assert(after[a] == before[a - 1] && after[b] == before[b - 1]);
            }
        }
        assert(after.remove(position as int) =~= before);
        after.to_multiset_ensures();
        assert(after[position as int] == playlist);
        assert(after.contains(playlist));
        assert(after.to_multiset() =~= before.to_multiset().insert(playlist));
    }
}

proof fn lemma_with_update_at(playlists: Seq<CondensedPlaylist>, update: CondensedPlaylist, index: int)
    requires
        0 <= index < playlists.len(),
        playlists[index].id == update.id,
        forall|k: int| 0 <= k < index ==> #[trigger] playlists[k].id != update.id,
    ensures
        with_update(playlists, update) == playlists.update(
            index,
            CondensedPlaylist {
                art: if url_of(playlists[index].image_url) == url_of(update.image_url) {
                    playlists[index].art
                } else {
                    update.art
                },
                ..update
            },
        ),
{
    let chosen = choose|j: int|
        0 <= j < playlists.len() && playlists[j].id == update.id && forall|k: int|
            0 <= k < j ==> #[trigger] playlists[k].id != update.id;
    assert(0 <= chosen < playlists.len() && playlists[chosen].id == update.id && forall|k: int|
        0 <= k < chosen ==> #[trigger] playlists[k].id != update.id);
    if chosen < index {
        assert(playlists[chosen].id != update.id);
    } else if chosen > index {
        assert(playlists[index].id != update.id);
    }
}

/// The playlists in name order; equal names may come in any order.
fn sort_by_name(unsorted: Vec<CondensedPlaylist>) -> (sorted: Vec<CondensedPlaylist>)
    ensures
        sorted_by_name(sorted@),
        sorted@.to_multiset() == unsorted@.to_multiset(),
{
    let mut sorted: Vec<CondensedPlaylist> = Vec::new();
    let mut rest = unsorted;
    proof {
        sorted@.to_multiset_ensures();
        assert(sorted@.to_multiset() =~= vstd::multiset::Multiset::empty());
        assert(sorted@.to_multiset().add(rest@.to_multiset()) =~= unsorted@.to_multiset());
    }
    while rest.len() > 0
        invariant
            sorted_by_name(sorted@),
            sorted@.to_multiset().add(rest@.to_multiset()) == unsorted@.to_multiset(),
        decreases rest@.len(),
    {
        let ghost before_rest = rest@;
        let last = rest.pop().unwrap();
        proof {
            assert(before_rest == rest@.push(last));
            rest@.to_multiset_ensures();
        }
        insert_sorted(&mut sorted, last);
        proof {
            assert(sorted@.to_multiset().add(rest@.to_multiset()) =~= unsorted@.to_multiset());
        }
    }
    proof {
        rest@.to_multiset_ensures();
        assert(rest@.to_multiset() =~= vstd::multiset::Multiset::empty());
        assert(sorted@.to_multiset() =~= unsorted@.to_multiset());
    }
    sorted
}

/// Recording the same playlist update twice gives what recording it once
/// gives.
pub proof fn playlist_update_is_idempotent(playlists: Seq<CondensedPlaylist>, update: CondensedPlaylist)
    ensures
        with_update(with_update(playlists, update), update) == with_update(playlists, update),
{
    let once = with_update(playlists, update);
    if exists|i: int| 0 <= i < playlists.len() && #[trigger] playlists[i].id == update.id {
        let w = choose|i: int| 0 <= i < playlists.len() && #[trigger] playlists[i].id == update.id;
        let same = |p: CondensedPlaylist| p.id == update.id;
        assert(same(playlists[w]));
        lemma_first_exists(playlists, same, w);
        let i = choose|i: int|
            0 <= i < playlists.len() && playlists[i].id == update.id && forall|k: int|
                0 <= k < i ==> #[trigger] playlists[k].id != update.id;
        assert(forall|k: int| 0 <= k < i ==> !same(#[trigger] playlists[k]));
        lemma_with_update_at(playlists, update, i);
        assert forall|k: int| 0 <= k < i implies #[trigger] once[k].id != update.id by {
            assert(once[k] == playlists[k]);
        }
        lemma_with_update_at(once, update, i);
        assert(with_update(once, update) =~= once);
    } else {
        let n = playlists.len() as int;
        assert(once == playlists.push(update));
        assert forall|k: int| 0 <= k < n implies #[trigger] once[k].id != update.id by {
            assert(once[k] == playlists[k]);
        }
        lemma_with_update_at(once, update, n);
        assert(with_update(once, update) =~= once);
    }
}

/// Records `update` in the playlists the bar shows and keeps them in name
/// order.
pub fn apply_playlist(playlists: &mut Vec<CondensedPlaylist>, update: CondensedPlaylist)
    ensures
        sorted_by_name(final(playlists)@),
        final(playlists)@.to_multiset() == with_update(old(playlists)@, update).to_multiset(),
{
    let mut update = update;
    let ghost original = update;
    let mut found: Option<usize> = None;
    let mut i: usize = 0;
    while i < playlists.len()
        invariant_except_break
            0 <= i <= playlists@.len(),
            found is None,
        invariant
            playlists@ == old(playlists)@,
            forall|k: int| 0 <= k < i ==> #[trigger] playlists@[k].id != update.id,
        ensures
            match found {
                Some(index) => index == i && i < playlists@.len() && playlists@[index as int].id == update.id,
                None => i == playlists@.len(),
            },
        decreases playlists@.len() - i,
    {
        if playlists[i].id.0 == update.id.0 {
            assert(playlists@[i as int].id == update.id);
            found = Some(i);
            break;
        }
        i += 1;
    }
    let ghost merged = with_update(old(playlists)@, original);
    match found {
        Some(index) => {
            proof {
                lemma_with_update_at(playlists@, update, index as int);
            }
            if image_same(&playlists[index].image_url, &update.image_url) {
                let mut previous = ArtState::Missing;
                std::mem::swap(&mut previous, &mut playlists[index].art);
                update.art = previous;
            }
            playlists.set(index, update);
        },
        None => {
            playlists.push(update);
        },
    }
    proof {
        assert(playlists@ =~= merged);
    }
    let mut unsorted: Vec<CondensedPlaylist> = Vec::new();
    std::mem::swap(&mut unsorted, playlists);
    let mut sorted = sort_by_name(unsorted);
    std::mem::swap(playlists, &mut sorted);
}

} // verus!
