use vstd::prelude::*;
use crate::art::ArtState;

verus! {

/// A Spotify track, by the number the client interned its ID under.
#[derive(Clone, Copy, PartialEq, Eq, Structural, Debug)]
pub struct TrackId(pub u64);

/// A Spotify playlist, by the number the client interned its ID under.
#[derive(Clone, Copy, PartialEq, Eq, Structural, Debug)]
pub struct PlaylistId(pub u64);

/// An album, by the number the client interned its ID under.
#[derive(Clone, Copy, PartialEq, Eq, Structural, Debug)]
pub struct AlbumId(pub u64);

/// A track in the play queue. `runtime` is the per-track state that the
/// renderer keeps (layout, animation and audio features); the queue logic
/// only carries it along.
pub struct Track<R> {
    pub id: Option<TrackId>,
    pub name: String,
    pub album_id: Option<AlbumId>,
    pub album_image: Option<String>,
    pub duration_ms: u32,
    pub art: ArtState,
    pub runtime: R,
}

/// A playlist that the bar shows: a favourite or a rating playlist.
pub struct CondensedPlaylist {
    pub id: PlaylistId,
    pub name: String,
    pub image_url: Option<String>,
    /// The tracks in the playlist; no track occurs twice.
    pub tracks: Vec<TrackId>,
    /// For a rating playlist, the rating it stands for (0 is half a star).
    pub rating_index: Option<u8>,
    pub art: ArtState,
}

/// What the bar knows of the Spotify player. Instants are milliseconds on
/// the bar's monotonic clock.
pub struct PlaybackState<R> {
    pub queue: Vec<Track<R>>,
    pub queue_index: usize,
    pub playlists: Vec<CondensedPlaylist>,
    pub playing: bool,
    pub volume: Option<u8>,
    /// Playback position of the current track at `last_progress_update`.
    pub progress_ms: u32,
    pub last_progress_update: u64,
    /// Until this instant the player's reports do not override what the user
    /// just did.
    pub last_interaction: u64,
}

impl<R> PlaybackState<R> {
    /// Records the playback position `progress_ms` as of `now`.
    pub fn update_progress(&mut self, progress_ms: u32, now: u64)
        ensures
            final(self).progress_ms == progress_ms,
            final(self).last_progress_update == now,
            final(self).queue == old(self).queue,
            final(self).queue_index == old(self).queue_index,
            final(self).playlists == old(self).playlists,
            final(self).playing == old(self).playing,
            final(self).volume == old(self).volume,
            final(self).last_interaction == old(self).last_interaction,
    {
        self.progress_ms = progress_ms;
        self.last_progress_update = now;
    }
}

/// The URL of an optional image, as characters.
pub open spec fn url_of(image: Option<String>) -> Option<Seq<char>> {
    match image {
        Some(url) => Some(url@),
        None => None,
    }
}

} // verus!

verus! {

/// Whether two optional track IDs are equal (two missing IDs are equal).
pub fn same_id(a: Option<TrackId>, b: Option<TrackId>) -> (same: bool)
    ensures
        same == (a == b),
{
    match (a, b) {
        (Some(x), Some(y)) => x.0 == y.0,
        (None, None) => true,
        _ => false,
    }
}

/// The first position in `queue` that satisfies `p`, if any.
pub open spec fn first_position<T>(queue: Seq<T>, p: spec_fn(T) -> bool) -> Option<int> {
    if exists|i: int| 0 <= i < queue.len() && p(#[trigger] queue[i]) {
        Some(
            choose|i: int|
                0 <= i < queue.len() && p(queue[i]) && forall|k: int| 0 <= k < i ==> !p(#[trigger] queue[k]),
        )
    } else {
        None
    }
}

/// The first position at or below `index` that satisfies `p` is where
/// `first_position` points.
pub proof fn lemma_first_position<T>(queue: Seq<T>, p: spec_fn(T) -> bool, index: int)
    requires
        0 <= index < queue.len(),
        p(queue[index]),
        forall|k: int| 0 <= k < index ==> !p(#[trigger] queue[k]),
    ensures
        first_position(queue, p) == Some(index),
{
    let chosen = choose|i: int|
        0 <= i < queue.len() && p(queue[i]) && forall|k: int| 0 <= k < i ==> !p(#[trigger] queue[k]);
    assert(0 <= chosen < queue.len() && p(queue[chosen]) && forall|k: int|
        0 <= k < chosen ==> !p(#[trigger] queue[k]));
    if chosen < index {
        assert(!p(queue[chosen]));
    } else if chosen > index {
        assert(!p(queue[index]));
    }
}

/// Whether a track has the given ID.
pub open spec fn has_id<R>(id: TrackId) -> spec_fn(Track<R>) -> bool {
    |t: Track<R>| t.id == Some(id)
}

/// Whether a track has the given name.
pub open spec fn has_name<R>(name: Seq<char>) -> spec_fn(Track<R>) -> bool {
    |t: Track<R>| t.name@ == name
}

/// Where the track with `id`, or else the first track named `name`, stands
/// in the queue.
pub open spec fn track_position<R>(queue: Seq<Track<R>>, id: Option<TrackId>, name: Seq<char>) -> Option<int> {
    let by_id = match id {
        Some(id) => first_position(queue, has_id::<R>(id)),
        None => None,
    };
    match by_id {
        Some(i) => Some(i),
        None => first_position(queue, has_name::<R>(name)),
    }
}

/// Finds the position of the track with `id` in `queue`, falling back to the
/// first track named `name`.
pub fn track_index<R>(queue: &[Track<R>], id: Option<TrackId>, name: &String) -> (index: Option<usize>)
    ensures
        match index {
            Some(i) => track_position(queue@, id, name@) == Some(i as int) && i < queue@.len(),
            None => track_position(queue@, id, name@) is None,
        },
{
    if let Some(wanted) = id {
        let mut i: usize = 0;
        while i < queue.len()
            invariant
                0 <= i <= queue@.len(),
                id == Some(wanted),
                forall|k: int| 0 <= k < i ==> !has_id::<R>(wanted)(#[trigger] queue@[k]),
            decreases queue@.len() - i,
        {
            if same_id(queue[i].id, Some(wanted)) {
                proof {
                    lemma_first_position(queue@, has_id::<R>(wanted), i as int);
                    assert(id == Some(wanted));
                    assert(track_position(queue@, id, name@) == Some(i as int));
                }
                return Some(i);
            }
            i += 1;
        }
    }
    let mut j: usize = 0;
    while j < queue.len()
        invariant
            0 <= j <= queue@.len(),
            forall|k: int| 0 <= k < j ==> !has_name::<R>(name@)(#[trigger] queue@[k]),
            id matches Some(wanted) ==> forall|k: int|
                0 <= k < queue@.len() ==> !has_id::<R>(wanted)(#[trigger] queue@[k]),
        decreases queue@.len() - j,
    {
        if queue[j].name == *name {
            proof {
                lemma_first_position(queue@, has_name::<R>(name@), j as int);
            }
            return Some(j);
        }
        j += 1;
    }
    None
}

} // verus!

verus! {

use crate::art::{AlbumArt, track_ready_for};
use std::sync::Arc;

/// Whether a track has the given optional ID.
pub open spec fn same_id_as<R>(id: Option<TrackId>) -> spec_fn(Track<R>) -> bool {
    |t: Track<R>| t.id == id
}

/// The decoded art of the last track in `queue` that shows `url`.
pub open spec fn last_art_for<R>(queue: Seq<Track<R>>, url: Seq<char>) -> Option<Arc<AlbumArt>> {
    if exists|i: int| 0 <= i < queue.len() && track_ready_for(#[trigger] queue[i], url) {
        let i = choose|i: int|
            0 <= i < queue.len() && track_ready_for(queue[i], url) && forall|k: int|
                i < k < queue.len() ==> !track_ready_for(#[trigger] queue[k], url);
        Some(queue[i].art->Ready_0)
    } else {
        None
    }
}

/// Art for a track that did not match any old track: the decoded art that
/// the old queue held for its image, if any.
pub open spec fn fallback_art<R>(old: Seq<Track<R>>, track: Track<R>) -> Option<Arc<AlbumArt>> {
    match track.album_image {
        Some(url) => last_art_for(old, url@),
        None => None,
    }
}

/// One step of merging a fresh queue track: it takes over the art and the
/// render state of the first remaining old track with the same ID, which then
/// leaves the remaining tracks (its place taken by the last one); without
/// such a track it takes decoded art that the old queue held for its image.
pub open spec fn adopt<R>(remaining: Seq<Track<R>>, old: Seq<Track<R>>, track: Track<R>) -> (Track<R>, Seq<
    Track<R>,
>) {
    match first_position(remaining, same_id_as::<R>(track.id)) {
        Some(i) => (
            Track { art: remaining[i].art, runtime: remaining[i].runtime, ..track },
            remaining.update(i, remaining.last()).drop_last(),
        ),
        None => (
            match fallback_art(old, track) {
                Some(art) => Track { art: crate::art::ArtState::Ready(art), ..track },
                None => track,
            },
            remaining,
        ),
    }
}

/// The fresh tracks, merged in order against the remaining old tracks.
pub open spec fn adopt_all<R>(remaining: Seq<Track<R>>, old: Seq<Track<R>>, tracks: Seq<Track<R>>) -> Seq<
    Track<R>,
>
    decreases tracks.len(),
{
    if tracks.len() == 0 {
        Seq::empty()
    } else {
        let (first, rest) = adopt(remaining, old, tracks[0]);
        seq![first] + adopt_all(rest, old, tracks.drop_first())
    }
}

/// How many old tracks precede the current track, when the context is kept.
pub open spec fn history_length<R>(old: Seq<Track<R>>, current: Track<R>, context_updated: bool) -> int {
    if context_updated {
        0
    } else {
        match track_position(old, current.id, current.name@) {
            Some(i) => i,
            None => 0,
        }
    }
}

/// The first old track kept as history.
pub open spec fn history_start(history_len: int, max_history: int) -> int {
    if history_len > max_history {
        history_len - max_history
    } else {
        0
    }
}

/// Where some element satisfies `p`, a first one does.
pub proof fn lemma_first_exists<T>(queue: Seq<T>, p: spec_fn(T) -> bool, i: int)
    requires
        0 <= i < queue.len(),
        p(queue[i]),
    ensures
        exists|j: int| 0 <= j < queue.len() && p(queue[j]) && forall|k: int| 0 <= k < j ==> !p(#[trigger] queue[k]),
    decreases i,
{
    if exists|k: int| 0 <= k < i && p(#[trigger] queue[k]) {
        let k = choose|k: int| 0 <= k < i && p(#[trigger] queue[k]);
        lemma_first_exists(queue, p, k);
    } else {
        assert(forall|k: int| 0 <= k < i ==> !p(#[trigger] queue[k]));
    }
}

/// `first_position` finds a position exactly when one satisfies `p`, and
/// the one it finds satisfies `p`, with none before it.
pub proof fn lemma_first_position_found<T>(queue: Seq<T>, p: spec_fn(T) -> bool)
    ensures
        (exists|i: int| 0 <= i < queue.len() && p(#[trigger] queue[i])) == (first_position(queue, p) is Some),
        first_position(queue, p) matches Some(i) ==> {
            &&& 0 <= i < queue.len()
            &&& p(queue[i])
            &&& forall|k: int| 0 <= k < i ==> !p(#[trigger] queue[k])
        },
{
    if exists|i: int| 0 <= i < queue.len() && p(#[trigger] queue[i]) {
        let w = choose|i: int| 0 <= i < queue.len() && p(#[trigger] queue[i]);
        lemma_first_exists(queue, p, w);
    }
}

/// A position that `first_position` finds lies in the sequence.
proof fn lemma_first_position_bounded<T>(queue: Seq<T>, p: spec_fn(T) -> bool)
    ensures
        first_position(queue, p) matches Some(i) ==> 0 <= i < queue.len(),
{
    if exists|i: int| 0 <= i < queue.len() && p(#[trigger] queue[i]) {
        let w = choose|i: int| 0 <= i < queue.len() && p(#[trigger] queue[i]);
        lemma_first_exists(queue, p, w);
    }
}

/// A position that `track_position` finds lies in the queue.
proof fn lemma_track_position_bounded<R>(queue: Seq<Track<R>>, id: Option<TrackId>, name: Seq<char>)
    ensures
        track_position(queue, id, name) matches Some(i) ==> 0 <= i < queue.len(),
{
    if let Some(wanted) = id {
        lemma_first_position_bounded(queue, has_id::<R>(wanted));
    }
    lemma_first_position_bounded(queue, has_name::<R>(name));
}

/// The merged fresh tracks keep their IDs and names, in order.
proof fn lemma_adopt_all_keeps_tracks<R>(remaining: Seq<Track<R>>, old: Seq<Track<R>>, tracks: Seq<Track<R>>)
    ensures
        adopt_all(remaining, old, tracks).len() == tracks.len(),
        forall|i: int|
            0 <= i < tracks.len() ==> #[trigger] adopt_all(remaining, old, tracks)[i].id == tracks[i].id
                && adopt_all(remaining, old, tracks)[i].name == tracks[i].name,
    decreases tracks.len(),
{
    if tracks.len() > 0 {
        let (first, rest) = adopt(remaining, old, tracks[0]);
        lemma_adopt_all_keeps_tracks(rest, old, tracks.drop_first());
        assert forall|i: int| 0 <= i < tracks.len() implies #[trigger] adopt_all(remaining, old, tracks)[i].id
            == tracks[i].id && adopt_all(remaining, old, tracks)[i].name == tracks[i].name by {
            if i > 0 {
                assert(adopt_all(remaining, old, tracks)[i] == adopt_all(rest, old, tracks.drop_first())[i - 1]);
                assert(tracks.drop_first()[i - 1] == tracks[i]);
            }
        }
    }
}

/// After a queue update the fresh queue follows at most `max_history`
/// tracks of history in order, and the queue index points at the track that
/// is playing: the first fresh track, with its ID and name.
pub proof fn queue_index_points_at_playing<R>(
    old_queue: Seq<Track<R>>,
    new_queue: Seq<Track<R>>,
    context_updated: bool,
    max_history: int,
)
    requires
        new_queue.len() > 0,
        max_history >= 0,
    ensures
        ({
            let history_len = history_length(old_queue, new_queue[0], context_updated);
            let start = history_start(history_len, max_history);
            let queue = old_queue.subrange(start, history_len) + adopt_all(
                old_queue.skip(history_len),
                old_queue,
                new_queue,
            );
            let index = history_len - start;
            &&& 0 <= index <= max_history
            &&& queue.len() == index + new_queue.len()
            &&& queue[index].id == new_queue[0].id
            &&& queue[index].name == new_queue[0].name
            &&& forall|k: int| 0 <= k < new_queue.len() ==> #[trigger] queue[index + k].id == new_queue[k].id
        }),
{
    let current = new_queue[0];
    let history_len = history_length(old_queue, current, context_updated);
    lemma_track_position_bounded(old_queue, current.id, current.name@);
    assert(0 <= history_len <= old_queue.len());
    let start = history_start(history_len, max_history);
    let fresh = adopt_all(old_queue.skip(history_len), old_queue, new_queue);
    lemma_adopt_all_keeps_tracks(old_queue.skip(history_len), old_queue, new_queue);
    let queue = old_queue.subrange(start, history_len) + fresh;
    let index = history_len - start;
    assert forall|k: int| 0 <= k < new_queue.len() implies #[trigger] queue[index + k].id == new_queue[k].id by {
        assert(queue[index + k] == fresh[k]);
    }
    assert(queue[index] == fresh[0]);
}

/// After a queue update the history is the tracks that directly preceded
/// the playing track in the old queue, as many of them as there were up to
/// `max_history`: when the playing track first appears by its ID at
/// `position` of the old queue and the context is kept, the queue index is
/// the smaller of `position` and `max_history`, and the tracks before it are
/// the old queue's tracks just before `position`, in order. When the context
/// changed, no history is kept.
pub proof fn history_keeps_the_latest_tracks<R>(
    old_queue: Seq<Track<R>>,
    new_queue: Seq<Track<R>>,
    context_updated: bool,
    max_history: int,
    position: int,
)
    requires
        new_queue.len() > 0,
        max_history >= 0,
    ensures
        ({
            let history_len = history_length(old_queue, new_queue[0], context_updated);
            let start = history_start(history_len, max_history);
            let queue = old_queue.subrange(start, history_len) + adopt_all(
                old_queue.skip(history_len),
                old_queue,
                new_queue,
            );
            let index = history_len - start;
            &&& context_updated ==> index == 0
            &&& (!context_updated && new_queue[0].id is Some && 0 <= position < old_queue.len()
                && old_queue[position].id == new_queue[0].id && forall|k: int|
                0 <= k < position ==> #[trigger] old_queue[k].id != new_queue[0].id) ==> {
                &&& index == if position < max_history { position } else { max_history }
                &&& forall|k: int| 0 <= k < index ==> #[trigger] queue[k] == old_queue[position - index + k]
            }
        }),
{
    let current = new_queue[0];
    if !context_updated && current.id is Some && 0 <= position < old_queue.len() && old_queue[position].id
        == current.id && forall|k: int| 0 <= k < position ==> #[trigger] old_queue[k].id != current.id {
        let id = current.id->Some_0;
        assert forall|k: int| 0 <= k < position implies !has_id::<R>(id)(#[trigger] old_queue[k]) by {
            assert(old_queue[k].id != current.id);
        }
        lemma_first_position(old_queue, has_id::<R>(id), position);
        let history_len = history_length(old_queue, current, context_updated);
        assert(history_len == position);
        let start = history_start(history_len, max_history);
        let index = history_len - start;
        let queue = old_queue.subrange(start, history_len) + adopt_all(
            old_queue.skip(history_len),
            old_queue,
            new_queue,
        );
        assert forall|k: int| 0 <= k < index implies #[trigger] queue[k] == old_queue[position - index + k] by {
            assert(queue[k] == old_queue.subrange(start, history_len)[k]);
        }
    }
}

fn fallback_art_for<R>(old: &Vec<Track<R>>, track: &Track<R>) -> (art: Option<Arc<AlbumArt>>)
    ensures
        art == fallback_art(old@, *track),
{
    match &track.album_image {
        None => None,
        Some(url) => {
            let mut i = old.len();
            while i > 0
                invariant
                    0 <= i <= old@.len(),
                    track.album_image == Some(*url),
                    forall|k: int| i <= k < old@.len() ==> !track_ready_for(#[trigger] old@[k], url@),
                decreases i,
            {
                i -= 1;
                if crate::art::image_matches(&old[i].album_image, url) {
                    if let crate::art::ArtState::Ready(art) = &old[i].art {
                        proof {
                            let chosen = choose|j: int|
                                0 <= j < old@.len() && track_ready_for(old@[j], url@) && forall|k: int|
                                    j < k < old@.len() ==> !track_ready_for(#[trigger] old@[k], url@);
                            assert(0 <= chosen < old@.len() && track_ready_for(old@[chosen], url@)
                                && forall|k: int|
                                chosen < k < old@.len() ==> !track_ready_for(#[trigger] old@[k], url@)) by {
                                assert(track_ready_for(old@[i as int], url@));
                            }
                            if chosen < i {
                                assert(!track_ready_for(old@[i as int], url@));
                            } else if chosen > i {
                                assert(!track_ready_for(old@[chosen], url@));
                            }
                        }
                        return Some(crate::art::share_art(art));
                    }
                }
            }
            None
        },
    }
}

} // verus!

verus! {

fn position_of_id<R>(tracks: &Vec<Track<R>>, id: Option<TrackId>) -> (index: Option<usize>)
    ensures
        match index {
            Some(i) => first_position(tracks@, same_id_as::<R>(id)) == Some(i as int) && i < tracks@.len(),
            None => first_position(tracks@, same_id_as::<R>(id)) is None,
        },
{
    let mut i: usize = 0;
    while i < tracks.len()
        invariant
            0 <= i <= tracks@.len(),
            forall|k: int| 0 <= k < i ==> !same_id_as::<R>(id)(#[trigger] tracks@[k]),
        decreases tracks@.len() - i,
    {
        if same_id(tracks[i].id, id) {
            proof {
                lemma_first_position(tracks@, same_id_as::<R>(id), i as int);
            }
            return Some(i);
        }
        i += 1;
    }
    None
}

impl<R> PlaybackState<R> {
    /// Replaces the queue with a freshly fetched one whose first track is the
    /// one playing. Up to `max_history` tracks that preceded the playing
    /// track stay as history (none when the playback context changed); each
    /// fresh track keeps the art and render state of the old track with its
    /// ID, or reuses decoded art of its image; the queue index points at the
    /// playing track.
    pub fn apply_queue(&mut self, new_queue: Vec<Track<R>>, context_updated: bool, max_history: usize)
        requires
            new_queue.len() > 0,
        ensures
            ({
                let old_queue = old(self).queue@;
                let history_len = history_length(old_queue, new_queue@[0], context_updated);
                let start = history_start(history_len, max_history as int);
                &&& final(self).queue@ == old_queue.subrange(start, history_len) + adopt_all(
                    old_queue.skip(history_len),
                    old_queue,
                    new_queue@,
                )
                &&& final(self).queue_index == history_len - start
            }),
            final(self).playlists == old(self).playlists,
            final(self).playing == old(self).playing,
            final(self).volume == old(self).volume,
            final(self).progress_ms == old(self).progress_ms,
            final(self).last_progress_update == old(self).last_progress_update,
            final(self).last_interaction == old(self).last_interaction,
    {
        let ghost old_queue = self.queue@;
        let ghost fresh = new_queue@;
        let mut new_queue = new_queue;
        let mut old_tracks: Vec<Track<R>> = Vec::new();
        std::mem::swap(&mut old_tracks, &mut self.queue);
        // Decoded art each fresh track could reuse, looked up before the old
        // queue is taken apart.
        let mut fallbacks: Vec<Option<Arc<AlbumArt>>> = Vec::new();
        let mut f: usize = 0;
        while f < new_queue.len()
            invariant
                0 <= f <= new_queue@.len(),
                new_queue@ == fresh,
                old_tracks@ == old_queue,
                fallbacks@.len() == f,
                forall|k: int| 0 <= k < f ==> #[trigger] fallbacks@[k] == fallback_art(old_queue, fresh[k]),
            decreases new_queue@.len() - f,
        {
            fallbacks.push(fallback_art_for(&old_tracks, &new_queue[f]));
            f += 1;
        }
        let history_len = if context_updated {
            0
        } else {
            match track_index(&old_tracks, new_queue[0].id, &new_queue[0].name) {
                Some(i) => i,
                None => 0,
            }
        };
        let start = if history_len > max_history { history_len - max_history } else { 0 };
        let mut remaining = old_tracks.split_off(history_len);
        let mut reconciled = old_tracks.split_off(start);
        let retained = reconciled.len();
        let ghost remaining0 = remaining@;
        let ghost kept = reconciled@;
        let ghost mut merged: Seq<Track<R>> = Seq::empty();
        let mut j: usize = 0;
        while new_queue.len() > 0
            invariant
                j + new_queue@.len() == fresh.len(),
                fresh.len() <= usize::MAX,
                new_queue@ == fresh.skip(j as int),
                fallbacks@.len() == fresh.len(),
                forall|k: int| 0 <= k < fresh.len() ==> #[trigger] fallbacks@[k] == fallback_art(old_queue, fresh[k]),
                reconciled@ == kept + merged,
                adopt_all(remaining0, old_queue, fresh) == merged + adopt_all(remaining@, old_queue, new_queue@),
            decreases new_queue@.len(),
        {
            assert(j < fresh.len());
            let mut track = new_queue.remove(0);
            proof {
                assert(fresh.skip(j as int)[0] == fresh[j as int]);
                assert(fresh.skip(j as int).drop_first() =~= fresh.skip(j as int + 1));
            }
            let ghost rem = remaining@;
            let ghost step = adopt(rem, old_queue, track);
            match position_of_id(&remaining, track.id) {
                Some(index) => {
                    let previous = remaining.swap_remove(index);
                    let Track { art, runtime, .. } = previous;
                    track.art = art;
                    track.runtime = runtime;
                },
                None => {
                    let fallback = &fallbacks[j];
                    match fallback {
                        Some(art) => {
                            track.art = crate::art::ArtState::Ready(crate::art::share_art(art));
                        },
                        None => {},
                    }
                },
            }
            proof {
                assert(track == step.0);
                assert(remaining@ == step.1);
                assert(adopt_all(rem, old_queue, fresh.skip(j as int)) == seq![step.0] + adopt_all(
                    step.1,
                    old_queue,
                    fresh.skip(j as int).drop_first(),
                ));
                merged = merged.push(track);
            }
            reconciled.push(track);
            proof {
                assert(seq![step.0] + adopt_all(step.1, old_queue, new_queue@) =~= seq![step.0] + adopt_all(
                    remaining@,
                    old_queue,
                    new_queue@,
                ));
                assert(merged.drop_last() + (seq![step.0] + adopt_all(remaining@, old_queue, new_queue@))
                    =~= merged + adopt_all(remaining@, old_queue, new_queue@));
            }
            j += 1;
        }
        proof {
            assert(fresh.skip(0) =~= fresh);
            assert(adopt_all(remaining@, old_queue, new_queue@) =~= Seq::<Track<R>>::empty());
            assert(merged + Seq::<Track<R>>::empty() =~= merged);
            assert(remaining0 == old_queue.skip(history_len as int));
            assert(kept == old_queue.subrange(start as int, history_len as int));
        }
        self.queue = reconciled;
        self.queue_index = retained;
    }
}

} // verus!
