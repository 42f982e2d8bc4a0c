use vstd::prelude::*;
use std::sync::Arc;
use crate::playback::{PlaybackState, url_of};

verus! {

/// Number of palette swatches of a piece of album art.
pub const NUM_SWATCHES: usize = 4;

/// Decoded album art: RGBA pixels and its palette.
pub struct AlbumArt {
    /// A number that identifies this decoded image for the texture atlas.
    pub key: u64,
    /// RGBA image pixels.
    pub pixels: Vec<u8>,
    /// RGB swatches with their relative influence packed into alpha.
    pub palette: [u32; NUM_SWATCHES],
}

/// Where a slot's album art stands.
pub enum ArtState {
    Missing,
    Fetching,
    /// The last download failed; retry once the clock passes this time (ms).
    RetryAt(u64),
    Ready(Arc<AlbumArt>),
}

/// A second handle to the same decoded art.
///
/// Calls `Arc::clone`, which gives a pointer to the same allocation, so the
/// handle's value is the art it was cloned from.
#[verifier::external_body]
pub(crate) fn share_art(art: &Arc<AlbumArt>) -> (shared: Arc<AlbumArt>)
    ensures
        shared == *art,
{
    Arc::clone(art)
}

impl ArtState {
    /// Whether this slot should start a download at time `now`.
    pub open spec fn should_fetch(&self, now: u64) -> bool {
        match self {
            ArtState::Missing => true,
            ArtState::RetryAt(at) => *at <= now,
            _ => false,
        }
    }

    /// The same state again; ready art is shared, not copied.
    pub fn duplicate(&self) -> (copy: ArtState)
        ensures
            copy == *self,
    {
        match self {
            ArtState::Missing => ArtState::Missing,
            ArtState::Fetching => ArtState::Fetching,
            ArtState::RetryAt(at) => ArtState::RetryAt(*at),
            ArtState::Ready(art) => ArtState::Ready(share_art(art)),
        }
    }

    /// The decoded art, once it is ready.
    pub fn ready(&self) -> (art: Option<&Arc<AlbumArt>>)
        ensures
            match self {
                ArtState::Ready(a) => art == Some(a),
                _ => art is None,
            },
    {
        match self {
            ArtState::Ready(art) => Some(art),
            _ => None,
        }
    }

    /// The palette of ready art, or all zeros.
    pub fn palette(&self) -> (palette: [u32; NUM_SWATCHES])
        ensures
            match self {
                ArtState::Ready(a) => palette == a.palette,
                _ => palette@ == seq![0u32, 0u32, 0u32, 0u32],
            },
    {
        match self.ready() {
            Some(art) => art.palette,
            None => [0u32; NUM_SWATCHES],
        }
    }

    /// Whether the art is missing, or its retry time has come.
    pub fn needs_fetch(&self, now: u64) -> (needed: bool)
        ensures
            needed == self.should_fetch(now),
    {
        match self {
            ArtState::Missing => true,
            ArtState::RetryAt(at) => *at <= now,
            _ => false,
        }
    }
}

/// The URL to download for a slot in `state` that shows the image at `url`,
/// if the slot needs it now.
pub fn art_request(state: &ArtState, url: Option<&str>, now: u64) -> (request: Option<String>)
    ensures
        match request {
            Some(r) => state.should_fetch(now) && (url matches Some(u) && r@ == u@),
            None => !state.should_fetch(now) || url is None,
        },
{
    if state.needs_fetch(now) {
        match url {
            Some(u) => Some(u.to_owned()),
            None => None,
        }
    } else {
        None
    }
}

} // verus!

verus! {

use crate::playback::{Track, CondensedPlaylist};

/// Whether the optional image URL is `url`.
pub open spec fn image_is(image: Option<String>, url: Seq<char>) -> bool {
    image matches Some(x) && x@ == url
}

/// Whether a queue track shows the image at `url` and holds it decoded.
pub open spec fn track_ready_for<R>(track: Track<R>, url: Seq<char>) -> bool {
    image_is(track.album_image, url) && track.art is Ready
}

/// Whether a playlist shows the image at `url` and holds it decoded.
pub open spec fn playlist_ready_for(playlist: CondensedPlaylist, url: Seq<char>) -> bool {
    image_is(playlist.image_url, url) && playlist.art is Ready
}

/// The first queue position that holds decoded art for `url`.
pub open spec fn first_ready_track<R>(queue: Seq<Track<R>>, url: Seq<char>) -> int {
    choose|i: int|
        0 <= i < queue.len() && track_ready_for(queue[i], url) && forall|k: int|
            0 <= k < i ==> !track_ready_for(#[trigger] queue[k], url)
}

/// The first playlist that holds decoded art for `url`.
pub open spec fn first_ready_playlist(playlists: Seq<CondensedPlaylist>, url: Seq<char>) -> int {
    choose|i: int|
        0 <= i < playlists.len() && playlist_ready_for(playlists[i], url) && forall|k: int|
            0 <= k < i ==> !playlist_ready_for(#[trigger] playlists[k], url)
}

/// The decoded art that the first slot showing `url` holds, searching the
/// queue first and then the playlists.
pub open spec fn first_ready<R>(state: PlaybackState<R>, url: Seq<char>) -> Option<Arc<AlbumArt>> {
    if exists|i: int| 0 <= i < state.queue.len() && track_ready_for(#[trigger] state.queue@[i], url) {
        Some(state.queue@[first_ready_track(state.queue@, url)].art->Ready_0)
    } else if exists|i: int|
        0 <= i < state.playlists.len() && playlist_ready_for(#[trigger] state.playlists@[i], url) {
        Some(state.playlists@[first_ready_playlist(state.playlists@, url)].art->Ready_0)
    } else {
        None
    }
}

/// Whether some slot showing `url` needs its art fetched at `now`.
pub open spec fn url_needs_fetch<R>(state: PlaybackState<R>, url: Seq<char>, now: u64) -> bool {
    ||| exists|i: int|
        0 <= i < state.queue.len() && image_is(#[trigger] state.queue@[i].album_image, url)
            && state.queue@[i].art.should_fetch(now)
    ||| exists|i: int|
        0 <= i < state.playlists.len() && image_is(#[trigger] state.playlists@[i].image_url, url)
            && state.playlists@[i].art.should_fetch(now)
}

/// The state every slot showing `url` takes when its art is requested: art
/// that another slot already holds, or a fetch in flight.
pub open spec fn requested_state<R>(state: PlaybackState<R>, url: Seq<char>) -> ArtState {
    match first_ready(state, url) {
        Some(art) => ArtState::Ready(art),
        None => ArtState::Fetching,
    }
}

/// The art a slot showing `image` has after all missing art was requested.
pub open spec fn settled_art<R>(
    before: PlaybackState<R>,
    image: Option<String>,
    art: ArtState,
    now: u64,
) -> ArtState {
    match image {
        Some(url) => if url_needs_fetch(before, url@, now) {
            requested_state(before, url@)
        } else {
            art
        },
        None => art,
    }
}

/// Every image URL that some slot shows.
pub open spec fn shown_urls<R>(state: PlaybackState<R>) -> Set<Seq<char>> {
    Set::new(
        |url: Seq<char>|
            (exists|i: int| 0 <= i < state.queue.len() && image_is(#[trigger] state.queue@[i].album_image, url))
                || (exists|i: int|
                0 <= i < state.playlists.len() && image_is(#[trigger] state.playlists@[i].image_url, url)),
    )
}

pub(crate) fn image_matches(image: &Option<String>, url: &String) -> (matches: bool)
    ensures
        matches == image_is(*image, url@),
{
    match image {
        Some(x) => *x == *url,
        None => false,
    }
}

impl<R> PlaybackState<R> {
    /// Sets the art of every slot that shows `url` to `state`.
    pub fn set_art_state(&mut self, url: &String, state: &ArtState)
        ensures
            final(self).queue.len() == old(self).queue.len(),
            final(self).playlists.len() == old(self).playlists.len(),
            final(self).queue_index == old(self).queue_index,
            final(self).playing == old(self).playing,
            final(self).volume == old(self).volume,
            final(self).progress_ms == old(self).progress_ms,
            final(self).last_progress_update == old(self).last_progress_update,
            final(self).last_interaction == old(self).last_interaction,
            forall|i: int|
                0 <= i < old(self).queue.len() ==> #[trigger] final(self).queue@[i] == (Track {
                    art: if image_is(old(self).queue@[i].album_image, url@) {
                        *state
                    } else {
                        old(self).queue@[i].art
                    },
                    ..old(self).queue@[i]
                }),
            forall|i: int|
                0 <= i < old(self).playlists.len() ==> #[trigger] final(self).playlists@[i] == (
                CondensedPlaylist {
                    art: if image_is(old(self).playlists@[i].image_url, url@) {
                        *state
                    } else {
                        old(self).playlists@[i].art
                    },
                    ..old(self).playlists@[i]
                }),
    {
        let mut i: usize = 0;
        while i < self.queue.len()
            invariant
                0 <= i <= self.queue.len(),
                self.queue.len() == old(self).queue.len(),
                self.playlists == old(self).playlists,
                self.queue_index == old(self).queue_index,
                self.playing == old(self).playing,
                self.volume == old(self).volume,
                self.progress_ms == old(self).progress_ms,
                self.last_progress_update == old(self).last_progress_update,
                self.last_interaction == old(self).last_interaction,
                forall|k: int| i <= k < self.queue.len() ==> #[trigger] self.queue@[k] == old(self).queue@[k],
                forall|k: int|
                    0 <= k < i ==> #[trigger] self.queue@[k] == (Track {
                        art: if image_is(old(self).queue@[k].album_image, url@) {
                            *state
                        } else {
                            old(self).queue@[k].art
                        },
                        ..old(self).queue@[k]
                    }),
            decreases self.queue.len() - i,
        {
            if image_matches(&self.queue[i].album_image, url) {
                self.queue[i].art = state.duplicate();
            }
            i += 1;
        }
        let mut j: usize = 0;
        while j < self.playlists.len()
            invariant
                0 <= j <= self.playlists.len(),
                self.playlists.len() == old(self).playlists.len(),
                self.queue.len() == old(self).queue.len(),
                self.queue_index == old(self).queue_index,
                self.playing == old(self).playing,
                self.volume == old(self).volume,
                self.progress_ms == old(self).progress_ms,
                self.last_progress_update == old(self).last_progress_update,
                self.last_interaction == old(self).last_interaction,
                forall|k: int|
                    0 <= k < self.queue.len() ==> #[trigger] self.queue@[k] == (Track {
                        art: if image_is(old(self).queue@[k].album_image, url@) {
                            *state
                        } else {
                            old(self).queue@[k].art
                        },
                        ..old(self).queue@[k]
                    }),
                forall|k: int|
                    j <= k < self.playlists.len() ==> #[trigger] self.playlists@[k] == old(
                        self,
                    ).playlists@[k],
                forall|k: int|
                    0 <= k < j ==> #[trigger] self.playlists@[k] == (CondensedPlaylist {
                        art: if image_is(old(self).playlists@[k].image_url, url@) {
                            *state
                        } else {
                            old(self).playlists@[k].art
                        },
                        ..old(self).playlists@[k]
                    }),
            decreases self.playlists.len() - j,
        {
            if image_matches(&self.playlists[j].image_url, url) {
                self.playlists[j].art = state.duplicate();
            }
            j += 1;
        }
    }
}

} // verus!

verus! {

/// Number of items of `items` that satisfy `p`.
pub open spec fn count_where<T>(items: Seq<T>, p: spec_fn(T) -> bool) -> nat
    decreases items.len(),
{
    if items.len() == 0 {
        0
    } else {
        count_where(items.drop_last(), p) + if p(items.last()) {
            1nat
        } else {
            0nat
        }
    }
}

/// When `after` satisfies `p` only where `before` does, it has no more such
/// items, and strictly fewer when one item stopped satisfying it.
pub proof fn lemma_count_where_shrinks<T>(before: Seq<T>, after: Seq<T>, p: spec_fn(T) -> bool)
    requires
        before.len() == after.len(),
        forall|i: int| 0 <= i < after.len() && #[trigger] p(after[i]) ==> p(before[i]),
    ensures
        count_where(after, p) <= count_where(before, p),
        (exists|i: int| 0 <= i < before.len() && p(before[i]) && !p(after[i])) ==> count_where(after, p)
            < count_where(before, p),
    decreases before.len(),
{
    if before.len() > 0 {
        let b = before.drop_last();
        let a = after.drop_last();
        assert forall|i: int| 0 <= i < a.len() && #[trigger] p(a[i]) implies p(b[i]) by {
            assert(a[i] == after[i] && b[i] == before[i]);
        }
        lemma_count_where_shrinks(b, a, p);
        if exists|i: int| 0 <= i < before.len() && p(before[i]) && !p(after[i]) {
            let i = choose|i: int| 0 <= i < before.len() && p(before[i]) && !p(after[i]);
            if i < before.len() - 1 {
                assert(b[i] == before[i] && a[i] == after[i]);
            }
        }
    }
}

/// Whether a queue track needs its art fetched.
pub open spec fn track_needs_art<R>(now: u64) -> spec_fn(Track<R>) -> bool {
    |t: Track<R>| t.album_image is Some && t.art.should_fetch(now)
}

/// Whether a playlist needs its art fetched.
pub open spec fn playlist_needs_art(now: u64) -> spec_fn(CondensedPlaylist) -> bool {
    |p: CondensedPlaylist| p.image_url is Some && p.art.should_fetch(now)
}

/// A first queue position with decoded art for `url`, below or at `index`.
proof fn lemma_first_ready_track_exists<R>(queue: Seq<Track<R>>, url: Seq<char>, index: int) -> (first: int)
    requires
        0 <= index < queue.len(),
        track_ready_for(queue[index], url),
    ensures
        0 <= first <= index,
        track_ready_for(queue[first], url),
        forall|k: int| 0 <= k < first ==> !track_ready_for(#[trigger] queue[k], url),
        first == first_ready_track(queue, url),
    decreases index,
{
    if exists|k: int| 0 <= k < index && track_ready_for(queue[k], url) {
        let k = choose|k: int| 0 <= k < index && track_ready_for(queue[k], url);
        lemma_first_ready_track_exists(queue, url, k)
    } else {
        let chosen = first_ready_track(queue, url);
        assert(0 <= chosen < queue.len() && track_ready_for(queue[chosen], url) && forall|k: int|
            0 <= k < chosen ==> !track_ready_for(#[trigger] queue[k], url));
        if chosen < index {
            assert(false);
        } else if chosen > index {
            assert(!track_ready_for(queue[index], url));
        }
        index
    }
}

/// A first playlist with decoded art for `url`, below or at `index`.
proof fn lemma_first_ready_playlist_exists(
    playlists: Seq<CondensedPlaylist>,
    url: Seq<char>,
    index: int,
) -> (first: int)
    requires
        0 <= index < playlists.len(),
        playlist_ready_for(playlists[index], url),
    ensures
        0 <= first <= index,
        playlist_ready_for(playlists[first], url),
        forall|k: int| 0 <= k < first ==> !playlist_ready_for(#[trigger] playlists[k], url),
        first == first_ready_playlist(playlists, url),
    decreases index,
{
    if exists|k: int| 0 <= k < index && playlist_ready_for(playlists[k], url) {
        let k = choose|k: int| 0 <= k < index && playlist_ready_for(playlists[k], url);
        lemma_first_ready_playlist_exists(playlists, url, k)
    } else {
        let chosen = first_ready_playlist(playlists, url);
        assert(0 <= chosen < playlists.len() && playlist_ready_for(playlists[chosen], url) && forall|
            k: int,
        | 0 <= k < chosen ==> !playlist_ready_for(#[trigger] playlists[k], url));
        if chosen < index {
            assert(false);
        } else if chosen > index {
            assert(!playlist_ready_for(playlists[index], url));
        }
        index
    }
}

/// Two states whose slots agree on the art they hold for `url` agree on the
/// first decoded art for it.
proof fn lemma_first_ready_agrees<R>(a: PlaybackState<R>, b: PlaybackState<R>, url: Seq<char>)
    requires
        a.queue.len() == b.queue.len(),
        a.playlists.len() == b.playlists.len(),
        forall|i: int|
            0 <= i < a.queue.len() ==> (track_ready_for(#[trigger] a.queue@[i], url) == track_ready_for(
                b.queue@[i],
                url,
            )) && (track_ready_for(a.queue@[i], url) ==> a.queue@[i].art == b.queue@[i].art),
        forall|i: int|
            0 <= i < a.playlists.len() ==> (playlist_ready_for(#[trigger] a.playlists@[i], url)
                == playlist_ready_for(b.playlists@[i], url)) && (playlist_ready_for(a.playlists@[i], url)
                ==> a.playlists@[i].art == b.playlists@[i].art),
    ensures
        first_ready(a, url) == first_ready(b, url),
{
    if exists|i: int| 0 <= i < a.queue.len() && track_ready_for(#[trigger] a.queue@[i], url) {
        let i = choose|i: int| 0 <= i < a.queue.len() && track_ready_for(#[trigger] a.queue@[i], url);
        assert(track_ready_for(b.queue@[i], url));
        let fa = lemma_first_ready_track_exists(a.queue@, url, i);
        let fb = lemma_first_ready_track_exists(b.queue@, url, i);
        if fa < fb {
            assert(track_ready_for(b.queue@[fa], url));
        } else if fb < fa {
            assert(track_ready_for(a.queue@[fb], url));
        }
    } else if exists|i: int| 0 <= i < a.playlists.len() && playlist_ready_for(#[trigger] a.playlists@[i], url) {
        assert forall|i: int| 0 <= i < b.queue.len() implies !track_ready_for(#[trigger] b.queue@[i], url) by {
            assert(!track_ready_for(a.queue@[i], url));
        }
        let i = choose|i: int| 0 <= i < a.playlists.len() && playlist_ready_for(#[trigger] a.playlists@[i], url);
        assert(playlist_ready_for(b.playlists@[i], url));
        let fa = lemma_first_ready_playlist_exists(a.playlists@, url, i);
        let fb = lemma_first_ready_playlist_exists(b.playlists@, url, i);
        if fa < fb {
            assert(playlist_ready_for(b.playlists@[fa], url));
        } else if fb < fa {
            assert(playlist_ready_for(a.playlists@[fb], url));
        }
    } else {
        assert forall|i: int| 0 <= i < b.queue.len() implies !track_ready_for(#[trigger] b.queue@[i], url) by {
            assert(!track_ready_for(a.queue@[i], url));
        }
        assert forall|i: int| 0 <= i < b.playlists.len() implies !playlist_ready_for(
            #[trigger] b.playlists@[i],
            url,
        ) by {
            assert(!playlist_ready_for(a.playlists@[i], url));
        }
    }
}

impl<R> PlaybackState<R> {
    /// The URL of the first slot, queue first, whose art should be fetched now.
    fn find_needing(&self, now: u64) -> (url: Option<String>)
        ensures
            match url {
                Some(u) => url_needs_fetch(*self, u@, now),
                None => forall|u: Seq<char>| !url_needs_fetch(*self, u, now),
            },
    {
        let mut i: usize = 0;
        while i < self.queue.len()
            invariant
                0 <= i <= self.queue.len(),
                forall|k: int|
                    0 <= k < i ==> !(#[trigger] self.queue@[k].album_image is Some && self.queue@[k].art.should_fetch(
                        now,
                    )),
            decreases self.queue.len() - i,
        {
            if self.queue[i].art.needs_fetch(now) {
                match &self.queue[i].album_image {
                    Some(url) => {
                        let found = url.clone();
                        assert(image_is(self.queue@[i as int].album_image, found@));
                        return Some(found);
                    },
                    None => {},
                }
            }
            i += 1;
        }
        let mut j: usize = 0;
        while j < self.playlists.len()
            invariant
                0 <= j <= self.playlists.len(),
                forall|k: int|
                    0 <= k < self.queue.len() ==> !(#[trigger] self.queue@[k].album_image is Some
                        && self.queue@[k].art.should_fetch(now)),
                forall|k: int|
                    0 <= k < j ==> !(#[trigger] self.playlists@[k].image_url is Some
                        && self.playlists@[k].art.should_fetch(now)),
            decreases self.playlists.len() - j,
        {
            if self.playlists[j].art.needs_fetch(now) {
                match &self.playlists[j].image_url {
                    Some(url) => {
                        let found = url.clone();
                        assert(image_is(self.playlists@[j as int].image_url, found@));
                        return Some(found);
                    },
                    None => {},
                }
            }
            j += 1;
        }
        None
    }

    /// The first decoded art, queue first, that a slot showing `url` holds.
    fn find_ready(&self, url: &String) -> (art: Option<Arc<AlbumArt>>)
        ensures
            art == first_ready(*self, url@),
    {
        let mut i: usize = 0;
        while i < self.queue.len()
            invariant
                0 <= i <= self.queue.len(),
                forall|k: int| 0 <= k < i ==> !track_ready_for(#[trigger] self.queue@[k], url@),
            decreases self.queue.len() - i,
        {
            if image_matches(&self.queue[i].album_image, url) {
                if let ArtState::Ready(art) = &self.queue[i].art {
                    proof {
                        lemma_first_ready_track_exists(self.queue@, url@, i as int);
                    }
                    return Some(share_art(art));
                }
            }
            i += 1;
        }
        let mut j: usize = 0;
        while j < self.playlists.len()
            invariant
                0 <= j <= self.playlists.len(),
                forall|k: int| 0 <= k < self.queue.len() ==> !track_ready_for(#[trigger] self.queue@[k], url@),
                forall|k: int| 0 <= k < j ==> !playlist_ready_for(#[trigger] self.playlists@[k], url@),
            decreases self.playlists.len() - j,
        {
            if image_matches(&self.playlists[j].image_url, url) {
                if let ArtState::Ready(art) = &self.playlists[j].art {
                    proof {
                        lemma_first_ready_playlist_exists(self.playlists@, url@, j as int);
                    }
                    return Some(share_art(art));
                }
            }
            j += 1;
        }
        None
    }
}

} // verus!

verus! {

/// The art of a slot showing `image` once the URLs in `handled` have been
/// requested.
pub open spec fn art_after<R>(
    before: PlaybackState<R>,
    handled: Set<Seq<char>>,
    image: Option<String>,
    art: ArtState,
) -> ArtState {
    match image {
        Some(url) => if handled.contains(url@) {
            requested_state(before, url@)
        } else {
            art
        },
        None => art,
    }
}

/// Whether the downloads requested are exactly the handled URLs that no slot
/// held decoded art for, each once.
pub open spec fn downloads_for<R>(
    before: PlaybackState<R>,
    handled: Set<Seq<char>>,
    downloads: Seq<String>,
) -> bool {
    &&& forall|k: int|
        0 <= k < downloads.len() ==> handled.contains(#[trigger] downloads[k]@) && first_ready(
            before,
            downloads[k]@,
        ) is None
    &&& forall|u: Seq<char>|
        handled.contains(u) && first_ready(before, u) is None ==> exists|k: int|
            0 <= k < downloads.len() && #[trigger] downloads[k]@ == u
    &&& forall|k: int, l: int|
        0 <= k < l < downloads.len() ==> #[trigger] downloads[k]@ != #[trigger] downloads[l]@
}

impl<R> PlaybackState<R> {
    /// Starts the art of every slot that needs it at `now`: a slot whose URL
    /// another slot already holds decoded art for shares that art, and every
    /// other URL is fetched once. Returns the URLs to download, each once; all
    /// slots showing a returned URL are marked as fetching.
    pub fn start_missing_art_downloads(&mut self, now: u64) -> (downloads: Vec<String>)
        ensures
            final(self).queue.len() == old(self).queue.len(),
            final(self).playlists.len() == old(self).playlists.len(),
            final(self).queue_index == old(self).queue_index,
            final(self).playing == old(self).playing,
            final(self).volume == old(self).volume,
            final(self).progress_ms == old(self).progress_ms,
            final(self).last_progress_update == old(self).last_progress_update,
            final(self).last_interaction == old(self).last_interaction,
            forall|i: int|
                0 <= i < old(self).queue.len() ==> #[trigger] final(self).queue@[i] == (Track {
                    art: settled_art(*old(self), old(self).queue@[i].album_image, old(self).queue@[i].art, now),
                    ..old(self).queue@[i]
                }),
            forall|i: int|
                0 <= i < old(self).playlists.len() ==> #[trigger] final(self).playlists@[i] == (
                CondensedPlaylist {
                    art: settled_art(
                        *old(self),
                        old(self).playlists@[i].image_url,
                        old(self).playlists@[i].art,
                        now,
                    ),
                    ..old(self).playlists@[i]
                }),
            forall|k: int|
                0 <= k < downloads.len() ==> url_needs_fetch(*old(self), #[trigger] downloads@[k]@, now)
                    && first_ready(*old(self), downloads@[k]@) is None,
            forall|u: Seq<char>|
                url_needs_fetch(*old(self), u, now) && first_ready(*old(self), u) is None ==> exists|k: int|
                    0 <= k < downloads.len() && #[trigger] downloads@[k]@ == u,
            forall|k: int, l: int|
                0 <= k < l < downloads.len() ==> #[trigger] downloads@[k]@ != #[trigger] downloads@[l]@,
    {
        let ghost before = *self;
        let ghost mut handled: Set<Seq<char>> = Set::empty();
        let mut downloads: Vec<String> = Vec::new();
        loop
            invariant
                self.queue.len() == before.queue.len(),
                self.playlists.len() == before.playlists.len(),
                self.queue_index == before.queue_index,
                self.playing == before.playing,
                self.volume == before.volume,
                self.progress_ms == before.progress_ms,
                self.last_progress_update == before.last_progress_update,
                self.last_interaction == before.last_interaction,
                forall|u: Seq<char>| #[trigger] handled.contains(u) ==> url_needs_fetch(before, u, now),
                forall|i: int|
                    0 <= i < before.queue.len() ==> #[trigger] self.queue@[i] == (Track {
                        art: art_after(before, handled, before.queue@[i].album_image, before.queue@[i].art),
                        ..before.queue@[i]
                    }),
                forall|i: int|
                    0 <= i < before.playlists.len() ==> #[trigger] self.playlists@[i] == (CondensedPlaylist {
                        art: art_after(
                            before,
                            handled,
                            before.playlists@[i].image_url,
                            before.playlists@[i].art,
                        ),
                        ..before.playlists@[i]
                    }),
                downloads_for(before, handled, downloads@),
            ensures
                forall|u: Seq<char>| !url_needs_fetch(*self, u, now),
            decreases count_where(self.queue@, track_needs_art::<R>(now)) + count_where(
                self.playlists@,
                playlist_needs_art(now),
            ),
        {
            let found = self.find_needing(now);
            let url = match found {
                Some(url) => url,
                None => break,
            };
            let ghost current = *self;
            proof {
                // The URL is not handled yet, and before the loop it needed fetching.
                assert(!handled.contains(url@)) by {
                    if handled.contains(url@) {
                        if exists|i: int|
                            0 <= i < current.queue.len() && image_is(#[trigger] current.queue@[i].album_image, url@)
                                && current.queue@[i].art.should_fetch(now) {
                            let i = choose|i: int|
                                0 <= i < current.queue.len() && image_is(
                                    #[trigger] current.queue@[i].album_image,
                                    url@,
                                ) && current.queue@[i].art.should_fetch(now);
                            assert(current.queue@[i].art == requested_state(before, url@));
                        } else {
                            let i = choose|i: int|
                                0 <= i < current.playlists.len() && image_is(
                                    #[trigger] current.playlists@[i].image_url,
                                    url@,
                                ) && current.playlists@[i].art.should_fetch(now);
                            assert(current.playlists@[i].art == requested_state(before, url@));
                        }
                    }
                }
                if exists|i: int|
                    0 <= i < current.queue.len() && image_is(#[trigger] current.queue@[i].album_image, url@)
                        && current.queue@[i].art.should_fetch(now) {
                    let i = choose|i: int|
                        0 <= i < current.queue.len() && image_is(#[trigger] current.queue@[i].album_image, url@)
                            && current.queue@[i].art.should_fetch(now);
                    assert(image_is(before.queue@[i].album_image, url@));
                } else {
                    let i = choose|i: int|
                        0 <= i < current.playlists.len() && image_is(
                            #[trigger] current.playlists@[i].image_url,
                            url@,
                        ) && current.playlists@[i].art.should_fetch(now);
                    assert(image_is(before.playlists@[i].image_url, url@));
                }
                assert(url_needs_fetch(before, url@, now));
                // Slots showing the URL still hold the art they held before.
                lemma_first_ready_agrees(current, before, url@);
            }
            let ghost earlier = downloads@;
            let state = match self.find_ready(&url) {
                Some(art) => ArtState::Ready(art),
                None => {
                    downloads.push(url.clone());
                    ArtState::Fetching
                },
            };
            assert(first_ready(before, url@) is None ==> downloads@ == earlier.push(downloads@.last())
                && downloads@.last()@ == url@);
            assert(first_ready(before, url@) is Some ==> downloads@ == earlier);
            assert(state == requested_state(before, url@));
            self.set_art_state(&url, &state);
            proof {
                let old_handled = handled;
                handled = handled.insert(url@);
                assert forall|i: int| 0 <= i < before.queue.len() implies #[trigger] self.queue@[i] == (Track {
                    art: art_after(before, handled, before.queue@[i].album_image, before.queue@[i].art),
                    ..before.queue@[i]
                }) by {
                    assert(current.queue@[i] == (Track {
                        art: art_after(before, old_handled, before.queue@[i].album_image, before.queue@[i].art),
                        ..before.queue@[i]
                    }));
                }
                assert forall|i: int|
                    0 <= i < before.playlists.len() implies #[trigger] self.playlists@[i] == (CondensedPlaylist {
                        art: art_after(
                            before,
                            handled,
                            before.playlists@[i].image_url,
                            before.playlists@[i].art,
                        ),
                        ..before.playlists@[i]
                    }) by {
                    assert(current.playlists@[i] == (CondensedPlaylist {
                        art: art_after(
                            before,
                            old_handled,
                            before.playlists@[i].image_url,
                            before.playlists@[i].art,
                        ),
                        ..before.playlists@[i]
                    }));
                }
                assert forall|u: Seq<char>|
                    handled.contains(u) && first_ready(before, u) is None implies exists|k: int|
                        0 <= k < downloads@.len() && #[trigger] downloads@[k]@ == u by {
                    if u == url@ {
                        assert(downloads@[downloads@.len() - 1]@ == u);
                    } else {
                        assert(old_handled.contains(u));
                        let k = choose|k: int| 0 <= k < earlier.len() && #[trigger] earlier[k]@ == u;
                        assert(downloads@[k] == earlier[k]);
                    }
                }
                // Fewer slots need fetching: those showing the URL no longer do.
                lemma_count_where_shrinks(current.queue@, self.queue@, track_needs_art::<R>(now));
                lemma_count_where_shrinks(current.playlists@, self.playlists@, playlist_needs_art(now));
                if exists|i: int|
                    0 <= i < current.queue.len() && image_is(#[trigger] current.queue@[i].album_image, url@)
                        && current.queue@[i].art.should_fetch(now) {
                    let i = choose|i: int|
                        0 <= i < current.queue.len() && image_is(#[trigger] current.queue@[i].album_image, url@)
                            && current.queue@[i].art.should_fetch(now);
                    assert(track_needs_art::<R>(now)(current.queue@[i]));
                    assert(!track_needs_art::<R>(now)(self.queue@[i]));
                } else {
                    let i = choose|i: int|
                        0 <= i < current.playlists.len() && image_is(
                            #[trigger] current.playlists@[i].image_url,
                            url@,
                        ) && current.playlists@[i].art.should_fetch(now);
                    assert(playlist_needs_art(now)(current.playlists@[i]));
                    assert(!playlist_needs_art(now)(self.playlists@[i]));
                }
            }
        }
        proof {
            assert forall|i: int| 0 <= i < before.queue.len() implies #[trigger] self.queue@[i] == (Track {
                art: settled_art(before, before.queue@[i].album_image, before.queue@[i].art, now),
                ..before.queue@[i]
            }) by {
                if let Some(url) = before.queue@[i].album_image {
                    if url_needs_fetch(before, url@, now) && !handled.contains(url@) {
                        if exists|k: int|
                            0 <= k < before.queue.len() && image_is(#[trigger] before.queue@[k].album_image, url@)
                                && before.queue@[k].art.should_fetch(now) {
                            let k = choose|k: int|
                                0 <= k < before.queue.len() && image_is(
                                    #[trigger] before.queue@[k].album_image,
                                    url@,
                                ) && before.queue@[k].art.should_fetch(now);
                            assert(image_is(self.queue@[k].album_image, url@));
                            assert(self.queue@[k].art.should_fetch(now));
                            assert(url_needs_fetch(*self, url@, now));
                        } else {
                            let k = choose|k: int|
                                0 <= k < before.playlists.len() && image_is(
                                    #[trigger] before.playlists@[k].image_url,
                                    url@,
                                ) && before.playlists@[k].art.should_fetch(now);
                            assert(image_is(self.playlists@[k].image_url, url@));
                            assert(self.playlists@[k].art.should_fetch(now));
                            assert(url_needs_fetch(*self, url@, now));
                        }
                    }
                }
            }
            assert forall|i: int|
                0 <= i < before.playlists.len() implies #[trigger] self.playlists@[i] == (CondensedPlaylist {
                    art: settled_art(before, before.playlists@[i].image_url, before.playlists@[i].art, now),
                    ..before.playlists@[i]
                }) by {
                if let Some(url) = before.playlists@[i].image_url {
                    if url_needs_fetch(before, url@, now) && !handled.contains(url@) {
                        if exists|k: int|
                            0 <= k < before.queue.len() && image_is(#[trigger] before.queue@[k].album_image, url@)
                                && before.queue@[k].art.should_fetch(now) {
                            let k = choose|k: int|
                                0 <= k < before.queue.len() && image_is(
                                    #[trigger] before.queue@[k].album_image,
                                    url@,
                                ) && before.queue@[k].art.should_fetch(now);
                            assert(image_is(self.queue@[k].album_image, url@));
                            assert(self.queue@[k].art.should_fetch(now));
                            assert(url_needs_fetch(*self, url@, now));
                        } else {
                            let k = choose|k: int|
                                0 <= k < before.playlists.len() && image_is(
                                    #[trigger] before.playlists@[k].image_url,
                                    url@,
                                ) && before.playlists@[k].art.should_fetch(now);
                            assert(image_is(self.playlists@[k].image_url, url@));
                            assert(self.playlists@[k].art.should_fetch(now));
                            assert(url_needs_fetch(*self, url@, now));
                        }
                    }
                }
            }
            assert forall|u: Seq<char>|
                url_needs_fetch(before, u, now) && first_ready(before, u) is None implies exists|k: int|
                    0 <= k < downloads@.len() && #[trigger] downloads@[k]@ == u by {
                if !handled.contains(u) {
                    if exists|k: int|
                        0 <= k < before.queue.len() && image_is(#[trigger] before.queue@[k].album_image, u)
                            && before.queue@[k].art.should_fetch(now) {
                        let k = choose|k: int|
                            0 <= k < before.queue.len() && image_is(#[trigger] before.queue@[k].album_image, u)
                                && before.queue@[k].art.should_fetch(now);
                        assert(image_is(self.queue@[k].album_image, u));
                        assert(self.queue@[k].art.should_fetch(now));
                        assert(url_needs_fetch(*self, u, now));
                    } else {
                        let k = choose|k: int|
                            0 <= k < before.playlists.len() && image_is(
                                #[trigger] before.playlists@[k].image_url,
                                u,
                            ) && before.playlists@[k].art.should_fetch(now);
                        assert(image_is(self.playlists@[k].image_url, u));
                        assert(self.playlists@[k].art.should_fetch(now));
                        assert(url_needs_fetch(*self, u, now));
                    }
                }
            }
        }
        downloads
    }
}

} // verus!
