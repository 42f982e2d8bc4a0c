use vstd::prelude::*;
use crate::art::NUM_SWATCHES;
use crate::playback::{AlbumId, CondensedPlaylist, PlaybackState, Track, first_position, lemma_first_position, url_of};
use crate::text::str_eq;

verus! {

/// The URLs held in `urls`.
pub open spec fn url_set(urls: Seq<String>) -> Set<Seq<char>> {
    Set::new(|url: Seq<char>| exists|i: int| 0 <= i < urls.len() && #[trigger] urls[i]@ == url)
}

/// No URL occurs twice in `urls`.
pub open spec fn distinct_urls(urls: Seq<String>) -> bool {
    forall|i: int, j: int| 0 <= i < urls.len() && 0 <= j < urls.len() && i != j ==> #[trigger] urls[i]@ != #[trigger] urls[j]@
}

/// Where `url` stands in `urls`, if it is there.
fn find_url(urls: &Vec<String>, url: &str) -> (found: Option<usize>)
    ensures
        match found {
            Some(i) => i < urls@.len() && urls@[i as int]@ == url@,
            None => !url_set(urls@).contains(url@),
        },
{
    let mut i: usize = 0;
    while i < urls.len()
        invariant
            0 <= i <= urls@.len(),
            forall|k: int| 0 <= k < i ==> #[trigger] urls@[k]@ != url@,
        decreases urls@.len() - i,
    {
        if str_eq(urls[i].as_str(), url) {
            return Some(i);
        }
        i += 1;
    }
    None
}

/// Removes `url` from a list of distinct URLs.
fn remove_url(urls: &mut Vec<String>, url: &str)
    requires
        distinct_urls(old(urls)@),
    ensures
        distinct_urls(final(urls)@),
        url_set(final(urls)@) == url_set(old(urls)@).remove(url@),
{
    if let Some(i) = find_url(urls, url) {
        let ghost before = urls@;
        urls.remove(i);
        proof {
            let after = urls@;
            assert(after =~= before.remove(i as int));
            assert forall|a: int, b: int| 0 <= a < after.len() && 0 <= b < after.len() && a != b
                implies #[trigger] after[a]@ != #[trigger] after[b]@ by {
                let ia = if a < i { a } else { a + 1 };
                let ib = if b < i { b } else { b + 1 };
                assert(after[a] == before[ia] && after[b] == before[ib]);
            }
            assert forall|u: Seq<char>| #[trigger] url_set(after).contains(u) <==> url_set(before).remove(url@).contains(u) by {
                if url_set(after).contains(u) {
                    let k = choose|k: int| 0 <= k < after.len() && #[trigger] after[k]@ == u;
                    let j = if k < i { k } else { k + 1 };
                    assert(before[j]@ == u);
                    assert(j != i);
                }
                if url_set(before).contains(u) && u != url@ {
                    let k = choose|k: int| 0 <= k < before.len() && #[trigger] before[k]@ == u;
                    assert(k != i);
                    let j = if k < i { k } else { k - 1 };
                    assert(after[j]@ == u);
                }
            }
            assert(url_set(after) =~= url_set(before).remove(url@));
        }
    } else {
        assert(url_set(urls@) =~= url_set(urls@).remove(url@));
    }
}

/// Adds `url` to a list of distinct URLs; says whether it was new, as
/// `HashSet::insert` does.
fn insert_url(urls: &mut Vec<String>, url: String) -> (added: bool)
    requires
        distinct_urls(old(urls)@),
    ensures
        distinct_urls(final(urls)@),
        url_set(final(urls)@) == url_set(old(urls)@).insert(url@),
        added == !url_set(old(urls)@).contains(url@),
{
    if find_url(urls, url.as_str()).is_some() {
        assert(url_set(urls@) =~= url_set(urls@).insert(url@));
        return false;
    }
    let ghost before = urls@;
    urls.push(url);
    proof {
        let after = urls@;
        assert(after[before.len() as int] == url);
        assert forall|a: int, b: int| 0 <= a < after.len() && 0 <= b < after.len() && a != b
            implies #[trigger] after[a]@ != #[trigger] after[b]@ by {
            if a < before.len() {
                assert(after[a] == before[a]);
            }
            if b < before.len() {
                assert(after[b] == before[b]);
            }
        }
        assert forall|u: Seq<char>| #[trigger] url_set(after).contains(u) <==> url_set(before).insert(url@).contains(u) by {
            if url_set(after).contains(u) {
                let k = choose|k: int| 0 <= k < after.len() && #[trigger] after[k]@ == u;
                if k < before.len() {
                    assert(before[k]@ == u);
                }
            }
            if url_set(before).contains(u) {
                let k = choose|k: int| 0 <= k < before.len() && #[trigger] before[k]@ == u;
                assert(after[k]@ == u);
            }
        }
        assert(url_set(after) =~= url_set(before).insert(url@));
    }
    true
}

/// The images that the bar downloads: those in flight and those that
/// failed, each a set of URLs, and whether the palettes need a refresh.
pub struct ImageCacheState {
    pub in_flight: Vec<String>,
    pub failed: Vec<String>,
    pub dirty: bool,
}

impl ImageCacheState {
    /// No URL occurs twice in either set.
    pub open spec fn wf(&self) -> bool {
        distinct_urls(self.in_flight@) && distinct_urls(self.failed@)
    }

    /// The URLs in flight.
    pub open spec fn in_flight_set(&self) -> Set<Seq<char>> {
        url_set(self.in_flight@)
    }

    /// The URLs that failed.
    pub open spec fn failed_set(&self) -> Set<Seq<char>> {
        url_set(self.failed@)
    }

    /// An empty state.
    pub fn new() -> (state: Self)
        ensures
            state.wf(),
            state.in_flight_set() == Set::<Seq<char>>::empty(),
            state.failed_set() == Set::<Seq<char>>::empty(),
            !state.dirty,
    {
        let state = ImageCacheState { in_flight: Vec::new(), failed: Vec::new(), dirty: false };
        assert(state.in_flight_set() =~= Set::<Seq<char>>::empty());
        assert(state.failed_set() =~= Set::<Seq<char>>::empty());
        state
    }

    /// Asks for the palettes to be computed again.
    pub fn mark_dirty(&mut self)
        ensures
            final(self).dirty,
            final(self).in_flight == old(self).in_flight,
            final(self).failed == old(self).failed,
    {
        self.dirty = true;
    }

    /// Records that the download of `url` failed: it leaves the set in
    /// flight and joins the failed set.
    pub fn fail(&mut self, url: String)
        requires
            old(self).wf(),
        ensures
            final(self).wf(),
            final(self).in_flight_set() == old(self).in_flight_set().remove(url@),
            final(self).failed_set() == old(self).failed_set().insert(url@),
            final(self).dirty == old(self).dirty,
    {
        remove_url(&mut self.in_flight, url.as_str());
        insert_url(&mut self.failed, url);
    }

    /// Records that `url` arrived: it leaves both sets.
    pub fn finish(&mut self, url: &str)
        requires
            old(self).wf(),
        ensures
            final(self).wf(),
            final(self).in_flight_set() == old(self).in_flight_set().remove(url@),
            final(self).failed_set() == old(self).failed_set().remove(url@),
            final(self).dirty == old(self).dirty,
    {
        remove_url(&mut self.in_flight, url);
        remove_url(&mut self.failed, url);
    }
}

/// The image URLs of the tracks in `queue`.
pub open spec fn queue_image_urls<R>(queue: Seq<Track<R>>) -> Set<Seq<char>> {
    Set::new(|url: Seq<char>| exists|i: int| 0 <= i < queue.len() && url_of(#[trigger] queue[i].album_image) == Some(url))
}

/// The image URLs of `playlists`.
pub open spec fn playlist_image_urls(playlists: Seq<CondensedPlaylist>) -> Set<Seq<char>> {
    Set::new(
        |url: Seq<char>| exists|i: int| 0 <= i < playlists.len() && url_of(#[trigger] playlists[i].image_url) == Some(url),
    )
}

/// The images that the bar needs: the album art of the queue and the
/// playlist covers.
pub open spec fn required_urls<R>(playback: PlaybackState<R>) -> Set<Seq<char>> {
    queue_image_urls(playback.queue@).union(playlist_image_urls(playback.playlists@))
}

/// Whether the album `id` has a track in `queue`.
pub open spec fn album_in_queue<R>(queue: Seq<Track<R>>, id: AlbumId) -> bool {
    exists|i: int| 0 <= i < queue.len() && #[trigger] queue[i].album_id == Some(id)
}

proof fn lemma_url_set_push(urls: Seq<String>, url: String)
    ensures
        url_set(urls.push(url)) == url_set(urls).insert(url@),
{
    let after = urls.push(url);
    assert forall|u: Seq<char>| #[trigger] url_set(after).contains(u) <==> url_set(urls).insert(url@).contains(u) by {
        if url_set(after).contains(u) {
            let k = choose|k: int| 0 <= k < after.len() && #[trigger] after[k]@ == u;
            if k < urls.len() {
                assert(urls[k]@ == u);
            }
        }
        if url_set(urls).contains(u) {
            let k = choose|k: int| 0 <= k < urls.len() && #[trigger] urls[k]@ == u;
            assert(after[k]@ == u);
        }
        if u == url@ {
            assert(after[urls.len() as int]@ == u);
        }
    }
    assert(url_set(after) =~= url_set(urls).insert(url@));
}

/// Collects the URLs of the album images of the queue and of the playlist
/// covers, each once.
pub fn required_image_urls<R>(playback: &PlaybackState<R>) -> (urls: Vec<String>)
    ensures
        distinct_urls(urls@),
        url_set(urls@) == required_urls(*playback),
{
    let mut urls: Vec<String> = Vec::new();
    let mut i: usize = 0;
    assert(url_set(urls@) =~= queue_image_urls(playback.queue@.take(0)));
    while i < playback.queue.len()
        invariant
            0 <= i <= playback.queue@.len(),
            distinct_urls(urls@),
            url_set(urls@) == queue_image_urls(playback.queue@.take(i as int)),
        decreases playback.queue@.len() - i,
    {
        let ghost before = urls@;
        let ghost prefix = playback.queue@.take(i as int);
        let ghost next = playback.queue@.take(i as int + 1);
        assert(next =~= prefix.push(playback.queue@[i as int]));
        match &playback.queue[i].album_image {
            Some(url) => {
                insert_url(&mut urls, url.clone());
                assert(queue_image_urls(next) =~= queue_image_urls(prefix).insert(url@)) by {
                    assert(next[i as int] == playback.queue@[i as int]);
                    assert forall|u: Seq<char>| queue_image_urls(prefix).contains(u) implies #[trigger] queue_image_urls(next).contains(u) by {
                        let k = choose|k: int| 0 <= k < prefix.len() && url_of(#[trigger] prefix[k].album_image) == Some(u);
                        assert(next[k] == prefix[k]);
                    }
                    assert forall|u: Seq<char>| #[trigger] queue_image_urls(next).contains(u) implies queue_image_urls(prefix).insert(url@).contains(u) by {
                        let k = choose|k: int| 0 <= k < next.len() && url_of(#[trigger] next[k].album_image) == Some(u);
                        if k < prefix.len() {
                            assert(prefix[k] == next[k]);
                        }
                    }
                }
            },
            None => {
                assert(queue_image_urls(next) =~= queue_image_urls(prefix)) by {
                    assert forall|u: Seq<char>| queue_image_urls(prefix).contains(u) implies #[trigger] queue_image_urls(next).contains(u) by {
                        let k = choose|k: int| 0 <= k < prefix.len() && url_of(#[trigger] prefix[k].album_image) == Some(u);
                        assert(next[k] == prefix[k]);
                    }
                    assert forall|u: Seq<char>| #[trigger] queue_image_urls(next).contains(u) implies queue_image_urls(prefix).contains(u) by {
                        let k = choose|k: int| 0 <= k < next.len() && url_of(#[trigger] next[k].album_image) == Some(u);
                        if k < prefix.len() {
                            assert(prefix[k] == next[k]);
                        }
                    }
                }
            },
        }
        i += 1;
    }
    assert(playback.queue@.take(i as int) =~= playback.queue@);
    let ghost queue_urls = url_set(urls@);
    let mut j: usize = 0;
    assert(url_set(urls@) =~= queue_urls.union(playlist_image_urls(playback.playlists@.take(0))));
    while j < playback.playlists.len()
        invariant
            0 <= j <= playback.playlists@.len(),
            distinct_urls(urls@),
            url_set(urls@) == queue_urls.union(playlist_image_urls(playback.playlists@.take(j as int))),
        decreases playback.playlists@.len() - j,
    {
        let ghost prefix = playback.playlists@.take(j as int);
        let ghost next = playback.playlists@.take(j as int + 1);
        assert(next =~= prefix.push(playback.playlists@[j as int]));
        match &playback.playlists[j].image_url {
            Some(url) => {
                insert_url(&mut urls, url.clone());
                assert(playlist_image_urls(next) =~= playlist_image_urls(prefix).insert(url@)) by {
                    assert(next[j as int] == playback.playlists@[j as int]);
                    assert forall|u: Seq<char>| playlist_image_urls(prefix).contains(u) implies #[trigger] playlist_image_urls(next).contains(u) by {
                        let k = choose|k: int| 0 <= k < prefix.len() && url_of(#[trigger] prefix[k].image_url) == Some(u);
                        assert(next[k] == prefix[k]);
                    }
                    assert forall|u: Seq<char>| #[trigger] playlist_image_urls(next).contains(u) implies playlist_image_urls(prefix).insert(url@).contains(u) by {
                        let k = choose|k: int| 0 <= k < next.len() && url_of(#[trigger] next[k].image_url) == Some(u);
                        if k < prefix.len() {
                            assert(prefix[k] == next[k]);
                        }
                    }
                }
                assert(url_set(urls@) =~= queue_urls.union(playlist_image_urls(next)));
            },
            None => {
                assert(playlist_image_urls(next) =~= playlist_image_urls(prefix)) by {
                    assert forall|u: Seq<char>| playlist_image_urls(prefix).contains(u) implies #[trigger] playlist_image_urls(next).contains(u) by {
                        let k = choose|k: int| 0 <= k < prefix.len() && url_of(#[trigger] prefix[k].image_url) == Some(u);
                        assert(next[k] == prefix[k]);
                    }
                    assert forall|u: Seq<char>| #[trigger] playlist_image_urls(next).contains(u) implies playlist_image_urls(prefix).contains(u) by {
                        let k = choose|k: int| 0 <= k < next.len() && url_of(#[trigger] next[k].image_url) == Some(u);
                        if k < prefix.len() {
                            assert(prefix[k] == next[k]);
                        }
                    }
                }
            },
        }
        j += 1;
    }
    assert(playback.playlists@.take(j as int) =~= playback.playlists@);
    urls
}

/// Whether `url` is among the URLs in `urls`.
fn has_url(urls: &Vec<String>, url: &str) -> (found: bool)
    ensures
        found == url_set(urls@).contains(url@),
{
    find_url(urls, url).is_some()
}

/// Keeps the URLs of `urls` that are in `keep`.
fn retain_urls(urls: &mut Vec<String>, keep: &Vec<String>)
    requires
        distinct_urls(old(urls)@),
    ensures
        distinct_urls(final(urls)@),
        url_set(final(urls)@) == url_set(old(urls)@).intersect(url_set(keep@)),
{
    let mut kept: Vec<String> = Vec::new();
    let mut i: usize = 0;
    assert(url_set(kept@) =~= url_set(urls@.take(0)).intersect(url_set(keep@)));
    while i < urls.len()
        invariant
            0 <= i <= urls@.len(),
            distinct_urls(kept@),
            url_set(kept@) == url_set(urls@.take(i as int)).intersect(url_set(keep@)),
        decreases urls@.len() - i,
    {
        proof {
            assert(urls@.take(i as int + 1) =~= urls@.take(i as int).push(urls@[i as int]));
            lemma_url_set_push(urls@.take(i as int), urls@[i as int]);
        }
        if has_url(keep, urls[i].as_str()) {
            insert_url(&mut kept, urls[i].clone());
            assert(url_set(kept@) =~= url_set(urls@.take(i as int + 1)).intersect(url_set(keep@)));
        } else {
            assert(url_set(kept@) =~= url_set(urls@.take(i as int + 1)).intersect(url_set(keep@)));
        }
        i += 1;
    }
    assert(urls@.take(i as int) =~= urls@);
    *urls = kept;
}

/// Whether the image cached under this entry is among `keep`.
pub open spec fn image_kept<I>(keep: Set<Seq<char>>) -> spec_fn((String, I)) -> bool {
    |entry: (String, I)| keep.contains(entry.0@)
}

/// Whether the palette cached under this entry belongs to an album of `queue`.
pub open spec fn palette_kept<R>(queue: Seq<Track<R>>) -> spec_fn((AlbumId, [u32; NUM_SWATCHES])) -> bool {
    |entry: (AlbumId, [u32; NUM_SWATCHES])| album_in_queue(queue, entry.0)
}

/// Keeps the images whose URL is in `keep`, in their order.
fn retain_images<I>(images: &mut Vec<(String, I)>, keep: &Vec<String>)
    ensures
        final(images)@ == old(images)@.filter(image_kept::<I>(url_set(keep@))),
{
    let ghost original = images@;
    let ghost pred = image_kept::<I>(url_set(keep@));
    let mut kept: Vec<(String, I)> = Vec::new();
    proof {
        reveal(Seq::filter);
        assert(original.take(0) =~= Seq::<(String, I)>::empty());
        assert(kept@ =~= original.take(0).filter(pred));
        assert(images@ =~= original.skip(0));
    }
    while images.len() > 0
        invariant
            images@.len() <= original.len(),
            images@ == original.skip(original.len() - images@.len()),
            kept@ == original.take(original.len() - images@.len()).filter(pred),
            pred == image_kept::<I>(url_set(keep@)),
        decreases images@.len(),
    {
        let ghost done = original.len() - images@.len();
        let entry = images.remove(0);
        proof {
            assert(entry == original[done]);
            assert(images@ =~= original.skip(done + 1));
            assert(original.take(done + 1).drop_last() =~= original.take(done));
            assert(original.take(done + 1).last() == entry);
            reveal(Seq::filter);
        }
        if has_url(keep, entry.0.as_str()) {
            kept.push(entry);
        }
    }
    proof {
        assert(original.take(original.len() as int) =~= original);
    }
    *images = kept;
}

/// Keeps the palettes of albums that have a track in `queue`, in their order.
fn retain_palettes<R>(palettes: &mut Vec<(AlbumId, [u32; NUM_SWATCHES])>, queue: &Vec<Track<R>>)
    ensures
        final(palettes)@ == old(palettes)@.filter(palette_kept(queue@)),
{
    let ghost original = palettes@;
    let ghost pred = palette_kept(queue@);
    let mut kept: Vec<(AlbumId, [u32; NUM_SWATCHES])> = Vec::new();
    proof {
        reveal(Seq::filter);
        assert(original.take(0) =~= Seq::<(AlbumId, [u32; NUM_SWATCHES])>::empty());
        assert(kept@ =~= original.take(0).filter(pred));
        assert(palettes@ =~= original.skip(0));
    }
    while palettes.len() > 0
        invariant
            palettes@.len() <= original.len(),
            palettes@ == original.skip(original.len() - palettes@.len()),
            kept@ == original.take(original.len() - palettes@.len()).filter(pred),
            pred == palette_kept(queue@),
        decreases palettes@.len(),
    {
        let ghost done = original.len() - palettes@.len();
        let entry = palettes.remove(0);
        proof {
            assert(entry == original[done]);
            assert(palettes@ =~= original.skip(done + 1));
            assert(original.take(done + 1).drop_last() =~= original.take(done));
            assert(original.take(done + 1).last() == entry);
            reveal(Seq::filter);
        }
        let mut used = false;
        let mut i: usize = 0;
        while i < queue.len()
            invariant
                0 <= i <= queue@.len(),
                used == exists|k: int| 0 <= k < i && #[trigger] queue@[k].album_id == Some(entry.0),
            decreases queue@.len() - i,
        {
            if let Some(album) = queue[i].album_id {
                if album.0 == entry.0.0 {
                    assert(queue@[i as int].album_id == Some(entry.0));
                    used = true;
                }
            }
            i += 1;
        }
        if used {
            kept.push(entry);
        }
    }
    proof {
        assert(original.take(original.len() as int) =~= original);
    }
    *palettes = kept;
}

/// The decoded images and album palettes that the bar keeps, by URL and by
/// album. `I` is the decoded image.
pub struct AppCaches<I> {
    pub images: Vec<(String, I)>,
    pub album_palettes: Vec<(AlbumId, [u32; NUM_SWATCHES])>,
}

/// The URLs of the cached images.
pub open spec fn cached_urls<I>(images: Seq<(String, I)>) -> Set<Seq<char>> {
    Set::new(|url: Seq<char>| exists|i: int| 0 <= i < images.len() && #[trigger] images[i].0@ == url)
}

/// Whether some cached image has the URL `url`.
fn is_cached<I>(images: &Vec<(String, I)>, url: &str) -> (found: bool)
    ensures
        found == cached_urls(images@).contains(url@),
{
    let mut i: usize = 0;
    while i < images.len()
        invariant
            0 <= i <= images@.len(),
            forall|k: int| 0 <= k < i ==> #[trigger] images@[k].0@ != url@,
        decreases images@.len() - i,
    {
        if str_eq(images[i].0.as_str(), url) {
            return true;
        }
        i += 1;
    }
    false
}

/// The URLs of the images kept by a filter on `keep` are the cached URLs
/// in `keep`.
proof fn lemma_cached_after_filter<I>(images: Seq<(String, I)>, keep: Set<Seq<char>>)
    ensures
        cached_urls(images.filter(image_kept::<I>(keep))) == cached_urls(images).intersect(keep),
{
    broadcast use vstd::seq_lib::group_filter_ensures;
    let kept = images.filter(image_kept::<I>(keep));
    assert forall|u: Seq<char>| #[trigger] cached_urls(kept).contains(u) <==> (cached_urls(images).contains(u) && keep.contains(u)) by {
        if cached_urls(kept).contains(u) {
            let k = choose|k: int| 0 <= k < kept.len() && #[trigger] kept[k].0@ == u;
            assert(image_kept::<I>(keep)(kept[k]));
            assert(kept.contains(kept[k]));
            images.lemma_filter_contains_rev(image_kept::<I>(keep), kept[k]);
            let j = choose|j: int| 0 <= j < images.len() && images[j] == kept[k];
            assert(images[j].0@ == u);
        }
        if cached_urls(images).contains(u) && keep.contains(u) {
            let j = choose|j: int| 0 <= j < images.len() && #[trigger] images[j].0@ == u;
            assert(image_kept::<I>(keep)(images[j]));
            assert(kept.contains(images[j]));
            let k = choose|k: int| 0 <= k < kept.len() && kept[k] == images[j];
            assert(kept[k].0@ == u);
        }
    }
    assert(cached_urls(kept) =~= cached_urls(images).intersect(keep));
}

/// Syncing twice with the same playback state is syncing once: the second
/// sync keeps every cached image, failed URL and URL in flight, and asks for
/// no download.
pub proof fn second_sync_changes_nothing<I>(
    images: Seq<(String, I)>,
    failed: Set<Seq<char>>,
    in_flight: Set<Seq<char>>,
    required: Set<Seq<char>>,
)
    ensures
        ({
            let images_after = images.filter(image_kept::<I>(required));
            let failed_after = failed.intersect(required);
            let in_flight_after = in_flight.intersect(required).union(
                required.difference(cached_urls(images)).difference(failed),
            );
            &&& images_after.filter(image_kept::<I>(required)) == images_after
            &&& failed_after.intersect(required) == failed_after
            &&& in_flight_after.intersect(required).union(
                required.difference(cached_urls(images_after)).difference(failed_after),
            ) == in_flight_after
            &&& required.difference(cached_urls(images_after)).difference(failed_after).difference(in_flight_after)
                == Set::<Seq<char>>::empty()
        }),
{
    let images_after = images.filter(image_kept::<I>(required));
    lemma_cached_after_filter(images, required);
    broadcast use vstd::seq_lib::group_filter_ensures;
    assert forall|k: int| 0 <= k < images_after.len() implies image_kept::<I>(required)(#[trigger] images_after[k]) by {}
    lemma_filter_keeps_all(images_after, image_kept::<I>(required));
    let failed_after = failed.intersect(required);
    let in_flight_after = in_flight.intersect(required).union(required.difference(cached_urls(images)).difference(failed));
    assert(failed_after.intersect(required) =~= failed_after);
    assert(in_flight_after.intersect(required).union(
        required.difference(cached_urls(images_after)).difference(failed_after),
    ) =~= in_flight_after);
    assert(required.difference(cached_urls(images_after)).difference(failed_after).difference(in_flight_after)
        =~= Set::<Seq<char>>::empty());
}

/// Filtering a sequence whose elements all pass keeps it whole.
proof fn lemma_filter_keeps_all<T>(items: Seq<T>, pred: spec_fn(T) -> bool)
    requires
        forall|k: int| 0 <= k < items.len() ==> pred(#[trigger] items[k]),
    ensures
        items.filter(pred) == items,
    decreases items.len(),
{
    reveal(Seq::filter);
    if items.len() > 0 {
        let rest = items.drop_last();
        assert forall|k: int| 0 <= k < rest.len() implies pred(#[trigger] rest[k]) by {
            assert(rest[k] == items[k]);
        }
        lemma_filter_keeps_all(rest, pred);
        assert(pred(items.last()));
        assert(items.filter(pred) =~= rest.push(items.last()));
        assert(rest.push(items.last()) =~= items);
    }
}

impl ImageCacheState {
    /// Brings the caches in line with what `playback` shows: drops the images
    /// and palettes it no longer needs, forgets in-flight and failed URLs it
    /// no longer needs, and returns the URLs to download now, each once:
    /// those required that are neither cached, nor failed, nor in flight.
    /// They join the set in flight.
    pub fn sync<I, R>(&mut self, caches: &mut AppCaches<I>, playback: &PlaybackState<R>) -> (downloads: Vec<String>)
        requires
            old(self).wf(),
        ensures
            final(self).wf(),
            final(caches).images@ == old(caches).images@.filter(image_kept::<I>(required_urls(*playback))),
            final(caches).album_palettes@ == old(caches).album_palettes@.filter(palette_kept(playback.queue@)),
            final(self).failed_set() == old(self).failed_set().intersect(required_urls(*playback)),
            final(self).in_flight_set() == old(self).in_flight_set().intersect(required_urls(*playback)).union(
                required_urls(*playback).difference(cached_urls(old(caches).images@)).difference(old(self).failed_set()),
            ),
            distinct_urls(downloads@),
            url_set(downloads@) == required_urls(*playback).difference(cached_urls(old(caches).images@)).difference(
                old(self).failed_set(),
            ).difference(old(self).in_flight_set()),
            final(self).dirty == old(self).dirty,
    {
        let required = required_image_urls(playback);
        let ghost req = url_set(required@);
        let ghost old_images = caches.images@;
        let ghost old_failed = self.failed_set();
        let ghost old_in_flight = self.in_flight_set();
        retain_images(&mut caches.images, &required);
        retain_palettes(&mut caches.album_palettes, &playback.queue);
        retain_urls(&mut self.in_flight, &required);
        retain_urls(&mut self.failed, &required);
        proof {
            lemma_cached_after_filter(old_images, req);
            assert forall|u: Seq<char>| #[trigger] cached_urls(caches.images@).contains(u) <==> (cached_urls(old_images).contains(u)
                && req.contains(u)) by {
                assert(cached_urls(caches.images@) == cached_urls(old_images).intersect(req));
            }
        }
        let mut downloads: Vec<String> = Vec::new();
        let mut i: usize = 0;
        let ghost cached = cached_urls(old_images);
        let ghost failed_now = self.failed_set();
        let ghost in_flight_now = self.in_flight_set();
        assert(url_set(downloads@) =~= url_set(required@.take(0)).difference(cached).difference(old_failed).difference(
            old_in_flight,
        ));
        assert(self.in_flight_set() =~= in_flight_now.union(url_set(required@.take(0)).difference(cached).difference(old_failed)));
        while i < required.len()
            invariant
                0 <= i <= required@.len(),
                distinct_urls(required@),
                req == url_set(required@),
                self.wf(),
                self.failed_set() == failed_now,
                failed_now == old_failed.intersect(req),
                in_flight_now == old_in_flight.intersect(req),
                forall|u: Seq<char>| #[trigger] cached_urls(caches.images@).contains(u) <==> (cached.contains(u) && req.contains(u)),
                distinct_urls(downloads@),
                url_set(downloads@) == url_set(required@.take(i as int)).difference(cached).difference(old_failed).difference(
                    old_in_flight,
                ),
                self.in_flight_set() == in_flight_now.union(url_set(required@.take(i as int)).difference(cached).difference(old_failed)),
                self.dirty == old(self).dirty,
            decreases required@.len() - i,
        {
            let url = &required[i];
            proof {
                assert(required@.take(i as int + 1) =~= required@.take(i as int).push(required@[i as int]));
                lemma_url_set_push(required@.take(i as int), required@[i as int]);
                assert(req.contains(url@));
            }
            if !is_cached(&caches.images, url.as_str()) && !has_url(&self.failed, url.as_str()) {
                if insert_url(&mut self.in_flight, url.clone()) {
                    proof {
                        assert(!url_set(downloads@).contains(url@)) by {
                            if url_set(downloads@).contains(url@) {
                                let k = choose|k: int| 0 <= k < i && #[trigger] required@.take(i as int)[k]@ == url@;
                                assert(required@[k]@ == required@[i as int]@);
                            }
                        }
                    }
                    insert_url(&mut downloads, url.clone());
                    assert(url_set(downloads@) =~= url_set(required@.take(i as int + 1)).difference(cached).difference(
                        old_failed,
                    ).difference(old_in_flight));
                } else {
                    assert(url_set(downloads@) =~= url_set(required@.take(i as int + 1)).difference(cached).difference(
                        old_failed,
                    ).difference(old_in_flight));
                }
                assert(self.in_flight_set() =~= in_flight_now.union(
                    url_set(required@.take(i as int + 1)).difference(cached).difference(old_failed),
                ));
            } else {
                assert(url_set(downloads@) =~= url_set(required@.take(i as int + 1)).difference(cached).difference(
                    old_failed,
                ).difference(old_in_flight));
                assert(self.in_flight_set() =~= in_flight_now.union(
                    url_set(required@.take(i as int + 1)).difference(cached).difference(old_failed),
                ));
            }
            i += 1;
        }
        proof {
            assert(required@.take(i as int) =~= required@);
            assert(self.in_flight_set() =~= old_in_flight.intersect(req).union(req.difference(cached).difference(old_failed)));
        }
        downloads
    }
}

/// Whether a cache entry is stored under `url`.
pub open spec fn keyed<I>(url: Seq<char>) -> spec_fn((String, I)) -> bool {
    |entry: (String, I)| entry.0@ == url
}

/// The images after `image` is stored under `url`: it replaces the first
/// entry with that URL, or joins the end.
pub open spec fn with_image<I>(images: Seq<(String, I)>, url: String, image: I) -> Seq<(String, I)> {
    match first_position(images, keyed::<I>(url@)) {
        Some(i) => images.update(i, (url, image)),
        None => images.push((url, image)),
    }
}

/// The side, in pixels, of the square images that the atlas holds.
pub const IMAGE_SIZE: u32 = 64;

/// A decoded image: its size and its RGBA pixels, row by row.
pub struct RgbaPixels {
    pub width: u32,
    pub height: u32,
    pub pixels: Vec<u8>,
}

impl View for RgbaPixels {
    type V = (u32, u32, Seq<u8>);

    open spec fn view(&self) -> (u32, u32, Seq<u8>) {
        (self.width, self.height, self.pixels@)
    }
}

/// Whether an image is a well-formed non-empty RGBA image.
pub open spec fn rgba_wf(image: RgbaPixels) -> bool {
    image.width > 0 && image.height > 0 && image.pixels@.len() == image.width * image.height * 4
}

/// The pixels of an RGBA image scaled with a Lanczos filter to cover a
/// square of `size` pixels and cropped to it around its centre.
pub uninterp spec fn filled_pixels(width: u32, height: u32, pixels: Seq<u8>, size: u32) -> Seq<u8>;

/// Scales an RGBA image to fill a square of `size` pixels.
///
/// Builds an `image::RgbaImage` from the pixels and calls
/// `DynamicImage::resize_to_fill` with `FilterType::Lanczos3`, then
/// `to_rgba8`: the image is scaled so that it covers the square, keeping
/// its aspect ratio, and the overhang is cropped evenly from both sides. The
/// contract names the filtered pixels and states the square size. An empty
/// image makes the crate's size computation ask for a buffer beyond
/// `u32::MAX` pixels across, which `requires` rules out.
#[verifier::external_body]
fn resize_to_fill(image: RgbaPixels, size: u32) -> (resized: RgbaPixels)
    requires
        rgba_wf(image),
        size > 0,
    ensures
        resized.width == size,
        resized.height == size,
        resized.pixels@ == filled_pixels(image.width, image.height, image.pixels@, size),
{
    let source = image::RgbaImage::from_raw(image.width, image.height, image.pixels).unwrap();
    let resized = image::DynamicImage::ImageRgba8(source)
        .resize_to_fill(size, size, image::imageops::FilterType::Lanczos3)
        .to_rgba8();
    RgbaPixels { width: resized.width(), height: resized.height(), pixels: resized.into_raw() }
}

/// An image in the atlas size: as it is when it already has that size,
/// else scaled to fill it.
pub open spec fn fitted(image: RgbaPixels) -> (u32, u32, Seq<u8>) {
    if image.width == IMAGE_SIZE && image.height == IMAGE_SIZE {
        image@
    } else {
        (IMAGE_SIZE, IMAGE_SIZE, filled_pixels(image.width, image.height, image.pixels@, IMAGE_SIZE))
    }
}

/// Brings a decoded image to the atlas size: an image of another size is
/// scaled to fill the square and cropped around its centre.
pub fn fit_to_atlas(image: RgbaPixels) -> (fit: RgbaPixels)
    requires
        rgba_wf(image),
    ensures
        fit@ == fitted(image),
{
    if image.width != IMAGE_SIZE || image.height != IMAGE_SIZE {
        resize_to_fill(image, IMAGE_SIZE)
    } else {
        image
    }
}

impl ImageCacheState {
    /// Records that the image of `url` was decoded, once it has the atlas
    /// size: the URL leaves both sets, and the image is cached when
    /// `playback` still needs it. Says whether it was cached, in which case
    /// the palettes are due for a refresh.
    pub fn apply_decoded_image<R>(
        &mut self,
        caches: &mut AppCaches<RgbaPixels>,
        playback: &PlaybackState<R>,
        url: String,
        image: RgbaPixels,
    ) -> (stored: bool)
        requires
            old(self).wf(),
            rgba_wf(image),
        ensures
            final(self).wf(),
            final(self).in_flight_set() == old(self).in_flight_set().remove(url@),
            final(self).failed_set() == old(self).failed_set().remove(url@),
            final(self).dirty == old(self).dirty,
            stored == required_urls(*playback).contains(url@),
            exists|fit: RgbaPixels|
                #![trigger with_image(old(caches).images@, url, fit)]
                fit@ == fitted(image) && final(caches).images@ == if stored {
                    with_image(old(caches).images@, url, fit)
                } else {
                    old(caches).images@
                },
            final(caches).album_palettes == old(caches).album_palettes,
    {
        let fit = fit_to_atlas(image);
        let ghost kept = fit;
        let ghost key = url;
        let stored = self.store_decoded_image(caches, playback, url, fit);
        let ghost after = with_image(old(caches).images@, key, kept);
        assert(kept@ == fitted(image) && final(caches).images@ == if stored {
            after
        } else {
            old(caches).images@
        });
        stored
    }

    /// Records that the image of `url` was decoded: the URL leaves both sets,
    /// and the image is cached when `playback` still needs it. Says whether
    /// it was cached.
    pub fn store_decoded_image<I, R>(
        &mut self,
        caches: &mut AppCaches<I>,
        playback: &PlaybackState<R>,
        url: String,
        image: I,
    ) -> (stored: bool)
        requires
            old(self).wf(),
        ensures
            final(self).wf(),
            final(self).in_flight_set() == old(self).in_flight_set().remove(url@),
            final(self).failed_set() == old(self).failed_set().remove(url@),
            final(self).dirty == old(self).dirty,
            stored == required_urls(*playback).contains(url@),
            final(caches).images@ == if stored {
                with_image(old(caches).images@, url, image)
            } else {
                old(caches).images@
            },
            final(caches).album_palettes == old(caches).album_palettes,
    {
        self.finish(url.as_str());
        let required = required_image_urls(playback);
        if !has_url(&required, url.as_str()) {
            return false;
        }
        let mut i: usize = 0;
        while i < caches.images.len()
            invariant_except_break
                0 <= i <= caches.images@.len(),
            invariant
                caches.images@ == old(caches).images@,
                caches.album_palettes == old(caches).album_palettes,
                forall|k: int| 0 <= k < i ==> !keyed::<I>(url@)(#[trigger] caches.images@[k]),
            ensures
                i < caches.images@.len() ==> keyed::<I>(url@)(caches.images@[i as int]),
                i <= caches.images@.len(),
            decreases caches.images@.len() - i,
        {
            if str_eq(caches.images[i].0.as_str(), url.as_str()) {
                break;
            }
            i += 1;
        }
        if i < caches.images.len() {
            proof {
                lemma_first_position(caches.images@, keyed::<I>(url@), i as int);
            }
            caches.images.set(i, (url, image));
        } else {
            proof {
                assert(!(exists|k: int| 0 <= k < caches.images@.len() && keyed::<I>(url@)(#[trigger] caches.images@[k])));
            }
            caches.images.push((url, image));
        }
        true
    }
}

} // verus!
