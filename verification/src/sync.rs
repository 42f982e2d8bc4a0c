use vstd::prelude::*;
use crate::auth::{form_serialize, form_serialized, pair_texts};
use crate::playback::TrackId;
use crate::playlists::{rating_index, rating_name};
use crate::text::str_eq;

verus! {

/// Tracks are fetched from a playlist in pages of this many.
pub const PAGE_SIZE: u32 = 50;

/// The offsets of the pages that hold `total` tracks: one page per 50
/// tracks, the last one possibly partial.
pub fn page_offsets(total: u32) -> (offsets: Vec<u32>)
    ensures
        offsets@.len() == (total as int + 49) / 50,
        forall|k: int| 0 <= k < offsets@.len() ==> #[trigger] offsets@[k] == 50 * k,
{
    let pages = total / PAGE_SIZE + if total % PAGE_SIZE > 0 { 1 } else { 0 };
    let mut offsets: Vec<u32> = Vec::new();
    let mut page: u32 = 0;
    while page < pages
        invariant
            pages == (total as int + 49) / 50,
            0 <= page <= pages,
            offsets@.len() == page,
            forall|k: int| 0 <= k < page ==> #[trigger] offsets@[k] == 50 * k,
        decreases pages - page,
    {
        assert(page * 50 < total) by (nonlinear_arith)
            requires
                page < pages,
                pages == (total as int + 49) / 50,
        ;
        offsets.push(page * PAGE_SIZE);
        page += 1;
    }
    offsets
}

/// The tracks among the first `n` items of a page.
pub open spec fn page_tracks(items: Seq<Option<TrackId>>, n: int) -> Set<TrackId> {
    Set::new(|t: TrackId| exists|k: int| 0 <= k < n && #[trigger] items[k] == Some(t))
}

/// Adds the tracks of a fetched page to a playlist's tracks; items that are
/// not tracks (`None`) are left out, and no track is added twice.
pub fn add_page_tracks(tracks: &mut Vec<TrackId>, items: &Vec<Option<TrackId>>)
    requires
        old(tracks)@.no_duplicates(),
    ensures
        final(tracks)@.no_duplicates(),
        final(tracks)@.to_set() == old(tracks)@.to_set().union(page_tracks(items@, items@.len() as int)),
{
    let ghost start = tracks@.to_set();
    let mut i: usize = 0;
    assert(start.union(page_tracks(items@, 0)) =~= start);
    while i < items.len()
        invariant
            0 <= i <= items@.len(),
            tracks@.no_duplicates(),
            tracks@.to_set() == start.union(page_tracks(items@, i as int)),
        decreases items@.len() - i,
    {
        let ghost before = tracks@;
        if let Some(track) = items[i] {
            assert(page_tracks(items@, i as int + 1) =~= page_tracks(items@, i as int).insert(track)) by {
                assert(items@[i as int] == Some(track));
            }
            let mut present = false;
            let mut j: usize = 0;
            while j < tracks.len()
                invariant
                    0 <= j <= tracks@.len(),
                    tracks@ == before,
                    present == exists|k: int| 0 <= k < j && #[trigger] tracks@[k] == track,
                decreases tracks@.len() - j,
            {
                if tracks[j].0 == track.0 {
                    assert(tracks@[j as int] == track);
                    present = true;
                }
                j += 1;
            }
            if !present {
                tracks.push(track);
                proof {
                    let after = tracks@;
                    assert forall|a: int, b: int| 0 <= a < after.len() && 0 <= b < after.len() && a != b
                        implies #[trigger] after[a] != #[trigger] after[b] by {
                        if a < before.len() && b < before.len() {
                            assert(after[a] == before[a] && after[b] == before[b]);
                        } else if a < before.len() {
                            assert(after[a] == before[a]);
                        } else {
                            assert(after[b] == before[b]);
                        }
                    }
                    assert forall|t: TrackId| #[trigger] after.to_set().contains(t) <==> before.to_set().insert(track).contains(t) by {
                        if after.contains(t) {
                            let k = choose|k: int| 0 <= k < after.len() && after[k] == t;
                            if k < before.len() {
                                assert(before[k] == t);
                            }
                        }
                        if before.contains(t) {
                            let k = choose|k: int| 0 <= k < before.len() && before[k] == t;
                            assert(after[k] == t);
                        }
                        if t == track {
                            assert(after[before.len() as int] == t);
                        }
                    }
                    assert(after.to_set() =~= before.to_set().insert(track));
                    assert(after.to_set() =~= start.union(page_tracks(items@, i as int + 1)));
                }
            } else {
                proof {
                    let k = choose|k: int| 0 <= k < j && #[trigger] tracks@[k] == track;
                    assert(tracks@.contains(track));
                    assert(tracks@.to_set().contains(track));
                    assert(tracks@.to_set() =~= start.union(page_tracks(items@, i as int + 1)));
                }
            }
        } else {
            assert(page_tracks(items@, i as int + 1) =~= page_tracks(items@, i as int)) by {
                assert(items@[i as int] is None);
            }
        }
        i += 1;
    }
}

/// What the bar does with a playlist that the user's library lists.
#[derive(Clone, Copy, PartialEq, Eq, Structural, Debug)]
pub enum SyncDecision {
    /// The bar does not show it, or it has not changed.
    Skip,
    /// Its tracks at this snapshot are cached.
    Reuse,
    /// Its tracks must be fetched.
    Fetch,
}

/// Whether `name` is among `targets`.
pub open spec fn is_target(targets: Seq<String>, name: Seq<char>) -> bool {
    exists|i: int| 0 <= i < targets.len() && #[trigger] targets[i]@ == name
}

/// What to do with a listed playlist: skip it unless it is a target
/// playlist or a rating playlist, and when its snapshot is the one last
/// seen; reuse cached tracks of the same snapshot; fetch otherwise.
pub open spec fn sync_decision(
    targets: Seq<String>,
    is_rating: bool,
    name: Seq<char>,
    snapshot: Seq<char>,
    seen: Option<Seq<char>>,
    cached: Option<Seq<char>>,
) -> SyncDecision {
    if !is_target(targets, name) && !is_rating {
        SyncDecision::Skip
    } else if seen == Some(snapshot) {
        SyncDecision::Skip
    } else if cached == Some(snapshot) {
        SyncDecision::Reuse
    } else {
        SyncDecision::Fetch
    }
}

/// Decides what to do with a playlist listed in the user's library, given
/// the configured target playlists, whether rating playlists are shown, the
/// playlist's snapshot, the snapshot last seen for it and the snapshot whose
/// tracks are cached for it. Also returns the playlist's rating.
pub fn plan_playlist_sync(
    targets: &Vec<String>,
    ratings_enabled: bool,
    name: &String,
    snapshot: &String,
    seen: Option<&String>,
    cached: Option<&String>,
) -> (plan: (Option<u8>, SyncDecision))
    ensures
        match plan.0 {
            Some(i) => ratings_enabled && i < 10 && rating_name(i as int) == name@,
            None => !ratings_enabled || forall|i: int| 0 <= i < 10 ==> rating_name(i) != name@,
        },
        plan.1 == sync_decision(
            targets@,
            plan.0 is Some,
            name@,
            snapshot@,
            match seen {
                Some(s) => Some(s@),
                None => None,
            },
            match cached {
                Some(c) => Some(c@),
                None => None,
            },
        ),
{
    let rating = rating_index(ratings_enabled, name);
    let mut target = false;
    let mut i: usize = 0;
    while i < targets.len()
        invariant
            0 <= i <= targets@.len(),
            target == exists|k: int| 0 <= k < i && #[trigger] targets@[k]@ == name@,
        decreases targets@.len() - i,
    {
        if str_eq(targets[i].as_str(), name.as_str()) {
            assert(targets@[i as int]@ == name@);
            target = true;
        }
        i += 1;
    }
    if !target && rating.is_none() {
        return (rating, SyncDecision::Skip);
    }
    if let Some(last) = seen {
        if str_eq(last.as_str(), snapshot.as_str()) {
            return (rating, SyncDecision::Skip);
        }
    }
    if let Some(stored) = cached {
        if str_eq(stored.as_str(), snapshot.as_str()) {
            return (rating, SyncDecision::Reuse);
        }
    }
    (rating, SyncDecision::Fetch)
}

/// The request that sets a track's liked state: `Some(true)` to like it,
/// `Some(false)` to unlike it, `None` when the library already agrees or
/// its state is unknown.
pub fn liked_request(liked: Option<bool>, should_like: bool) -> (request: Option<bool>)
    ensures
        request == match liked {
            Some(l) => if l != should_like {
                Some(should_like)
            } else {
                None
            },
            None => None,
        },
{
    match liked {
        Some(l) => if l != should_like {
            Some(should_like)
        } else {
            None
        },
        None => None,
    }
}

/// The library path that likes or unlikes the track with `track_uri`.
pub fn library_path(track_uri: &str) -> (path: String)
    ensures
        path@ == form_serialized("me/library?"@, seq![("uris"@, track_uri@)]),
{
    let mut pairs: Vec<(String, String)> = Vec::new();
    pairs.push(("uris".to_string(), track_uri.to_string()));
    assert(pair_texts(pairs@) =~= seq![("uris"@, track_uri@)]);
    form_serialize("me/library?".to_string(), &pairs)
}

/// Milliseconds between queue fetches.
pub const QUEUE_INTERVAL_MS: u64 = 15_000;

/// How the Spotify worker paces its requests: the playback context it saw
/// last, whether that context changed since the queue was last taken in,
/// and when the queue was last fetched (milliseconds on the worker's clock).
pub struct PollState {
    pub current_context: Option<String>,
    pub context_updated: bool,
    pub last_grabbed_queue: u64,
}

/// An instant a minute before `now`, or `now` itself when the clock has not
/// run that long.
pub open spec fn minute_before(now: u64) -> u64 {
    if now >= 60_000 { (now - 60_000) as u64 } else { now }
}

impl PollState {
    /// The state when the worker starts at `now`: the queue is due at once.
    pub fn new(now: u64) -> (state: Self)
        ensures
            state.current_context is None,
            !state.context_updated,
            state.last_grabbed_queue == minute_before(now),
    {
        PollState {
            current_context: None,
            context_updated: false,
            last_grabbed_queue: if now >= 60_000 { now - 60_000 } else { now },
        }
    }

    /// Takes in the playback context the player reported at `now`: a new
    /// context (or losing or gaining one) marks the queue as changed and due
    /// at once.
    pub fn observe_context(&mut self, context: Option<&String>, now: u64)
        ensures
            ({
                let seen = match context {
                    Some(c) => Some(c@),
                    None => None,
                };
                let before = match old(self).current_context {
                    Some(c) => Some(c@),
                    None => None,
                };
                if seen != before {
                    &&& final(self).context_updated
                    &&& final(self).last_grabbed_queue == minute_before(now)
                    &&& match final(self).current_context {
                        Some(c) => seen == Some(c@),
                        None => seen is None,
                    }
                } else {
                    &&& final(self).context_updated == old(self).context_updated
                    &&& final(self).last_grabbed_queue == old(self).last_grabbed_queue
                    &&& final(self).current_context == old(self).current_context
                }
            }),
    {
        let same = match (&self.current_context, context) {
            (Some(a), Some(b)) => crate::text::str_eq(a.as_str(), b.as_str()),
            (None, None) => true,
            _ => false,
        };
        if !same {
            self.context_updated = true;
            self.current_context = match context {
                Some(c) => Some(c.clone()),
                None => None,
            };
            self.last_grabbed_queue = if now >= 60_000 { now - 60_000 } else { now };
        }
    }

    /// Whether the queue is due at `now`: fifteen seconds after it was last
    /// fetched.
    pub fn queue_due(&self, now: u64) -> (due: bool)
        ensures
            due == (now >= self.last_grabbed_queue + QUEUE_INTERVAL_MS),
    {
        self.last_grabbed_queue <= u64::MAX - QUEUE_INTERVAL_MS && now >= self.last_grabbed_queue + QUEUE_INTERVAL_MS
    }

    /// Records that the queue was fetched at `now`, and says whether the
    /// playback context changed since the last fetch (so the fetched queue
    /// keeps no history).
    pub fn take_queue(&mut self, now: u64) -> (context_updated: bool)
        ensures
            context_updated == old(self).context_updated,
            !final(self).context_updated,
            final(self).last_grabbed_queue == now,
            final(self).current_context == old(self).current_context,
    {
        let updated = self.context_updated;
        self.context_updated = false;
        self.last_grabbed_queue = now;
        updated
    }
}

proof fn lemma_push_contains<T>(s: Seq<T>, x: T, t: T)
    ensures
        s.push(x).contains(t) <==> (s.contains(t) || t == x),
{
    if s.push(x).contains(t) {
        let m = choose|m: int| 0 <= m < s.push(x).len() && s.push(x)[m] == t;
        if m < s.len() {
            assert(s[m] == t);
        }
    }
    if s.contains(t) {
        let m = choose|m: int| 0 <= m < s.len() && s[m] == t;
        assert(s.push(x)[m] == t);
    }
    if t == x {
        assert(s.push(x)[s.len() as int] == t);
    }
}

/// The track IDs among `ids` whose audio features are not cached yet, each
/// once, in their first order.
pub fn missing_features(ids: &Vec<TrackId>, cached: &Vec<TrackId>) -> (missing: Vec<TrackId>)
    ensures
        missing@.no_duplicates(),
        forall|t: TrackId| #[trigger] missing@.contains(t) <==> (ids@.contains(t) && !cached@.contains(t)),
{
    let mut missing: Vec<TrackId> = Vec::new();
    let mut i: usize = 0;
    while i < ids.len()
        invariant
            0 <= i <= ids@.len(),
            missing@.no_duplicates(),
            forall|t: TrackId| #[trigger] missing@.contains(t) <==> (ids@.take(i as int).contains(t) && !cached@.contains(t)),
        decreases ids@.len() - i,
    {
        let id = ids[i];
        let mut known = false;
        let mut j: usize = 0;
        while j < cached.len()
            invariant
                0 <= j <= cached@.len(),
                known == exists|k: int| 0 <= k < j && #[trigger] cached@[k] == id,
            decreases cached@.len() - j,
        {
            if cached[j].0 == id.0 {
                assert(cached@[j as int] == id);
                known = true;
            }
            j += 1;
        }
        let mut present = false;
        let mut k: usize = 0;
        while k < missing.len()
            invariant
                0 <= k <= missing@.len(),
                present == exists|m: int| 0 <= m < k && #[trigger] missing@[m] == id,
            decreases missing@.len() - k,
        {
            if missing[k].0 == id.0 {
                assert(missing@[k as int] == id);
                present = true;
            }
            k += 1;
        }
        let ghost before = missing@;
        proof {
            assert(ids@.take(i as int + 1) =~= ids@.take(i as int).push(id));
            assert forall|t: TrackId| #[trigger] ids@.take(i as int + 1).contains(t) <==> (ids@.take(i as int).contains(t) || t == id) by {
                lemma_push_contains(ids@.take(i as int), id, t);
            }
        }
        if !known && !present {
            missing.push(id);
            proof {
                let after = missing@;
                assert forall|a: int, b: int| 0 <= a < after.len() && 0 <= b < after.len() && a != b
                    implies #[trigger] after[a] != #[trigger] after[b] by {
                    if a < before.len() && b < before.len() {
                        assert(after[a] == before[a] && after[b] == before[b]);
                    } else if a < before.len() {
                        assert(after[a] == before[a]);
                    } else {
                        assert(after[b] == before[b]);
                    }
                }
                assert forall|t: TrackId| #[trigger] after.contains(t) <==> (before.contains(t) || t == id) by {
                    if after.contains(t) {
                        let m = choose|m: int| 0 <= m < after.len() && after[m] == t;
                        if m < before.len() {
                            assert(before[m] == t);
                        }
                    }
                    if before.contains(t) {
                        let m = choose|m: int| 0 <= m < before.len() && before[m] == t;
                        assert(after[m] == t);
                    }
                    if t == id {
                        assert(after[before.len() as int] == t);
                    }
                }
            }
        } else {
            proof {
                if known {
                    let m = choose|m: int| 0 <= m < cached@.len() && #[trigger] cached@[m] == id;
                    assert(cached@.contains(id));
                } else {
                    let m = choose|m: int| 0 <= m < missing@.len() && #[trigger] missing@[m] == id;
                    assert(missing@.contains(id));
                }
            }
        }
        i += 1;
    }
    assert(ids@.take(i as int) =~= ids@);
    missing
}

/// The last segment of a URL path: what follows its last `/`.
pub open spec fn last_segment(href: Seq<char>) -> Seq<char> {
    if exists|i: int| 0 <= i < href.len() && href[i] == '/' {
        let i = choose|i: int| 0 <= i < href.len() && href[i] == '/' && forall|k: int| i < k < href.len() ==> href[k] != '/';
        href.skip(i + 1)
    } else {
        href
    }
}

/// The last segment of a ReccoBeats track link, which names the Spotify
/// track it describes.
pub fn href_track_id(href: &str) -> (id: &str)
    ensures
        id@ == last_segment(href@),
{
    let len = href.unicode_len();
    let mut i = len;
    while i > 0 && href.get_char(i - 1) != '/'
        invariant
            len == href@.len(),
            0 <= i <= len,
            forall|k: int| i <= k < len ==> href@[k] != '/',
        decreases i,
    {
        i -= 1;
    }
    proof {
        if i > 0 {
            let h = href@;
            assert(h[i - 1] == '/');
            let c = choose|c: int| 0 <= c < h.len() && h[c] == '/' && forall|k: int| c < k < h.len() ==> h[k] != '/';
            if c < i - 1 {
                assert(h[i - 1] != '/');
            } else if c > i - 1 {
                assert(h[c] != '/');
            }
            assert(href@.subrange(i as int, len as int) =~= h.skip(i as int));
        } else {
            assert(!(exists|k: int| 0 <= k < href@.len() && href@[k] == '/'));
            assert(href@.subrange(0, len as int) =~= href@);
        }
    }
    href.substring_char(i, len)
}

/// When the Spotify worker polls next (milliseconds on its clock): the
/// player every second, the playlists every twenty seconds, the first time
/// a second after it starts.
pub struct PollSchedule {
    pub next_playback: u64,
    pub next_playlists: u64,
}

impl PollSchedule {
    /// The schedule of a worker that starts at `now`.
    pub fn new(now: u64) -> (schedule: Self)
        requires
            now <= u64::MAX - 1000,
        ensures
            schedule.next_playback == now,
            schedule.next_playlists == now + 1000,
    {
        PollSchedule { next_playback: now, next_playlists: now + 1000 }
    }

    /// Which polls are due at `now`: the player's, the playlists'.
    pub fn due(&self, now: u64) -> (due: (bool, bool))
        ensures
            due == (now >= self.next_playback, now >= self.next_playlists),
    {
        (now >= self.next_playback, now >= self.next_playlists)
    }

    /// Records that the player was polled, finishing at `now`.
    pub fn playback_polled(&mut self, now: u64)
        requires
            now <= u64::MAX - 1000,
        ensures
            final(self).next_playback == now + 1000,
            final(self).next_playlists == old(self).next_playlists,
    {
        self.next_playback = now + 1000;
    }

    /// Records that the playlists were polled, finishing at `now`.
    pub fn playlists_polled(&mut self, now: u64)
        requires
            now <= u64::MAX - 20_000,
        ensures
            final(self).next_playlists == now + 20_000,
            final(self).next_playback == old(self).next_playback,
    {
        self.next_playlists = now + 20_000;
    }

    /// How long the worker may wait for a command at `now` before the next
    /// poll is due.
    pub fn timeout(&self, now: u64) -> (wait: u64)
        ensures
            ({
                let next = if self.next_playback < self.next_playlists { self.next_playback } else { self.next_playlists };
                wait == if next > now { next - now } else { 0 }
            }),
    {
        let next = if self.next_playback < self.next_playlists { self.next_playback } else { self.next_playlists };
        if next > now { next - now } else { 0 }
    }
}

} // verus!
