use vstd::prelude::*;
use crate::playback::{
    lemma_first_position_found, CondensedPlaylist, PlaybackState, PlaylistId, Track, TrackId, first_position, has_id, lemma_first_position,
    track_index, track_position,
};

verus! {

/// What the user asked of a track in the bar.
pub enum TrackAction {
    /// Rate the track: the rating index, 0 for half a star up to 9 for five
    /// stars.
    Rate(TrackId, u8),
    /// Add the track to the playlist, or remove it when it is there.
    TogglePlaylist(TrackId, PlaylistId),
    /// Play the track from a position along it, in millionths of its length.
    Seek(TrackId, u32),
}

/// What the bar asks of the Spotify player.
pub enum PlayerCommand {
    /// Change the track's playlist memberships (`true` adds), and its liked
    /// state when one is given.
    UpdateLibrary { track: TrackId, changes: Vec<(PlaylistId, bool)>, liked: Option<bool> },
    /// Seek within the current track.
    Seek { position_ms: u32 },
    /// Skip `count` tracks forward or back.
    Skip { forward: bool, count: usize },
    /// Play or pause.
    SetPlaying(bool),
    /// Set the volume, in percent.
    SetVolume(u8),
}

/// No playlist holds a track twice.
pub open spec fn playlists_wf(playlists: Seq<CondensedPlaylist>) -> bool {
    forall|i: int| 0 <= i < playlists.len() ==> #[trigger] playlists[i].wf()
}

/// The membership change that rating `track` with `rating` makes to a
/// rating playlist: it belongs in the playlist of its rating and in no other
/// rating playlist. `None` when nothing changes.
pub open spec fn rating_change(playlist: CondensedPlaylist, track: TrackId, rating: u8) -> Option<(PlaylistId, bool)> {
    match playlist.rating_index {
        None => None,
        Some(r) => {
            let add = r == rating;
            if playlist.tracks@.contains(track) != add {
                Some((playlist.id, add))
            } else {
                None
            }
        },
    }
}

/// The changes that rating `track` makes to `playlists`, in order.
pub open spec fn rating_changes(playlists: Seq<CondensedPlaylist>, track: TrackId, rating: u8) -> Seq<(PlaylistId, bool)>
    decreases playlists.len(),
{
    if playlists.len() == 0 {
        Seq::empty()
    } else {
        let earlier = rating_changes(playlists.drop_last(), track, rating);
        match rating_change(playlists.last(), track, rating) {
            Some(change) => earlier.push(change),
            None => earlier,
        }
    }
}

/// The playlist after its membership of `track` is set to `add`.
pub open spec fn with_membership(before: CondensedPlaylist, after: CondensedPlaylist, track: TrackId, add: bool) -> bool {
    &&& after.wf()
    &&& after.tracks@.to_set() == if add {
        before.tracks@.to_set().insert(track)
    } else {
        before.tracks@.to_set().remove(track)
    }
    &&& after.id == before.id
    &&& after.name == before.name
    &&& after.image_url == before.image_url
    &&& after.rating_index == before.rating_index
    &&& after.art == before.art
}

/// The playlist after `track` is rated `rating`.
pub open spec fn rated(before: CondensedPlaylist, after: CondensedPlaylist, track: TrackId, rating: u8) -> bool {
    match before.rating_index {
        Some(r) => with_membership(before, after, track, r == rating),
        None => after == before,
    }
}

/// Milliseconds into a track of `duration_ms` at `millionths` of its length,
/// rounded and capped at the largest `u32`; positions under 5% go to the
/// start, and positions past the end are not cut back to it.
pub open spec fn seek_position(duration_ms: u32, millionths: u32) -> int {
    if millionths < 50_000 {
        0
    } else {
        let ms = (duration_ms * millionths + 500_000) / 1_000_000;
        if ms > u32::MAX { u32::MAX as int } else { ms }
    }
}

/// Where a click on the playing track seeks to: the start for a click in
/// its first 5%; otherwise the millisecond nearest to that share of the
/// track (halves rounded up), unless that lies past the largest `u32`, which
/// is then taken. A click further along never seeks to an earlier point.
pub proof fn seek_targets_round_the_click(duration_ms: u32, millionths: u32, later: u32)
    ensures
        0 <= seek_position(duration_ms, millionths) <= u32::MAX,
        millionths < 50_000 ==> seek_position(duration_ms, millionths) == 0,
        ({
            let product = duration_ms * millionths;
            let target = seek_position(duration_ms, millionths);
            millionths >= 50_000 && product + 500_000 < (u32::MAX + 1) * 1_000_000 ==> 1_000_000 * target
                <= product + 500_000 < 1_000_000 * target + 1_000_000
        }),
        millionths >= 50_000 && duration_ms * millionths + 500_000 >= (u32::MAX + 1) * 1_000_000 ==> seek_position(
            duration_ms,
            millionths,
        ) == u32::MAX,
        50_000 <= millionths <= later ==> seek_position(duration_ms, millionths) <= seek_position(duration_ms, later),
{
    let product = duration_ms * millionths;
    if millionths >= 50_000 {
        let q = (product + 500_000) / 1_000_000;
        assert(1_000_000 * q <= product + 500_000 < 1_000_000 * q + 1_000_000) by (nonlinear_arith)
            requires
                q == (product + 500_000) / 1_000_000,
                product >= 0,
        ;
        if product + 500_000 < (u32::MAX + 1) * 1_000_000 {
            assert(q <= u32::MAX);
        } else {
            assert(q >= u32::MAX + 1);
        }
        if millionths <= later {
            let later_product = duration_ms * later;
            assert(product <= later_product) by (nonlinear_arith)
                requires
                    millionths <= later,
                    product == duration_ms * millionths,
                    later_product == duration_ms * later,
                    duration_ms >= 0,
            ;
            let later_q = (later_product + 500_000) / 1_000_000;
            assert(q <= later_q) by (nonlinear_arith)
                requires
                    q == (product + 500_000) / 1_000_000,
                    later_q == (later_product + 500_000) / 1_000_000,
                    0 <= product <= later_product,
            ;
        }
    }
}

fn seek_milliseconds(duration_ms: u32, millionths: u32) -> (ms: u32)
    ensures
        ms == seek_position(duration_ms, millionths),
{
    if millionths < 50_000 {
        return 0;
    }
    assert(duration_ms * millionths <= 0xffff_ffff * 0xffff_ffff) by (nonlinear_arith)
        requires
            duration_ms <= 0xffff_ffff,
            millionths <= 0xffff_ffff,
    ;
    let product = duration_ms as u64 * millionths as u64;
    let ms = (product + 500_000) / 1_000_000;
    if ms > 0xffff_ffff {
        0xffff_ffff
    } else {
        ms as u32
    }
}

/// Whether a playlist has the ID `id`.
pub open spec fn has_playlist_id(id: PlaylistId) -> spec_fn(CondensedPlaylist) -> bool {
    |p: CondensedPlaylist| p.id == id
}

/// The distance between two queue positions.
pub open spec fn distance(a: int, b: int) -> int {
    if a < b {
        b - a
    } else {
        a - b
    }
}

/// The volume after one scroll step: 5% up when `direction` is negative,
/// 5% down otherwise, within 0 to 100.
pub open spec fn volume_step(volume: u8, direction: i32) -> u8 {
    let stepped = if direction < 0 { volume + 5 } else { volume - 5 };
    (if stepped < 0 { 0 } else if stepped > 100 { 100 } else { stepped }) as u8
}

/// The volume stays within 0 to 100, and a step down undoes a step up away
/// from the limits.
pub proof fn volume_steps_stay_in_range(volume: u8, direction: i32)
    ensures
        volume_step(volume, direction) <= 100,
        5 <= volume <= 95 ==> volume_step(volume_step(volume, -1i32), 1i32) == volume,
        10 <= volume <= 100 ==> volume_step(volume_step(volume, 1i32), -1i32) == volume,
{
}

/// After a track's membership of a playlist is set, the playlist holds the
/// track exactly when it was added, so setting the same membership again
/// changes nothing.
pub proof fn membership_reads_back(before: CondensedPlaylist, after: CondensedPlaylist, track: TrackId, add: bool)
    requires
        with_membership(before, after, track, add),
    ensures
        after.tracks@.contains(track) == add,
{
    assert(after.tracks@.to_set().contains(track) == add);
}

/// Toggling a playlist flips whether it holds the track.
pub proof fn toggle_flips_membership(before: CondensedPlaylist, after: CondensedPlaylist, track: TrackId)
    requires
        with_membership(before, after, track, !before.tracks@.contains(track)),
    ensures
        after.tracks@.contains(track) != before.tracks@.contains(track),
{
    membership_reads_back(before, after, track, !before.tracks@.contains(track));
}

/// After a track is rated, each rating playlist holds it exactly when its
/// rating is the one given, and the other playlists are unchanged.
pub proof fn rating_selects_one_playlist(
    before: Seq<CondensedPlaylist>,
    after: Seq<CondensedPlaylist>,
    track: TrackId,
    rating: u8,
)
    requires
        before.len() == after.len(),
        forall|i: int| 0 <= i < before.len() ==> rated(before[i], #[trigger] after[i], track, rating),
    ensures
        forall|i: int|
            0 <= i < before.len() && before[i].rating_index is Some ==> #[trigger] after[i].tracks@.contains(track)
                == (before[i].rating_index->Some_0 == rating),
        forall|i: int| 0 <= i < before.len() && before[i].rating_index is None ==> #[trigger] after[i] == before[i],
{
    assert forall|i: int| 0 <= i < before.len() && before[i].rating_index is Some implies #[trigger] after[i].tracks@.contains(
        track,
    ) == (before[i].rating_index->Some_0 == rating) by {
        assert(rated(before[i], after[i], track, rating));
        membership_reads_back(before[i], after[i], track, before[i].rating_index->Some_0 == rating);
    }
    assert forall|i: int| 0 <= i < before.len() && before[i].rating_index is None implies #[trigger] after[i] == before[i] by {
        assert(rated(before[i], after[i], track, rating));
    }
}

/// The rating of a click on star `index` of a pill: two ratings per star,
/// the right half the higher.
pub open spec fn star_rating(index: int, right_half: bool) -> int {
    index * 2 + if right_half { 1int } else { 0int }
}

/// What a click on a track pill's icon row asks for. In the primary row the
/// first `stars` icons are rating stars; a click on one rates the track.
/// The other icons stand for `icons`, the row's playlists in order; a click
/// on one toggles the track's membership of that playlist.
pub fn icon_action(
    track: TrackId,
    primary_row: bool,
    stars: usize,
    index: usize,
    right_half: bool,
    icons: &Vec<PlaylistId>,
) -> (action: Option<TrackAction>)
    requires
        stars <= 5,
    ensures
        if primary_row && index < stars {
            action == Some(TrackAction::Rate(track, star_rating(index as int, right_half) as u8))
        } else {
            let k = if primary_row { index - stars } else { index as int };
            action == if k < icons@.len() {
                Some(TrackAction::TogglePlaylist(track, icons@[k]))
            } else {
                None
            }
        },
{
    if primary_row && index < stars {
        let half: u8 = if right_half { 1 } else { 0 };
        return Some(TrackAction::Rate(track, index as u8 * 2 + half));
    }
    let k = if primary_row { index - stars } else { index };
    if k < icons.len() {
        Some(TrackAction::TogglePlaylist(track, icons[k]))
    } else {
        None
    }
}

/// Whether a playlist is a rating playlist that holds `track`.
pub open spec fn rates_track(track: TrackId) -> spec_fn(CondensedPlaylist) -> bool {
    |p: CondensedPlaylist| p.rating_index is Some && p.tracks@.contains(track)
}

/// The rating a track's pill shows: -1 when ratings are off; otherwise the
/// rating index plus one of the first rating playlist that holds the track,
/// or 0 when none does.
pub open spec fn shown_rating(playlists: Seq<CondensedPlaylist>, track: TrackId, enabled: bool) -> int {
    if !enabled {
        -1
    } else {
        match first_position(playlists, rates_track(track)) {
            Some(i) => playlists[i].rating_index->Some_0 + 1,
            None => 0,
        }
    }
}

/// The rating shown on a track's pill.
pub fn track_rating(playlists: &Vec<CondensedPlaylist>, track: TrackId, enabled: bool) -> (rating: i32)
    ensures
        rating == shown_rating(playlists@, track, enabled),
{
    if !enabled {
        return -1;
    }
    let mut i: usize = 0;
    while i < playlists.len()
        invariant
            0 <= i <= playlists@.len(),
            enabled,
            forall|k: int| 0 <= k < i ==> !rates_track(track)(#[trigger] playlists@[k]),
        decreases playlists@.len() - i,
    {
        if let Some(r) = playlists[i].rating_index {
            if playlists[i].contains(track) {
                proof {
                    lemma_first_position(playlists@, rates_track(track), i as int);
                }
                return r as i32 + 1;
            }
        }
        i += 1;
    }
    0
}

proof fn lemma_rated_at(before: CondensedPlaylist, after: CondensedPlaylist, track: TrackId, rating: u8)
    requires
        rated(before, after, track, rating),
    ensures
        after.rating_index == before.rating_index,
        before.rating_index is Some ==> after.tracks@.contains(track) == (before.rating_index->Some_0 == rating),
{
    if before.rating_index is Some {
        membership_reads_back(before, after, track, before.rating_index->Some_0 == rating);
    }
}

/// Once a track is rated, its pill shows that rating (when a playlist for
/// the rating exists; otherwise it shows no rating).
pub proof fn rating_reads_back(before: Seq<CondensedPlaylist>, after: Seq<CondensedPlaylist>, track: TrackId, rating: u8)
    requires
        before.len() == after.len(),
        forall|i: int| 0 <= i < before.len() ==> rated(before[i], #[trigger] after[i], track, rating),
    ensures
        shown_rating(after, track, true) == if exists|i: int|
            0 <= i < before.len() && #[trigger] before[i].rating_index == Some(rating) {
            rating + 1
        } else {
            0
        },
{
    if exists|i: int| 0 <= i < before.len() && #[trigger] before[i].rating_index == Some(rating) {
        let w = choose|i: int| 0 <= i < before.len() && #[trigger] before[i].rating_index == Some(rating);
        lemma_rated_at(before[w], after[w], track, rating);
        assert(rates_track(track)(after[w]));
        lemma_first_position_found(after, rates_track(track));
        let j = first_position(after, rates_track(track))->Some_0;
        lemma_rated_at(before[j], after[j], track, rating);
    } else {
        lemma_first_position_found(after, rates_track(track));
        if let Some(j) = first_position(after, rates_track(track)) {
            lemma_rated_at(before[j], after[j], track, rating);
            assert(before[j].rating_index == Some(rating));
        }
    }
}

impl<R> PlaybackState<R> {
    /// Rates `track`: in each rating playlist the track joins the playlist
    /// of its rating and leaves the others. Returns the memberships that
    /// changed.
    fn rate(&mut self, track: TrackId, rating: u8) -> (changes: Vec<(PlaylistId, bool)>)
        requires
            playlists_wf(old(self).playlists@),
        ensures
            changes@ == rating_changes(old(self).playlists@, track, rating),
            final(self).playlists.len() == old(self).playlists.len(),
            forall|i: int|
                0 <= i < old(self).playlists.len() ==> rated(
                    old(self).playlists@[i],
                    #[trigger] final(self).playlists@[i],
                    track,
                    rating,
                ),
            final(self).queue == old(self).queue,
            final(self).queue_index == old(self).queue_index,
            final(self).playing == old(self).playing,
            final(self).volume == old(self).volume,
            final(self).progress_ms == old(self).progress_ms,
            final(self).last_progress_update == old(self).last_progress_update,
            final(self).last_interaction == old(self).last_interaction,
    {
        let ghost before = self.playlists@;
        let mut changes: Vec<(PlaylistId, bool)> = Vec::new();
        let mut i: usize = 0;
        assert(before.take(0) =~= Seq::<CondensedPlaylist>::empty());
        while i < self.playlists.len()
            invariant
                0 <= i <= self.playlists@.len(),
                self.playlists@.len() == before.len(),
                before == old(self).playlists@,
                playlists_wf(before),
                changes@ == rating_changes(before.take(i as int), track, rating),
                forall|k: int| 0 <= k < i ==> rated(before[k], #[trigger] self.playlists@[k], track, rating),
                forall|k: int| i <= k < before.len() ==> #[trigger] self.playlists@[k] == before[k],
                self.queue == old(self).queue,
                self.queue_index == old(self).queue_index,
                self.playing == old(self).playing,
                self.volume == old(self).volume,
                self.progress_ms == old(self).progress_ms,
                self.last_progress_update == old(self).last_progress_update,
                self.last_interaction == old(self).last_interaction,
            decreases self.playlists@.len() - i,
        {
            proof {
                assert(before.take(i as int + 1).drop_last() =~= before.take(i as int));
                assert(before.take(i as int + 1).last() == before[i as int]);
                assert(before[i as int].wf());
            }
            if let Some(index) = self.playlists[i].rating_index {
                let add = index == rating;
                let changed = self.playlists[i].set_membership(track, add);
                if changed {
                    changes.push((self.playlists[i].id, add));
                }
            }
            i += 1;
        }
        assert(before.take(i as int) =~= before);
        changes
    }

    /// Carries out what the user asked of a track and says what to ask of
    /// the player: rating sets the track's rating playlists (and likes it at
    /// five stars); toggling a playlist flips the track's membership; seeking
    /// moves within the current track, or skips to the chosen one. Nothing
    /// is asked for a playlist or track the bar does not know. After a seek,
    /// the player's reports are ignored for two seconds.
    pub fn handle_track_action(&mut self, action: TrackAction, now: u64) -> (command: Option<PlayerCommand>)
        requires
            playlists_wf(old(self).playlists@),
            now <= u64::MAX - 2000,
        ensures
            playlists_wf(final(self).playlists@),
            final(self).queue == old(self).queue,
            final(self).playing == old(self).playing,
            final(self).volume == old(self).volume,
            match action {
                TrackAction::Rate(track, rating) => {
                    &&& command matches Some(PlayerCommand::UpdateLibrary { track: t, changes, liked })
                    &&& t == track
                    &&& changes@ == rating_changes(old(self).playlists@, track, rating)
                    &&& liked == Some(rating >= 5)
                    &&& final(self).playlists.len() == old(self).playlists.len()
                    &&& forall|i: int|
                        0 <= i < old(self).playlists.len() ==> rated(
                            old(self).playlists@[i],
                            #[trigger] final(self).playlists@[i],
                            track,
                            rating,
                        )
                    &&& final(self).queue_index == old(self).queue_index
                    &&& final(self).progress_ms == old(self).progress_ms
                    &&& final(self).last_progress_update == old(self).last_progress_update
                    &&& final(self).last_interaction == old(self).last_interaction
                },
                TrackAction::TogglePlaylist(track, playlist) => {
                    &&& final(self).queue_index == old(self).queue_index
                    &&& final(self).progress_ms == old(self).progress_ms
                    &&& final(self).last_progress_update == old(self).last_progress_update
                    &&& final(self).last_interaction == old(self).last_interaction
                    &&& final(self).playlists.len() == old(self).playlists.len()
                    &&& match first_position(old(self).playlists@, has_playlist_id(playlist)) {
                        None => command is None && final(self).playlists == old(self).playlists,
                        Some(i) => {
                            let add = !old(self).playlists@[i].tracks@.contains(track);
                            &&& command matches Some(PlayerCommand::UpdateLibrary { track: t, changes, liked })
                            &&& t == track
                            &&& changes@ == seq![(playlist, add)]
                            &&& liked is None
                            &&& with_membership(old(self).playlists@[i], final(self).playlists@[i], track, add)
                            &&& forall|k: int|
                                0 <= k < old(self).playlists.len() && k != i ==> #[trigger] final(self).playlists@[k]
                                    == old(self).playlists@[k]
                        },
                    }
                },
                TrackAction::Seek(track, millionths) => {
                    &&& final(self).playlists == old(self).playlists
                    &&& match first_position(old(self).queue@, has_id::<R>(track)) {
                        None => command is None && final(self).queue_index == old(self).queue_index
                            && final(self).progress_ms == old(self).progress_ms
                            && final(self).last_progress_update == old(self).last_progress_update
                            && final(self).last_interaction == old(self).last_interaction,
                        Some(position) => {
                            &&& final(self).last_interaction == now + 2000
                            &&& final(self).last_progress_update == now
                            &&& if position == old(self).queue_index {
                                let ms = seek_position(old(self).queue@[position].duration_ms, millionths);
                                &&& command matches Some(PlayerCommand::Seek { position_ms })
                                &&& position_ms == ms
                                &&& final(self).progress_ms == ms
                                &&& final(self).queue_index == old(self).queue_index
                            } else {
                                &&& command matches Some(PlayerCommand::Skip { forward, count })
                                &&& forward == (old(self).queue_index < position)
                                &&& count == if distance(old(self).queue_index as int, position) < 10 {
                                    distance(old(self).queue_index as int, position)
                                } else {
                                    10
                                }
                                &&& final(self).queue_index == position
                                &&& final(self).progress_ms == 0
                            }
                        },
                    }
                },
            },
    {
        match action {
            TrackAction::Rate(track, rating) => {
                let changes = self.rate(track, rating);
                proof {
                    assert forall|i: int| 0 <= i < self.playlists@.len() implies #[trigger] self.playlists@[i].wf() by {
                        assert(old(self).playlists@[i].wf());
                        assert(rated(old(self).playlists@[i], self.playlists@[i], track, rating));
                    }
                }
                Some(PlayerCommand::UpdateLibrary { track, changes, liked: Some(rating >= 5) })
            },
            TrackAction::TogglePlaylist(track, playlist) => {
                let ghost same = has_playlist_id(playlist);
                let mut i: usize = 0;
                while i < self.playlists.len()
                    invariant_except_break
                        0 <= i <= self.playlists@.len(),
                    invariant
                        *self == *old(self),
                        same == has_playlist_id(playlist),
                        forall|k: int| 0 <= k < i ==> !same(#[trigger] self.playlists@[k]),
                    ensures
                        i <= self.playlists@.len(),
                        i < self.playlists@.len() ==> same(self.playlists@[i as int]),
                    decreases self.playlists@.len() - i,
                {
                    if self.playlists[i].id.0 == playlist.0 {
                        assert(same(self.playlists@[i as int]));
                        break;
                    }
                    i += 1;
                }
                if i == self.playlists.len() {
                    assert(!(exists|k: int| 0 <= k < self.playlists@.len() && same(#[trigger] self.playlists@[k])));
                    return None;
                }
                proof {
                    lemma_first_position(self.playlists@, same, i as int);
                    assert(self.playlists@[i as int].wf());
                }
                let add = !self.playlists[i].contains(track);
                self.playlists[i].set_membership(track, add);
                proof {
                    assert forall|k: int| 0 <= k < self.playlists@.len() implies #[trigger] self.playlists@[k].wf() by {
                        if k != i {
                            assert(old(self).playlists@[k].wf());
                        }
                    }
                }
                let mut changes: Vec<(PlaylistId, bool)> = Vec::new();
                changes.push((playlist, add));
                assert(changes@ =~= seq![(playlist, add)]);
                Some(PlayerCommand::UpdateLibrary { track, changes, liked: None })
            },
            TrackAction::Seek(track, millionths) => {
                let queue_index = self.queue_index;
                let mut position: usize = 0;
                while position < self.queue.len()
                    invariant_except_break
                        0 <= position <= self.queue@.len(),
                    invariant
                        *self == *old(self),
                        forall|k: int| 0 <= k < position ==> !has_id::<R>(track)(#[trigger] self.queue@[k]),
                    ensures
                        position <= self.queue@.len(),
                        position < self.queue@.len() ==> has_id::<R>(track)(self.queue@[position as int]),
                    decreases self.queue@.len() - position,
                {
                    let found = match self.queue[position].id {
                        Some(id) => id.0 == track.0,
                        None => false,
                    };
                    if found {
                        assert(has_id::<R>(track)(self.queue@[position as int]));
                        break;
                    }
                    position += 1;
                }
                if position == self.queue.len() {
                    assert(!(exists|k: int| 0 <= k < self.queue@.len() && has_id::<R>(track)(#[trigger] self.queue@[k])));
                    return None;
                }
                proof {
                    lemma_first_position(self.queue@, has_id::<R>(track), position as int);
                }
                let skip_count = if position < queue_index {
                    queue_index - position
                } else {
                    position - queue_index
                };
                let command = if skip_count == 0 {
                    let milliseconds = seek_milliseconds(self.queue[position].duration_ms, millionths);
                    self.update_progress(milliseconds, now);
                    PlayerCommand::Seek { position_ms: milliseconds }
                } else {
                    self.queue_index = position;
                    self.update_progress(0, now);
                    PlayerCommand::Skip { forward: queue_index < position, count: if skip_count < 10 { skip_count } else { 10 } }
                };
                self.last_interaction = now + 2000;
                Some(command)
            },
        }
    }

    /// Plays or pauses, and says what to ask of the player.
    pub fn toggle_playing(&mut self) -> (command: PlayerCommand)
        ensures
            final(self).playing == !old(self).playing,
            command == PlayerCommand::SetPlaying(final(self).playing),
            final(self).queue == old(self).queue,
            final(self).queue_index == old(self).queue_index,
            final(self).playlists == old(self).playlists,
            final(self).volume == old(self).volume,
            final(self).progress_ms == old(self).progress_ms,
            final(self).last_progress_update == old(self).last_progress_update,
            final(self).last_interaction == old(self).last_interaction,
    {
        self.playing = !self.playing;
        PlayerCommand::SetPlaying(self.playing)
    }

    /// Steps the volume by 5% for a scroll: up when `direction` is negative,
    /// down otherwise, within 0 to 100. Nothing happens while the volume is
    /// unknown.
    pub fn adjust_playback_volume(&mut self, direction: i32) -> (command: Option<PlayerCommand>)
        ensures
            match old(self).volume {
                None => command is None && final(self).volume is None,
                Some(v) => {
                    &&& final(self).volume == Some(volume_step(v, direction))
                    &&& command == Some(PlayerCommand::SetVolume(volume_step(v, direction)))
                },
            },
            final(self).queue == old(self).queue,
            final(self).queue_index == old(self).queue_index,
            final(self).playlists == old(self).playlists,
            final(self).playing == old(self).playing,
            final(self).progress_ms == old(self).progress_ms,
            final(self).last_progress_update == old(self).last_progress_update,
            final(self).last_interaction == old(self).last_interaction,
    {
        match self.volume {
            None => None,
            Some(volume) => {
                let stepped: u8 = if direction < 0 {
                    volume.saturating_add(5)
                } else {
                    volume.saturating_sub(5)
                };
                let bounded: u8 = if stepped > 100 { 100 } else { stepped };
                self.volume = Some(bounded);
                Some(PlayerCommand::SetVolume(bounded))
            },
        }
    }

    /// Takes in what the player reported: the playing item (when it is a
    /// track, the queue index moves to it, or to 0 when the queue does not
    /// hold it), the volume, and — unless the user acted on the player
    /// recently — whether it plays and how far it is. Returns whether
    /// playback started with this report.
    pub fn apply_playback(
        &mut self,
        item: Option<(Option<TrackId>, String)>,
        volume: Option<u8>,
        is_playing: bool,
        progress_ms: Option<u32>,
        now: u64,
    ) -> (started: bool)
        ensures
            final(self).queue_index == match item {
                Some((id, name)) => match track_position(old(self).queue@, id, name@) {
                    Some(i) => i as usize,
                    None => 0,
                },
                None => old(self).queue_index,
            },
            final(self).volume == volume,
            final(self).queue == old(self).queue,
            final(self).playlists == old(self).playlists,
            final(self).last_interaction == old(self).last_interaction,
            final(self).last_progress_update == now,
            if now >= old(self).last_interaction {
                &&& final(self).playing == is_playing
                &&& final(self).progress_ms == match progress_ms {
                    Some(p) => p,
                    None => 0,
                }
                &&& started == (is_playing && !old(self).playing)
            } else {
                &&& final(self).playing == old(self).playing
                &&& final(self).progress_ms == old(self).progress_ms
                &&& !started
            },
    {
        if let Some((id, name)) = item {
            self.queue_index = match track_index(self.queue.as_slice(), id, &name) {
                Some(i) => i,
                None => 0,
            };
        }
        self.volume = volume;
        if now >= self.last_interaction {
            let started = is_playing && !self.playing;
            self.playing = is_playing;
            let progress = match progress_ms {
                Some(p) => p,
                None => 0,
            };
            self.update_progress(progress, now);
            started
        } else {
            self.last_progress_update = now;
            false
        }
    }
}

} // verus!
