//! Playback decisions: which song to play next or before, what the state
//! becomes when playback starts, pauses or stops, and what is saved and
//! restored between runs. The audio output itself is driven by the caller.
use crate::app::app::{scroll_for, App};
use crate::app::mode::PlayMode;
use crate::text::{push_str, string_from_chars};
use rand::Rng;
use vstd::prelude::*;
use vstd::string::StringExecFns;

verus! {

/// A number drawn uniformly from `0..n` by the thread-local generator of the
/// rand crate (`rand::rng().random_range(0..n)`). Only the range is known;
/// which number comes back is chance.
#[verifier::external_body]
fn random_below(n: usize) -> (r: usize)
    requires
        n > 0,
    ensures
        r < n,
{
    rand::rng().random_range(0..n)
}

/// What to do after a song ends or the user asks for the next one.
#[derive(Debug, Clone, Copy, PartialEq, Eq, Structural)]
pub enum NextStep {
    /// The list is empty: nothing to do.
    Nothing,
    /// Play the song now selected.
    Play,
    /// The end of the list was reached: stop.
    Stop,
}

/// What to do when the user asks for the previous song.
#[derive(Debug, Clone, Copy, PartialEq, Eq, Structural)]
pub enum PrevStep {
    /// The list is empty: nothing to do.
    Nothing,
    /// Play the song at this index again from its start.
    Restart(usize),
    /// Play the song now selected.
    Play,
}

/// What to do with the song that was playing at the last exit.
#[derive(Debug, Clone, Copy, PartialEq, Eq, Structural)]
pub enum RestoreStep {
    /// Nothing was saved.
    Nothing,
    /// The saved song is gone; the saved state was cleared (and should be written).
    Forget,
    /// Load the song at this index.
    Play(usize),
}

/// Position in the list of the playing song, if it is listed.
pub open spec fn playing_position(app: App) -> Option<int> {
    match app.current_song_index {
        Some(idx) => if exists|j: int|
            0 <= j < app.filtered_indices@.len() && app.filtered_indices@[j] == idx {
            Some(
                choose|j: int|
                    0 <= j < app.filtered_indices@.len() && app.filtered_indices@[j] == idx
                        && forall|i: int| 0 <= i < j ==> app.filtered_indices@[i] != idx,
            )
        } else {
            None
        },
        None => None,
    }
}

/// The list position that the next song comes from, or `None` to stop:
/// the same song again (single repeat), `random` (shuffle), or the
/// following one, wrapping to the top when the whole list repeats.
pub open spec fn next_position(app: App, random: usize) -> Option<int> {
    let len = app.filtered_indices@.len();
    match app.play_mode {
        PlayMode::Single => match playing_position(app) {
            Some(p) => Some(p),
            None => Some(0),
        },
        PlayMode::Shuffle => Some(random as int),
        _ => match playing_position(app) {
            Some(p) => if p + 1 < len {
                Some(p + 1)
            } else if app.play_mode == PlayMode::All {
                Some(0)
            } else {
                None
            },
            None => Some(0),
        },
    }
}

proof fn lemma_playing_at(app: App, p: int)
    requires
        0 <= p < app.filtered_indices@.len(),
        app.current_song_index == Some(app.filtered_indices@[p]),
        forall|i: int| 0 <= i < p ==> app.filtered_indices@[i] != app.filtered_indices@[p],
    ensures
        playing_position(app) == Some(p),
{
    let s = app.filtered_indices@;
    let x = s[p];
    assert(exists|j: int| 0 <= j < s.len() && s[j] == x);
    let q = choose|j: int| 0 <= j < s.len() && s[j] == x && forall|i: int| 0 <= i < j ==> s[i] != x;
    assert(0 <= q < s.len() && s[q] == x && forall|i: int| 0 <= i < q ==> s[i] != x);
    if q < p {
        assert(s[q] != x);
    }
    if q > p {
        assert(s[p] != x);
    }
    assert(playing_position(app) == Some(p));
}

/// Law: in sequential and list-repeat play, the next song is the one listed
/// right after the playing song (at its first listed position `p`); after
/// the last one, list repeat goes back to the first and sequential play stops.
pub proof fn lemma_next_follows_playing(app: App, random: usize, p: int)
    requires
        app.play_mode == PlayMode::Sequential || app.play_mode == PlayMode::All,
        0 <= p < app.filtered_indices@.len(),
        app.current_song_index == Some(app.filtered_indices@[p]),
        forall|i: int| 0 <= i < p ==> app.filtered_indices@[i] != app.filtered_indices@[p],
    ensures
        p + 1 < app.filtered_indices@.len() ==> next_position(app, random) == Some(p + 1),
        p + 1 == app.filtered_indices@.len() && app.play_mode == PlayMode::All ==> next_position(
            app,
            random,
        ) == Some(0int),
        p + 1 == app.filtered_indices@.len() && app.play_mode == PlayMode::Sequential
            ==> next_position(app, random) is None,
{
    lemma_playing_at(app, p);
}

/// Law: the previous song is the one listed right before the playing song
/// (at its first listed position `p`), and before the first one comes the
/// last; in single repeat the next song is the playing one again.
pub proof fn lemma_prev_precedes_playing(app: App, random: usize, p: int)
    requires
        0 <= p < app.filtered_indices@.len(),
        app.current_song_index == Some(app.filtered_indices@[p]),
        forall|i: int| 0 <= i < p ==> app.filtered_indices@[i] != app.filtered_indices@[p],
    ensures
        p > 0 ==> prev_position(app) == p - 1,
        p == 0 ==> prev_position(app) == app.filtered_indices@.len() - 1,
        app.play_mode == PlayMode::Single ==> next_position(app, random) == Some(p),
{
    lemma_playing_at(app, p);
}

/// The list position of the previous song: the one before the playing
/// song, wrapping to the last; the first when the playing song is not listed.
pub open spec fn prev_position(app: App) -> int {
    match playing_position(app) {
        Some(p) => if p > 0 {
            p - 1
        } else {
            app.filtered_indices@.len() - 1
        },
        None => 0,
    }
}

/// Where a relative seek lands: `step_ms` after or before `current_ms`
/// (not before the start), and not past the end of a song of known length.
pub open spec fn seek_target_spec(current_ms: u64, forward: bool, step_ms: u64, total_ms: Option<u64>) -> int {
    let moved: int = if forward {
        if current_ms + step_ms <= u64::MAX {
            current_ms + step_ms
        } else {
            u64::MAX as int
        }
    } else if current_ms >= step_ms {
        current_ms - step_ms
    } else {
        0
    };
    match total_ms {
        Some(t) => if moved < t {
            moved
        } else {
            t as int
        },
        None => moved,
    }
}

/// Law: a seek moves by exactly the step where the song allows it.
/// Backward from at least `step_ms` it lands `step_ms` earlier, and from
/// less it lands at the start; forward it lands `step_ms` later unless that
/// passes the end of the song, where it stops. It never passes a known end.
pub proof fn lemma_seek_moves_by_step(current_ms: u64, step_ms: u64, total_ms: Option<u64>)
    ensures
        current_ms >= step_ms && (total_ms is None || current_ms - step_ms <= total_ms->0)
            ==> seek_target_spec(current_ms, false, step_ms, total_ms) + step_ms == current_ms,
        current_ms < step_ms ==> seek_target_spec(current_ms, false, step_ms, total_ms) == 0,
        current_ms + step_ms <= u64::MAX && (total_ms is None || current_ms + step_ms
            <= total_ms->0) ==> seek_target_spec(current_ms, true, step_ms, total_ms)
            == current_ms + step_ms,
        total_ms is Some && current_ms + step_ms >= total_ms->0 ==> seek_target_spec(
            current_ms,
            true,
            step_ms,
            total_ms,
        ) == total_ms->0,
        total_ms is Some ==> seek_target_spec(current_ms, true, step_ms, total_ms) <= total_ms->0
            && seek_target_spec(current_ms, false, step_ms, total_ms) <= total_ms->0,
{
}

/// Where a relative seek by `step_ms` from `current_ms` lands.
pub fn seek_target(current_ms: u64, forward: bool, step_ms: u64, total_ms: Option<u64>) -> (pos: u64)
    ensures
        pos == seek_target_spec(current_ms, forward, step_ms, total_ms),
        !forward && current_ms >= step_ms && (total_ms is None || current_ms - step_ms
            <= total_ms->0) ==> pos + step_ms == current_ms,
        !forward && current_ms < step_ms ==> pos == 0,
        forward && current_ms + step_ms <= u64::MAX && (total_ms is None || current_ms + step_ms
            <= total_ms->0) ==> pos == current_ms + step_ms,
        total_ms is Some ==> pos <= total_ms->0,
{
    proof {
        lemma_seek_moves_by_step(current_ms, step_ms, total_ms);
    }
    let moved = if forward {
        current_ms.saturating_add(step_ms)
    } else {
        current_ms.saturating_sub(step_ms)
    };
    match total_ms {
        Some(t) => if moved < t {
            moved
        } else {
            t
        },
        None => moved,
    }
}

/// `post` is `pre` after the pause key: with a song loaded, playing and
/// paused swap and the status line says which; without one, nothing changes.
pub open spec fn pause_toggled(pre: App, post: App) -> bool {
    if pre.current_song_index is Some {
        &&& post.is_playing == !pre.is_playing
        &&& post.status_message@ == if post.is_playing {
            "播放"@
        } else {
            "暂停"@
        }
        &&& post == (App {
            is_playing: post.is_playing,
            status_message: post.status_message,
            ..pre
        })
    } else {
        post == pre
    }
}

/// Law: pausing twice gives back the playing state; only the status line
/// tells that anything happened.
pub proof fn lemma_pause_twice(a: App, b: App, c: App)
    requires
        pause_toggled(a, b),
        pause_toggled(b, c),
    ensures
        c.is_playing == a.is_playing,
        c == (App { status_message: c.status_message, ..a }),
{
}

/// The message shown while a song plays.
pub open spec fn playing_message(artist: Seq<char>, title: Seq<char>) -> Seq<char> {
    "播放中: "@ + artist + " - "@ + title
}

/// `post` is `pre` with the playback state recorded in its settings: the
/// sort order, and the loaded song's path with the position `position_ms`
/// in whole seconds, or nothing when no song is loaded (a loaded index past
/// the list leaves the record as it was).
pub open spec fn playback_saved(pre: App, post: App, position_ms: u64) -> bool {
    &&& post.config.sort_mode == pre.sort_mode
    &&& match pre.current_song_index {
        Some(idx) => if idx < pre.songs@.len() {
            &&& post.config.last_song_path == pre.songs@[idx as int].path
            &&& post.config.last_position_secs == position_ms / 1000
        } else {
            &&& post.config.last_song_path == pre.config.last_song_path
            &&& post.config.last_position_secs == pre.config.last_position_secs
        },
        None => {
            &&& post.config.last_song_path@.len() == 0
            &&& post.config.last_position_secs == 0
        },
    }
    &&& post.config.music_folder == pre.config.music_folder
    &&& post.config.themecolor == pre.config.themecolor
    &&& post == (App { config: post.config, ..pre })
}

/// Law: what is recorded at exit is found at the next start. After the
/// playback state of a loaded song with a path is recorded, looking up the
/// recorded path in the same song list finds a song with that path, no
/// later in the list than the loaded one, and the recorded position is the
/// position in whole seconds.
pub proof fn lemma_saved_song_found(pre: App, post: App, position_ms: u64)
    requires
        playback_saved(pre, post, position_ms),
        pre.current_song_index matches Some(idx) && idx < pre.songs@.len() && pre.songs@[idx as int].path@.len() > 0,
    ensures
        post.config.last_song_path@.len() > 0,
        crate::app::scan::first_with_path(post.songs@, post.config.last_song_path@) matches Some(j)
            && j <= pre.current_song_index->0 && post.songs@[j].path@ == pre.songs@[pre.current_song_index->0 as int].path@,
        post.config.last_position_secs == position_ms / 1000,
{
    let idx = pre.current_song_index->0;
    assert(post.songs == pre.songs);
    lemma_first_with_path_found(post.songs@, post.config.last_song_path@, idx as int);
}

proof fn lemma_first_with_path_found(songs: Seq<crate::app::app::Song>, p: Seq<char>, idx: int)
    requires
        0 <= idx < songs.len(),
        songs[idx].path@ == p,
    ensures
        crate::app::scan::first_with_path(songs, p) matches Some(j) && j <= idx && songs[j].path@ == p,
    decreases idx,
{
    if exists|i: int| 0 <= i < idx && songs[i].path@ == p {
        let i = choose|i: int| 0 <= i < idx && songs[i].path@ == p;
        lemma_first_with_path_found(songs, p, i);
    } else {
        assert(forall|i: int| 0 <= i < idx ==> songs[i].path@ != p);
        let j = choose|j: int|
            0 <= j < songs.len() && songs[j].path@ == p && forall|i: int|
                0 <= i < j ==> songs[i].path@ != p;
        assert(songs[idx].path@ == p && forall|i: int| 0 <= i < idx ==> songs[i].path@ != p);
        if j > idx {
            assert(songs[idx].path@ != p);
        }
    }
}

/// Where playback resumes for a record of `secs` seconds, in milliseconds.
pub open spec fn resume_position(secs: u64) -> u64 {
    if secs <= u64::MAX / 1000 {
        (secs * 1000) as u64
    } else {
        u64::MAX
    }
}

/// `post` has the recorded song at `song_idx` loaded, paused, at the
/// recorded position.
pub open spec fn restored(pre: App, post: App, song_idx: usize) -> bool {
    &&& post.current_song_index == Some(song_idx)
    &&& !post.is_playing
    &&& post.duration == pre.songs@[song_idx as int].duration
    &&& post.current_pos == resume_position(pre.config.last_position_secs)
}

/// Law: quitting and starting again resumes where playback was: after the
/// playback state of a loaded song with a path is recorded, the song found
/// for the record has the same path, and restoring it resumes at the
/// recorded position, to the whole second.
pub proof fn lemma_restore_resumes(pre: App, mid: App, position_ms: u64, post: App, j: int)
    requires
        playback_saved(pre, mid, position_ms),
        pre.current_song_index matches Some(idx) && idx < pre.songs@.len() && pre.songs@[idx as int].path@.len() > 0,
        crate::app::scan::first_with_path(mid.songs@, mid.config.last_song_path@) == Some(j),
        restored(mid, post, j as usize),
    ensures
        post.current_song_index == Some(j as usize),
        mid.songs@[j].path@ == pre.songs@[pre.current_song_index->0 as int].path@,
        post.current_pos == position_ms / 1000 * 1000,
        !post.is_playing,
{
    lemma_saved_song_found(pre, mid, position_ms);
    assert(position_ms / 1000 <= u64::MAX / 1000);
}

impl App {
    fn playing_list_position(&self) -> (r: Option<usize>)
        ensures
            match r {
                Some(p) => playing_position(*self) == Some(p as int) && p
                    < self.filtered_indices@.len(),
                None => playing_position(*self) is None,
            },
    {
        match self.current_song_index {
            Some(idx) => match self.list_position(idx) {
                Some(p) => {
                    proof {
                        crate::app::library::lemma_first_position_of(
                            self.filtered_indices@,
                            idx,
                            p as int,
                        );
                        let q = choose|j: int|
                            0 <= j < self.filtered_indices@.len() && self.filtered_indices@[j]
                                == idx && forall|i: int|
                                0 <= i < j ==> self.filtered_indices@[i] != idx;
                        if q < p {
                            assert(self.filtered_indices@[q] != idx);
                        }
                        if q > p {
                            assert(self.filtered_indices@[p as int] != idx);
                        }
                    }
                    Some(p)
                },
                None => None,
            },
            None => None,
        }
    }

    /// Choose the next song, with `random` as the shuffle draw. On `Play`
    /// the chosen song is selected.
    pub fn next_song_with(&mut self, random: usize) -> (step: NextStep)
        requires
            old(self).play_mode == PlayMode::Shuffle && old(self).filtered_indices@.len() > 0
                ==> random < old(self).filtered_indices@.len(),
        ensures
            old(self).filtered_indices@.len() == 0 ==> step == NextStep::Nothing && *final(self)
                == *old(self),
            old(self).filtered_indices@.len() > 0 ==> match next_position(*old(self), random) {
                Some(p) => step == NextStep::Play && *final(self) == (App {
                    selected_index: p as usize,
                    ..*old(self)
                }),
                None => step == NextStep::Stop && *final(self) == *old(self),
            },
            old(self).play_mode == PlayMode::Sequential || old(self).play_mode == PlayMode::All
                ==> match playing_position(*old(self)) {
                Some(p) => {
                    &&& p + 1 < old(self).filtered_indices@.len() ==> step == NextStep::Play
                        && final(self).selected_index == p + 1
                    &&& p + 1 == old(self).filtered_indices@.len() && old(self).play_mode
                        == PlayMode::All ==> step == NextStep::Play && final(self).selected_index
                        == 0
                    &&& p + 1 == old(self).filtered_indices@.len() && old(self).play_mode
                        == PlayMode::Sequential ==> step == NextStep::Stop
                },
                None => true,
            },
    {
        if self.filtered_indices.len() == 0 {
            return NextStep::Nothing;
        }
        let current = self.playing_list_position();
        let next = match self.play_mode {
            PlayMode::Single => match current {
                Some(p) => p,
                None => 0,
            },
            PlayMode::Shuffle => random,
            PlayMode::All | PlayMode::Sequential => match current {
                Some(p) => {
                    if p + 1 < self.filtered_indices.len() {
                        p + 1
                    } else if self.play_mode == PlayMode::All {
                        0
                    } else {
                        return NextStep::Stop;
                    }
                },
                None => 0,
            },
        };
        self.selected_index = next;
        NextStep::Play
    }

    /// Choose the next song (drawing the shuffle number when shuffling). On
    /// `Play` the chosen song is selected.
    pub fn next_song(&mut self) -> (step: NextStep)
        ensures
            old(self).filtered_indices@.len() == 0 ==> step == NextStep::Nothing && *final(self)
                == *old(self),
            old(self).filtered_indices@.len() > 0 && old(self).play_mode != PlayMode::Shuffle
                ==> match next_position(*old(self), 0) {
                Some(p) => step == NextStep::Play && *final(self) == (App {
                    selected_index: p as usize,
                    ..*old(self)
                }),
                None => step == NextStep::Stop && *final(self) == *old(self),
            },
            old(self).filtered_indices@.len() > 0 && old(self).play_mode == PlayMode::Shuffle
                ==> step == NextStep::Play && final(self).selected_index
                < old(self).filtered_indices@.len() && *final(self) == (App {
                selected_index: final(self).selected_index,
                ..*old(self)
            }),
    {
        let random = if self.play_mode == PlayMode::Shuffle && self.filtered_indices.len() > 0 {
            random_below(self.filtered_indices.len())
        } else {
            0
        };
        self.next_song_with(random)
    }

    /// Choose the previous song. After more than three seconds of a song,
    /// that song starts again instead (`Restart`, with the position reset).
    /// On `Play` the chosen song is selected.
    pub fn prev_song(&mut self) -> (step: PrevStep)
        ensures
            old(self).filtered_indices@.len() == 0 ==> step == PrevStep::Nothing && *final(self)
                == *old(self),
            old(self).filtered_indices@.len() > 0 ==> {
                let restart = old(self).current_pos > 3000 && match old(self).current_song_index {
                    Some(idx) => idx < old(self).songs@.len(),
                    None => false,
                };
                &&& restart ==> step == PrevStep::Restart(old(self).current_song_index->0)
                    && *final(self) == (App { current_pos: 0, ..*old(self) })
                &&& !restart ==> step == PrevStep::Play && *final(self) == (App {
                    selected_index: prev_position(*old(self)) as usize,
                    ..*old(self)
                })
            },
    {
        if self.filtered_indices.len() == 0 {
            return PrevStep::Nothing;
        }
        if self.current_pos > 3000 {
            if let Some(idx) = self.current_song_index {
                if idx < self.songs.len() {
                    self.current_pos = 0;
                    return PrevStep::Restart(idx);
                }
            }
        }
        let prev = match self.playing_list_position() {
            Some(p) => if p > 0 {
                p - 1
            } else {
                self.filtered_indices.len() - 1
            },
            None => 0,
        };
        self.selected_index = prev;
        PrevStep::Play
    }

    /// Prepare to play the selected song: the selection falls back to the
    /// first row when it is past the end. Returns the index of the song to
    /// play, or `None` when the list is empty or lists no such song.
    pub fn select_for_play(&mut self) -> (song: Option<usize>)
        ensures
            old(self).filtered_indices@.len() == 0 ==> song is None && *final(self) == *old(self),
            old(self).filtered_indices@.len() > 0 ==> {
                let sel: usize = if old(self).selected_index < old(self).filtered_indices@.len() {
                    old(self).selected_index
                } else {
                    0
                };
                let idx = old(self).filtered_indices@[sel as int];
                &&& *final(self) == (App { selected_index: sel, ..*old(self) })
                &&& song == if idx < old(self).songs@.len() {
                    Some(idx)
                } else {
                    None
                }
            },
    {
        if self.filtered_indices.len() == 0 {
            return None;
        }
        if self.selected_index >= self.filtered_indices.len() {
            self.selected_index = 0;
        }
        let idx = self.filtered_indices[self.selected_index];
        if idx < self.songs.len() {
            Some(idx)
        } else {
            None
        }
    }

    /// The song at `song_idx` has started playing from its start.
    pub fn on_play_started(&mut self, song_idx: usize)
        requires
            song_idx < old(self).songs@.len(),
        ensures
            final(self).status_message@ == playing_message(
                old(self).songs@[song_idx as int].artist@,
                old(self).songs@[song_idx as int].title@,
            ),
            *final(self) == (App {
                current_song_index: Some(song_idx),
                is_playing: true,
                duration: old(self).songs@[song_idx as int].duration,
                current_pos: 0,
                status_message: final(self).status_message,
                ..*old(self)
            }),
    {
        self.current_song_index = Some(song_idx);
        self.is_playing = true;
        self.duration = self.songs[song_idx].duration;
        self.current_pos = 0;
        let mut msg: Vec<char> = Vec::new();
        push_str(&mut msg, "播放中: ");
        push_str(&mut msg, self.songs[song_idx].artist.as_str());
        push_str(&mut msg, " - ");
        push_str(&mut msg, self.songs[song_idx].title.as_str());
        self.status_message = string_from_chars(&msg);
    }

    /// Playing failed with the error text `err`.
    pub fn on_play_failed(&mut self, err: &str, now_ms: u64)
        ensures
            final(self).status_message@ == "播放失败: "@ + err@,
            *final(self) == (App {
                status_message: final(self).status_message,
                status_expiry: final(self).status_expiry,
                ..*old(self)
            }),
            final(self).status_expiry is Some,
    {
        let mut msg: Vec<char> = Vec::new();
        push_str(&mut msg, "播放失败: ");
        push_str(&mut msg, err);
        let text = string_from_chars(&msg);
        self.set_status(text, now_ms);
    }

    /// Pause or resume. Returns whether there is a song loaded, that is,
    /// whether the player must pause or resume.
    pub fn toggle_pause(&mut self) -> (toggled: bool)
        ensures
            toggled == (old(self).current_song_index is Some),
            pause_toggled(*old(self), *final(self)),
    {
        if self.current_song_index.is_some() {
            self.is_playing = !self.is_playing;
            self.status_message = if self.is_playing {
                String::from_str("播放")
            } else {
                String::from_str("暂停")
            };
            true
        } else {
            false
        }
    }

    /// Playback stopped.
    pub fn stop(&mut self)
        ensures
            final(self).status_message@ == "停止"@,
            *final(self) == (App {
                is_playing: false,
                current_pos: 0,
                status_message: final(self).status_message,
                ..*old(self)
            }),
    {
        self.is_playing = false;
        self.current_pos = 0;
        self.status_message = String::from_str("停止");
    }

    /// Record in the settings what to restore at the next start: the sort
    /// order, and the playing song with its position (`position_ms`), or
    /// nothing when no song is loaded.
    pub fn save_playback_state(&mut self, position_ms: u64)
        ensures
            playback_saved(*old(self), *final(self), position_ms),
    {
        self.config.sort_mode = self.sort_mode;
        match self.current_song_index {
            Some(idx) => {
                if idx < self.songs.len() {
                    self.config.last_song_path = self.songs[idx].path.clone();
                    self.config.last_position_secs = position_ms / 1000;
                }
            },
            None => {
                self.config.last_song_path = String::new();
                self.config.last_position_secs = 0;
            },
        }
    }

    /// Quit, recording the playback state (see `save_playback_state`).
    pub fn quit(&mut self, position_ms: u64)
        ensures
            !final(self).running,
            playback_saved(App { running: false, ..*old(self) }, *final(self), position_ms),
    {
        self.running = false;
        self.save_playback_state(position_ms);
    }

    /// Find the song saved at the last exit. When it is gone, the saved
    /// state is cleared (`Forget`).
    pub fn find_saved_song(&mut self) -> (step: RestoreStep)
        ensures
            old(self).config.last_song_path@.len() == 0 ==> step == RestoreStep::Nothing
                && *final(self) == *old(self),
            old(self).config.last_song_path@.len() > 0 ==> match crate::app::scan::first_with_path(
                old(self).songs@,
                old(self).config.last_song_path@,
            ) {
                Some(i) => step == RestoreStep::Play(i as usize) && *final(self) == *old(self),
                None => step == RestoreStep::Forget && final(self).config.last_song_path@.len()
                    == 0 && final(self).config.last_position_secs == 0 && final(self).config.music_folder
                    == old(self).config.music_folder && final(self).config.themecolor == old(
                    self,
                ).config.themecolor && final(self).config.sort_mode == old(self).config.sort_mode
                    && *final(self) == (App { config: final(self).config, ..*old(self) }),
            },
    {
        if self.config.last_song_path.as_str().is_empty() {
            return RestoreStep::Nothing;
        }
        match crate::app::scan::find_first_with_path(&self.songs, &self.config.last_song_path) {
            Some(i) => RestoreStep::Play(i),
            None => {
                self.config.last_song_path = String::new();
                self.config.last_position_secs = 0;
                RestoreStep::Forget
            },
        }
    }

    /// The saved song at `song_idx` is loaded (and paused): set the state,
    /// with the saved position, and select the song when it is listed.
    /// Returns the position to seek to, in seconds (0 for the start).
    pub fn on_restored(&mut self, song_idx: usize) -> (seek_secs: u64)
        requires
            song_idx < old(self).songs@.len(),
        ensures
            seek_secs == old(self).config.last_position_secs,
            restored(*old(self), *final(self), song_idx),
            final(self).current_song_index == Some(song_idx),
            !final(self).is_playing,
            final(self).duration == old(self).songs@[song_idx as int].duration,
            final(self).current_pos == if seek_secs <= u64::MAX / 1000 {
                seek_secs * 1000
            } else {
                u64::MAX as int
            },
            (exists|j: int| 0 <= j < old(self).filtered_indices@.len()
                && old(self).filtered_indices@[j] == song_idx) ==> {
                &&& final(self).filtered_indices@[final(self).selected_index as int] == song_idx
                &&& final(self).selected_index < old(self).filtered_indices@.len()
                &&& forall|j: int|
                    0 <= j < final(self).selected_index ==> #[trigger] old(
                        self,
                    ).filtered_indices@[j] != song_idx
                &&& final(self).scroll_offset == scroll_for(
                    final(self).selected_index,
                    old(self).scroll_offset,
                    old(self).playlist_visible_height,
                )
            },
            !(exists|j: int| 0 <= j < old(self).filtered_indices@.len()
                && old(self).filtered_indices@[j] == song_idx) ==> {
                &&& final(self).selected_index == old(self).selected_index
                &&& final(self).scroll_offset == old(self).scroll_offset
            },
            *final(self) == (App {
                current_song_index: Some(song_idx),
                is_playing: false,
                duration: final(self).duration,
                current_pos: final(self).current_pos,
                selected_index: final(self).selected_index,
                scroll_offset: final(self).scroll_offset,
                ..*old(self)
            }),
    {
        let pos_secs = self.config.last_position_secs;
        self.current_song_index = Some(song_idx);
        self.is_playing = false;
        self.duration = self.songs[song_idx].duration;
        self.current_pos = if pos_secs <= u64::MAX / 1000 {
            pos_secs * 1000
        } else {
            u64::MAX
        };
        if let Some(p) = self.list_position(song_idx) {
            self.selected_index = p;
            self.adjust_scroll();
        }
        pos_secs
    }

    /// Follow the player once per pass of the main loop: while playing, the
    /// position is taken from the player (`position_ms`); when the player
    /// has run out (`player_busy` false) with a song loaded and playing,
    /// playback is marked stopped and the result says to go on to the next
    /// song.
    pub fn track_playback(&mut self, position_ms: u64, player_busy: bool) -> (advance: bool)
        ensures
            advance == (old(self).is_playing && old(self).current_song_index is Some
                && !player_busy),
            *final(self) == (App {
                current_pos: if old(self).is_playing {
                    position_ms
                } else {
                    old(self).current_pos
                },
                is_playing: old(self).is_playing && !advance,
                ..*old(self)
            }),
    {
        if self.is_playing {
            self.current_pos = position_ms;
        }
        if self.is_playing && self.current_song_index.is_some() && !player_busy {
            self.is_playing = false;
            true
        } else {
            false
        }
    }

    /// Fit the list to a playlist area of `height` rows (two go to its border).
    pub fn set_visible_height(&mut self, height: u16)
        ensures
            final(self).playlist_visible_height == if height >= 2 {
                height - 2
            } else {
                0
            },
            *final(self) == (App { playlist_visible_height: final(self).playlist_visible_height, ..*old(self) }),
    {
        self.playlist_visible_height = if height >= 2 {
            (height - 2) as usize
        } else {
            0
        };
    }
}

} // verus!
