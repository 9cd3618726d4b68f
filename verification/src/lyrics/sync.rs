//! Following the playback position through a list of timed lines.
use vstd::prelude::*;

verus! {

/// Synchronises lyrics with the playback position.
pub struct LyricsSync {
    pub current_index: usize,
}

/// Position of the first time after `position` (or `times.len()`).
pub open spec fn first_after(times: Seq<u64>, position: u64) -> int
    decreases times.len(),
{
    if times.len() == 0 {
        0
    } else if times[0] > position {
        0
    } else {
        1 + first_after(times.drop_first(), position)
    }
}

proof fn lemma_first_after_at(times: Seq<u64>, position: u64, i: int)
    requires
        0 <= i <= times.len(),
        forall|j: int| 0 <= j < i ==> #[trigger] times[j] <= position,
        i == times.len() || times[i] > position,
    ensures
        first_after(times, position) == i,
    decreases i,
{
    if i > 0 {
        let t = times.drop_first();
        assert forall|j: int| 0 <= j < i - 1 implies #[trigger] t[j] <= position by {
            assert(t[j] == times[j + 1]);
        }
        if i < times.len() {
            assert(t[i - 1] == times[i]);
        }
        lemma_first_after_at(t, position, i - 1);
    }
}

proof fn lemma_first_after_props(times: Seq<u64>, position: u64)
    ensures
        0 <= first_after(times, position) <= times.len(),
        forall|j: int| 0 <= j < first_after(times, position) ==> #[trigger] times[j] <= position,
        first_after(times, position) < times.len() ==> times[first_after(times, position)]
            > position,
    decreases times.len(),
{
    if times.len() > 0 && times[0] <= position {
        let t = times.drop_first();
        lemma_first_after_props(t, position);
        assert forall|j: int| 0 <= j < first_after(times, position) implies #[trigger] times[j]
            <= position by {
            if j > 0 {
                assert(times[j] == t[j - 1]);
            }
        }
    }
}

/// Law: the current line is the last line of the run of lines, from the
/// top, that start no later than `position`: those lines all have started,
/// and the line after it (if any) starts later. Before the first line has
/// started (or with no lines) it is the first line.
pub proof fn lemma_current_line_started(times: Seq<u64>, position: u64)
    ensures
        times.len() == 0 || times[0] > position ==> current_index_spec(times, position) == 0,
        times.len() > 0 && times[0] <= position ==> {
            let c = current_index_spec(times, position);
            &&& 0 <= c < times.len()
            &&& forall|j: int| 0 <= j <= c ==> #[trigger] times[j] <= position
            &&& (c + 1 == times.len() || times[c + 1] > position)
        },
{
    lemma_first_after_props(times, position);
}

/// The line that is current at `position`: the last of the lines before the
/// first one that starts after `position`; the first line when even that one
/// starts later.
pub open spec fn current_index_spec(times: Seq<u64>, position: u64) -> int {
    let f = first_after(times, position);
    if f == 0 {
        0
    } else {
        f - 1
    }
}

/// The range `[start, end)` of lines to show in a window of `visible_height`
/// lines so that `current` sits in its middle.
pub open spec fn visible_start(current: usize, visible_height: usize) -> int {
    let half = visible_height / 2;
    if current > half {
        current - half
    } else {
        0
    }
}

impl Default for LyricsSync {
    fn default() -> (s: Self)
        ensures
            s.current_index == 0,
    {
        LyricsSync::new()
    }
}

impl LyricsSync {
    pub fn new() -> (s: Self)
        ensures
            s.current_index == 0,
    {
        LyricsSync { current_index: 0 }
    }

    /// Find the index of the current lyric line based on position.
    pub fn find_current_index(lines: &[(u64, String)], position: u64) -> (idx: usize)
        ensures
            idx == current_index_spec(lines@.map_values(|l: (u64, String)| l.0), position),
    {
        let ghost times = lines@.map_values(|l: (u64, String)| l.0);
        let mut i: usize = 0;
        while i < lines.len() && lines[i].0 <= position
            invariant
                i <= lines.len(),
                times == lines@.map_values(|l: (u64, String)| l.0),
                forall|j: int| 0 <= j < i ==> #[trigger] times[j] <= position,
            decreases lines.len() - i,
        {
            assert(times[i as int] == lines@[i as int].0);
            i = i + 1;
        }
        proof {
            if i < lines.len() {
                assert(times[i as int] == lines@[i as int].0);
            }
            lemma_first_after_at(times, position, i as int);
        }
        if i == 0 {
            0
        } else {
            i - 1
        }
    }

    /// Get the visible range of lyrics (for scrolling).
    pub fn get_visible_range(total: usize, current: usize, visible_height: usize) -> (r: (
        usize,
        usize,
    ))
        requires
            visible_start(current, visible_height) + visible_height <= usize::MAX,
        ensures
            r.0 == visible_start(current, visible_height),
            r.1 == if r.0 + visible_height < total {
                r.0 + visible_height
            } else {
                total as int
            },
    {
        let half = visible_height / 2;
        let start = if current > half {
            current - half
        } else {
            0
        };
        let end = if start + visible_height < total {
            start + visible_height
        } else {
            total
        };
        (start, end)
    }
}

/// Law: the visible range never ends past the last line, never holds more
/// lines than the window, and starts no later than the current line.
pub proof fn lemma_visible_range_bounds(total: usize, current: usize, visible_height: usize)
    requires
        visible_start(current, visible_height) + visible_height <= usize::MAX,
    ensures
        ({
            let start = visible_start(current, visible_height);
            let end = if start + visible_height < total {
                start + visible_height
            } else {
                total as int
            };
            &&& start <= current
            &&& end <= total
            &&& end - start <= visible_height
            &&& (visible_height > 0 ==> current < start + visible_height)
        }),
{
}

} // verus!
