//! Tonal observations.

use vstd::prelude::*;

use super::value::Confidence;
use crate::time::Duration;

verus! {

#[derive(Clone, Copy, Debug, PartialEq, Eq, Structural)]
pub enum KeyMode {
    Major,
    Minor,
}

impl Default for KeyMode {
    fn default() -> (r: Self)
        ensures
            r == KeyMode::Major,
    {
        KeyMode::Major
    }
}

/// A reusable global key value. C is tonic 0, C-sharp 1, through B 11.
#[derive(Clone, Copy, Debug, PartialEq)]
pub struct MusicalKey {
    pub tonic: u8,
    pub mode: KeyMode,
    pub confidence: Confidence,
}

pub type GlobalKey = MusicalKey;

pub type Key = MusicalKey;

impl MusicalKey {
    /// Whether the tonic is one of the twelve, and the confidence valid.
    pub open spec fn wf(self) -> bool {
        self.tonic < 12 && self.confidence.wf()
    }

    pub fn new(tonic: u8, mode: KeyMode, confidence: Confidence) -> (r: Option<Self>)
        ensures
            r == if tonic < 12 {
                Some(MusicalKey { tonic, mode, confidence })
            } else {
                None
            },
    {
        if tonic < 12 {
            Some(MusicalKey { tonic, mode, confidence })
        } else {
            None
        }
    }

    pub fn validate(&self) -> (r: bool)
        ensures
            r == self.wf(),
            r == (self.tonic < 12),
    {
        self.tonic < 12 && self.confidence.validate()
    }
}

/// A bounded local tonal observation in source-time coordinates.
#[derive(Clone, Copy, Debug, PartialEq)]
pub struct LocalTonalWindow {
    pub start: Duration,
    pub end: Duration,
    pub key: Option<MusicalKey>,
    pub confidence: Option<Confidence>,
}

impl LocalTonalWindow {
    /// Whether the window has a length and what it tells is valid.
    pub open spec fn wf(self) -> bool {
        &&& self.start@ < self.end@
        &&& self.key matches Some(key) ==> key.wf()
        &&& self.confidence matches Some(confidence) ==> confidence.wf()
    }

    /// Whether the position lies in the window; its end does not.
    pub open spec fn spans(self, position: Duration) -> bool {
        self.start@ <= position@ < self.end@
    }

    pub fn new(
        start: Duration,
        end: Duration,
        key: Option<MusicalKey>,
        confidence: Option<Confidence>,
    ) -> (r: Option<Self>)
        ensures
            r == if (LocalTonalWindow { start, end, key, confidence }).wf() {
                Some(LocalTonalWindow { start, end, key, confidence })
            } else {
                None
            },
    {
        let window = LocalTonalWindow { start, end, key, confidence };
        if window.validate() {
            Some(window)
        } else {
            None
        }
    }

    pub fn validate(&self) -> (r: bool)
        ensures
            r == self.wf(),
    {
        let key_valid: bool = match &self.key {
            Some(key) => key.validate(),
            None => true,
        };
        let confidence_valid: bool = match &self.confidence {
            Some(confidence) => confidence.validate(),
            None => true,
        };
        self.start.shorter(self.end) && key_valid && confidence_valid
    }

    pub fn contains(&self, position: Duration) -> (r: bool)
        ensures
            r == self.spans(position),
    {
        self.start.within(position) && position.shorter(self.end)
    }
}

#[derive(Clone, Debug, PartialEq)]
pub struct TonalAnalysis {
    pub global_key: Option<MusicalKey>,
    pub local_windows: Vec<LocalTonalWindow>,
    pub alternatives: Vec<MusicalKey>,
}

impl Default for TonalAnalysis {
    fn default() -> (r: Self)
        ensures
            r.global_key is None,
            r.local_windows@.len() == 0,
            r.alternatives@.len() == 0,
            r.wf(),
    {
        TonalAnalysis { global_key: None, local_windows: Vec::new(), alternatives: Vec::new() }
    }
}

/// Whether each of the windows ends before the next one starts.
pub open spec fn windows_in_order(windows: Seq<LocalTonalWindow>) -> bool {
    forall|i: int|
        1 <= i < windows.len() ==> windows[i - 1].end@ <= (#[trigger] windows[i]).start@
}

/// The key of the first window, from `i` on, that spans the position.
pub open spec fn first_window_key(
    windows: Seq<LocalTonalWindow>,
    position: Duration,
    i: int,
) -> Option<MusicalKey>
    decreases windows.len() - i,
{
    if i < 0 || i >= windows.len() {
        None
    } else if windows[i].spans(position) {
        windows[i].key
    } else {
        first_window_key(windows, position, i + 1)
    }
}

impl TonalAnalysis {
    /// Whether all keys and windows are valid and the windows are in order.
    pub open spec fn wf(&self) -> bool {
        &&& self.global_key matches Some(key) ==> key.wf()
        &&& forall|i: int|
            0 <= i < self.alternatives@.len() ==> (#[trigger] self.alternatives@[i]).wf()
        &&& forall|i: int|
            0 <= i < self.local_windows@.len() ==> (#[trigger] self.local_windows@[i]).wf()
        &&& windows_in_order(self.local_windows@)
    }

    pub fn new(global_key: Option<MusicalKey>) -> (r: Option<Self>)
        ensures
            r is Some <==> (global_key matches Some(key) ==> key.wf()),
            r matches Some(tonal) ==> tonal.global_key == global_key && tonal.local_windows@.len()
                == 0 && tonal.alternatives@.len() == 0 && tonal.wf(),
    {
        let analysis = TonalAnalysis {
            global_key,
            local_windows: Vec::new(),
            alternatives: Vec::new(),
        };
        if analysis.validate() {
            Some(analysis)
        } else {
            None
        }
    }

    pub fn validate(&self) -> (r: bool)
        ensures
            r == self.wf(),
    {
        if let Some(key) = &self.global_key {
            if !key.validate() {
                return false;
            }
        }
        let mut i: usize = 0;
        while i < self.alternatives.len()
            invariant
                i <= self.alternatives@.len(),
                forall|j: int| 0 <= j < i ==> (#[trigger] self.alternatives@[j]).wf(),
            decreases self.alternatives@.len() - i,
        {
            if !self.alternatives[i].validate() {
                return false;
            }
            i += 1;
        }
        let mut w: usize = 0;
        while w < self.local_windows.len()
            invariant
                w <= self.local_windows@.len(),
                forall|j: int| 0 <= j < w ==> (#[trigger] self.local_windows@[j]).wf(),
                forall|j: int|
                    1 <= j < w ==> self.local_windows@[j - 1].end@ <= (
                    #[trigger] self.local_windows@[j]).start@,
            decreases self.local_windows@.len() - w,
        {
            if !self.local_windows[w].validate() {
                return false;
            }
            if w > 0 && self.local_windows[w].start.shorter(self.local_windows[w - 1].end) {
                return false;
            }
            w += 1;
        }
        true
    }

    pub fn key(&self) -> (r: Option<MusicalKey>)
        ensures
            r == self.global_key,
    {
        self.global_key
    }

    pub fn local_key_at(&self, position: Duration) -> (r: Option<MusicalKey>)
        ensures
            r == first_window_key(self.local_windows@, position, 0),
    {
        let mut i: usize = 0;
        while i < self.local_windows.len()
            invariant
                i <= self.local_windows@.len(),
                first_window_key(self.local_windows@, position, 0) == first_window_key(
                    self.local_windows@,
                    position,
                    i as int,
                ),
            decreases self.local_windows@.len() - i,
        {
            if self.local_windows[i].contains(position) {
                return self.local_windows[i].key;
            }
            i += 1;
        }
        None
    }
}

/// In a valid analysis no position lies in two windows, so the key at a position
/// is that of the one window that spans it.
pub proof fn local_key_is_that_of_the_window(
    tonal: TonalAnalysis,
    position: Duration,
    i: int,
)
    requires
        tonal.wf(),
        0 <= i < tonal.local_windows@.len(),
        tonal.local_windows@[i].spans(position),
    ensures
        first_window_key(tonal.local_windows@, position, 0) == tonal.local_windows@[i].key,
        forall|j: int|
            0 <= j < tonal.local_windows@.len() && j != i ==> !(
            #[trigger] tonal.local_windows@[j]).spans(position),
{
    let windows = tonal.local_windows@;
    assert forall|j: int| 0 <= j < windows.len() && j != i implies !(#[trigger] windows[j]).spans(
        position,
    ) by {
        if j < i {
            lemma_windows_apart(windows, j, i);
        } else {
            lemma_windows_apart(windows, i, j);
        }
    }
    lemma_skip_windows(windows, position, 0, i);
}

proof fn lemma_windows_apart(windows: Seq<LocalTonalWindow>, i: int, j: int)
    requires
        windows_in_order(windows),
        forall|k: int| 0 <= k < windows.len() ==> (#[trigger] windows[k]).wf(),
        0 <= i < j < windows.len(),
    ensures
        windows[i].end@ <= windows[j].start@,
    decreases j - i,
{
    assert(windows[j - 1].end@ <= windows[j].start@);
    if i < j - 1 {
        lemma_windows_apart(windows, i, j - 1);
        assert(windows[j - 1].wf());
    }
}

proof fn lemma_skip_windows(
    windows: Seq<LocalTonalWindow>,
    position: Duration,
    from: int,
    to: int,
)
    requires
        0 <= from <= to < windows.len(),
        forall|j: int| from <= j < to ==> !(#[trigger] windows[j]).spans(position),
    ensures
        first_window_key(windows, position, from) == first_window_key(windows, position, to),
    decreases to - from,
{
    if from < to {
        lemma_skip_windows(windows, position, from + 1, to);
    }
}

/// A window spans from its start up to before its end, and the local key is that of the
/// first window that spans the position, with none where no window does.
pub proof fn first_spanning_windows_give_the_key(
    windows: Seq<LocalTonalWindow>,
    position: Duration,
    from: int,
)
    requires
        0 <= from <= windows.len(),
    ensures
        forall|i: int|
            {
                &&& from <= i < windows.len()
                &&& (#[trigger] windows[i]).start@ <= position@ < windows[i].end@
                &&& forall|k: int|
                    from <= k < i ==> !((#[trigger] windows[k]).start@ <= position@
                        < windows[k].end@)
            } ==> first_window_key(windows, position, from) == windows[i].key,
        (forall|k: int|
            from <= k < windows.len() ==> !((#[trigger] windows[k]).start@ <= position@
                < windows[k].end@)) ==> first_window_key(windows, position, from) is None,
    decreases windows.len() - from,
{
    if from < windows.len() {
        first_spanning_windows_give_the_key(windows, position, from + 1);
    }
}

/// A valid key has one of twelve tonics, and a valid window some length.
pub proof fn valid_keys_have_one_of_twelve_tonics(key: MusicalKey, window: LocalTonalWindow)
    ensures
        key.tonic >= 12 ==> !key.wf(),
        key.tonic < 12 ==> (key.wf() <==> key.confidence.wf()),
        window.end@ <= window.start@ ==> !window.wf(),
        window.start@ < window.end@ && window.key is None && window.confidence is None
            ==> window.wf(),
{
}

/// The windows of a valid analysis follow one another without an overlap.
pub proof fn valid_windows_follow_one_another(analysis: TonalAnalysis, i: int)
    requires
        analysis.wf(),
        1 <= i < analysis.local_windows@.len(),
    ensures
        analysis.local_windows@[i - 1].start@ < analysis.local_windows@[i - 1].end@
            <= analysis.local_windows@[i].start@ < analysis.local_windows@[i].end@,
{
}

/// Windows that touch are in order.
pub proof fn touching_windows_are_in_order(first: LocalTonalWindow, second: LocalTonalWindow)
    requires
        first.end@ == second.start@,
    ensures
        windows_in_order(seq![first, second]),
        windows_in_order(seq![first]),
        windows_in_order(Seq::<LocalTonalWindow>::empty()),
{
}

} // verus!
