//! Choosing what to download: one audio and one video adaptation set of a
//! period, and one representation of each.

use crate::mpd::AdaptationSet;
use crate::text::{chars_of, same_chars};
use vstd::prelude::*;

verus! {

/// Whether to download the representation of lowest or of highest bandwidth.
#[derive(Clone, Copy, Debug, PartialEq, Eq, Structural)]
pub enum QualityPreference {
    Lowest,
    Highest,
}

impl Default for QualityPreference {
    fn default() -> (preference: QualityPreference)
        ensures
            preference == QualityPreference::Lowest,
    {
        QualityPreference::Lowest
    }
}

/// What of a manifest to download.
#[derive(Debug)]
pub struct Preferences {
    /// Which representation of an adaptation set to take.
    pub quality: QualityPreference,
    /// The language to prefer among the audio adaptation sets.
    pub language: Option<String>,
    /// Whether to download the audio stream.
    pub fetch_audio: bool,
    /// Whether to download the video stream.
    pub fetch_video: bool,
}

/// Among the candidates, those positions whose key is not `None`, position
/// `i` holds the least key, and is the first to hold it.
pub open spec fn is_first_min(keys: Seq<Option<u64>>, i: int) -> bool {
    &&& 0 <= i < keys.len()
    &&& keys[i] is Some
    &&& forall|j: int|
        0 <= j < keys.len() && (#[trigger] keys[j]) is Some ==> keys[i]->0 <= keys[j]->0 && (j < i
            ==> keys[i]->0 < keys[j]->0)
}

/// Among the candidates, position `i` holds the greatest key, and is the
/// last to hold it.
pub open spec fn is_last_max(keys: Seq<Option<u64>>, i: int) -> bool {
    &&& 0 <= i < keys.len()
    &&& keys[i] is Some
    &&& forall|j: int|
        0 <= j < keys.len() && (#[trigger] keys[j]) is Some ==> keys[j]->0 <= keys[i]->0 && (i < j
            ==> keys[j]->0 < keys[i]->0)
}

/// The first position of the least key, or `None` without a candidate.
pub open spec fn first_min(keys: Seq<Option<u64>>) -> Option<int> {
    if exists|i: int| is_first_min(keys, i) {
        Some(choose|i: int| is_first_min(keys, i))
    } else {
        None
    }
}

/// The last position of the greatest key, or `None` without a candidate.
pub open spec fn last_max(keys: Seq<Option<u64>>) -> Option<int> {
    if exists|i: int| is_last_max(keys, i) {
        Some(choose|i: int| is_last_max(keys, i))
    } else {
        None
    }
}

/// There is one first position of the least key at most.
pub proof fn lemma_first_min_unique(keys: Seq<Option<u64>>, i: int)
    requires
        is_first_min(keys, i),
    ensures
        first_min(keys) == Some(i),
{
    let k = choose|k: int| is_first_min(keys, k);
    assert(is_first_min(keys, k));
    assert(keys[k] is Some && keys[i] is Some);
    if k < i {
        assert(keys[i]->0 < keys[k]->0);
    } else if i < k {
        assert(keys[k]->0 < keys[i]->0);
    }
}

/// There is one last position of the greatest key at most.
pub proof fn lemma_last_max_unique(keys: Seq<Option<u64>>, i: int)
    requires
        is_last_max(keys, i),
    ensures
        last_max(keys) == Some(i),
{
    let k = choose|k: int| is_last_max(keys, k);
    assert(is_last_max(keys, k));
    assert(keys[k] is Some && keys[i] is Some);
    if k < i {
        assert(keys[k]->0 < keys[i]->0);
    } else if i < k {
        assert(keys[i]->0 < keys[k]->0);
    }
}

/// The first position of the least key among the candidates.
pub fn first_min_index(keys: &Vec<Option<u64>>) -> (chosen: Option<usize>)
    ensures
        match chosen {
            Some(i) => first_min(keys@) == Some(i as int) && is_first_min(keys@, i as int),
            None => first_min(keys@) is None && forall|j: int|
                0 <= j < keys.len() ==> (#[trigger] keys@[j]) is None,
        },
{
    let mut best: Option<usize> = None;
    let mut i: usize = 0;
    while i < keys.len()
        invariant
            i <= keys.len(),
            match best {
                Some(b) => is_first_min(keys@.take(i as int), b as int),
                None => forall|j: int| 0 <= j < i ==> (#[trigger] keys@[j]) is None,
            },
        decreases keys.len() - i,
    {
        let ghost before = keys@.take(i as int);
        let ghost after = keys@.take(i + 1);
        assert(forall|j: int| 0 <= j < i ==> before[j] == after[j]);
        match keys[i] {
            None => {},
            Some(key) => {
                match best {
                    None => {
                        best = Some(i);
                    },
                    Some(b) => {
                        let current = keys[b];
                        assert(current == before[b as int]);
                        if key < current.unwrap() {
                            best = Some(i);
                        }
                    },
                }
            },
        }
        proof {
            match best {
                Some(b) => {
                    assert forall|j: int|
                        0 <= j < after.len() && (#[trigger] after[j]) is Some implies after[b as int]->0
                        <= after[j]->0 && (j < b ==> after[b as int]->0 < after[j]->0) by {
                        if j < i {
                            assert(before[j] is Some);
                        }
                    }
                },
                None => {},
            }
        }
        i += 1;
    }
    proof {
        assert(keys@.take(i as int) =~= keys@);
        match best {
            Some(b) => {
                lemma_first_min_unique(keys@, b as int);
            },
            None => {},
        }
    }
    best
}

/// The last position of the greatest key among the candidates.
pub fn last_max_index(keys: &Vec<Option<u64>>) -> (chosen: Option<usize>)
    ensures
        match chosen {
            Some(i) => last_max(keys@) == Some(i as int) && is_last_max(keys@, i as int),
            None => last_max(keys@) is None && forall|j: int|
                0 <= j < keys.len() ==> (#[trigger] keys@[j]) is None,
        },
{
    let mut best: Option<usize> = None;
    let mut i: usize = 0;
    while i < keys.len()
        invariant
            i <= keys.len(),
            match best {
                Some(b) => is_last_max(keys@.take(i as int), b as int),
                None => forall|j: int| 0 <= j < i ==> (#[trigger] keys@[j]) is None,
            },
        decreases keys.len() - i,
    {
        let ghost before = keys@.take(i as int);
        let ghost after = keys@.take(i + 1);
        assert(forall|j: int| 0 <= j < i ==> before[j] == after[j]);
        match keys[i] {
            None => {},
            Some(key) => {
                match best {
                    None => {
                        best = Some(i);
                    },
                    Some(b) => {
                        let current = keys[b];
                        assert(current == before[b as int]);
                        if key >= current.unwrap() {
                            best = Some(i);
                        }
                    },
                }
            },
        }
        proof {
            match best {
                Some(b) => {
                    assert forall|j: int|
                        0 <= j < after.len() && (#[trigger] after[j]) is Some implies after[j]->0
                        <= after[b as int]->0 && (b < j ==> after[j]->0 < after[b as int]->0) by {
                        if j < i {
                            assert(before[j] is Some);
                        }
                    }
                },
                None => {},
            }
        }
        i += 1;
    }
    proof {
        assert(keys@.take(i as int) =~= keys@);
        match best {
            Some(b) => {
                lemma_last_max_unique(keys@, b as int);
            },
            None => {},
        }
    }
    best
}

/// How far a language is from the preferred one: 0 where they are the same,
/// 5 where they begin with the same two characters, 100 otherwise and where
/// no language is given.
pub open spec fn lang_distance(lang: Option<Seq<char>>, preference: Seq<char>) -> u8 {
    match lang {
        None => 100,
        Some(l) => if l == preference {
            0
        } else if l.len() >= 2 && preference.len() >= 2 && l[0] == preference[0] && l[1]
            == preference[1] {
            5
        } else {
            100
        },
    }
}

/// The language of an adaptation set, as text.
pub open spec fn lang_of(a: AdaptationSet) -> Option<Seq<char>> {
    match a.lang {
        Some(l) => Some(l@),
        None => None,
    }
}

/// How far the language of an adaptation set is from the preferred one.
pub fn adaptation_lang_distance(a: &AdaptationSet, language_preference: &str) -> (distance: u8)
    ensures
        distance == lang_distance(lang_of(*a), language_preference@),
{
    match &a.lang {
        None => 100,
        Some(lang) => {
            let l = chars_of(lang.as_str());
            let p = chars_of(language_preference);
            if same_chars(&l, &p) {
                0
            } else if l.len() >= 2 && p.len() >= 2 && l[0] == p[0] && l[1] == p[1] {
                5
            } else {
                100
            }
        },
    }
}

/// The keys by which the audio adaptation set of a period is chosen: for
/// each audio set its distance from the preferred language, or 0 where none
/// is preferred; nothing for the others.
pub open spec fn audio_keys(adaptations: Seq<AdaptationSet>, preference: Option<Seq<char>>) -> Seq<
    Option<u64>,
> {
    Seq::new(
        adaptations.len(),
        |i: int|
            if adaptations[i].audio {
                Some(
                    match preference {
                        Some(p) => lang_distance(lang_of(adaptations[i]), p) as u64,
                        None => 0u64,
                    },
                )
            } else {
                None
            },
    )
}

/// The keys by which the video adaptation set of a period is chosen: 0 for
/// each video set, nothing for the others.
pub open spec fn video_keys(adaptations: Seq<AdaptationSet>) -> Seq<Option<u64>> {
    Seq::new(
        adaptations.len(),
        |i: int|
            if adaptations[i].video {
                Some(0u64)
            } else {
                None
            },
    )
}

/// The audio adaptation set to download: with a preferred language, the
/// first of the audio sets nearest to it; without one, the first audio set.
pub open spec fn audio_choice(adaptations: Seq<AdaptationSet>, preference: Option<Seq<char>>) -> Option<
    int,
> {
    first_min(audio_keys(adaptations, preference))
}

/// The video adaptation set to download: the first one.
pub open spec fn video_choice(adaptations: Seq<AdaptationSet>) -> Option<int> {
    first_min(video_keys(adaptations))
}

/// The text of an optional string.
pub open spec fn text_of(s: Option<String>) -> Option<Seq<char>> {
    match s {
        Some(t) => Some(t@),
        None => None,
    }
}

/// Chooses the audio adaptation set of a period.
pub fn select_audio_adaptation(adaptations: &Vec<AdaptationSet>, preference: &Option<String>) -> (chosen:
    Option<usize>)
    ensures
        match chosen {
            Some(i) => audio_choice(adaptations@, text_of(*preference)) == Some(i as int) && i
                < adaptations.len() && adaptations@[i as int].audio,
            None => audio_choice(adaptations@, text_of(*preference)) is None,
        },
{
    let mut keys: Vec<Option<u64>> = Vec::new();
    let mut i: usize = 0;
    while i < adaptations.len()
        invariant
            i <= adaptations.len(),
            keys@ == audio_keys(adaptations@, text_of(*preference)).take(i as int),
        decreases adaptations.len() - i,
    {
        let key = if adaptations[i].audio {
            match preference {
                Some(p) => Some(adaptation_lang_distance(&adaptations[i], p.as_str()) as u64),
                None => Some(0u64),
            }
        } else {
            None
        };
        keys.push(key);
        assert(keys@ =~= audio_keys(adaptations@, text_of(*preference)).take(i + 1));
        i += 1;
    }
    assert(keys@ =~= audio_keys(adaptations@, text_of(*preference)));
    first_min_index(&keys)
}

/// Chooses the video adaptation set of a period.
pub fn select_video_adaptation(adaptations: &Vec<AdaptationSet>) -> (chosen: Option<usize>)
    ensures
        match chosen {
            Some(i) => video_choice(adaptations@) == Some(i as int) && i < adaptations.len()
                && adaptations@[i as int].video,
            None => video_choice(adaptations@) is None,
        },
{
    let mut keys: Vec<Option<u64>> = Vec::new();
    let mut i: usize = 0;
    while i < adaptations.len()
        invariant
            i <= adaptations.len(),
            keys@ == video_keys(adaptations@).take(i as int),
        decreases adaptations.len() - i,
    {
        let key = if adaptations[i].video {
            Some(0u64)
        } else {
            None
        };
        keys.push(key);
        assert(keys@ =~= video_keys(adaptations@).take(i + 1));
        i += 1;
    }
    assert(keys@ =~= video_keys(adaptations@));
    first_min_index(&keys)
}

/// The keys by which a representation is chosen for low bandwidth: its
/// bandwidth, or a thousand million where it gives none.
pub open spec fn lowest_keys(bandwidths: Seq<Option<u64>>) -> Seq<Option<u64>> {
    Seq::new(
        bandwidths.len(),
        |i: int|
            Some(
                match bandwidths[i] {
                    Some(b) => b,
                    None => 1_000_000_000u64,
                },
            ),
    )
}

/// The keys by which a representation is chosen for high bandwidth: its
/// bandwidth, or 0 where it gives none.
pub open spec fn highest_keys(bandwidths: Seq<Option<u64>>) -> Seq<Option<u64>> {
    Seq::new(
        bandwidths.len(),
        |i: int|
            Some(
                match bandwidths[i] {
                    Some(b) => b,
                    None => 0u64,
                },
            ),
    )
}

/// The representation to download, by the bandwidths of the candidates: for
/// `Lowest` the first of least bandwidth, for `Highest` the last of greatest
/// bandwidth. `None` only without a candidate.
pub open spec fn representation_choice(bandwidths: Seq<Option<u64>>, quality: QualityPreference) -> Option<
    int,
> {
    match quality {
        QualityPreference::Lowest => first_min(lowest_keys(bandwidths)),
        QualityPreference::Highest => last_max(highest_keys(bandwidths)),
    }
}

/// Chooses a representation by the bandwidths of the candidates.
pub fn select_representation(bandwidths: &Vec<Option<u64>>, quality: QualityPreference) -> (chosen:
    Option<usize>)
    ensures
        match chosen {
            Some(i) => representation_choice(bandwidths@, quality) == Some(i as int) && i
                < bandwidths.len(),
            None => representation_choice(bandwidths@, quality) is None && bandwidths.len() == 0,
        },
{
    let mut keys: Vec<Option<u64>> = Vec::new();
    let lowest = match quality {
        QualityPreference::Lowest => true,
        QualityPreference::Highest => false,
    };
    let ghost target = if lowest {
        lowest_keys(bandwidths@)
    } else {
        highest_keys(bandwidths@)
    };
    let mut i: usize = 0;
    while i < bandwidths.len()
        invariant
            i <= bandwidths.len(),
            target == if lowest {
                lowest_keys(bandwidths@)
            } else {
                highest_keys(bandwidths@)
            },
            keys@ == target.take(i as int),
        decreases bandwidths.len() - i,
    {
        let key: u64 = match bandwidths[i] {
            Some(b) => b,
            None => if lowest {
                1_000_000_000
            } else {
                0
            },
        };
        keys.push(Some(key));
        assert(keys@ =~= target.take(i + 1));
        i += 1;
    }
    assert(keys@ =~= target);
    let chosen = if lowest {
        first_min_index(&keys)
    } else {
        last_max_index(&keys)
    };
    proof {
        if chosen is None && keys.len() > 0 {
            assert(keys@[0] is None);
        }
    }
    chosen
}

} // verus!
