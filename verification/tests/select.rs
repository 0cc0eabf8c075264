use dash_mpd::mpd::AdaptationSet;
use dash_mpd::select::{
    adaptation_lang_distance, first_min_index, last_max_index, select_audio_adaptation,
    select_representation, select_video_adaptation, QualityPreference,
};

fn set(lang: Option<&str>, audio: bool, video: bool) -> AdaptationSet {
    AdaptationSet { lang: lang.map(String::from), audio, video, ..Default::default() }
}

#[test]
fn distance_between_languages() {
    assert_eq!(adaptation_lang_distance(&set(Some("en-GB"), true, false), "en-GB"), 0);
    assert_eq!(adaptation_lang_distance(&set(Some("en-GB"), true, false), "en-US"), 5);
    assert_eq!(adaptation_lang_distance(&set(Some("en"), true, false), "en-US"), 5);
    assert_eq!(adaptation_lang_distance(&set(Some("fr"), true, false), "en-US"), 100);
    assert_eq!(adaptation_lang_distance(&set(Some("eo"), true, false), "en"), 100);
    assert_eq!(adaptation_lang_distance(&set(None, true, false), "en-US"), 100);
    assert_eq!(adaptation_lang_distance(&set(Some("e"), true, false), "e"), 0);
    assert_eq!(adaptation_lang_distance(&set(Some("e"), true, false), "en"), 100);
    assert_eq!(adaptation_lang_distance(&set(Some("en"), true, false), ""), 100);
    assert_eq!(adaptation_lang_distance(&set(Some(""), true, false), ""), 0);
}

#[test]
fn closest_language_wins() {
    let sets = vec![set(Some("en-GB"), true, false), set(Some("fr"), true, false)];
    assert_eq!(select_audio_adaptation(&sets, &Some("en-US".to_string())), Some(0));
    let sets = vec![set(Some("fr"), true, false), set(Some("en-GB"), true, false)];
    assert_eq!(select_audio_adaptation(&sets, &Some("en-US".to_string())), Some(1));
}

#[test]
fn first_audio_and_first_video_set() {
    let sets = vec![
        set(Some("en"), false, true),
        set(Some("xx"), false, false),
        set(Some("de"), true, false),
        set(Some("en"), true, true),
    ];
    assert_eq!(select_audio_adaptation(&sets, &None), Some(2));
    assert_eq!(select_audio_adaptation(&sets, &Some("en".to_string())), Some(3));
    assert_eq!(select_audio_adaptation(&sets, &Some("it".to_string())), Some(2));
    assert_eq!(select_video_adaptation(&sets), Some(0));
    assert_eq!(select_video_adaptation(&sets[1..3].to_vec()), None);
    assert_eq!(select_audio_adaptation(&vec![], &None), None);
}

#[test]
fn first_of_the_least_and_last_of_the_greatest() {
    let keys = vec![Some(5), None, Some(2), Some(9), Some(2), Some(9), None];
    assert_eq!(first_min_index(&keys), Some(2));
    assert_eq!(last_max_index(&keys), Some(5));
    assert_eq!(first_min_index(&vec![None, None]), None);
    assert_eq!(last_max_index(&vec![]), None);
    assert_eq!(first_min_index(&vec![Some(u64::MAX)]), Some(0));
    assert_eq!(last_max_index(&vec![Some(0), Some(0)]), Some(1));
}

#[test]
fn representation_by_quality() {
    let bandwidths = vec![Some(500), Some(100), None, Some(100), Some(900), Some(900)];
    assert_eq!(select_representation(&bandwidths, QualityPreference::Lowest), Some(1));
    assert_eq!(select_representation(&bandwidths, QualityPreference::Highest), Some(5));
    assert_eq!(select_representation(&vec![None, None], QualityPreference::Lowest), Some(0));
    assert_eq!(select_representation(&vec![None, None], QualityPreference::Highest), Some(1));
    assert_eq!(select_representation(&vec![], QualityPreference::Lowest), None);
    assert_eq!(QualityPreference::default(), QualityPreference::Lowest);
}
