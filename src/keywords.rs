use vstd::prelude::*;
use crate::text::{contains_chars, contains_seq, lower_of, to_chars, to_lower};

verus! {

/// Stress every transcript starts from.
pub const BASE_TRANSCRIPT_STRESS: u8 = 20;

/// Stress added when a distress word is heard; it brings the base level to the
/// duress threshold.
pub const KEYWORD_STRESS: u8 = 50;

/// Stress added for a long recording, a sign of hesitation.
pub const LONG_AUDIO_STRESS: u8 = 15;

/// Recordings longer than this many bytes count as long.
pub const LONG_AUDIO_BYTES: usize = 10000;

/// Distress words and phrases, in English and in Vietnamese, lower case.
pub open spec fn distress_keywords_spec() -> Seq<Seq<char>> {
    seq![
        "help"@,
        "please"@,
        "don't"@,
        "forced"@,
        "gun"@,
        "kidnap"@,
        "threat"@,
        "scared"@,
        "afraid"@,
        "hurry"@,
        "now"@,
        "immediately"@,
        "giúp"@,
        "cứu"@,
        "bắt ép"@,
        "súng"@,
        "bắt cóc"@,
        "đe dọa"@,
        "sợ"@,
        "nhanh"@,
        "ngay"@,
        "làm ơn"@,
        "xin"@,
        "buộc"@
    ]
}

/// The distress lexicon.
pub fn distress_keywords() -> (r: Vec<&'static str>)
    ensures
        r@.map_values(|k: &str| k@) == distress_keywords_spec(),
{
    let r = vec![
        "help",
        "please",
        "don't",
        "forced",
        "gun",
        "kidnap",
        "threat",
        "scared",
        "afraid",
        "hurry",
        "now",
        "immediately",
        "giúp",
        "cứu",
        "bắt ép",
        "súng",
        "bắt cóc",
        "đe dọa",
        "sợ",
        "nhanh",
        "ngay",
        "làm ơn",
        "xin",
        "buộc"
    ];
    proof {
        assert(r@.map_values(|k: &str| k@) =~= distress_keywords_spec());
    }
    r
}

/// A lower-cased transcript holds one of the distress words.
pub open spec fn has_distress_keyword(lower: Seq<char>) -> bool {
    exists|k: int| 0 <= k < distress_keywords_spec().len() && contains_seq(lower, #[trigger] distress_keywords_spec()[k])
}

/// Stress heard in a lower-cased transcript of a recording of `audio_length`
/// bytes: 20, plus 50 for a distress word, plus 15 for a long recording,
/// clamped to 100.
pub open spec fn transcript_stress_spec(lower: Seq<char>, audio_length: int) -> int {
    let s = BASE_TRANSCRIPT_STRESS as int
        + (if has_distress_keyword(lower) { KEYWORD_STRESS as int } else { 0 })
        + (if audio_length > LONG_AUDIO_BYTES as int { LONG_AUDIO_STRESS as int } else { 0 });
    if s > 100 { 100 } else { s }
}

/// Keyword stress of an already lower-cased transcript.
pub fn stress_from_lowered(lower: &str, audio_length: usize) -> (r: u8)
    ensures
        r as int == transcript_stress_spec(lower@, audio_length as int),
{
    let hay = to_chars(lower);
    let kws = distress_keywords();
    let ghost spec_kws = distress_keywords_spec();
    let mut found = false;
    let mut i: usize = 0;
    while i < kws.len()
        invariant
            hay@ == lower@,
            kws@.map_values(|k: &str| k@) == spec_kws,
            spec_kws == distress_keywords_spec(),
            i <= kws@.len(),
            !found ==> forall|k: int| 0 <= k < i ==> !contains_seq(lower@, #[trigger] spec_kws[k]),
            found ==> has_distress_keyword(lower@),
        decreases kws.len() - i,
    {
        if !found {
            assert(spec_kws[i as int] == kws@[i as int]@);
            if contains_chars(&hay, kws[i]) {
                found = true;
            }
        }
        i = i + 1;
    }
    let mut stress: u8 = BASE_TRANSCRIPT_STRESS;
    if found {
        stress = stress + KEYWORD_STRESS;
    }
    if audio_length > LONG_AUDIO_BYTES {
        stress = stress + LONG_AUDIO_STRESS;
    }
    if stress > 100 { 100 } else { stress }
}

/// Keyword stress of a transcript, in any case, of a recording of
/// `audio_length` bytes.
pub fn analyze_stress_from_transcript(transcript: &str, audio_length: usize) -> (r: u8)
    ensures
        r as int == transcript_stress_spec(lower_of(transcript@), audio_length as int),
{
    let low = to_lower(transcript);
    stress_from_lowered(low.as_str(), audio_length)
}

/// A transcript with a distress word scores at the duress threshold or above,
/// and higher than any transcript without one from a recording of the same
/// length.
pub proof fn lemma_distress_word_raises_stress(with_word: Seq<char>, without: Seq<char>, audio_length: int)
    requires
        has_distress_keyword(with_word),
        !has_distress_keyword(without),
    ensures
        transcript_stress_spec(with_word, audio_length) >= 70,
        transcript_stress_spec(with_word, audio_length) > transcript_stress_spec(without, audio_length),
{
}

} // verus!
