use flappy_rust::audio::{
    append_silence, envelope, make_bgm_bytes, make_flap_bytes, make_game_over_bytes,
    make_score_bytes, BgmSlot, Envelope, BGM_REPEATS, SAMPLE_RATE,
};
use flappy_rust::wav::build_wav;

fn samples_of(bytes: &[u8]) -> Vec<i16> {
    bytes[44..]
        .chunks(2)
        .map(|c| i16::from_le_bytes([c[0], c[1]]))
        .collect()
}

#[test]
fn sample_rate_is_cd_quality() {
    assert_eq!(SAMPLE_RATE, 44_100);
    assert_eq!(BGM_REPEATS, 4);
}

#[test]
fn append_silence_adds_zeros() {
    let mut samples: Vec<i16> = vec![3, -4];
    append_silence(&mut samples, 3);
    assert_eq!(samples, vec![3, -4, 0, 0, 0]);
    append_silence(&mut samples, 0);
    assert_eq!(samples, vec![3, -4, 0, 0, 0]);
}

#[test]
fn flap_sound_is_the_tone() {
    let tone: Vec<i16> = vec![10, -20, 30];
    let bytes = make_flap_bytes(&tone);
    assert_eq!(bytes, build_wav(&tone, 44_100));
    assert_eq!(samples_of(&bytes), tone);
}

#[test]
fn score_sound_is_two_tones_with_a_gap() {
    let bytes = make_score_bytes(&[5, 6], 3, &[7]);
    assert_eq!(samples_of(&bytes), vec![5, 6, 0, 0, 0, 7]);
    assert_eq!(&bytes[24..28], &44_100u32.to_le_bytes());
}

#[test]
fn game_over_sound_is_two_tones_with_a_gap() {
    let bytes = make_game_over_bytes(&[-9], 2, &[-8, -7]);
    assert_eq!(samples_of(&bytes), vec![-9, 0, 0, -8, -7]);
}

#[test]
fn bgm_repeats_the_bar_with_rests() {
    let bar = vec![BgmSlot::Note(vec![1, 2]), BgmSlot::Rest(2), BgmSlot::Note(vec![3])];
    let bytes = make_bgm_bytes(&bar);
    let one_bar: Vec<i16> = vec![1, 2, 0, 0, 3];
    let mut expected: Vec<i16> = Vec::new();
    for _ in 0..4 {
        expected.extend_from_slice(&one_bar);
    }
    assert_eq!(samples_of(&bytes), expected);
    assert_eq!(bytes.len(), 44 + 2 * 4 * one_bar.len());
}

#[test]
fn bgm_of_empty_bar_is_empty() {
    let bytes = make_bgm_bytes(&[]);
    assert_eq!(bytes.len(), 44);
}

#[test]
fn envelope_rises_holds_and_falls() {
    assert_eq!(envelope(0, 100, 10, 20), Envelope::Rise { num: 0, den: 10 });
    assert_eq!(envelope(9, 100, 10, 20), Envelope::Rise { num: 9, den: 10 });
    assert_eq!(envelope(10, 100, 10, 20), Envelope::Hold);
    assert_eq!(envelope(80, 100, 10, 20), Envelope::Hold);
    assert_eq!(envelope(81, 100, 10, 20), Envelope::Fall { num: 19, den: 20 });
    assert_eq!(envelope(99, 100, 10, 20), Envelope::Fall { num: 1, den: 20 });
}

#[test]
fn envelope_ramps_last_at_least_one_sample() {
    assert_eq!(envelope(0, 5, 0, 0), Envelope::Rise { num: 0, den: 1 });
    assert_eq!(envelope(4, 5, 0, 0), Envelope::Hold);
}

#[test]
fn envelope_release_longer_than_note() {
    // The release start saturates at 0, so every sample after the attack falls.
    assert_eq!(envelope(3, 5, 2, 50), Envelope::Fall { num: 2, den: 50 });
    // Beyond the end the remaining count saturates at 0.
    assert_eq!(envelope(7, 5, 2, 50), Envelope::Fall { num: 0, den: 50 });
}

#[test]
fn envelope_of_game_tones() {
    // 0.08 s at 44.1 kHz, 8 ms attack, 20 ms release.
    assert_eq!(envelope(352, 3528, 353, 882), Envelope::Rise { num: 352, den: 353 });
    assert_eq!(envelope(2646, 3528, 353, 882), Envelope::Hold);
    assert_eq!(envelope(2647, 3528, 353, 882), Envelope::Fall { num: 881, den: 882 });
}

#[test]
fn envelope_ramps_stay_below_full_volume() {
    for (n, a, r) in [(150usize, 7usize, 300usize), (3528, 353, 882), (10, 0, 0), (0, 4, 4)] {
        for i in 0..n + 5 {
            match envelope(i, n, a, r) {
                Envelope::Rise { num, den } | Envelope::Fall { num, den } => assert!(num < den),
                Envelope::Hold => {}
            }
        }
    }
}
