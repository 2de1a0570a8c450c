use bvoice::vad::{speech_span, trim_to_speech, CHUNK_SIZE, DEFAULT_PAD_CHUNKS};

fn ramp(n: usize) -> Vec<u32> {
    (0..n as u32).collect()
}

#[test]
fn short_recordings_are_kept() {
    let s = ramp(511);
    assert_eq!(trim_to_speech(s.clone(), &vec![], 4), s);
}

#[test]
fn no_speech_gives_nothing() {
    let s = ramp(3 * CHUNK_SIZE);
    assert_eq!(trim_to_speech(s, &vec![false, false, false], 4), Vec::<u32>::new());
    assert_eq!(speech_span(&vec![false, false], 1, 1024), None);
}

#[test]
fn speech_in_the_middle_with_padding() {
    // 20 chunks plus a partial one; speech in chunks 8..=10
    let len = 20 * CHUNK_SIZE + 100;
    let mut speech = vec![false; 20];
    speech[8] = true;
    speech[10] = true;
    assert_eq!(speech_span(&speech, DEFAULT_PAD_CHUNKS, len), Some((4 * 512, 15 * 512)));
    let out = trim_to_speech(ramp(len), &speech, DEFAULT_PAD_CHUNKS);
    assert_eq!(out.len(), 11 * 512);
    assert_eq!(out[0], 2048);
    assert_eq!(*out.last().unwrap(), 15 * 512 - 1);
}

#[test]
fn padding_is_clamped_at_both_ends() {
    let len = 5 * CHUNK_SIZE + 7;
    let speech = vec![true, false, false, false, true];
    assert_eq!(speech_span(&speech, 4, len), Some((0, len)));
    assert_eq!(speech_span(&speech, usize::MAX, len), Some((0, len)));
    assert_eq!(trim_to_speech(ramp(len), &speech, 4), ramp(len));
}

#[test]
fn no_padding_cuts_exactly() {
    let speech = vec![false, true, false];
    assert_eq!(speech_span(&speech, 0, 3 * 512), Some((512, 1024)));
}

#[test]
fn higher_threshold_or_less_padding_never_widens() {
    let len = 12 * CHUNK_SIZE;
    let probs = [0.1, 0.2, 0.6, 0.9, 0.4, 0.8, 0.3, 0.7, 0.1, 0.0, 0.2, 0.1];
    let flags = |t: f32| probs.iter().map(|&p| p > t).collect::<Vec<bool>>();
    let wide = speech_span(&flags(0.3), 3, len).unwrap();
    let narrow = speech_span(&flags(0.75), 1, len).unwrap();
    assert!(wide.0 <= narrow.0 && narrow.1 <= wide.1);
    assert_eq!(speech_span(&flags(0.95), 0, len), None);
}
