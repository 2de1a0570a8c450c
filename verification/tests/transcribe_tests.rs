use bvoice::transcribe::{assemble_transcript, is_nonverbal, is_ready, sampling_for, ModelSlot, Sampling, TranscribeError};

#[test]
fn nonverbal_markers() {
    assert!(is_nonverbal(""));
    assert!(is_nonverbal("   "));
    assert!(is_nonverbal(" ... "));
    assert!(is_nonverbal("[BLANK_AUDIO]"));
    assert!(is_nonverbal(" (music playing) "));
    assert!(is_nonverbal("*laughs*"));
    assert!(is_nonverbal("*"));
    assert!(is_nonverbal("Silence."));
    assert!(is_nonverbal("blank_audio"));
    assert!(is_nonverbal("No speech"));
    assert!(is_nonverbal("\tINAUDIBLE\n"));
    assert!(is_nonverbal(". Music ."));
}

#[test]
fn verbal_text_passes() {
    assert!(!is_nonverbal("Hello world."));
    assert!(!is_nonverbal("["));
    assert!(!is_nonverbal("music to my ears"));
    assert!(!is_nonverbal("silences"));
    // a tab between dots survives the dot-and-space strip
    assert!(!is_nonverbal(".\t."));
}

#[test]
fn transcript_is_joined_and_trimmed() {
    let segs = vec![" Hello".to_string(), " world. ".to_string()];
    assert_eq!(assemble_transcript(&segs), "Hello world.");
}

#[test]
fn transcript_drops_markers() {
    let segs = vec![" [BLANK_AUDIO]".to_string()];
    assert_eq!(assemble_transcript(&segs), "");
    let segs = vec![" [BLANK_AUDIO]".to_string(), " (music)".to_string()];
    assert_eq!(assemble_transcript(&segs), "");
    assert_eq!(assemble_transcript(&Vec::new()), "");
}

#[test]
fn nonverbal_segments_are_filtered_one_by_one() {
    let segs = vec![" [MUSIC]".to_string(), " Hello".to_string(), " [MUSIC]".to_string()];
    assert_eq!(assemble_transcript(&segs), "Hello");
    let segs = vec![" Hello".to_string(), " *coughs*".to_string(), " world.".to_string()];
    assert_eq!(assemble_transcript(&segs), "Hello world.");
    // each segment is judged on its own text
    let segs = vec![" (".to_string(), "wind".to_string(), ")\n".to_string()];
    assert_eq!(assemble_transcript(&segs), "(wind)");
}

#[test]
fn transcript_keeps_unicode() {
    let segs = vec!["\u{3000}Grüße, naïve café\u{00A0}".to_string()];
    assert_eq!(assemble_transcript(&segs), "Grüße, naïve café");
}

#[test]
fn sampling_strategy_by_beam_width() {
    assert_eq!(sampling_for(2), Sampling::BeamSearch { beam_size: 2 });
    assert_eq!(sampling_for(5), Sampling::BeamSearch { beam_size: 5 });
    assert_eq!(sampling_for(1), Sampling::Greedy { best_of: 1 });
    assert_eq!(sampling_for(0), Sampling::Greedy { best_of: 1 });
    assert_eq!(sampling_for(u32::MAX), Sampling::BeamSearch { beam_size: -1 });
}

#[test]
fn model_slot_readiness() {
    let mut slot: ModelSlot<u8> = ModelSlot::new();
    assert!(!is_ready(&slot));
    assert_eq!(slot.context(), Err(TranscribeError::ModelNotLoaded));
    slot.install(7);
    assert!(is_ready(&slot));
    assert_eq!(slot.context(), Ok(&7));
    slot.install(9);
    assert_eq!(slot.context(), Ok(&9));
}
