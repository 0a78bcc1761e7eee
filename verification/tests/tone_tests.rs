use emoji_picker::catalog::{Entry, Group, Tone};
use emoji_picker::tone::{resolve, Rotation, ToneIndex, MAX_TONES};

fn toned(count: usize) -> Entry {
    let mut tones: Vec<Tone> = Vec::new();
    let mut i: usize = 0;
    while i < count {
        tones.push(Tone { glyph: format!("t{}", i), name: format!("hand: tone {}", i) });
        i += 1;
    }
    Entry { glyph: String::from("base"), name: String::from("hand"), group: Group::PeopleAndBody, tones }
}

#[test]
fn max_tones_is_six() {
    assert_eq!(MAX_TONES, 6);
}

#[test]
fn tone_index_wraps_raw_numbers() {
    assert_eq!(ToneIndex::new(0).get(), 0);
    assert_eq!(ToneIndex::new(5).get(), 5);
    assert_eq!(ToneIndex::new(6).get(), 0);
    assert_eq!(ToneIndex::new(13).get(), 1);
}

#[test]
fn rotate_forward_advances_and_wraps() {
    let mut tone = ToneIndex::new(4);
    tone.rotate(Rotation::Forward);
    assert_eq!(tone.get(), 5);
    tone.rotate(Rotation::Forward);
    assert_eq!(tone.get(), 0);
}

#[test]
fn rotate_backward_retreats_and_wraps() {
    let mut tone = ToneIndex::new(1);
    tone.rotate(Rotation::Backward);
    assert_eq!(tone.get(), 0);
    tone.rotate(Rotation::Backward);
    assert_eq!(tone.get(), 5);
}

#[test]
fn rotating_max_tones_times_comes_back() {
    let mut start: usize = 0;
    while start < MAX_TONES {
        let mut forward = ToneIndex::new(start);
        let mut backward = ToneIndex::new(start);
        let mut turn: usize = 0;
        while turn < MAX_TONES {
            forward.rotate(Rotation::Forward);
            backward.rotate(Rotation::Backward);
            turn += 1;
        }
        assert_eq!(forward.get(), start);
        assert_eq!(backward.get(), start);
        start += 1;
    }
}

#[test]
fn resolve_without_tones_gives_the_base_glyph() {
    let entry = toned(0);
    let mut raw: usize = 0;
    while raw < MAX_TONES {
        assert_eq!(resolve(&entry, ToneIndex::new(raw)), "base");
        raw += 1;
    }
}

#[test]
fn resolve_picks_the_variant_at_the_setting() {
    let entry = toned(5);
    assert_eq!(resolve(&entry, ToneIndex::new(0)), "t0");
    assert_eq!(resolve(&entry, ToneIndex::new(3)), "t3");
    assert_eq!(resolve(&entry, ToneIndex::new(4)), "t4");
}

#[test]
fn resolve_falls_back_to_the_base_glyph_past_the_variants() {
    let five = toned(5);
    assert_eq!(resolve(&five, ToneIndex::new(5)), "base");
    let two = toned(2);
    assert_eq!(resolve(&two, ToneIndex::new(1)), "t1");
    let mut raw: usize = 2;
    while raw < MAX_TONES {
        assert_eq!(resolve(&two, ToneIndex::new(raw)), "base");
        raw += 1;
    }
}
