use genloop::decoder::Utf8Decoder;

fn feed_chunks(chunks: &[&[u8]]) -> (Vec<Vec<u8>>, String) {
    let mut dec = Utf8Decoder::new();
    let mut fragments = Vec::new();
    let mut total = Vec::new();
    for chunk in chunks {
        let out = dec.push(&chunk.to_vec());
        total.extend_from_slice(&out);
        fragments.push(out);
    }
    (fragments, String::from_utf8(total).expect("decoder emitted malformed text"))
}

#[test]
fn ascii_passes_through_unbuffered() {
    let (fragments, text) = feed_chunks(&[b"hello", b" ", b"world"]);
    assert_eq!(text, "hello world");
    assert_eq!(fragments[0], b"hello".to_vec());
    assert_eq!(fragments[1], b" ".to_vec());
    assert_eq!(fragments[2], b"world".to_vec());
}

#[test]
fn split_three_byte_character_emits_once_complete() {
    // one byte of a 3-byte character first: nothing may be emitted, then
    // the completing bytes yield exactly the one character
    let (fragments, text) = feed_chunks(&[&[0xE4], &[0xB8, 0x80]]);
    assert_eq!(fragments[0], Vec::<u8>::new());
    assert_eq!(fragments[1], "\u{4E00}".as_bytes().to_vec());
    assert_eq!(text, "\u{4E00}");
}

#[test]
fn four_byte_character_split_byte_by_byte() {
    let crab = "🦀".as_bytes();
    let (fragments, text) = feed_chunks(&[&crab[0..1], &crab[1..2], &crab[2..3], &crab[3..4]]);
    assert_eq!(fragments[0], Vec::<u8>::new());
    assert_eq!(fragments[1], Vec::<u8>::new());
    assert_eq!(fragments[2], Vec::<u8>::new());
    assert_eq!(fragments[3], "🦀".as_bytes().to_vec());
    assert_eq!(text, "🦀");
}

#[test]
fn any_split_of_valid_text_decodes_to_the_same_text() {
    // chunk boundaries never change what is decoded
    let data = "héllo wörld \u{4E13}\u{95E8} 🦀 end".as_bytes();
    for split in 0..=data.len() {
        let (_, text) = feed_chunks(&[&data[..split], &data[split..]]);
        assert_eq!(text.as_bytes(), data, "split at {split}");
    }
}

#[test]
fn lone_invalid_byte_becomes_replacement_character() {
    let (_, text) = feed_chunks(&[&[0x41, 0xFF, 0x42]]);
    assert_eq!(text, "A\u{FFFD}B");
}

#[test]
fn overlong_and_surrogate_forms_are_rejected() {
    // overlong "/" (C0 AF) and an encoded surrogate (ED A0 80) never pass
    let (_, text) = feed_chunks(&[&[0xC0, 0xAF]]);
    assert_eq!(text, "\u{FFFD}\u{FFFD}");
    let (_, text) = feed_chunks(&[&[0xED, 0xA0, 0x80]]);
    assert_eq!(text, "\u{FFFD}\u{FFFD}\u{FFFD}");
}

#[test]
fn trailing_incomplete_sequence_is_withheld() {
    // a dangling lead byte at end-of-call is buffered, never emitted
    let (fragments, text) = feed_chunks(&[&[0x61, 0xE4]]);
    assert_eq!(fragments[0], b"a".to_vec());
    assert_eq!(text, "a");
}

#[test]
fn broken_sequence_is_not_held_back_forever() {
    // an E4 lead followed by ASCII can no longer complete: replaced, then
    // the ASCII byte is emitted
    let (_, text) = feed_chunks(&[&[0xE4], &[0x61]]);
    assert_eq!(text, "\u{FFFD}a");
}

#[test]
fn matches_reference_decoder_on_valid_streams() {
    let data = "mixed ascii, accents éü, \u{4E13}\u{95E8}\u{5BB6}, emoji 🦀🚀".as_bytes();
    for split in [1usize, 3, 7, 11, 20, 25, 33] {
        let split = split.min(data.len());
        let ours = feed_chunks(&[&data[..split], &data[split..]]).1;
        let mut reference = String::with_capacity(data.len() * 4);
        let mut dec = encoding_rs::UTF_8.new_decoder();
        let _ = dec.decode_to_string(&data[..split], &mut reference, false);
        let _ = dec.decode_to_string(&data[split..], &mut reference, false);
        assert_eq!(ours, reference, "split at {split}");
    }
}

#[test]
fn matches_reference_decoder_on_lone_bad_byte() {
    let data: &[u8] = &[0x41, 0xFF, 0x42, 0xC3, 0xA9];
    let ours = feed_chunks(&[data]).1;
    let mut reference = String::with_capacity(data.len() * 4);
    let mut dec = encoding_rs::UTF_8.new_decoder();
    let _ = dec.decode_to_string(data, &mut reference, false);
    assert_eq!(ours, reference);
}
