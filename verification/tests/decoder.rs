use silero::decoder::Decoder;
use silero::error::ErrorKind;

fn vocabulary(labels: &[&str]) -> Vec<String> {
    labels.iter().map(|label| label.to_string()).collect()
}

fn small() -> Decoder {
    Decoder::new(vocabulary(&["_", "a", "2", "b"])).unwrap()
}

#[test]
fn new_accepts_vocabulary_with_blank_and_sentinel() {
    let decoder = Decoder::new(vocabulary(&["_", "a", "2", "b"])).unwrap();
    assert_eq!(decoder.labels(), &vocabulary(&["_", "a", "2", "b"])[..]);
}

#[test]
fn new_refuses_vocabulary_without_blank() {
    let result = Decoder::new(vocabulary(&["a", "2", "b"]));
    assert_eq!(result.err(), Some(ErrorKind::DecoderConfig));
}

#[test]
fn new_refuses_vocabulary_without_sentinel() {
    let result = Decoder::new(vocabulary(&["_", "a", "b"]));
    assert_eq!(result.err(), Some(ErrorKind::DecoderConfig));
}

#[test]
fn new_refuses_empty_vocabulary() {
    assert_eq!(Decoder::new(Vec::new()).err(), Some(ErrorKind::DecoderConfig));
}

#[test]
fn new_refuses_second_blank() {
    let result = Decoder::new(vocabulary(&["_", "a", "2", "_"]));
    assert_eq!(result.err(), Some(ErrorKind::DecoderConfig));
}

#[test]
fn new_refuses_second_sentinel() {
    let result = Decoder::new(vocabulary(&["2", "_", "a", "2"]));
    assert_eq!(result.err(), Some(ErrorKind::DecoderConfig));
}

#[test]
fn new_accepts_other_labels_twice() {
    let decoder = Decoder::new(vocabulary(&["a", "_", "a", "2"])).unwrap();
    assert_eq!(decoder.decode(&[0, 2]).unwrap(), "a");
    assert_eq!(decoder.decode(&[0, 1, 2]).unwrap(), "a");
}

#[test]
fn labels_keep_their_order() {
    let decoder = Decoder::new(vocabulary(&["x", "2", "yz", "_"])).unwrap();
    let labels = decoder.labels();
    assert_eq!(labels.len(), 4);
    assert_eq!(labels[0], "x");
    assert_eq!(labels[1], "2");
    assert_eq!(labels[2], "yz");
    assert_eq!(labels[3], "_");
}

#[test]
fn from_json_reads_a_list_of_strings() {
    let decoder = Decoder::from_json(r#"["_", "th", "2", " ", "e"]"#).unwrap();
    assert_eq!(decoder.labels(), &vocabulary(&["_", "th", "2", " ", "e"])[..]);
    assert_eq!(decoder.decode(&[1, 4, 3, 1, 4]).unwrap(), "the the");
}

#[test]
fn from_json_reads_escapes() {
    let decoder = Decoder::from_json(r#"["_", "2", "A\n", "\"q\""]"#).unwrap();
    assert_eq!(decoder.labels()[2], "A\n");
    assert_eq!(decoder.labels()[3], "\"q\"");
}

#[test]
fn from_json_refuses_text_that_is_not_json() {
    assert_eq!(Decoder::from_json("[\"_\", \"2\"").err(), Some(ErrorKind::DecoderConfig));
    assert_eq!(Decoder::from_json("").err(), Some(ErrorKind::DecoderConfig));
}

#[test]
fn from_json_refuses_other_values() {
    assert_eq!(Decoder::from_json("[\"_\", \"2\", 3]").err(), Some(ErrorKind::DecoderConfig));
    assert_eq!(Decoder::from_json("{\"_\": \"2\"}").err(), Some(ErrorKind::DecoderConfig));
    assert_eq!(Decoder::from_json("\"_2\"").err(), Some(ErrorKind::DecoderConfig));
}

#[test]
fn from_json_refuses_vocabulary_without_blank_or_sentinel() {
    assert_eq!(Decoder::from_json(r#"["a", "2"]"#).err(), Some(ErrorKind::DecoderConfig));
    assert_eq!(Decoder::from_json(r#"["_", "a"]"#).err(), Some(ErrorKind::DecoderConfig));
    assert_eq!(Decoder::from_json("[]").err(), Some(ErrorKind::DecoderConfig));
}

#[test]
fn decode_of_nothing_is_empty() {
    assert_eq!(small().decode(&[]).unwrap(), "");
    assert_eq!(small().decode(&[0, 0, 0]).unwrap(), "");
}

#[test]
fn decode_appends_labels() {
    assert_eq!(small().decode(&[1, 3]).unwrap(), "ab");
    assert_eq!(small().decode(&[3, 1, 3]).unwrap(), "bab");
}

#[test]
fn decode_collapses_repeated_units() {
    let decoder = small();
    assert_eq!(decoder.decode(&[1, 1, 3]).unwrap(), "ab");
    assert_eq!(decoder.decode(&[1, 1, 0, 3]).unwrap(), "ab");
    assert_eq!(decoder.decode(&[1, 0, 3]).unwrap(), "ab");
    assert_eq!(
        decoder.decode(&[1, 1, 0, 3]).unwrap(),
        decoder.decode(&[1, 0, 3]).unwrap()
    );
}

#[test]
fn decode_collapses_across_blanks() {
    // A blank produces no unit, so the two units it stands between are neighbours.
    assert_eq!(small().decode(&[1, 0, 1, 3]).unwrap(), "ab");
    assert_eq!(small().decode(&[1, 0, 0, 1, 0, 3, 3]).unwrap(), "ab");
}

#[test]
fn decode_sentinel_at_start_gives_a_space_that_is_trimmed() {
    assert_eq!(small().decode(&[2, 1]).unwrap(), "a");
    assert_eq!(small().decode(&[2]).unwrap(), "");
    assert_eq!(small().decode(&[0, 2, 1]).unwrap(), "a");
}

#[test]
fn decode_trims_only_the_ends() {
    let decoder = Decoder::new(vocabulary(&["_", "a", "2", "\u{2003}x"])).unwrap();
    assert_eq!(decoder.decode(&[3, 2]).unwrap(), "x\u{2003}x");
}

#[test]
fn decode_sentinel_repeats_the_last_unit() {
    let decoder = small();
    assert_eq!(decoder.decode(&[1, 2, 3]).unwrap(), "aab");
    assert_eq!(decoder.decode(&[1, 2]).unwrap(), "aa");
    assert_eq!(decoder.decode(&[1, 3, 2]).unwrap(), "abb");
    assert_eq!(decoder.decode(&[1, 2, 2]).unwrap(), "aaa");
    assert_eq!(decoder.decode(&[1, 2, 1]).unwrap(), "aa");
    assert_eq!(decoder.decode(&[1, 2, 0, 1, 3]).unwrap(), "aab");
}

#[test]
fn decode_sentinel_after_leading_space_repeats_the_space() {
    // Units: " ", "$", " ", "a". Without the joiners: "  a", which is trimmed.
    assert_eq!(small().decode(&[2, 2, 1]).unwrap(), "a");
}

#[test]
fn decode_removes_joiners_that_labels_hold() {
    let decoder = Decoder::new(vocabulary(&["_", "a$b", "2", "$"])).unwrap();
    assert_eq!(decoder.decode(&[1]).unwrap(), "ab");
    assert_eq!(decoder.decode(&[1, 3, 1]).unwrap(), "abab");
    assert_eq!(decoder.decode(&[3]).unwrap(), "");
}

#[test]
fn decode_joiner_label_collapses_with_joiner_marker() {
    let decoder = Decoder::new(vocabulary(&["_", "a", "2", "$"])).unwrap();
    // Units: "a", "$", then the sentinel adds "$" and "$": all three collapse into one.
    assert_eq!(decoder.decode(&[1, 3, 2]).unwrap(), "a");
    // Units: "$", "$", "$", "a".
    assert_eq!(decoder.decode(&[3, 2, 1]).unwrap(), "a");
}

#[test]
fn decode_trims_white_space() {
    let decoder = Decoder::new(vocabulary(&["_", "a", "2", " ", "\t\n", "\u{a0}"])).unwrap();
    assert_eq!(decoder.decode(&[3, 1, 3]).unwrap(), "a");
    assert_eq!(decoder.decode(&[3, 1, 3, 1, 4]).unwrap(), "a a");
    assert_eq!(decoder.decode(&[4, 3, 1, 5, 1, 5, 4]).unwrap(), "a\u{a0}a");
    assert_eq!(decoder.decode(&[3, 4, 5]).unwrap(), "");
}

#[test]
fn decode_collapses_by_text_of_the_unit() {
    let decoder = Decoder::new(vocabulary(&["_", "a", "2", "a", "aa"])).unwrap();
    assert_eq!(decoder.decode(&[1, 3]).unwrap(), "a");
    assert_eq!(decoder.decode(&[1, 4, 3]).unwrap(), "aaaa");
}

#[test]
fn decode_is_the_same_on_every_call() {
    let decoder = small();
    let first = decoder.decode(&[1, 2, 3, 3, 0, 1]).unwrap();
    let second = decoder.decode(&[1, 2, 3, 3, 0, 1]).unwrap();
    assert_eq!(first, "aaba");
    assert_eq!(first, second);
}
