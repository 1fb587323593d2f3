use polysynth::text::{chars_of, starts_with, string_of};

#[test]
fn characters_and_back() {
    assert_eq!(chars_of(""), vec![]);
    assert_eq!(chars_of("aö-->"), vec!['a', 'ö', '-', '-', '>']);
    assert_eq!(string_of(&vec![]), "");
    assert_eq!(string_of(&vec!['m', 'u', 'x', ':', '1']), "mux:1");
    assert_eq!(string_of(&chars_of("flanger ♯")), "flanger ♯");
}

#[test]
fn prefixes() {
    let text = chars_of("load track");
    assert!(starts_with(&text, &chars_of("")));
    assert!(starts_with(&text, &chars_of("load")));
    assert!(starts_with(&text, &chars_of("load track")));
    assert!(!starts_with(&text, &chars_of("load track ")));
    assert!(!starts_with(&text, &chars_of("lead")));
    assert!(!starts_with(&chars_of(""), &chars_of("a")));
}
