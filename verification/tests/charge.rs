use physicslang::charge::{pos_role, PosRole};

/// Charge of a tag in half units, as the library gives it.
fn halves(tag: &str) -> i8 {
    pos_role(tag).charge_halves()
}

#[test]
fn pos_to_charge_basic() {
    // NOUN has charge -1.0 and VERB +1.0: -2 and +2 half units.
    assert_eq!(pos_role("NOUN"), PosRole::Noun);
    assert_eq!(halves("NOUN"), -2);
    assert_eq!(pos_role("VERB"), PosRole::Verb);
    assert_eq!(halves("VERB"), 2);
}

#[test]
fn noun_tags_are_negative() {
    for t in ["NOUN", "PROPN", "NN", "NNS", "NNP"] {
        assert_eq!(pos_role(t), PosRole::Noun);
        assert_eq!(halves(t), -2);
    }
}

#[test]
fn verb_tags_are_positive() {
    for t in ["VERB", "VB", "VBD", "VBG", "VBN", "VBP", "VBZ"] {
        assert_eq!(pos_role(t), PosRole::Verb);
        assert_eq!(halves(t), 2);
    }
}

#[test]
fn adjective_tags_are_half_positive() {
    for t in ["ADJ", "JJ", "JJR", "JJS"] {
        assert_eq!(pos_role(t), PosRole::Adjective);
        assert_eq!(halves(t), 1);
    }
}

#[test]
fn other_tags_are_neutral() {
    for t in ["DET", "ADV", "", "NOUNS", "N", "VBX", "JJJ", "ΝΟUN"] {
        assert_eq!(pos_role(t), PosRole::Other);
        assert_eq!(halves(t), 0);
    }
}

#[test]
fn tags_ignore_ascii_case() {
    assert_eq!(pos_role("noun"), PosRole::Noun);
    assert_eq!(pos_role("Noun"), PosRole::Noun);
    assert_eq!(pos_role("vbz"), PosRole::Verb);
    assert_eq!(pos_role("jJr"), PosRole::Adjective);
    assert_eq!(pos_role("propn"), pos_role("PROPN"));
}

#[test]
fn charge_halves_per_role() {
    assert_eq!(PosRole::Noun.charge_halves(), -2);
    assert_eq!(PosRole::Verb.charge_halves(), 2);
    assert_eq!(PosRole::Adjective.charge_halves(), 1);
    assert_eq!(PosRole::Other.charge_halves(), 0);
}
