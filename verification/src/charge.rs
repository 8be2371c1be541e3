//! Syntactic charge from part-of-speech tags: nouns repel nouns, verbs pull
//! toward nouns, adjectives lean positive, anything else is neutral.
//! Tags are matched without regard to ASCII case.

use vstd::prelude::*;
use vstd::string::*;

verus! {

/// The code of `c` after ASCII upper-casing: `a`..`z` map to `A`..`Z`, every
/// other character keeps its code.
pub open spec fn ascii_upper_code(c: char) -> u32 {
    if ('a' as u32) <= (c as u32) && (c as u32) <= ('z' as u32) {
        ((c as u32) - 32) as u32
    } else {
        c as u32
    }
}

/// `tag`, upper-cased in ASCII, is exactly `word`.
pub open spec fn upper_is(tag: Seq<char>, word: Seq<char>) -> bool {
    &&& tag.len() == word.len()
    &&& forall|k: int| 0 <= k < tag.len() ==> ascii_upper_code(#[trigger] tag[k]) == word[k] as u32
}

/// Two tags that are equal once both are upper-cased in ASCII.
pub open spec fn same_ignoring_ascii_case(a: Seq<char>, b: Seq<char>) -> bool {
    &&& a.len() == b.len()
    &&& forall|k: int| 0 <= k < a.len() ==> ascii_upper_code(#[trigger] a[k]) == ascii_upper_code(b[k])
}

/// Grammatical role of a token, as far as its charge goes.
#[derive(Debug, Clone, Copy, PartialEq, Eq, Structural)]
pub enum PosRole {
    Noun,
    Verb,
    Adjective,
    Other,
}

/// Noun tags: NOUN, PROPN, NN, NNS, NNP.
pub open spec fn is_noun_tag(tag: Seq<char>) -> bool {
    ||| upper_is(tag, "NOUN"@)
    ||| upper_is(tag, "PROPN"@)
    ||| upper_is(tag, "NN"@)
    ||| upper_is(tag, "NNS"@)
    ||| upper_is(tag, "NNP"@)
}

/// Verb tags: VERB, VB, VBD, VBG, VBN, VBP, VBZ.
pub open spec fn is_verb_tag(tag: Seq<char>) -> bool {
    ||| upper_is(tag, "VERB"@)
    ||| upper_is(tag, "VB"@)
    ||| upper_is(tag, "VBD"@)
    ||| upper_is(tag, "VBG"@)
    ||| upper_is(tag, "VBN"@)
    ||| upper_is(tag, "VBP"@)
    ||| upper_is(tag, "VBZ"@)
}

/// Adjective tags: ADJ, JJ, JJR, JJS.
pub open spec fn is_adjective_tag(tag: Seq<char>) -> bool {
    ||| upper_is(tag, "ADJ"@)
    ||| upper_is(tag, "JJ"@)
    ||| upper_is(tag, "JJR"@)
    ||| upper_is(tag, "JJS"@)
}

/// The role of a part-of-speech tag (Universal or Penn tag set).
pub open spec fn spec_pos_role(tag: Seq<char>) -> PosRole {
    if is_noun_tag(tag) {
        PosRole::Noun
    } else if is_verb_tag(tag) {
        PosRole::Verb
    } else if is_adjective_tag(tag) {
        PosRole::Adjective
    } else {
        PosRole::Other
    }
}

/// Charge of a role in half units: noun -1, verb +1, adjective +0.5, other 0.
pub open spec fn spec_charge_halves(role: PosRole) -> int {
    match role {
        PosRole::Noun => -2,
        PosRole::Verb => 2,
        PosRole::Adjective => 1,
        PosRole::Other => 0,
    }
}

fn upper_code_is(c: char, d: char) -> (b: bool)
    ensures
        b == (ascii_upper_code(c) == d as u32),
{
    let cu = c as u32;
    let du = d as u32;
    if ('a' as u32) <= cu && cu <= ('z' as u32) {
        cu - 32 == du
    } else {
        cu == du
    }
}

fn upper_matches(tag: &str, word: &str) -> (b: bool)
    ensures
        b == upper_is(tag@, word@),
{
    let n = tag.unicode_len();
    let m = word.unicode_len();
    if n != m {
        return false;
    }
    let mut k: usize = 0;
    while k < n
        invariant
            n == tag@.len(),
            m == word@.len(),
            n == m,
            k <= n,
            forall|j: int| 0 <= j < k ==> ascii_upper_code(#[trigger] tag@[j]) == word@[j] as u32,
        decreases n - k,
    {
        let c = tag.get_char(k);
        let d = word.get_char(k);
        if !upper_code_is(c, d) {
            return false;
        }
        k += 1;
    }
    true
}

/// Role of a part-of-speech tag, matched without regard to ASCII case.
pub fn pos_role(pos_tag: &str) -> (role: PosRole)
    ensures
        role == spec_pos_role(pos_tag@),
{
    if upper_matches(pos_tag, "NOUN") || upper_matches(pos_tag, "PROPN") || upper_matches(
        pos_tag,
        "NN",
    ) || upper_matches(pos_tag, "NNS") || upper_matches(pos_tag, "NNP") {
        PosRole::Noun
    } else if upper_matches(pos_tag, "VERB") || upper_matches(pos_tag, "VB") || upper_matches(
        pos_tag,
        "VBD",
    ) || upper_matches(pos_tag, "VBG") || upper_matches(pos_tag, "VBN") || upper_matches(
        pos_tag,
        "VBP",
    ) || upper_matches(pos_tag, "VBZ") {
        PosRole::Verb
    } else if upper_matches(pos_tag, "ADJ") || upper_matches(pos_tag, "JJ") || upper_matches(
        pos_tag,
        "JJR",
    ) || upper_matches(pos_tag, "JJS") {
        PosRole::Adjective
    } else {
        PosRole::Other
    }
}

impl PosRole {
    /// Charge of this role in half units (the charge is this over two).
    pub fn charge_halves(&self) -> (h: i8)
        ensures
            h == spec_charge_halves(*self),
    {
        match self {
            PosRole::Noun => -2,
            PosRole::Verb => 2,
            PosRole::Adjective => 1,
            PosRole::Other => 0,
        }
    }
}

/// Law: a tag's role, and so its charge, does not depend on ASCII case;
/// `"noun"`, `"Noun"` and `"NOUN"` are the same tag.
pub proof fn lemma_role_ignores_ascii_case(a: Seq<char>, b: Seq<char>)
    requires
        same_ignoring_ascii_case(a, b),
    ensures
        spec_pos_role(a) == spec_pos_role(b),
        spec_charge_halves(spec_pos_role(a)) == spec_charge_halves(spec_pos_role(b)),
{
    assert forall|w: Seq<char>| upper_is(a, w) <==> upper_is(b, w) by {
        if upper_is(a, w) {
            assert forall|k: int| 0 <= k < b.len() implies ascii_upper_code(#[trigger] b[k])
                == w[k] as u32 by {
                assert(ascii_upper_code(a[k]) == ascii_upper_code(b[k]));
            }
        }
        if upper_is(b, w) {
            assert forall|k: int| 0 <= k < a.len() implies ascii_upper_code(#[trigger] a[k])
                == w[k] as u32 by {
                assert(ascii_upper_code(a[k]) == ascii_upper_code(b[k]));
            }
        }
    }
}

/// Law: the charges keep the grammar's signs and sizes: nouns are negative,
/// verbs positive with the same strength, adjectives positive at half a
/// verb's strength, anything else neutral; one unit of charge is two halves.
pub proof fn lemma_charge_signs()
    ensures
        spec_charge_halves(PosRole::Noun) < 0,
        spec_charge_halves(PosRole::Verb) == -spec_charge_halves(PosRole::Noun),
        spec_charge_halves(PosRole::Verb) == 2,
        spec_charge_halves(PosRole::Verb) == 2 * spec_charge_halves(PosRole::Adjective),
        spec_charge_halves(PosRole::Other) == 0,
{
}

/// `s` is `w` with some of its upper-case ASCII letters written in lower
/// case (each such letter's code raised by 32, `'A'` to `'a'` and so on).
pub open spec fn lower_case_variant(s: Seq<char>, w: Seq<char>) -> bool {
    &&& s.len() == w.len()
    &&& forall|k: int|
        0 <= k < s.len() ==> #[trigger] s[k] == w[k] || (('A' as u32) <= (w[k] as u32) && (
        w[k] as u32) <= ('Z' as u32) && (s[k] as u32) == (w[k] as u32) + 32)
}

/// Law: writing any of a tag's upper-case letters in lower case, from `a`
/// through `z`, keeps its role: `"adj"`, `"Adj"` and `"ADJ"` are the same tag,
/// as are `"noun"` and `"NOUN"` or `"vbz"` and `"VBZ"`.
pub proof fn lemma_lower_case_tags_keep_their_role(s: Seq<char>, w: Seq<char>)
    requires
        lower_case_variant(s, w),
    ensures
        spec_pos_role(s) == spec_pos_role(w),
        spec_charge_halves(spec_pos_role(s)) == spec_charge_halves(spec_pos_role(w)),
{
    assert forall|k: int| 0 <= k < s.len() implies ascii_upper_code(#[trigger] s[k])
        == ascii_upper_code(w[k]) by {
        if s[k] != w[k] {
            assert(('A' as u32) <= (w[k] as u32) <= ('Z' as u32));
            assert((s[k] as u32) == (w[k] as u32) + 32);
        }
    }
    lemma_role_ignores_ascii_case(s, w);
}

proof fn lemma_listed_role(t: Seq<char>)
    ensures
        t == "NOUN"@ || t == "PROPN"@ || t == "NN"@ || t == "NNS"@ || t == "NNP"@ ==> spec_pos_role(t)
            == PosRole::Noun,
        t == "VERB"@ || t == "VB"@ || t == "VBD"@ || t == "VBG"@ || t == "VBN"@ || t == "VBP"@
            || t == "VBZ"@ ==> spec_pos_role(t) == PosRole::Verb,
        t == "ADJ"@ || t == "JJ"@ || t == "JJR"@ || t == "JJS"@ ==> spec_pos_role(t)
            == PosRole::Adjective,
{
    reveal_strlit("NOUN");
    reveal_strlit("PROPN");
    reveal_strlit("NN");
    reveal_strlit("NNS");
    reveal_strlit("NNP");
    reveal_strlit("VERB");
    reveal_strlit("VB");
    reveal_strlit("VBD");
    reveal_strlit("VBG");
    reveal_strlit("VBN");
    reveal_strlit("VBP");
    reveal_strlit("VBZ");
    reveal_strlit("ADJ");
    reveal_strlit("JJ");
    reveal_strlit("JJR");
    reveal_strlit("JJS");
    assert(ascii_upper_code("NOUN"@[0]) == 'N' as u32);
    assert(ascii_upper_code("NOUN"@[1]) == 'O' as u32);
    assert(ascii_upper_code("NOUN"@[2]) == 'U' as u32);
    assert(ascii_upper_code("NOUN"@[3]) == 'N' as u32);
    assert(ascii_upper_code("PROPN"@[0]) == 'P' as u32);
    assert(ascii_upper_code("PROPN"@[1]) == 'R' as u32);
    assert(ascii_upper_code("PROPN"@[2]) == 'O' as u32);
    assert(ascii_upper_code("PROPN"@[3]) == 'P' as u32);
    assert(ascii_upper_code("PROPN"@[4]) == 'N' as u32);
    assert(ascii_upper_code("NN"@[0]) == 'N' as u32);
    assert(ascii_upper_code("NN"@[1]) == 'N' as u32);
    assert(ascii_upper_code("NNS"@[0]) == 'N' as u32);
    assert(ascii_upper_code("NNS"@[1]) == 'N' as u32);
    assert(ascii_upper_code("NNS"@[2]) == 'S' as u32);
    assert(ascii_upper_code("NNP"@[0]) == 'N' as u32);
    assert(ascii_upper_code("NNP"@[1]) == 'N' as u32);
    assert(ascii_upper_code("NNP"@[2]) == 'P' as u32);
    assert(ascii_upper_code("VERB"@[0]) == 'V' as u32);
    assert(ascii_upper_code("VERB"@[1]) == 'E' as u32);
    assert(ascii_upper_code("VERB"@[2]) == 'R' as u32);
    assert(ascii_upper_code("VERB"@[3]) == 'B' as u32);
    assert(ascii_upper_code("VB"@[0]) == 'V' as u32);
    assert(ascii_upper_code("VB"@[1]) == 'B' as u32);
    assert(ascii_upper_code("VBD"@[0]) == 'V' as u32);
    assert(ascii_upper_code("VBD"@[1]) == 'B' as u32);
    assert(ascii_upper_code("VBD"@[2]) == 'D' as u32);
    assert(ascii_upper_code("VBG"@[0]) == 'V' as u32);
    assert(ascii_upper_code("VBG"@[1]) == 'B' as u32);
    assert(ascii_upper_code("VBG"@[2]) == 'G' as u32);
    assert(ascii_upper_code("VBN"@[0]) == 'V' as u32);
    assert(ascii_upper_code("VBN"@[1]) == 'B' as u32);
    assert(ascii_upper_code("VBN"@[2]) == 'N' as u32);
    assert(ascii_upper_code("VBP"@[0]) == 'V' as u32);
    assert(ascii_upper_code("VBP"@[1]) == 'B' as u32);
    assert(ascii_upper_code("VBP"@[2]) == 'P' as u32);
    assert(ascii_upper_code("VBZ"@[0]) == 'V' as u32);
    assert(ascii_upper_code("VBZ"@[1]) == 'B' as u32);
    assert(ascii_upper_code("VBZ"@[2]) == 'Z' as u32);
    assert(ascii_upper_code("ADJ"@[0]) == 'A' as u32);
    assert(ascii_upper_code("ADJ"@[1]) == 'D' as u32);
    assert(ascii_upper_code("ADJ"@[2]) == 'J' as u32);
    assert(ascii_upper_code("JJ"@[0]) == 'J' as u32);
    assert(ascii_upper_code("JJ"@[1]) == 'J' as u32);
    assert(ascii_upper_code("JJR"@[0]) == 'J' as u32);
    assert(ascii_upper_code("JJR"@[1]) == 'J' as u32);
    assert(ascii_upper_code("JJR"@[2]) == 'R' as u32);
    assert(ascii_upper_code("JJS"@[0]) == 'J' as u32);
    assert(ascii_upper_code("JJS"@[1]) == 'J' as u32);
    assert(ascii_upper_code("JJS"@[2]) == 'S' as u32);
}

/// Law: every spelling of NOUN, PROPN, NN, NNS or NNP, in any mix of ASCII case, is a noun
/// tag.
pub proof fn lemma_noun_tags(s: Seq<char>)
    ensures
        same_ignoring_ascii_case(s, "NOUN"@) ==> spec_pos_role(s) == PosRole::Noun,
        same_ignoring_ascii_case(s, "PROPN"@) ==> spec_pos_role(s) == PosRole::Noun,
        same_ignoring_ascii_case(s, "NN"@) ==> spec_pos_role(s) == PosRole::Noun,
        same_ignoring_ascii_case(s, "NNS"@) ==> spec_pos_role(s) == PosRole::Noun,
        same_ignoring_ascii_case(s, "NNP"@) ==> spec_pos_role(s) == PosRole::Noun,
{
    if same_ignoring_ascii_case(s, "NOUN"@) {
        lemma_role_ignores_ascii_case(s, "NOUN"@);
        lemma_listed_role("NOUN"@);
    }
    if same_ignoring_ascii_case(s, "PROPN"@) {
        lemma_role_ignores_ascii_case(s, "PROPN"@);
        lemma_listed_role("PROPN"@);
    }
    if same_ignoring_ascii_case(s, "NN"@) {
        lemma_role_ignores_ascii_case(s, "NN"@);
        lemma_listed_role("NN"@);
    }
    if same_ignoring_ascii_case(s, "NNS"@) {
        lemma_role_ignores_ascii_case(s, "NNS"@);
        lemma_listed_role("NNS"@);
    }
    if same_ignoring_ascii_case(s, "NNP"@) {
        lemma_role_ignores_ascii_case(s, "NNP"@);
        lemma_listed_role("NNP"@);
    }
}

/// Law: every spelling of VERB, VB, VBD, VBG, VBN, VBP or VBZ, in any mix of ASCII case, is a verb
/// tag.
pub proof fn lemma_verb_tags(s: Seq<char>)
    ensures
        same_ignoring_ascii_case(s, "VERB"@) ==> spec_pos_role(s) == PosRole::Verb,
        same_ignoring_ascii_case(s, "VB"@) ==> spec_pos_role(s) == PosRole::Verb,
        same_ignoring_ascii_case(s, "VBD"@) ==> spec_pos_role(s) == PosRole::Verb,
        same_ignoring_ascii_case(s, "VBG"@) ==> spec_pos_role(s) == PosRole::Verb,
        same_ignoring_ascii_case(s, "VBN"@) ==> spec_pos_role(s) == PosRole::Verb,
        same_ignoring_ascii_case(s, "VBP"@) ==> spec_pos_role(s) == PosRole::Verb,
        same_ignoring_ascii_case(s, "VBZ"@) ==> spec_pos_role(s) == PosRole::Verb,
{
    if same_ignoring_ascii_case(s, "VERB"@) {
        lemma_role_ignores_ascii_case(s, "VERB"@);
        lemma_listed_role("VERB"@);
    }
    if same_ignoring_ascii_case(s, "VB"@) {
        lemma_role_ignores_ascii_case(s, "VB"@);
        lemma_listed_role("VB"@);
    }
    if same_ignoring_ascii_case(s, "VBD"@) {
        lemma_role_ignores_ascii_case(s, "VBD"@);
        lemma_listed_role("VBD"@);
    }
    if same_ignoring_ascii_case(s, "VBG"@) {
        lemma_role_ignores_ascii_case(s, "VBG"@);
        lemma_listed_role("VBG"@);
    }
    if same_ignoring_ascii_case(s, "VBN"@) {
        lemma_role_ignores_ascii_case(s, "VBN"@);
        lemma_listed_role("VBN"@);
    }
    if same_ignoring_ascii_case(s, "VBP"@) {
        lemma_role_ignores_ascii_case(s, "VBP"@);
        lemma_listed_role("VBP"@);
    }
    if same_ignoring_ascii_case(s, "VBZ"@) {
        lemma_role_ignores_ascii_case(s, "VBZ"@);
        lemma_listed_role("VBZ"@);
    }
}

/// Law: every spelling of ADJ, JJ, JJR or JJS, in any mix of ASCII case, is a adjective
/// tag.
pub proof fn lemma_adjective_tags(s: Seq<char>)
    ensures
        same_ignoring_ascii_case(s, "ADJ"@) ==> spec_pos_role(s) == PosRole::Adjective,
        same_ignoring_ascii_case(s, "JJ"@) ==> spec_pos_role(s) == PosRole::Adjective,
        same_ignoring_ascii_case(s, "JJR"@) ==> spec_pos_role(s) == PosRole::Adjective,
        same_ignoring_ascii_case(s, "JJS"@) ==> spec_pos_role(s) == PosRole::Adjective,
{
    if same_ignoring_ascii_case(s, "ADJ"@) {
        lemma_role_ignores_ascii_case(s, "ADJ"@);
        lemma_listed_role("ADJ"@);
    }
    if same_ignoring_ascii_case(s, "JJ"@) {
        lemma_role_ignores_ascii_case(s, "JJ"@);
        lemma_listed_role("JJ"@);
    }
    if same_ignoring_ascii_case(s, "JJR"@) {
        lemma_role_ignores_ascii_case(s, "JJR"@);
        lemma_listed_role("JJR"@);
    }
    if same_ignoring_ascii_case(s, "JJS"@) {
        lemma_role_ignores_ascii_case(s, "JJS"@);
        lemma_listed_role("JJS"@);
    }
}

/// No character of `w` changes under ASCII upper-casing.
pub open spec fn upper_fixed(w: Seq<char>) -> bool {
    forall|k: int| 0 <= k < w.len() ==> ascii_upper_code(#[trigger] w[k]) == w[k] as u32
}

proof fn lemma_listed_tags_upper_fixed()
    ensures
        upper_fixed("NOUN"@),
        upper_fixed("PROPN"@),
        upper_fixed("NN"@),
        upper_fixed("NNS"@),
        upper_fixed("NNP"@),
        upper_fixed("VERB"@),
        upper_fixed("VB"@),
        upper_fixed("VBD"@),
        upper_fixed("VBG"@),
        upper_fixed("VBN"@),
        upper_fixed("VBP"@),
        upper_fixed("VBZ"@),
        upper_fixed("ADJ"@),
        upper_fixed("JJ"@),
        upper_fixed("JJR"@),
        upper_fixed("JJS"@),
{
    reveal_strlit("NOUN");
    reveal_strlit("PROPN");
    reveal_strlit("NN");
    reveal_strlit("NNS");
    reveal_strlit("NNP");
    reveal_strlit("VERB");
    reveal_strlit("VB");
    reveal_strlit("VBD");
    reveal_strlit("VBG");
    reveal_strlit("VBN");
    reveal_strlit("VBP");
    reveal_strlit("VBZ");
    reveal_strlit("ADJ");
    reveal_strlit("JJ");
    reveal_strlit("JJR");
    reveal_strlit("JJS");
    assert(upper_fixed("NOUN"@)) by {
        assert(ascii_upper_code("NOUN"@[0]) == "NOUN"@[0] as u32);
        assert(ascii_upper_code("NOUN"@[1]) == "NOUN"@[1] as u32);
        assert(ascii_upper_code("NOUN"@[2]) == "NOUN"@[2] as u32);
        assert(ascii_upper_code("NOUN"@[3]) == "NOUN"@[3] as u32);
    }
    assert(upper_fixed("PROPN"@)) by {
        assert(ascii_upper_code("PROPN"@[0]) == "PROPN"@[0] as u32);
        assert(ascii_upper_code("PROPN"@[1]) == "PROPN"@[1] as u32);
        assert(ascii_upper_code("PROPN"@[2]) == "PROPN"@[2] as u32);
        assert(ascii_upper_code("PROPN"@[3]) == "PROPN"@[3] as u32);
        assert(ascii_upper_code("PROPN"@[4]) == "PROPN"@[4] as u32);
    }
    assert(upper_fixed("NN"@)) by {
        assert(ascii_upper_code("NN"@[0]) == "NN"@[0] as u32);
        assert(ascii_upper_code("NN"@[1]) == "NN"@[1] as u32);
    }
    assert(upper_fixed("NNS"@)) by {
        assert(ascii_upper_code("NNS"@[0]) == "NNS"@[0] as u32);
        assert(ascii_upper_code("NNS"@[1]) == "NNS"@[1] as u32);
        assert(ascii_upper_code("NNS"@[2]) == "NNS"@[2] as u32);
    }
    assert(upper_fixed("NNP"@)) by {
        assert(ascii_upper_code("NNP"@[0]) == "NNP"@[0] as u32);
        assert(ascii_upper_code("NNP"@[1]) == "NNP"@[1] as u32);
        assert(ascii_upper_code("NNP"@[2]) == "NNP"@[2] as u32);
    }
    assert(upper_fixed("VERB"@)) by {
        assert(ascii_upper_code("VERB"@[0]) == "VERB"@[0] as u32);
        assert(ascii_upper_code("VERB"@[1]) == "VERB"@[1] as u32);
        assert(ascii_upper_code("VERB"@[2]) == "VERB"@[2] as u32);
        assert(ascii_upper_code("VERB"@[3]) == "VERB"@[3] as u32);
    }
    assert(upper_fixed("VB"@)) by {
        assert(ascii_upper_code("VB"@[0]) == "VB"@[0] as u32);
        assert(ascii_upper_code("VB"@[1]) == "VB"@[1] as u32);
    }
    assert(upper_fixed("VBD"@)) by {
        assert(ascii_upper_code("VBD"@[0]) == "VBD"@[0] as u32);
        assert(ascii_upper_code("VBD"@[1]) == "VBD"@[1] as u32);
        assert(ascii_upper_code("VBD"@[2]) == "VBD"@[2] as u32);
    }
    assert(upper_fixed("VBG"@)) by {
        assert(ascii_upper_code("VBG"@[0]) == "VBG"@[0] as u32);
        assert(ascii_upper_code("VBG"@[1]) == "VBG"@[1] as u32);
        assert(ascii_upper_code("VBG"@[2]) == "VBG"@[2] as u32);
    }
    assert(upper_fixed("VBN"@)) by {
        assert(ascii_upper_code("VBN"@[0]) == "VBN"@[0] as u32);
        assert(ascii_upper_code("VBN"@[1]) == "VBN"@[1] as u32);
        assert(ascii_upper_code("VBN"@[2]) == "VBN"@[2] as u32);
    }
    assert(upper_fixed("VBP"@)) by {
        assert(ascii_upper_code("VBP"@[0]) == "VBP"@[0] as u32);
        assert(ascii_upper_code("VBP"@[1]) == "VBP"@[1] as u32);
        assert(ascii_upper_code("VBP"@[2]) == "VBP"@[2] as u32);
    }
    assert(upper_fixed("VBZ"@)) by {
        assert(ascii_upper_code("VBZ"@[0]) == "VBZ"@[0] as u32);
        assert(ascii_upper_code("VBZ"@[1]) == "VBZ"@[1] as u32);
        assert(ascii_upper_code("VBZ"@[2]) == "VBZ"@[2] as u32);
    }
    assert(upper_fixed("ADJ"@)) by {
        assert(ascii_upper_code("ADJ"@[0]) == "ADJ"@[0] as u32);
        assert(ascii_upper_code("ADJ"@[1]) == "ADJ"@[1] as u32);
        assert(ascii_upper_code("ADJ"@[2]) == "ADJ"@[2] as u32);
    }
    assert(upper_fixed("JJ"@)) by {
        assert(ascii_upper_code("JJ"@[0]) == "JJ"@[0] as u32);
        assert(ascii_upper_code("JJ"@[1]) == "JJ"@[1] as u32);
    }
    assert(upper_fixed("JJR"@)) by {
        assert(ascii_upper_code("JJR"@[0]) == "JJR"@[0] as u32);
        assert(ascii_upper_code("JJR"@[1]) == "JJR"@[1] as u32);
        assert(ascii_upper_code("JJR"@[2]) == "JJR"@[2] as u32);
    }
    assert(upper_fixed("JJS"@)) by {
        assert(ascii_upper_code("JJS"@[0]) == "JJS"@[0] as u32);
        assert(ascii_upper_code("JJS"@[1]) == "JJS"@[1] as u32);
        assert(ascii_upper_code("JJS"@[2]) == "JJS"@[2] as u32);
    }
}

proof fn lemma_upper_is_same_case(s: Seq<char>, w: Seq<char>)
    requires
        upper_fixed(w),
        upper_is(s, w),
    ensures
        same_ignoring_ascii_case(s, w),
{
    assert forall|k: int| 0 <= k < s.len() implies ascii_upper_code(#[trigger] s[k])
        == ascii_upper_code(w[k]) by {
        assert(ascii_upper_code(w[k]) == w[k] as u32);
    }
}

/// Law: only a spelling of NOUN, PROPN, NN, NNS or NNP, in any mix of ASCII case, is a
/// noun tag.
pub proof fn lemma_only_listed_noun_tags(s: Seq<char>)
    ensures
        spec_pos_role(s) == PosRole::Noun ==> same_ignoring_ascii_case(s, "NOUN"@)
            || same_ignoring_ascii_case(s, "PROPN"@)
            || same_ignoring_ascii_case(s, "NN"@)
            || same_ignoring_ascii_case(s, "NNS"@)
            || same_ignoring_ascii_case(s, "NNP"@),
{
    lemma_listed_tags_upper_fixed();
    if upper_is(s, "NOUN"@) {
        lemma_upper_is_same_case(s, "NOUN"@);
    }
    if upper_is(s, "PROPN"@) {
        lemma_upper_is_same_case(s, "PROPN"@);
    }
    if upper_is(s, "NN"@) {
        lemma_upper_is_same_case(s, "NN"@);
    }
    if upper_is(s, "NNS"@) {
        lemma_upper_is_same_case(s, "NNS"@);
    }
    if upper_is(s, "NNP"@) {
        lemma_upper_is_same_case(s, "NNP"@);
    }
}

/// Law: only a spelling of VERB, VB, VBD, VBG, VBN, VBP or VBZ, in any mix of ASCII case, is a
/// verb tag.
pub proof fn lemma_only_listed_verb_tags(s: Seq<char>)
    ensures
        spec_pos_role(s) == PosRole::Verb ==> same_ignoring_ascii_case(s, "VERB"@)
            || same_ignoring_ascii_case(s, "VB"@)
            || same_ignoring_ascii_case(s, "VBD"@)
            || same_ignoring_ascii_case(s, "VBG"@)
            || same_ignoring_ascii_case(s, "VBN"@)
            || same_ignoring_ascii_case(s, "VBP"@)
            || same_ignoring_ascii_case(s, "VBZ"@),
{
    lemma_listed_tags_upper_fixed();
    if upper_is(s, "VERB"@) {
        lemma_upper_is_same_case(s, "VERB"@);
    }
    if upper_is(s, "VB"@) {
        lemma_upper_is_same_case(s, "VB"@);
    }
    if upper_is(s, "VBD"@) {
        lemma_upper_is_same_case(s, "VBD"@);
    }
    if upper_is(s, "VBG"@) {
        lemma_upper_is_same_case(s, "VBG"@);
    }
    if upper_is(s, "VBN"@) {
        lemma_upper_is_same_case(s, "VBN"@);
    }
    if upper_is(s, "VBP"@) {
        lemma_upper_is_same_case(s, "VBP"@);
    }
    if upper_is(s, "VBZ"@) {
        lemma_upper_is_same_case(s, "VBZ"@);
    }
}

/// Law: only a spelling of ADJ, JJ, JJR or JJS, in any mix of ASCII case, is a
/// adjective tag.
pub proof fn lemma_only_listed_adjective_tags(s: Seq<char>)
    ensures
        spec_pos_role(s) == PosRole::Adjective ==> same_ignoring_ascii_case(s, "ADJ"@)
            || same_ignoring_ascii_case(s, "JJ"@)
            || same_ignoring_ascii_case(s, "JJR"@)
            || same_ignoring_ascii_case(s, "JJS"@),
{
    lemma_listed_tags_upper_fixed();
    if upper_is(s, "ADJ"@) {
        lemma_upper_is_same_case(s, "ADJ"@);
    }
    if upper_is(s, "JJ"@) {
        lemma_upper_is_same_case(s, "JJ"@);
    }
    if upper_is(s, "JJR"@) {
        lemma_upper_is_same_case(s, "JJR"@);
    }
    if upper_is(s, "JJS"@) {
        lemma_upper_is_same_case(s, "JJS"@);
    }
}

} // verus!
