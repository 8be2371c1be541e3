use physicslang::springs::{spring_between, spring_bonds, SpringBond, SpringKind, TokenSlot};

fn slot(token_idx: usize, sentence_id: usize, doc_id: u64) -> TokenSlot {
    TokenSlot { token_idx, sentence_id, doc_id }
}

#[test]
fn adjacent_tokens_get_token_spring() {
    assert_eq!(spring_between(&slot(0, 0, 1), &slot(1, 0, 1)), Some(SpringKind::Token));
    assert_eq!(spring_between(&slot(5, 0, 1), &slot(4, 3, 1)), Some(SpringKind::Token));
}

#[test]
fn near_tokens_of_one_sentence_get_sentence_spring() {
    assert_eq!(spring_between(&slot(0, 2, 1), &slot(2, 2, 1)), Some(SpringKind::Sentence));
    assert_eq!(spring_between(&slot(0, 2, 1), &slot(7, 2, 1)), Some(SpringKind::Sentence));
    assert_eq!(spring_between(&slot(7, 2, 1), &slot(0, 2, 1)), Some(SpringKind::Sentence));
}

#[test]
fn far_or_split_tokens_get_no_spring() {
    assert_eq!(spring_between(&slot(0, 2, 1), &slot(8, 2, 1)), None);
    assert_eq!(spring_between(&slot(0, 2, 1), &slot(3, 3, 1)), None);
    assert_eq!(spring_between(&slot(3, 0, 1), &slot(3, 1, 1)), None);
}

#[test]
fn equal_token_indices_in_one_sentence_get_sentence_spring() {
    assert_eq!(spring_between(&slot(3, 0, 1), &slot(3, 0, 1)), Some(SpringKind::Sentence));
}

#[test]
fn different_documents_get_no_spring() {
    assert_eq!(spring_between(&slot(0, 0, 1), &slot(1, 0, 2)), None);
}

#[test]
fn spring_is_symmetric_on_examples() {
    let slots = [slot(0, 0, 1), slot(1, 0, 1), slot(4, 0, 1), slot(9, 1, 1), slot(2, 0, 2)];
    for a in &slots {
        for b in &slots {
            assert_eq!(spring_between(a, b), spring_between(b, a));
        }
    }
}

#[test]
fn two_particle_sentence_has_one_token_bond() {
    let slots = vec![slot(0, 0, 1), slot(1, 0, 1)];
    assert_eq!(spring_bonds(&slots), vec![SpringBond { i: 0, j: 1, kind: SpringKind::Token }]);
}

#[test]
fn bonds_come_in_visiting_order() {
    let slots = vec![slot(0, 0, 1), slot(1, 0, 1), slot(2, 0, 1), slot(3, 1, 1), slot(0, 0, 2)];
    let bonds = spring_bonds(&slots);
    assert_eq!(
        bonds,
        vec![
            SpringBond { i: 0, j: 1, kind: SpringKind::Token },
            SpringBond { i: 0, j: 2, kind: SpringKind::Sentence },
            SpringBond { i: 1, j: 2, kind: SpringKind::Token },
            SpringBond { i: 2, j: 3, kind: SpringKind::Token },
        ]
    );
}

#[test]
fn no_particles_no_bonds() {
    assert!(spring_bonds(&Vec::new()).is_empty());
    assert!(spring_bonds(&vec![slot(0, 0, 0)]).is_empty());
}
