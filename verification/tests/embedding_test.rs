use image_tags::embedding::{is_valid_embedding, vector_literal};

fn strings(list: &[&str]) -> Vec<String> {
    list.iter().map(|s| s.to_string()).collect()
}

#[test]
fn valid_embeddings() {
    assert!(is_valid_embedding("[1]"));
    assert!(is_valid_embedding("[1,-0.5,2e-3,1E+7]"));
    assert!(is_valid_embedding("[.5,5.,+1,-.25E-07]"));
}

#[test]
fn invalid_embeddings() {
    assert!(!is_valid_embedding(""));
    assert!(!is_valid_embedding("["));
    assert!(!is_valid_embedding("]"));
    assert!(!is_valid_embedding("[]"));
    assert!(!is_valid_embedding("[,,]"));
    assert!(!is_valid_embedding("[1,,2]"));
    assert!(!is_valid_embedding("[1,]"));
    assert!(!is_valid_embedding("[e]"));
    assert!(!is_valid_embedding("[--]"));
    assert!(!is_valid_embedding("[--1]"));
    assert!(!is_valid_embedding("[.]"));
    assert!(!is_valid_embedding("[1.2.3]"));
    assert!(!is_valid_embedding("[1-2]"));
    assert!(!is_valid_embedding("[1e]"));
    assert!(!is_valid_embedding("[e5]"));
    assert!(!is_valid_embedding("[1e5e5]"));
    assert!(!is_valid_embedding("[1e5.0]"));
    assert!(!is_valid_embedding("[1e+-5]"));
    assert!(!is_valid_embedding("1,2"));
    assert!(!is_valid_embedding("[1, 2]"));
    assert!(!is_valid_embedding("[1'2]"));
    assert!(!is_valid_embedding("[NaN]"));
    assert!(!is_valid_embedding("[1]]"));
    assert!(!is_valid_embedding("[\u{661}]"));
    assert!(!is_valid_embedding(" [1]"));
}

#[test]
fn vectors_are_written_in_brackets() {
    assert_eq!(vector_literal(&strings(&["1", "-0.5", "3"])), "[1,-0.5,3]");
    assert_eq!(vector_literal(&strings(&["1"])), "[1]");
    assert_eq!(vector_literal(&Vec::new()), "[]");
}

#[test]
fn a_vector_is_valid_exactly_with_valid_numbers() {
    assert!(is_valid_embedding(&vector_literal(&strings(&["1", "-0.5"]))));
    assert!(!is_valid_embedding(&vector_literal(&strings(&["1", "inf"]))));
    assert!(!is_valid_embedding(&vector_literal(&Vec::new())));
}

#[test]
fn the_pieces_of_a_vector_are_its_numbers() {
    let numbers = strings(&["1", "-0.5", "3e7"]);
    let vector = vector_literal(&numbers);
    let pieces: Vec<&str> = vector[1..vector.len() - 1].split(',').collect();
    assert_eq!(pieces, numbers);
}
