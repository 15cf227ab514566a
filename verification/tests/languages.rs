use lix::{LixNumber, LixScore};

/// Renders a score as a float: the degenerate no-words case is 0.0, and the
/// raw formula is clamped to [0.0, 100.0] (division by a zero sentence count
/// yields infinity, which the clamp turns into 100.0).
fn as_f64(score: &LixScore) -> f64 {
    if score.words == 0 {
        return 0.0;
    }
    let raw = (score.words as f64 / score.sentences as f64)
        + (100.0 * (score.long_words as f64 / score.words as f64));
    raw.clamp(0.0, 100.0)
}

#[test]
fn test_swedish() {
    let lix = LixNumber::new();
    let text = "Det här är en testmening. Den är utformad för att kontrollera LIX-talet.";
    let score = as_f64(&lix.calculate(text));
    assert!(score >= 0.0 && score <= 100.0);
}

#[test]
fn test_norwegian() {
    let lix = LixNumber::new();
    let text = "Dette er en testsetning. Den er laget for å sjekke LIX-nummeret.";
    let score = as_f64(&lix.calculate(text));
    assert!(score >= 0.0 && score <= 100.0);
}

#[test]
fn test_danish() {
    let lix = LixNumber::new();
    let text = "Dette er en test sætning. Den er designet til at kontrollere LIX-nummeret.";
    let score = as_f64(&lix.calculate(text));
    assert!(score >= 0.0 && score <= 100.0);
}

#[test]
fn test_finnish() {
    let lix = LixNumber::new();
    let text = "Tämä on testilause. Se on suunniteltu tarkistamaan LIX-luku.";
    let score = as_f64(&lix.calculate(text));
    assert!(score >= 0.0 && score <= 100.0);
}

#[test]
fn test_german() {
    let lix = LixNumber::new();
    let text = "Dies ist ein Testsatz. Er ist darauf ausgelegt, die LIX-Zahl zu überprüfen.";
    let score = as_f64(&lix.calculate(text));
    assert!(score >= 0.0 && score <= 100.0);
}

#[test]
fn test_dutch() {
    let lix = LixNumber::new();
    let text = "Dit is een testzin. Het is ontworpen om het LIX-nummer te controleren.";
    let score = as_f64(&lix.calculate(text));
    assert!(score >= 0.0 && score <= 100.0);
}

#[test]
fn test_english() {
    let lix = LixNumber::new();
    let text = "This is a test sentence. It is designed to check the LIX number.";
    let score = as_f64(&lix.calculate(text));
    assert!(score >= 0.0 && score <= 100.0);
}

#[test]
fn test_french() {
    let lix = LixNumber::new();
    let text = "Ceci est une phrase de test. Elle est conçue pour vérifier le numéro LIX.";
    let score = as_f64(&lix.calculate(text));
    assert!(score >= 0.0 && score <= 100.0);
}

#[test]
fn test_polish() {
    let lix = LixNumber::new();
    let text = "To jest zdanie testowe. Jest zaprojektowane, aby sprawdzić numer LIX.";
    let score = as_f64(&lix.calculate(text));
    assert!(score >= 0.0 && score <= 100.0);
}

#[test]
fn test_bulgarian() {
    let lix = LixNumber::new();
    let text = "Това е тестово изречение. То е предназначено да провери LIX номера.";
    let score = as_f64(&lix.calculate(text));
    assert!(score >= 0.0 && score <= 100.0);
}

#[test]
fn test_edge_cases() {
    let lix = LixNumber::new();
    let text = "";
    let score = as_f64(&lix.calculate(text));
    assert_eq!(score, 0.0);

    let text = "A.";
    let score = as_f64(&lix.calculate(text));
    assert!(score >= 0.0 && score <= 100.0);
}
