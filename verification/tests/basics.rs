#[test]
fn nombres() {}

#[test]
fn texte() {}
