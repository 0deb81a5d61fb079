use evolution::{Gene, Unit};

#[test]
fn new_gene_is_unset() {
    assert!(!Unit::new().legacy());
}

#[test]
fn gene_keeps_the_state_it_is_made_with() {
    assert!(Unit::from_legacy(true).legacy());
    assert!(!Unit::from_legacy(false).legacy());
}

#[test]
fn mutation_toggles_a_gene() {
    let mut gene = Unit::new();
    gene.mutate();
    assert!(gene.legacy());
    gene.mutate();
    assert!(!gene.legacy());
}

#[test]
fn copying_a_gene_shares_nothing() {
    let first = Unit::from_legacy(false);
    let mut copy = first;
    copy.mutate();
    assert!(copy.legacy());
    assert!(!first.legacy());
}
