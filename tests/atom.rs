use rdkit::atom::AtomIter;

#[test]
fn cursor_yields_each_index_once_in_order() {
    let mol = "benzene";
    let mut it = AtomIter::new(&mol, 4);
    let mut seen = Vec::new();
    while let Some(i) = it.next_index() {
        seen.push(i);
    }
    assert_eq!(seen, vec![0, 1, 2, 3]);
    assert_eq!(it.next_index(), None);
}

#[test]
fn cursor_over_no_atoms_yields_nothing() {
    let mol = 0u8;
    let mut it = AtomIter::new(&mol, 0);
    assert_eq!(it.next_index(), None);
}

#[test]
fn fresh_cursor_starts_again() {
    let mol = 5i32;
    let mut first = AtomIter::new(&mol, 2);
    assert_eq!(first.next_index(), Some(0));
    let mut second = AtomIter::new(&mol, 2);
    assert_eq!(second.next_index(), Some(0));
    assert_eq!(first.next_index(), Some(1));
    assert_eq!(second.next_index(), Some(1));
}

#[test]
fn cursor_borrows_its_molecule() {
    let mol = vec![1u8, 2, 3];
    let it = AtomIter::new(&mol, 3);
    assert!(std::ptr::eq(it.ro_mol(), &mol));
}
