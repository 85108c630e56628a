use kseri::patterns::PatternGenerator;

#[test]
fn meander_tiles_its_unit() {
    let p = PatternGenerator::generate_meander_pattern(14, 8);
    assert_eq!(p.len(), 8);
    assert!(p.iter().all(|row| row.len() == 14));
    assert_eq!(p[0][..6], [true, true, true, true, false, false]);
    assert_eq!(p[5][..6], [false, false, false, false, false, true]);
    assert_eq!(p[7][13], p[1][1]);
    assert!(!p[1][1]);
    assert!(PatternGenerator::generate_meander_pattern(0, 3).iter().all(|r| r.is_empty()));
}

#[test]
fn column_and_amphora_are_symmetric() {
    let c = PatternGenerator::generate_column_pattern();
    assert_eq!(c[0], [1; 8]);
    assert_eq!(c[3], [0, 1, 0, 0, 0, 0, 1, 0]);
    let a = PatternGenerator::generate_amphora_motif();
    assert_eq!(a[4], [0, 1, 1, 0, 1, 0, 0, 1, 0, 1, 1, 0]);
    assert_eq!(a[15], [0, 0, 0, 0, 0, 1, 1, 0, 0, 0, 0, 0]);
    for row in a.iter() {
        for x in 0..12 {
            assert_eq!(row[x], row[11 - x]);
        }
    }
}
