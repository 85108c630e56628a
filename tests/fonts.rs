use kseri::fonts::{BitmapFont3x5, BitmapFont5x7};

#[test]
fn large_font_covers_ranks() {
    let font = BitmapFont5x7::new();
    for c in ['A', 'K', 'Q', 'J', '0', '1', '2', '3', '4', '5', '6', '7', '8', '9'] {
        assert!(font.glyph(c).is_some(), "{}", c);
    }
    assert!(font.glyph('Z').is_none());
    let a = font.glyph('A').unwrap();
    assert_eq!(a[0], [0, 1, 1, 1, 0]);
    assert_eq!(a[3], [1, 1, 1, 1, 1]);
}

#[test]
fn compact_font_has_no_one() {
    let font = BitmapFont3x5::new();
    assert!(font.glyph('1').is_none());
    assert!(font.glyph('0').is_some());
    assert_eq!(font.glyph('A').unwrap()[0], [0, 1, 0]);
}
