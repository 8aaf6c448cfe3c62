use directory_octopus::theme::ButtonStyle;

#[test]
fn button_families_have_their_colours() {
    assert_eq!(ButtonStyle::Blue.colors(), ((0, 83, 184), (255, 232, 42)));
    assert_eq!(ButtonStyle::Purple.colors(), ((116, 0, 114), (255, 232, 42)));
    assert_eq!(ButtonStyle::Orange.colors(), ((238, 170, 67), (91, 17, 94)));
    assert_eq!(ButtonStyle::Black.colors(), ((0, 0, 0), (238, 170, 67)));
    assert_eq!(ButtonStyle::Grey.colors(), ((170, 170, 170), (91, 17, 94)));
    assert_eq!(ButtonStyle::Red.colors(), ((204, 35, 1), (255, 232, 42)));
}
