use two_kings::color::{Color, COLOR_COUNT};
use two_kings::marker::ClickState;

const ALL: [Color; 10] = [
    Color::Pink,
    Color::Blue,
    Color::LightBlue,
    Color::Yellow,
    Color::Purple,
    Color::LightGreen,
    Color::DarkGreen,
    Color::Salmon,
    Color::Teal,
    Color::Orange,
];

#[test]
fn cycle_goes_empty_eliminated_king_empty() {
    assert_eq!(ClickState::Empty.cycle(), ClickState::Eliminated);
    assert_eq!(ClickState::Eliminated.cycle(), ClickState::King(false));
    assert_eq!(ClickState::King(false).cycle(), ClickState::Empty);
}

#[test]
fn flagged_king_gives_way_to_empty() {
    assert_eq!(ClickState::King(true).cycle(), ClickState::Empty);
}

#[test]
fn three_steps_lead_back() {
    for start in [ClickState::Empty, ClickState::Eliminated, ClickState::King(false)] {
        assert_eq!(start.cycle().cycle().cycle(), start);
    }
}

#[test]
fn three_steps_from_a_flagged_king_drop_the_flag() {
    assert_eq!(ClickState::King(true).cycle().cycle().cycle(), ClickState::King(false));
}

#[test]
fn is_king_looks_at_the_tag_only() {
    assert!(ClickState::King(false).is_king());
    assert!(ClickState::King(true).is_king());
    assert!(!ClickState::Empty.is_king());
    assert!(!ClickState::Eliminated.is_king());
}

#[test]
fn there_are_ten_colors_in_order() {
    assert_eq!(COLOR_COUNT, 10);
    for (place, color) in ALL.iter().enumerate() {
        assert_eq!(color.index(), place);
    }
}

#[test]
fn color_names_are_the_variant_names() {
    let names: Vec<&str> = ALL.iter().map(|c| c.name()).collect();
    assert_eq!(
        names,
        vec![
            "Pink",
            "Blue",
            "LightBlue",
            "Yellow",
            "Purple",
            "LightGreen",
            "DarkGreen",
            "Salmon",
            "Teal",
            "Orange"
        ]
    );
}

#[test]
fn every_color_is_read_back_from_its_name() {
    for color in ALL {
        assert_eq!(Color::from_name(color.name()), Some(color));
    }
}

#[test]
fn names_are_matched_letter_for_letter() {
    assert_eq!(Color::from_name("pink"), None);
    assert_eq!(Color::from_name("PINK"), None);
    assert_eq!(Color::from_name("Pink "), None);
    assert_eq!(Color::from_name(" Pink"), None);
    assert_eq!(Color::from_name("Pin"), None);
    assert_eq!(Color::from_name("Lightblue"), None);
    assert_eq!(Color::from_name("Light Blue"), None);
    assert_eq!(Color::from_name(""), None);
    assert_eq!(Color::from_name("Green"), None);
    assert_eq!(Color::from_name("Pínk"), None);
}
