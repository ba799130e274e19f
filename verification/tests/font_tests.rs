use deft::font_manager::{
    filter_fonts_by_style, select_best_font_by_weight, select_font, str_to_family_name, FamilyName,
    FontAttributes, FontStyle,
};
use deft::number::parse_i32;
use deft::paragraph::{parse_optional_weight, parse_weight};
use deft::paragraph_builder::{do_resolve_font, font_runs};

fn face(style: FontStyle, weight: u16) -> FontAttributes {
    FontAttributes { style, weight }
}

#[test]
fn parse_i32_cases() {
    assert_eq!(parse_i32("0"), Some(0));
    assert_eq!(parse_i32("700"), Some(700));
    assert_eq!(parse_i32("+12"), Some(12));
    assert_eq!(parse_i32("-12"), Some(-12));
    assert_eq!(parse_i32("007"), Some(7));
    assert_eq!(parse_i32("2147483647"), Some(i32::MAX));
    assert_eq!(parse_i32("-2147483648"), Some(i32::MIN));
    assert_eq!(parse_i32("2147483648"), None);
    assert_eq!(parse_i32("-2147483649"), None);
    assert_eq!(parse_i32("99999999999999999999"), None);
    assert_eq!(parse_i32(""), None);
    assert_eq!(parse_i32("-"), None);
    assert_eq!(parse_i32("+"), None);
    assert_eq!(parse_i32(" 1"), None);
    assert_eq!(parse_i32("1a"), None);
    assert_eq!(parse_i32("+-1"), None);
    for s in ["1", "-5", "+44", "123456", "x", "", "--1"] {
        assert_eq!(parse_i32(s), s.parse::<i32>().ok());
    }
}

#[test]
fn font_weight_values() {
    assert_eq!(parse_weight("bold"), Some(700));
    assert_eq!(parse_weight("BOLD"), Some(700));
    assert_eq!(parse_weight("normal"), Some(400));
    assert_eq!(parse_weight("invisible"), Some(0));
    assert_eq!(parse_weight("thin"), Some(100));
    assert_eq!(parse_weight("extra-light"), Some(200));
    assert_eq!(parse_weight("light"), Some(300));
    assert_eq!(parse_weight("medium"), Some(500));
    assert_eq!(parse_weight("Semi-Bold"), Some(600));
    assert_eq!(parse_weight("extra-bold"), Some(800));
    assert_eq!(parse_weight("black"), Some(900));
    assert_eq!(parse_weight("extra-black"), Some(1000));
    assert_eq!(parse_weight("550"), Some(550));
    assert_eq!(parse_weight("heavy"), None);
    assert_eq!(parse_optional_weight(None), None);
    let v = "light".to_string();
    assert_eq!(parse_optional_weight(Some(&v)), Some(300));
}

#[test]
fn family_names() {
    assert!(matches!(str_to_family_name("serif"), FamilyName::Serif));
    assert!(matches!(str_to_family_name("sans-serif"), FamilyName::SansSerif));
    assert!(matches!(str_to_family_name("monospace"), FamilyName::Monospace));
    assert!(matches!(str_to_family_name("cursive"), FamilyName::Cursive));
    assert!(matches!(str_to_family_name("fantasy"), FamilyName::Fantasy));
    match str_to_family_name("Noto Sans") {
        FamilyName::Title(t) => assert_eq!(t, "Noto Sans"),
        _ => panic!("expected a family by name"),
    }
}

#[test]
fn font_selection_by_style_and_weight() {
    let fonts = vec![
        face(FontStyle::Normal, 400),
        face(FontStyle::Italic, 400),
        face(FontStyle::Normal, 700),
        face(FontStyle::Normal, 300),
        face(FontStyle::Italic, 800),
    ];
    assert_eq!(filter_fonts_by_style(&fonts, FontStyle::Normal), vec![0, 2, 3]);
    assert_eq!(filter_fonts_by_style(&fonts, FontStyle::Oblique), Vec::<usize>::new());
    assert_eq!(select_best_font_by_weight(&fonts, &vec![0, 2, 3], 600), Some(2));
    assert_eq!(select_best_font_by_weight(&fonts, &vec![0, 2, 3], 350), Some(0));
    assert_eq!(select_best_font_by_weight(&fonts, &vec![], 350), None);
    assert_eq!(select_font(&fonts, FontStyle::Italic, 700), Some(4));
    assert_eq!(select_font(&fonts, FontStyle::Oblique, 700), Some(2));
    assert_eq!(select_font(&fonts, FontStyle::Normal, 100), Some(3));
    assert_eq!(select_font(&vec![face(FontStyle::Italic, 400)], FontStyle::Normal, 400), None);
}

#[test]
fn fonts_resolved_per_character() {
    let glyphs = vec![vec![5, 0, 0, 7], vec![1, 2, 0, 3]];
    let (resolved, unresolved) = do_resolve_font(&glyphs, 4);
    assert_eq!(resolved, vec![0, 1, -1, 0]);
    assert_eq!(unresolved, 1);
    let (resolved, unresolved) = do_resolve_font(&vec![vec![1, 1], vec![0, 0]], 2);
    assert_eq!(resolved, vec![0, 0]);
    assert_eq!(unresolved, 0);
    let (resolved, unresolved) = do_resolve_font(&vec![], 3);
    assert_eq!(resolved, vec![-1, -1, -1]);
    assert_eq!(unresolved, 3);
}

#[test]
fn font_runs_are_maximal() {
    assert_eq!(font_runs(&vec![0, 0, 1, 1, 1, -1, 0, 2]), vec![(0, 2, 0), (2, 5, 1), (5, 7, 0), (7, 8, 2)]);
    assert_eq!(font_runs(&vec![]), vec![]);
    assert_eq!(font_runs(&vec![3]), vec![(0, 1, 3)]);
}
