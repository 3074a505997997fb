use bookstore::settings::{
    color_to_string, str_to_color_or, Color, InterfaceStyle, NavigationSettings, SortSettings,
    TomlColors, TomlColumns, TomlNavigation, TomlSort,
};

#[test]
fn colors_by_name_ignore_case() {
    assert_eq!(str_to_color_or("LightBlue", Color::Black), Color::LightBlue);
    assert_eq!(str_to_color_or("DARKGRAY", Color::Black), Color::DarkGray);
    assert_eq!(str_to_color_or("purple", Color::Cyan), Color::Cyan);
    assert_eq!(color_to_string(Color::LightMagenta), "LightMagenta");
    let all = [
        Color::Black, Color::Red, Color::Green, Color::Yellow, Color::Blue, Color::Magenta,
        Color::Cyan, Color::Gray, Color::DarkGray, Color::LightRed, Color::LightGreen,
        Color::LightYellow, Color::LightBlue, Color::LightMagenta, Color::LightCyan, Color::White,
    ];
    for c in all {
        assert_eq!(str_to_color_or(&color_to_string(c), Color::Black), c);
    }
}

#[test]
fn toml_colors_defaults_and_roundtrip() {
    let t = TomlColors::default();
    assert_eq!(t.selected_bg(), Color::LightBlue);
    assert_eq!(t.selected_fg(), Color::White);
    assert_eq!(t.edit_bg(), Color::Blue);
    assert_eq!(t.edit_fg(), Color::White);
    let t = TomlColors {
        selected_fg: Some("red".to_string()),
        selected_bg: Some("nonsense".to_string()),
        edit_fg: None,
        edit_bg: Some("Cyan".to_string()),
    };
    let style = InterfaceStyle::from(t);
    assert_eq!(style.selected_fg, Color::Red);
    assert_eq!(style.selected_bg, Color::LightBlue);
    assert_eq!(style.edit_fg, Color::White);
    assert_eq!(style.edit_bg, Color::Cyan);
    assert_eq!(style.cursor_fg, Color::Black);
    let d = InterfaceStyle::default();
    assert_eq!(d.selected_bg, Color::Blue);
    assert_eq!(d.edit_bg, Color::LightBlue);
    let back = InterfaceStyle::from(TomlColors::from_style(d));
    assert_eq!(back, d);
}

#[test]
fn toml_sections_convert() {
    assert_eq!(TomlColumns::default().into_columns(), vec!["Title".to_string(), "Authors".to_string()]);
    assert_eq!(TomlColumns::from_columns(vec!["x".to_string()]).into_columns(), vec!["x".to_string()]);
    let s = TomlSort { columns: Some(vec![("a".to_string(), None), ("b".to_string(), Some(true))]) }
        .into_sort_settings();
    assert_eq!(s.columns, vec![("a".to_string(), false), ("b".to_string(), true)]);
    assert!(!s.is_sorted);
    let empty = TomlSort::default().into_sort_settings();
    assert!(empty.is_sorted);
    let back = TomlSort::from_sort_settings(s.clone());
    assert_eq!(back.columns, Some(vec![("a".to_string(), Some(false)), ("b".to_string(), Some(true))]));
    assert!(!SortSettings::default().is_sorted);
    let n = NavigationSettings::from(TomlNavigation::default());
    assert_eq!(n, NavigationSettings { scroll: 5, inverted: false });
    let n2 = NavigationSettings::from(TomlNavigation { scroll: None, inverted: Some(true) });
    assert_eq!(n2, NavigationSettings { scroll: 5, inverted: true });
    assert_eq!(NavigationSettings::from(TomlNavigation::from(n2)), n2);
    assert_eq!(NavigationSettings::default(), NavigationSettings { scroll: 0, inverted: false });
}
