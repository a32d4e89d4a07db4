use cartero::appearance::{
    color_scheme, font_style_sheet, inserts_spaces, read_number, style_scheme, tab_width,
    theme_at, theme_position, write_number, ColorScheme, FontStyle, FontWeight,
};

#[test]
fn themes_force_their_colours() {
    assert_eq!(color_scheme("light"), ColorScheme::ForceLight);
    assert_eq!(color_scheme("dark"), ColorScheme::ForceDark);
    assert_eq!(color_scheme("system"), ColorScheme::Default);
    assert_eq!(color_scheme(""), ColorScheme::Default);
    assert_eq!(color_scheme("Light"), ColorScheme::Default);
    assert_eq!(color_scheme("darker"), ColorScheme::Default);
}

#[test]
fn themes_have_their_rows() {
    assert_eq!(theme_position("system"), 0);
    assert_eq!(theme_position("light"), 1);
    assert_eq!(theme_position("dark"), 2);
    assert_eq!(theme_position("anything"), 0);
    assert_eq!(theme_at(0), "system");
    assert_eq!(theme_at(1), "light");
    assert_eq!(theme_at(2), "dark");
    assert_eq!(theme_at(3), "system");
    for theme in ["system", "light", "dark"] {
        assert_eq!(theme_at(theme_position(theme)), theme);
    }
}

#[test]
fn only_spaces_indent_with_spaces() {
    assert!(inserts_spaces("spaces"));
    assert!(!inserts_spaces("tabs"));
    assert!(!inserts_spaces(""));
    assert!(!inserts_spaces("spaces "));
}

#[test]
fn style_scheme_follows_the_desktop() {
    assert_eq!(style_scheme(true), "Adwaita-dark");
    assert_eq!(style_scheme(false), "Adwaita");
}

#[test]
fn numbers_are_read_as_the_standard_library_reads_them() {
    for text in [
        "", "0", "4", "8", "007", "+5", "-5", "+", "-", "--5", "+-5", "5-", " 5", "5 ", "4.0", "four",
        "2147483647", "2147483648", "-2147483648", "-2147483649", "+2147483647", "99999999999",
        "-99999999999", "000000000000000000001", "-0", "+0", "1_000", "\u{664}", "12a", "a12",
        "21474836470", "214748364", "-214748364", "-2147483640", "-21474836480",
    ] {
        assert_eq!(read_number(text), text.parse::<i32>().ok(), "{:?}", text);
    }
}

#[test]
fn tab_width_falls_back_to_four() {
    assert_eq!(tab_width(Some("2")), 2);
    assert_eq!(tab_width(Some("8")), 8);
    assert_eq!(tab_width(Some("-1")), -1);
    assert_eq!(tab_width(Some("wide")), 4);
    assert_eq!(tab_width(Some("")), 4);
    assert_eq!(tab_width(None), 4);
}

#[test]
fn numbers_are_written_in_decimal() {
    for n in [0, 1, 9, 10, 11, 99, 100, 400, 1000, 2147483647, -1, -10, -380, -2147483648] {
        let mut out = String::from("x");
        write_number(n, &mut out);
        assert_eq!(out, format!("x{}", n));
    }
}

#[test]
fn font_weights_have_their_numbers() {
    assert_eq!(FontWeight::Thin.number(), 100);
    assert_eq!(FontWeight::Ultralight.number(), 200);
    assert_eq!(FontWeight::Light.number(), 300);
    assert_eq!(FontWeight::Semilight.number(), 350);
    assert_eq!(FontWeight::Book.number(), 380);
    assert_eq!(FontWeight::Normal.number(), 400);
    assert_eq!(FontWeight::Medium.number(), 500);
    assert_eq!(FontWeight::Semibold.number(), 600);
    assert_eq!(FontWeight::Bold.number(), 700);
    assert_eq!(FontWeight::Ultrabold.number(), 800);
    assert_eq!(FontWeight::Heavy.number(), 900);
    assert_eq!(FontWeight::Ultraheavy.number(), 1000);
    assert_eq!(FontWeight::Other(450).number(), 450);
}

#[test]
fn font_styles_have_their_names() {
    assert_eq!(FontStyle::Normal.as_str(), "normal");
    assert_eq!(FontStyle::Oblique.as_str(), "oblique");
    assert_eq!(FontStyle::Italic.as_str(), "italic");
}

#[test]
fn system_font_needs_no_style_sheet() {
    assert_eq!(font_style_sheet(true, "Monospace", 11, FontStyle::Normal, FontWeight::Normal), "");
}

#[test]
fn chosen_font_gets_its_rules() {
    let css = font_style_sheet(false, "Fira Code", 12, FontStyle::Italic, FontWeight::Bold);
    assert_eq!(
        css,
        "\n                textview.use-cartero-font {\n                    font-family: \"Fira Code\";\n                    font-size: 12pt;\n                    font-style: italic;\n                    font-weight: 700;\n                }"
    );
    let css = font_style_sheet(false, "", 0, FontStyle::Normal, FontWeight::Other(-3));
    assert_eq!(
        css,
        "\n                textview.use-cartero-font {\n                    font-family: \"\";\n                    font-size: 0pt;\n                    font-style: normal;\n                    font-weight: -3;\n                }"
    );
}
