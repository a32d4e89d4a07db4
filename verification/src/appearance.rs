//! How the settings of the application come to what the editors show: the
//! colour scheme, the width of a tab, and the style sheet of the font.

use vstd::prelude::*;
use vstd::string::StringExecFns;

use crate::text::{chars_of, same_text};

verus! {

/// Which colours the application uses.
#[derive(Clone, Copy, Debug, PartialEq, Eq, Structural)]
pub enum ColorScheme {
    /// Those of the desktop.
    Default,
    ForceLight,
    ForceDark,
}

/// The colour scheme that a theme asks for: `light` and `dark` force theirs,
/// any other theme follows the desktop.
pub open spec fn scheme_of(theme: Seq<char>) -> ColorScheme {
    if theme == "light"@ {
        ColorScheme::ForceLight
    } else if theme == "dark"@ {
        ColorScheme::ForceDark
    } else {
        ColorScheme::Default
    }
}

/// The colour scheme that a theme asks for.
pub fn color_scheme(theme: &str) -> (scheme: ColorScheme)
    ensures
        scheme == scheme_of(theme@),
{
    if same_text(theme, "light") {
        ColorScheme::ForceLight
    } else if same_text(theme, "dark") {
        ColorScheme::ForceDark
    } else {
        ColorScheme::Default
    }
}

/// The row of the theme in the list of the settings dialog: 1 for `light`,
/// 2 for `dark`, 0 for any other theme.
pub fn theme_position(theme: &str) -> (position: u32)
    ensures
        position == match scheme_of(theme@) {
            ColorScheme::ForceLight => 1u32,
            ColorScheme::ForceDark => 2u32,
            ColorScheme::Default => 0u32,
        },
{
    match color_scheme(theme) {
        ColorScheme::ForceLight => 1,
        ColorScheme::ForceDark => 2,
        ColorScheme::Default => 0,
    }
}

/// The theme at a row of the list of the settings dialog: `light` at 1,
/// `dark` at 2, `system` at any other row.
pub fn theme_at(position: u32) -> (theme: &'static str)
    ensures
        theme@ == if position == 1 {
            "light"@
        } else if position == 2 {
            "dark"@
        } else {
            "system"@
        },
{
    if position == 1 {
        "light"
    } else if position == 2 {
        "dark"
    } else {
        "system"
    }
}

/// Whether an indent style indents with spaces: only `spaces` does.
pub fn inserts_spaces(indent_style: &str) -> (r: bool)
    ensures
        r == (indent_style@ == "spaces"@),
{
    same_text(indent_style, "spaces")
}

/// The style scheme of the editors, by whether the desktop is dark.
pub fn style_scheme(dark: bool) -> (name: &'static str)
    ensures
        name@ == if dark {
            "Adwaita-dark"@
        } else {
            "Adwaita"@
        },
{
    if dark {
        "Adwaita-dark"
    } else {
        "Adwaita"
    }
}

/// The value of a digit character.
pub open spec fn digit_value(c: char) -> int {
    c as u32 - 0x30
}

/// Whether `c` is an ASCII digit.
pub open spec fn is_digit(c: char) -> bool {
    0x30 <= c as u32 && c as u32 <= 0x39
}

/// The number that a text of digits writes in decimal notation.
pub open spec fn digits_value(digits: Seq<char>) -> int
    decreases digits.len(),
{
    if digits.len() == 0 {
        0
    } else {
        digits_value(digits.drop_last()) * 10 + digit_value(digits.last())
    }
}

/// Whether a text is made of ASCII digits, at least one.
pub open spec fn is_digits(digits: Seq<char>) -> bool {
    &&& digits.len() > 0
    &&& forall|i: int| 0 <= i < digits.len() ==> is_digit(#[trigger] digits[i])
}

/// The whole number that a text writes: digits, with `+` or `-` before
/// them or no sign, and a value that an `i32` can hold. `None` for any
/// other text.
pub open spec fn number_written(text: Seq<char>) -> Option<int> {
    if text.len() > 0 && text[0] == '-' {
        if is_digits(text.skip(1)) && -digits_value(text.skip(1)) >= i32::MIN {
            Some(-digits_value(text.skip(1)))
        } else {
            None
        }
    } else if text.len() > 0 && text[0] == '+' {
        if is_digits(text.skip(1)) && digits_value(text.skip(1)) <= i32::MAX {
            Some(digits_value(text.skip(1)))
        } else {
            None
        }
    } else if is_digits(text) && digits_value(text) <= i32::MAX {
        Some(digits_value(text))
    } else {
        None
    }
}

/// The text of digits grows with its value.
proof fn lemma_digits_value_grows(digits: Seq<char>, k: int)
    requires
        0 <= k <= digits.len(),
        forall|i: int| 0 <= i < digits.len() ==> is_digit(#[trigger] digits[i]),
    ensures
        0 <= digits_value(digits.take(k)) <= digits_value(digits),
    decreases digits.len() - k,
{
    if k == digits.len() {
        assert(digits.take(k) =~= digits);
        lemma_digits_value_not_negative(digits);
    } else {
        lemma_digits_value_grows(digits, k + 1);
        assert(digits.take(k + 1).drop_last() =~= digits.take(k));
        assert(is_digit(digits[k]));
        lemma_digits_value_not_negative(digits.take(k));
    }
}

proof fn lemma_digits_value_not_negative(digits: Seq<char>)
    requires
        forall|i: int| 0 <= i < digits.len() ==> is_digit(#[trigger] digits[i]),
    ensures
        0 <= digits_value(digits),
    decreases digits.len(),
{
    if digits.len() > 0 {
        lemma_digits_value_not_negative(digits.drop_last());
        assert(is_digit(digits[digits.len() - 1]));
    }
}

/// Reads a whole number from a text.
pub fn read_number(text: &str) -> (r: Option<i32>)
    ensures
        match r {
            Some(n) => number_written(text@) == Some(n as int),
            None => number_written(text@) is None,
        },
{
    let chars = chars_of(text);
    let n = chars.len();
    let negative = n > 0 && chars[0] == '-';
    let start: usize = if n > 0 && (chars[0] == '-' || chars[0] == '+') {
        1
    } else {
        0
    };
    let ghost digits = chars@.skip(start as int);
    proof {
        assert(chars@.skip(0) =~= chars@);
    }
    if start == n {
        return None;
    }
    // The value so far, below zero where the number is negative.
    let mut value: i32 = 0;
    let mut i: usize = start;
    proof {
        assert(digits.take(0) =~= Seq::<char>::empty());
    }
    while i < n
        invariant
            start <= i <= n,
            n == chars.len(),
            chars@ == text@,
            negative == (n > 0 && chars@[0] == '-'),
            start == if n > 0 && (chars@[0] == '-' || chars@[0] == '+') {
                1usize
            } else {
                0usize
            },
            chars@.skip(0) == chars@,
            digits == chars@.skip(start as int),
            forall|k: int| 0 <= k < i - start ==> is_digit(#[trigger] digits[k]),
            negative ==> value == -digits_value(digits.take(i - start)),
            !negative ==> value == digits_value(digits.take(i - start)),
        decreases n - i,
    {
        let c = chars[i];
        let code: u32 = c as u32;
        if code < 0x30 || code > 0x39 {
            proof {
                assert(digits[i - start] == c);
                assert(!is_digit(digits[i - start]));
            }
            return None;
        }
        let d: i32 = (code - 0x30) as i32;
        proof {
            assert(digits[i - start] == c);
            assert(digits.take(i - start + 1).drop_last() =~= digits.take(i - start));
            assert(digits.take(i - start + 1).last() == c);
            if i + 1 <= n {
                assert forall|k: int| 0 <= k < i + 1 - start implies is_digit(
                    #[trigger] digits.take(i - start + 1)[k],
                ) by {
                    assert(digits.take(i - start + 1)[k] == digits[k]);
                }
            }
        }
        let next = if negative {
            match value.checked_mul(10) {
                Some(v) => v.checked_sub(d),
                None => None,
            }
        } else {
            match value.checked_mul(10) {
                Some(v) => v.checked_add(d),
                None => None,
            }
        };
        match next {
            Some(v) => {
                value = v;
            },
            None => {
                proof {
                    // What the digits read so far come to is already out of
                    // range, and the rest can only add to it.
                    let seen = digits.take(i - start + 1);
                    assert(digits_value(seen) == digits_value(digits.take(i - start)) * 10 + d);
                    assert(0 <= d <= 9);
                    assert forall|k: int| 0 <= k < i - start implies is_digit(
                        #[trigger] digits.take(i - start)[k],
                    ) by {
                        assert(digits.take(i - start)[k] == digits[k]);
                    }
                    lemma_digits_value_not_negative(digits.take(i - start));
                    if negative {
                        assert(-digits_value(seen) < i32::MIN);
                    } else {
                        assert(digits_value(seen) > i32::MAX);
                    }
                    if is_digits(digits) {
                        lemma_digits_value_grows(digits, i - start + 1);
                    }
                }
                return None;
            },
        }
        i += 1;
    }
    proof {
        assert(digits.take(n - start) =~= digits);
    }
    Some(value)
}

/// The width of a tab that a setting asks for: the number it writes, and 4
/// where there is no setting or it writes no number.
pub open spec fn tab_width_of(setting: Option<Seq<char>>) -> int {
    match setting {
        Some(text) => match number_written(text) {
            Some(n) => n,
            None => 4,
        },
        None => 4,
    }
}

/// The width of a tab that a setting asks for.
pub fn tab_width(setting: Option<&str>) -> (width: i32)
    ensures
        width == tab_width_of(
            match setting {
                Some(text) => Some(text@),
                None => None,
            },
        ),
{
    match setting {
        Some(text) => match read_number(text) {
            Some(n) => n,
            None => 4,
        },
        None => 4,
    }
}

/// The character of a digit.
pub open spec fn digit_char(d: int) -> char {
    (d + 0x30) as char
}

/// A natural number in decimal notation, without leading zeros.
pub open spec fn natural_text(n: nat) -> Seq<char>
    decreases n,
{
    if n < 10 {
        seq![digit_char(n as int)]
    } else {
        natural_text(n / 10).push(digit_char((n % 10) as int))
    }
}

/// A whole number in decimal notation, with `-` before it where it is
/// below zero.
pub open spec fn number_text(n: int) -> Seq<char> {
    if n < 0 {
        seq!['-'] + natural_text((-n) as nat)
    } else {
        natural_text(n as nat)
    }
}

fn digit(d: u64) -> (c: char)
    requires
        d < 10,
    ensures
        c == digit_char(d as int),
{
    if d == 0 {
        '0'
    } else if d == 1 {
        '1'
    } else if d == 2 {
        '2'
    } else if d == 3 {
        '3'
    } else if d == 4 {
        '4'
    } else if d == 5 {
        '5'
    } else if d == 6 {
        '6'
    } else if d == 7 {
        '7'
    } else if d == 8 {
        '8'
    } else {
        '9'
    }
}

fn write_natural(n: u64, out: &mut String)
    ensures
        final(out)@ == old(out)@ + natural_text(n as nat),
    decreases n,
{
    if n >= 10 {
        write_natural(n / 10, out);
    }
    out.push(digit(n % 10));
    proof {
        assert(final(out)@ =~= old(out)@ + natural_text(n as nat));
    }
}

/// Writes a whole number in decimal notation at the end of `out`.
pub fn write_number(n: i32, out: &mut String)
    ensures
        final(out)@ == old(out)@ + number_text(n as int),
{
    if n < 0 {
        out.push('-');
        let m: i64 = n as i64;
        write_natural((-m) as u64, out);
        proof {
            assert(final(out)@ =~= old(out)@ + number_text(n as int));
        }
    } else {
        write_natural(n as u64, out);
    }
}

/// How a font slants.
#[derive(Clone, Copy, Debug, PartialEq, Eq, Structural)]
pub enum FontStyle {
    Normal,
    Oblique,
    Italic,
}

impl FontStyle {
    /// The name of the style in a style sheet.
    pub open spec fn name(self) -> Seq<char> {
        match self {
            FontStyle::Normal => "normal"@,
            FontStyle::Oblique => "oblique"@,
            FontStyle::Italic => "italic"@,
        }
    }

    /// The name of the style in a style sheet.
    pub fn as_str(&self) -> (s: &'static str)
        ensures
            s@ == self.name(),
    {
        match self {
            FontStyle::Normal => "normal",
            FontStyle::Oblique => "oblique",
            FontStyle::Italic => "italic",
        }
    }
}

/// How heavy a font is: one of the named weights, or a number of its own.
#[derive(Clone, Copy, Debug, PartialEq, Eq, Structural)]
pub enum FontWeight {
    Thin,
    Ultralight,
    Light,
    Semilight,
    Book,
    Normal,
    Medium,
    Semibold,
    Bold,
    Ultrabold,
    Heavy,
    Ultraheavy,
    Other(i32),
}

impl FontWeight {
    /// The weight as a number of a style sheet.
    pub open spec fn value(self) -> int {
        match self {
            FontWeight::Thin => 100,
            FontWeight::Ultralight => 200,
            FontWeight::Light => 300,
            FontWeight::Semilight => 350,
            FontWeight::Book => 380,
            FontWeight::Normal => 400,
            FontWeight::Medium => 500,
            FontWeight::Semibold => 600,
            FontWeight::Bold => 700,
            FontWeight::Ultrabold => 800,
            FontWeight::Heavy => 900,
            FontWeight::Ultraheavy => 1000,
            FontWeight::Other(n) => n as int,
        }
    }

    /// The weight as a number of a style sheet.
    pub fn number(&self) -> (n: i32)
        ensures
            n == self.value(),
    {
        match self {
            FontWeight::Thin => 100,
            FontWeight::Ultralight => 200,
            FontWeight::Light => 300,
            FontWeight::Semilight => 350,
            FontWeight::Book => 380,
            FontWeight::Normal => 400,
            FontWeight::Medium => 500,
            FontWeight::Semibold => 600,
            FontWeight::Bold => 700,
            FontWeight::Ultrabold => 800,
            FontWeight::Heavy => 900,
            FontWeight::Ultraheavy => 1000,
            FontWeight::Other(n) => *n,
        }
    }
}

/// The style sheet that gives the editors a font of the user's choice.
pub open spec fn font_rules(
    family: Seq<char>,
    size: int,
    style: FontStyle,
    weight: FontWeight,
) -> Seq<char> {
    "\n                textview.use-cartero-font {\n                    font-family: \""@
        + family + "\";\n                    font-size: "@ + number_text(size)
        + "pt;\n                    font-style: "@ + style.name()
        + ";\n                    font-weight: "@ + number_text(weight.value())
        + ";\n                }"@
}

/// The style sheet of the editors' font: empty where the font of the
/// desktop is used, else the rules of the chosen font.
pub fn font_style_sheet(
    use_system_font: bool,
    family: &str,
    size: i32,
    style: FontStyle,
    weight: FontWeight,
) -> (css: String)
    ensures
        css@ == if use_system_font {
            Seq::<char>::empty()
        } else {
            font_rules(family@, size as int, style, weight)
        },
{
    let mut css = String::new();
    if !use_system_font {
        css.append(
            "\n                textview.use-cartero-font {\n                    font-family: \"",
        );
        css.append(family);
        css.append("\";\n                    font-size: ");
        write_number(size, &mut css);
        css.append("pt;\n                    font-style: ");
        css.append(style.as_str());
        css.append(";\n                    font-weight: ");
        write_number(weight.number(), &mut css);
        css.append(";\n                }");
        proof {
            assert(css@ =~= font_rules(family@, size as int, style, weight));
        }
    }
    css
}

} // verus!
