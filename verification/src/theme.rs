//! Themes: `#RRGGBB` colours, palettes, the theme record and where theme
//! files live.
use vstd::prelude::*;
use crate::paths::{join, join_spec, result_view};
use crate::text::{
    chars_of, concat3, decimal, lemma_utf8_len_prefix, push_decimal, utf8_len, utf8_width,
    utf8_width_of,
};

verus! {

/// A 24-bit terminal colour.
#[derive(Clone, Copy, Debug, PartialEq, Eq, Structural)]
pub enum Color {
    Rgb(u8, u8, u8),
}

/// What parsing a value comes to: a value, a rejection with its message, or a
/// panic (an out-of-boundary string slice).
pub enum Outcome<T> {
    Value(T),
    Rejected(Seq<char>),
    Panics,
}

/// What reading a value came to, at run time: a value, a rejection with its
/// message, or the out-of-boundary string slice on which the reading stops.
#[derive(Debug)]
pub enum Reading<T> {
    Value(T),
    Rejected(String),
    Panics,
}

/// The outcome that a reading of a colour stands for.
pub open spec fn color_reading_outcome(r: Reading<Color>) -> Outcome<Color> {
    match r {
        Reading::Value(c) => Outcome::Value(c),
        Reading::Rejected(e) => Outcome::Rejected(e@),
        Reading::Panics => Outcome::Panics,
    }
}

/// The value of a hexadecimal digit.
pub open spec fn hex_digit_value(c: char) -> Option<u8> {
    if '0' <= c && c <= '9' {
        Some((c as u32 - '0' as u32) as u8)
    } else if 'a' <= c && c <= 'f' {
        Some((c as u32 - 'a' as u32 + 10) as u8)
    } else if 'A' <= c && c <= 'F' {
        Some((c as u32 - 'A' as u32 + 10) as u8)
    } else {
        None
    }
}

/// `u8::from_str_radix(s, 16)` on a colour component of one or two
/// characters: an optional `+` followed by hexadecimal digits.
pub open spec fn hex_component(s: Seq<char>) -> Option<u8> {
    if s.len() == 1 {
        hex_digit_value(s[0])
    } else if s.len() == 2 {
        if s[0] == '+' {
            hex_digit_value(s[1])
        } else {
            match (hex_digit_value(s[0]), hex_digit_value(s[1])) {
                (Some(hi), Some(lo)) => Some((hi * 16 + lo) as u8),
                _ => None,
            }
        }
    } else {
        None
    }
}

/// How many characters of `h` make up its first two bytes, if byte 2 of `h`
/// is a character boundary.
pub open spec fn two_byte_prefix(h: Seq<char>) -> Option<int> {
    if h.len() >= 1 && utf8_width(h[0]) == 2 {
        Some(1)
    } else if h.len() >= 2 && utf8_width(h[0]) == 1 && utf8_width(h[1]) == 1 {
        Some(2)
    } else {
        None
    }
}

/// The message for a value that is not of the form `#RRGGBB`.
pub open spec fn format_message(key: Seq<char>, value: Seq<char>) -> Seq<char> {
    key + " must use #RRGGBB, got "@ + value
}

/// What parsing `value` as a `#RRGGBB` colour under `key` comes to: the six
/// bytes after `#` are read as three two-byte hexadecimal components, red
/// first; the first component that fails names the error.
pub open spec fn color_outcome(key: Seq<char>, value: Seq<char>) -> Outcome<Color> {
    if value.len() == 0 || value[0] != '#' || utf8_len(value.drop_first()) != 6 {
        Outcome::Rejected(format_message(key, value))
    } else {
        let hex = value.drop_first();
        match two_byte_prefix(hex) {
            None => Outcome::Panics,
            Some(i) => match hex_component(hex.take(i)) {
                None => Outcome::Rejected(key + " has an invalid red component: "@ + value),
                Some(r) => {
                    let rest = hex.skip(i);
                    match two_byte_prefix(rest) {
                        None => Outcome::Panics,
                        Some(j) => match hex_component(rest.take(j)) {
                            None => Outcome::Rejected(
                                key + " has an invalid green component: "@ + value,
                            ),
                            Some(g) => match hex_component(rest.skip(j)) {
                                None => Outcome::Rejected(
                                    key + " has an invalid blue component: "@ + value,
                                ),
                                Some(b) => Outcome::Value(Color::Rgb(r, g, b)),
                            },
                        },
                    }
                },
            },
        }
    }
}

fn hex_digit(c: char) -> (r: Option<u8>)
    ensures
        r == hex_digit_value(c),
{
    if '0' <= c && c <= '9' {
        Some((c as u32 - '0' as u32) as u8)
    } else if 'a' <= c && c <= 'f' {
        Some((c as u32 - 'a' as u32 + 10) as u8)
    } else if 'A' <= c && c <= 'F' {
        Some((c as u32 - 'A' as u32 + 10) as u8)
    } else {
        None
    }
}

fn hex_component_at(v: &Vec<char>, from: usize, to: usize) -> (r: Option<u8>)
    requires
        from <= to <= v@.len(),
    ensures
        r == hex_component(v@.subrange(from as int, to as int)),
{
    if to - from == 1 {
        hex_digit(v[from])
    } else if to - from == 2 {
        if v[from] == '+' {
            hex_digit(v[from + 1])
        } else {
            match (hex_digit(v[from]), hex_digit(v[from + 1])) {
                (Some(hi), Some(lo)) => {
                    assert(hi < 16 && lo < 16);
                    Some(hi * 16 + lo)
                },
                _ => None,
            }
        }
    } else {
        None
    }
}

fn two_byte_prefix_at(v: &Vec<char>, start: usize) -> (r: Option<usize>)
    requires
        start <= v@.len(),
    ensures
        match r {
            Some(k) => two_byte_prefix(v@.skip(start as int)) == Some(k as int) && start + k
                <= v@.len(),
            None => two_byte_prefix(v@.skip(start as int)) is None,
        },
{
    let n = v.len();
    if start < n && utf8_width_of(v[start]) == 2 {
        Some(1)
    } else if n - start >= 2 && utf8_width_of(v[start]) == 1 && utf8_width_of(v[start + 1]) == 1 {
        Some(2)
    } else {
        None
    }
}

/// Reads `value` as a `#RRGGBB` colour; `key` names the setting in messages.
pub fn read_color(key: &str, value: &str) -> (r: Reading<Color>)
    ensures
        color_reading_outcome(r) == color_outcome(key@, value@),
{
    let v = chars_of(value);
    let n = v.len();
    if n == 0 || v[0] != '#' {
        return Reading::Rejected(concat3(key, " must use #RRGGBB, got ", value));
    }
    let ghost hex = value@.drop_first();
    let mut total: usize = 0;
    let mut i: usize = 1;
    while i < n && total <= 6
        invariant
            v@ == value@,
            n == v@.len(),
            1 <= i <= n,
            hex == v@.drop_first(),
            total == utf8_len(hex.take(i - 1)),
        decreases n - i,
    {
        total = total + utf8_width_of(v[i]);
        assert(hex.take(i as int).drop_last() == hex.take(i - 1));
        i = i + 1;
    }
    proof {
        lemma_utf8_len_prefix(hex, i - 1);
        if i == n {
            assert(hex.take(i - 1) == hex);
        }
    }
    if total != 6 || i < n {
        return Reading::Rejected(concat3(key, " must use #RRGGBB, got ", value));
    }
    assert(hex.take(n - 1) == hex);
    let k1 = match two_byte_prefix_at(&v, 1) {
        Some(k) => k,
        None => {
            assert(v@.skip(1) == hex);
            return Reading::Panics;
        },
    };
    assert(v@.skip(1) == hex);
    assert(v@.subrange(1, 1 + k1) == hex.take(k1 as int));
    let r = match hex_component_at(&v, 1, 1 + k1) {
        Some(r) => r,
        None => {
            return Reading::Rejected(concat3(key, " has an invalid red component: ", value));
        },
    };
    let k2 = match two_byte_prefix_at(&v, 1 + k1) {
        Some(k) => k,
        None => {
            assert(v@.skip(1 + k1) == hex.skip(k1 as int));
            return Reading::Panics;
        },
    };
    assert(v@.skip(1 + k1) == hex.skip(k1 as int));
    assert(v@.subrange(1 + k1, 1 + k1 + k2) == hex.skip(k1 as int).take(k2 as int));
    let g = match hex_component_at(&v, 1 + k1, 1 + k1 + k2) {
        Some(g) => g,
        None => {
            return Reading::Rejected(concat3(key, " has an invalid green component: ", value));
        },
    };
    assert(v@.subrange(1 + k1 + k2, n as int) == hex.skip(k1 as int).skip(k2 as int));
    let b = match hex_component_at(&v, 1 + k1 + k2, n) {
        Some(b) => b,
        None => {
            return Reading::Rejected(concat3(key, " has an invalid blue component: ", value));
        },
    };
    Reading::Value(Color::Rgb(r, g, b))
}


/// Parses `value` as a `#RRGGBB` colour; `key` names the setting in messages.
pub fn parse_color(key: &str, value: &str) -> (res: Result<Color, String>)
    requires
        !(color_outcome(key@, value@) is Panics),
    ensures
        match res {
            Ok(c) => color_outcome(key@, value@) == Outcome::Value(c),
            Err(e) => color_outcome(key@, value@) == Outcome::<Color>::Rejected(e@),
        },
{
    match read_color(key, value) {
        Reading::Value(c) => Ok(c),
        Reading::Rejected(e) => Err(e),
        Reading::Panics => vstd::pervasive::unreached(),
    }
}

/// The characters of each string.
pub open spec fn views(v: Seq<String>) -> Seq<Seq<char>> {
    v.map_values(|s: String| s@)
}

/// The first outcome that is not a value, in order; `Value(())` when all are values.
pub open spec fn first_problem(outs: Seq<Outcome<Color>>) -> Outcome<()>
    decreases outs.len(),
{
    if outs.len() == 0 {
        Outcome::Value(())
    } else {
        match first_problem(outs.drop_last()) {
            Outcome::Value(_) => match outs.last() {
                Outcome::Value(_) => Outcome::Value(()),
                Outcome::Rejected(e) => Outcome::Rejected(e),
                Outcome::Panics => Outcome::Panics,
            },
            problem => problem,
        }
    }
}

/// The colour of a parsed outcome.
pub open spec fn value_of(o: Outcome<Color>) -> Color {
    match o {
        Outcome::Value(c) => c,
        _ => Color::Rgb(0, 0, 0),
    }
}

/// The key under which element `index` of the palette `key` is reported.
pub open spec fn element_key(key: Seq<char>, index: nat) -> Seq<char> {
    key + "["@ + decimal(index) + "]"@
}

/// What parsing each element of a palette comes to.
pub open spec fn palette_outcomes(key: Seq<char>, values: Seq<Seq<char>>) -> Seq<Outcome<Color>> {
    Seq::new(values.len(), |k: int| color_outcome(element_key(key, k as nat), values[k]))
}

/// What parsing a palette comes to: every element in order, or the first
/// element that fails.
pub open spec fn palette_outcome(key: Seq<char>, values: Seq<Seq<char>>) -> Outcome<Seq<Color>> {
    let outs = palette_outcomes(key, values);
    match first_problem(outs) {
        Outcome::Value(_) => Outcome::Value(outs.map_values(|o: Outcome<Color>| value_of(o))),
        Outcome::Rejected(e) => Outcome::Rejected(e),
        Outcome::Panics => Outcome::Panics,
    }
}

/// Once a prefix holds a problem, every longer prefix holds the same one.
pub proof fn lemma_first_problem_sticky(outs: Seq<Outcome<Color>>, k: int, n: int)
    requires
        0 <= k <= n <= outs.len(),
        !(first_problem(outs.take(k)) is Value),
    ensures
        first_problem(outs.take(n)) == first_problem(outs.take(k)),
    decreases n - k,
{
    if n > k {
        lemma_first_problem_sticky(outs, k, n - 1);
        assert(outs.take(n).drop_last() == outs.take(n - 1));
    }
}

/// A prefix is free of problems exactly when each of its outcomes is a value.
pub proof fn lemma_first_problem_values(outs: Seq<Outcome<Color>>)
    ensures
        (first_problem(outs) is Value) <==> (forall|j: int|
            0 <= j < outs.len() ==> #[trigger] outs[j] is Value),
    decreases outs.len(),
{
    if outs.len() > 0 {
        lemma_first_problem_values(outs.drop_last());
        if first_problem(outs.drop_last()) is Value && outs.last() is Value {
            assert forall|j: int| 0 <= j < outs.len() implies #[trigger] outs[j] is Value by {
                if j < outs.len() - 1 {
                    assert(outs.drop_last()[j] == outs[j]);
                }
            }
        }
        if !(first_problem(outs.drop_last()) is Value) {
            let j = choose|j: int| 0 <= j < outs.len() - 1 && !(#[trigger] outs.drop_last()[j] is Value);
            assert(outs.drop_last()[j] == outs[j]);
        }
    }
}

/// Reads every colour of a palette, in order; `key` names the palette in
/// messages, each element under `key[index]`.
pub fn read_palette(key: &str, values: &Vec<String>) -> (r: Reading<Vec<Color>>)
    ensures
        match r {
            Reading::Value(cs) => palette_outcome(key@, views(values@)) == Outcome::Value(cs@),
            Reading::Rejected(e) => palette_outcome(key@, views(values@))
                == Outcome::<Seq<Color>>::Rejected(e@),
            Reading::Panics => palette_outcome(key@, views(values@)) is Panics,
        },
{
    let ghost outs = palette_outcomes(key@, views(values@));
    let mut out: Vec<Color> = Vec::new();
    let mut i: usize = 0;
    proof {
        assert(outs.take(0).len() == 0);
    }
    while i < values.len()
        invariant
            outs == palette_outcomes(key@, views(values@)),
            outs.len() == values@.len(),
            i <= values@.len(),
            first_problem(outs.take(i as int)) is Value,
            out@.len() == i,
            forall|j: int| 0 <= j < i ==> outs[j] == Outcome::Value(#[trigger] out@[j]),
        decreases values.len() - i,
    {
        let mut element = key.to_owned();
        element.append("[");
        push_decimal(&mut element, i);
        element.append("]");
        assert(outs[i as int] == color_outcome(element@, values@[i as int]@));
        assert(outs.take(i + 1).drop_last() == outs.take(i as int));
        assert(outs.take(i + 1).last() == outs[i as int]);
        match read_color(element.as_str(), values[i].as_str()) {
            Reading::Value(c) => {
                out.push(c);
            },
            Reading::Rejected(e) => {
                proof {
                    lemma_first_problem_sticky(outs, i + 1, outs.len() as int);
                    assert(outs.take(outs.len() as int) == outs);
                }
                return Reading::Rejected(e);
            },
            Reading::Panics => {
                proof {
                    lemma_first_problem_sticky(outs, i + 1, outs.len() as int);
                    assert(outs.take(outs.len() as int) == outs);
                }
                return Reading::Panics;
            },
        }
        i = i + 1;
    }
    proof {
        assert(outs.take(outs.len() as int) == outs);
        assert(out@ == outs.map_values(|o: Outcome<Color>| value_of(o)));
    }
    Reading::Value(out)
}

/// Parses every colour of a palette, in order; `key` names the palette in
/// messages, each element under `key[index]`.
pub fn parse_palette(key: &str, values: &Vec<String>) -> (res: Result<Vec<Color>, String>)
    requires
        !(palette_outcome(key@, views(values@)) is Panics),
    ensures
        match res {
            Ok(cs) => palette_outcome(key@, views(values@)) == Outcome::Value(cs@),
            Err(e) => palette_outcome(key@, views(values@)) == Outcome::<Seq<Color>>::Rejected(e@),
        },
{
    match read_palette(key, values) {
        Reading::Value(cs) => Ok(cs),
        Reading::Rejected(e) => Err(e),
        Reading::Panics => vstd::pervasive::unreached(),
    }
}

/// The `[app]` table of a theme file.
#[derive(Debug)]
pub struct RawAppTheme {
    pub background: String,
}

/// The `[clock]` table of a theme file.
#[derive(Debug)]
pub struct RawClockTheme {
    pub panel_background: String,
    pub panel_border: String,
    pub title: String,
    pub shadow: String,
    pub digits: Vec<String>,
}

/// The `[timezones]` table of a theme file.
#[derive(Debug)]
pub struct RawTimezonesTheme {
    pub panel_background: String,
    pub accents: Vec<String>,
    pub label: String,
    pub time: String,
    pub offset: String,
}

/// The `[modal]` table of a theme file.
#[derive(Debug)]
pub struct RawModalTheme {
    pub panel_background: String,
    pub panel_border: String,
    pub title: String,
    pub question: String,
    pub hint: String,
    pub option_default: String,
    pub option_selected_foreground: String,
    pub option_selected_background: String,
}

/// A theme file as its tables give it, before any colour is read.
#[derive(Debug)]
pub struct RawThemeFile {
    pub app: RawAppTheme,
    pub clock: RawClockTheme,
    pub timezones: RawTimezonesTheme,
    pub modal: RawModalTheme,
}

/// The colours of the clock face, the time-zone panels and the quit dialog.
#[derive(Clone, Debug)]
pub struct Theme {
    pub app_background: Color,
    pub clock_panel_background: Color,
    pub clock_panel_border: Color,
    pub clock_title: Color,
    pub clock_shadow: Color,
    pub clock_digits: Vec<Color>,
    pub timezone_panel_background: Color,
    pub timezone_panel_border_accents: Vec<Color>,
    pub timezone_label: Color,
    pub timezone_time: Color,
    pub timezone_offset: Color,
    pub modal_panel_background: Color,
    pub modal_panel_border: Color,
    pub modal_title: Color,
    pub modal_question: Color,
    pub modal_hint: Color,
    pub modal_option_default: Color,
    pub modal_option_selected_foreground: Color,
    pub modal_option_selected_background: Color,
}

/// The single-colour settings of a theme file, keyed, in the order in which
/// they are read.
pub open spec fn single_fields(raw: RawThemeFile) -> Seq<(Seq<char>, Seq<char>)> {
    seq![
        ("app.background"@, raw.app.background@),
        ("clock.panel_background"@, raw.clock.panel_background@),
        ("clock.panel_border"@, raw.clock.panel_border@),
        ("clock.title"@, raw.clock.title@),
        ("clock.shadow"@, raw.clock.shadow@),
        ("timezones.panel_background"@, raw.timezones.panel_background@),
        ("timezones.label"@, raw.timezones.label@),
        ("timezones.time"@, raw.timezones.time@),
        ("timezones.offset"@, raw.timezones.offset@),
        ("modal.panel_background"@, raw.modal.panel_background@),
        ("modal.panel_border"@, raw.modal.panel_border@),
        ("modal.title"@, raw.modal.title@),
        ("modal.question"@, raw.modal.question@),
        ("modal.hint"@, raw.modal.hint@),
        ("modal.option_default"@, raw.modal.option_default@),
        ("modal.option_selected_foreground"@, raw.modal.option_selected_foreground@),
        ("modal.option_selected_background"@, raw.modal.option_selected_background@),
    ]
}

/// What parsing each single-colour setting comes to.
pub open spec fn single_outcomes(raw: RawThemeFile) -> Seq<Outcome<Color>> {
    single_fields(raw).map_values(|f: (Seq<char>, Seq<char>)| color_outcome(f.0, f.1))
}

/// What reading a theme file comes to: the digit palette, which must not be
/// empty, then the accent palette, which must not be empty, then each
/// single colour in order; the first failure names the error.
pub open spec fn theme_outcome(raw: RawThemeFile) -> Outcome<()> {
    match palette_outcome("clock.digits"@, views(raw.clock.digits@)) {
        Outcome::Value(digits) => if digits.len() == 0 {
            Outcome::Rejected("clock.digits must include at least 1 color"@)
        } else {
            match palette_outcome("timezones.accents"@, views(raw.timezones.accents@)) {
                Outcome::Value(accents) => if accents.len() == 0 {
                    Outcome::Rejected("timezones.accents must include at least 1 color"@)
                } else {
                    first_problem(single_outcomes(raw))
                },
                Outcome::Rejected(e) => Outcome::Rejected(e),
                Outcome::Panics => Outcome::Panics,
            }
        },
        Outcome::Rejected(e) => Outcome::Rejected(e),
        Outcome::Panics => Outcome::Panics,
    }
}

/// `theme` holds exactly the colours that `raw` spells.
pub open spec fn theme_matches(theme: Theme, raw: RawThemeFile) -> bool {
    let singles = single_outcomes(raw);
    &&& palette_outcome("clock.digits"@, views(raw.clock.digits@)) == Outcome::Value(
        theme.clock_digits@,
    )
    &&& palette_outcome("timezones.accents"@, views(raw.timezones.accents@)) == Outcome::Value(
        theme.timezone_panel_border_accents@,
    )
    &&& singles[0] == Outcome::Value(theme.app_background)
    &&& singles[1] == Outcome::Value(theme.clock_panel_background)
    &&& singles[2] == Outcome::Value(theme.clock_panel_border)
    &&& singles[3] == Outcome::Value(theme.clock_title)
    &&& singles[4] == Outcome::Value(theme.clock_shadow)
    &&& singles[5] == Outcome::Value(theme.timezone_panel_background)
    &&& singles[6] == Outcome::Value(theme.timezone_label)
    &&& singles[7] == Outcome::Value(theme.timezone_time)
    &&& singles[8] == Outcome::Value(theme.timezone_offset)
    &&& singles[9] == Outcome::Value(theme.modal_panel_background)
    &&& singles[10] == Outcome::Value(theme.modal_panel_border)
    &&& singles[11] == Outcome::Value(theme.modal_title)
    &&& singles[12] == Outcome::Value(theme.modal_question)
    &&& singles[13] == Outcome::Value(theme.modal_hint)
    &&& singles[14] == Outcome::Value(theme.modal_option_default)
    &&& singles[15] == Outcome::Value(theme.modal_option_selected_foreground)
    &&& singles[16] == Outcome::Value(theme.modal_option_selected_background)
}

/// Reads every colour of a theme file, noting where the reading would stop
/// on an out-of-boundary string slice.
pub fn read_theme(raw: &RawThemeFile) -> (r: Reading<Theme>)
    ensures
        match r {
            Reading::Value(theme) => theme_outcome(*raw) == Outcome::Value(()) && theme_matches(
                theme,
                *raw,
            ) && theme_fields_from_own_settings(theme, *raw),
            Reading::Rejected(e) => theme_outcome(*raw) == Outcome::<()>::Rejected(e@),
            Reading::Panics => theme_outcome(*raw) is Panics,
        },
{
    let clock_digits = match read_palette("clock.digits", &raw.clock.digits) {
        Reading::Value(cs) => cs,
        Reading::Rejected(e) => {
            return Reading::Rejected(e);
        },
        Reading::Panics => {
            return Reading::Panics;
        },
    };
    if clock_digits.len() == 0 {
        return Reading::Rejected("clock.digits must include at least 1 color".to_owned());
    }
    let timezone_panel_border_accents = match read_palette(
        "timezones.accents",
        &raw.timezones.accents,
    ) {
        Reading::Value(cs) => cs,
        Reading::Rejected(e) => {
            return Reading::Rejected(e);
        },
        Reading::Panics => {
            return Reading::Panics;
        },
    };
    if timezone_panel_border_accents.len() == 0 {
        return Reading::Rejected("timezones.accents must include at least 1 color".to_owned());
    }
    let keys: [&str; 17] = [
        "app.background",
        "clock.panel_background",
        "clock.panel_border",
        "clock.title",
        "clock.shadow",
        "timezones.panel_background",
        "timezones.label",
        "timezones.time",
        "timezones.offset",
        "modal.panel_background",
        "modal.panel_border",
        "modal.title",
        "modal.question",
        "modal.hint",
        "modal.option_default",
        "modal.option_selected_foreground",
        "modal.option_selected_background",
    ];
    let values: [&String; 17] = [
        &raw.app.background,
        &raw.clock.panel_background,
        &raw.clock.panel_border,
        &raw.clock.title,
        &raw.clock.shadow,
        &raw.timezones.panel_background,
        &raw.timezones.label,
        &raw.timezones.time,
        &raw.timezones.offset,
        &raw.modal.panel_background,
        &raw.modal.panel_border,
        &raw.modal.title,
        &raw.modal.question,
        &raw.modal.hint,
        &raw.modal.option_default,
        &raw.modal.option_selected_foreground,
        &raw.modal.option_selected_background,
    ];
    let ghost outs = single_outcomes(*raw);
    proof {
        assert forall|j: int| 0 <= j < 17 implies #[trigger] outs[j] == color_outcome(
            keys@[j]@,
            values@[j]@,
        ) by {
            assert(single_fields(*raw)[j] == (keys@[j]@, values@[j]@));
        }
        assert(outs.take(0).len() == 0);
    }
    let mut colors: Vec<Color> = Vec::new();
    let mut i: usize = 0;
    while i < 17
        invariant
            outs == single_outcomes(*raw),
            outs.len() == 17,
            palette_outcome("clock.digits"@, views(raw.clock.digits@)) == Outcome::Value(
                clock_digits@,
            ),
            clock_digits@.len() > 0,
            palette_outcome("timezones.accents"@, views(raw.timezones.accents@)) == Outcome::Value(
                timezone_panel_border_accents@,
            ),
            timezone_panel_border_accents@.len() > 0,
            forall|j: int| 0 <= j < 17 ==> #[trigger] outs[j] == color_outcome(keys@[j]@, values@[j]@),
            i <= 17,
            first_problem(outs.take(i as int)) is Value,
            colors@.len() == i,
            forall|j: int| 0 <= j < i ==> outs[j] == Outcome::Value(#[trigger] colors@[j]),
        decreases 17 - i,
    {
        assert(outs.take(i + 1).drop_last() == outs.take(i as int));
        assert(outs.take(i + 1).last() == outs[i as int]);
        match read_color(keys[i], values[i].as_str()) {
            Reading::Value(c) => {
                colors.push(c);
            },
            Reading::Rejected(e) => {
                proof {
                    lemma_first_problem_sticky(outs, i + 1, 17);
                    assert(outs.take(17) == outs);
                }
                return Reading::Rejected(e);
            },
            Reading::Panics => {
                proof {
                    lemma_first_problem_sticky(outs, i + 1, 17);
                    assert(outs.take(17) == outs);
                }
                return Reading::Panics;
            },
        }
        i = i + 1;
    }
    assert(outs.take(17) == outs);
    let theme = Theme {
        app_background: colors[0],
        clock_panel_background: colors[1],
        clock_panel_border: colors[2],
        clock_title: colors[3],
        clock_shadow: colors[4],
        clock_digits,
        timezone_panel_background: colors[5],
        timezone_panel_border_accents,
        timezone_label: colors[6],
        timezone_time: colors[7],
        timezone_offset: colors[8],
        modal_panel_background: colors[9],
        modal_panel_border: colors[10],
        modal_title: colors[11],
        modal_question: colors[12],
        modal_hint: colors[13],
        modal_option_default: colors[14],
        modal_option_selected_foreground: colors[15],
        modal_option_selected_background: colors[16],
    };
    proof {
        read_theme_fields_come_from_their_settings(theme, *raw);
    }
    Reading::Value(theme)
}

/// Reads every colour of a theme file.
pub fn parse_theme(raw: &RawThemeFile) -> (res: Result<Theme, String>)
    requires
        !(theme_outcome(*raw) is Panics),
    ensures
        match res {
            Ok(theme) => theme_outcome(*raw) == Outcome::Value(()) && theme_matches(theme, *raw)
                && theme_fields_from_own_settings(theme, *raw),
            Err(e) => theme_outcome(*raw) == Outcome::<()>::Rejected(e@),
        },
{
    match read_theme(raw) {
        Reading::Value(t) => Ok(t),
        Reading::Rejected(e) => Err(e),
        Reading::Panics => vstd::pervasive::unreached(),
    }
}

impl Theme {
    /// The colour of clock row `index`; rows past the end of the palette take
    /// its last colour.
    pub fn clock_digit_color(&self, index: usize) -> (c: Color)
        requires
            self.clock_digits@.len() > 0,
        ensures
            index < self.clock_digits@.len() ==> c == self.clock_digits@[index as int],
            index >= self.clock_digits@.len() ==> c == self.clock_digits@.last(),
    {
        let last = self.clock_digits.len() - 1;
        if index < last {
            self.clock_digits[index]
        } else {
            self.clock_digits[last]
        }
    }

    /// The border accent of time-zone panel `index`; the accents repeat in turn.
    pub fn timezone_accent_color(&self, index: usize) -> (c: Color)
        requires
            self.timezone_panel_border_accents@.len() > 0,
        ensures
            c == self.timezone_panel_border_accents@[(index as int) % (self.timezone_panel_border_accents@.len() as int)],
    {
        self.timezone_panel_border_accents[index % self.timezone_panel_border_accents.len()]
    }
}


/// Where the theme `theme_name` lives under `config_dir`:
/// `<config_dir>/themes/<theme_name>/theme.toml`.
pub open spec fn theme_path_spec(config_dir: Seq<char>, theme_name: Seq<char>) -> Seq<char> {
    join_spec(join_spec(join_spec(config_dir, "themes"@), theme_name), "theme.toml"@)
}

/// Where the theme `theme_name` lived in earlier layouts:
/// `<config_dir>/<theme_name>/theme.toml`.
pub open spec fn legacy_theme_path_spec(config_dir: Seq<char>, theme_name: Seq<char>) -> Seq<
    char,
> {
    join_spec(join_spec(config_dir, theme_name), "theme.toml"@)
}

/// The theme file of `theme_name` under `config_dir`.
pub fn theme_file_path_from_config_dir(config_dir: &str, theme_name: &str) -> (r: String)
    ensures
        r@ == theme_path_spec(config_dir@, theme_name@),
{
    let themes = join(config_dir, "themes");
    let dir = join(themes.as_str(), theme_name);
    join(dir.as_str(), "theme.toml")
}

/// The theme file of `theme_name`; a failure to find the configuration
/// directory passes through.
pub fn theme_file_path(config_dir: Result<String, String>, theme_name: &str) -> (r: Result<
    String,
    String,
>)
    ensures
        result_view(r) == match result_view(config_dir) {
            Ok(d) => Ok(theme_path_spec(d, theme_name@)),
            Err(e) => Err(e),
        },
{
    match config_dir {
        Ok(d) => Ok(theme_file_path_from_config_dir(d.as_str(), theme_name)),
        Err(e) => Err(e),
    }
}

/// The legacy theme file of `theme_name`; a failure to find the
/// configuration directory passes through.
pub fn legacy_theme_file_path(config_dir: Result<String, String>, theme_name: &str) -> (r: Result<
    String,
    String,
>)
    ensures
        result_view(r) == match result_view(config_dir) {
            Ok(d) => Ok(legacy_theme_path_spec(d, theme_name@)),
            Err(e) => Err(e),
        },
{
    match config_dir {
        Ok(d) => {
            let dir = join(d.as_str(), theme_name);
            Ok(join(dir.as_str(), "theme.toml"))
        },
        Err(e) => Err(e),
    }
}

/// Where the text of a theme comes from.
#[derive(Debug)]
pub enum ThemeSource {
    /// A file's text, and the path it was read from.
    File { contents: String, path: String },
    /// The built-in default theme, reported under the given path.
    BuiltinDefault { path: String },
}

/// A theme source as plain text: `Some(contents)` for a file, `None` for the
/// built-in default, and the path that messages name.
pub open spec fn source_view(s: ThemeSource) -> (Option<Seq<char>>, Seq<char>) {
    match s {
        ThemeSource::File { contents, path } => (Some(contents@), path@),
        ThemeSource::BuiltinDefault { path } => (None, path@),
    }
}

/// A chosen theme source, or the error, as plain text.
pub open spec fn source_result_view(r: Result<ThemeSource, String>) -> Result<
    (Option<Seq<char>>, Seq<char>),
    Seq<char>,
> {
    match r {
        Ok(s) => Ok(source_view(s)),
        Err(e) => Err(e@),
    }
}

/// The source of a theme: the file at `path` when it was read; else the file
/// at the legacy path when that was read; else the built-in theme when
/// `theme_name` is `default`; else an error naming both failures.
pub open spec fn theme_source_spec(
    theme_name: Seq<char>,
    path: Seq<char>,
    primary: Result<Seq<char>, Seq<char>>,
    legacy_path: Seq<char>,
    legacy: Result<Seq<char>, Seq<char>>,
) -> Result<(Option<Seq<char>>, Seq<char>), Seq<char>> {
    match primary {
        Ok(contents) => Ok((Some(contents), path)),
        Err(primary_err) => match legacy {
            Ok(contents) => Ok((Some(contents), legacy_path)),
            Err(legacy_err) => if theme_name == "default"@ {
                Ok((None, path))
            } else {
                Err(
                    "Failed to read "@ + path + ": "@ + primary_err + "; also failed legacy path "@
                        + legacy_path + ": "@ + legacy_err,
                )
            },
        },
    }
}

/// Picks the source of a theme from what reading its files gave: `primary`
/// is the reading of `path`; `legacy`, which is only looked at when that
/// failed, is the legacy path with its reading.
pub fn choose_theme_source(
    theme_name: &str,
    path: String,
    primary: Result<String, String>,
    legacy: Option<(String, Result<String, String>)>,
) -> (r: Result<ThemeSource, String>)
    requires
        primary is Err ==> legacy is Some,
    ensures
        match legacy {
            Some(l) => primary is Err ==> source_result_view(r) == theme_source_spec(
                theme_name@,
                path@,
                result_view(primary),
                l.0@,
                result_view(l.1),
            ),
            None => true,
        },
        match primary {
            Ok(contents) => source_result_view(r) == Ok::<(Option<Seq<char>>, Seq<char>), Seq<char>>(
                (Some(contents@), path@),
            ),
            Err(_) => true,
        },
{
    match primary {
        Ok(contents) => Ok(ThemeSource::File { contents, path }),
        Err(primary_err) => {
            let (legacy_path, legacy_read) = match legacy {
                Some(l) => l,
                None => vstd::pervasive::unreached(),
            };
            match legacy_read {
                Ok(contents) => Ok(ThemeSource::File { contents, path: legacy_path }),
                Err(legacy_err) => {
                    if crate::text::text_eq(theme_name, "default") {
                        Ok(ThemeSource::BuiltinDefault { path })
                    } else {
                        let mut message = concat3("Failed to read ", path.as_str(), ": ");
                        message.append(primary_err.as_str());
                        message.append("; also failed legacy path ");
                        message.append(legacy_path.as_str());
                        message.append(": ");
                        message.append(legacy_err.as_str());
                        Err(message)
                    }
                },
            }
        },
    }
}

/// The message for a theme whose text does not read as a theme.
pub fn invalid_theme_message(path: &str, err: &str) -> (m: String)
    ensures
        m@ == "Invalid "@ + path@ + ": "@ + err@,
{
    concat3("Invalid ", path, ": ").concat(err)
}


/// The upper-case hexadecimal digit for `d`.
pub open spec fn hex_char(d: u8) -> char {
    if d < 10 {
        ((d + '0' as u32) as u32) as char
    } else {
        ((d - 10 + 'A' as u32) as u32) as char
    }
}

/// The text `#RRGGBB` of the colour `(r, g, b)`, in upper-case hexadecimal.
pub open spec fn color_text(r: u8, g: u8, b: u8) -> Seq<char> {
    seq![
        '#',
        hex_char(r / 16),
        hex_char(r % 16),
        hex_char(g / 16),
        hex_char(g % 16),
        hex_char(b / 16),
        hex_char(b % 16),
    ]
}

proof fn lemma_hex_char(d: u8)
    requires
        d < 16,
    ensures
        hex_digit_value(hex_char(d)) == Some(d),
        utf8_width(hex_char(d)) == 1,
        hex_char(d) != '+',
{
}

/// Every colour reads back from its `#RRGGBB` text, under any key.
pub proof fn color_text_reads_back(key: Seq<char>, r: u8, g: u8, b: u8)
    ensures
        color_outcome(key, color_text(r, g, b)) == Outcome::Value(Color::Rgb(r, g, b)),
{
    let v = color_text(r, g, b);
    let hex = v.drop_first();
    lemma_hex_char(r / 16);
    lemma_hex_char(r % 16);
    lemma_hex_char(g / 16);
    lemma_hex_char(g % 16);
    lemma_hex_char(b / 16);
    lemma_hex_char(b % 16);
    assert(hex == seq![
        hex_char(r / 16),
        hex_char(r % 16),
        hex_char(g / 16),
        hex_char(g % 16),
        hex_char(b / 16),
        hex_char(b % 16),
    ]);
    reveal_with_fuel(utf8_len, 7);
    assert(hex.drop_last().drop_last().drop_last().drop_last().drop_last().drop_last().len() == 0);
    assert(utf8_len(hex) == 6);
    assert(two_byte_prefix(hex) == Some(2int));
    assert(hex.take(2) == seq![hex_char(r / 16), hex_char(r % 16)]);
    let rest = hex.skip(2);
    assert(rest == seq![hex_char(g / 16), hex_char(g % 16), hex_char(b / 16), hex_char(b % 16)]);
    assert(two_byte_prefix(rest) == Some(2int));
    assert(rest.take(2) == seq![hex_char(g / 16), hex_char(g % 16)]);
    assert(rest.skip(2) == seq![hex_char(b / 16), hex_char(b % 16)]);
    assert(hex_component(hex.take(2)) == Some(r));
    assert(hex_component(rest.take(2)) == Some(g));
    assert(hex_component(rest.skip(2)) == Some(b));
}

/// Each colour of `theme` is the colour read from its own setting of `raw`,
/// under that setting's key; the palettes are the palettes read from their
/// own lists.
pub open spec fn theme_fields_from_own_settings(theme: Theme, raw: RawThemeFile) -> bool {
    &&& palette_outcome("clock.digits"@, views(raw.clock.digits@)) == Outcome::Value(
        theme.clock_digits@,
    )
    &&& palette_outcome("timezones.accents"@, views(raw.timezones.accents@)) == Outcome::Value(
        theme.timezone_panel_border_accents@,
    )
    &&& color_outcome("app.background"@, raw.app.background@) == Outcome::Value(theme.app_background)
    &&& color_outcome("clock.panel_background"@, raw.clock.panel_background@) == Outcome::Value(theme.clock_panel_background)
    &&& color_outcome("clock.panel_border"@, raw.clock.panel_border@) == Outcome::Value(theme.clock_panel_border)
    &&& color_outcome("clock.title"@, raw.clock.title@) == Outcome::Value(theme.clock_title)
    &&& color_outcome("clock.shadow"@, raw.clock.shadow@) == Outcome::Value(theme.clock_shadow)
    &&& color_outcome("timezones.panel_background"@, raw.timezones.panel_background@) == Outcome::Value(theme.timezone_panel_background)
    &&& color_outcome("timezones.label"@, raw.timezones.label@) == Outcome::Value(theme.timezone_label)
    &&& color_outcome("timezones.time"@, raw.timezones.time@) == Outcome::Value(theme.timezone_time)
    &&& color_outcome("timezones.offset"@, raw.timezones.offset@) == Outcome::Value(theme.timezone_offset)
    &&& color_outcome("modal.panel_background"@, raw.modal.panel_background@) == Outcome::Value(theme.modal_panel_background)
    &&& color_outcome("modal.panel_border"@, raw.modal.panel_border@) == Outcome::Value(theme.modal_panel_border)
    &&& color_outcome("modal.title"@, raw.modal.title@) == Outcome::Value(theme.modal_title)
    &&& color_outcome("modal.question"@, raw.modal.question@) == Outcome::Value(theme.modal_question)
    &&& color_outcome("modal.hint"@, raw.modal.hint@) == Outcome::Value(theme.modal_hint)
    &&& color_outcome("modal.option_default"@, raw.modal.option_default@) == Outcome::Value(theme.modal_option_default)
    &&& color_outcome("modal.option_selected_foreground"@, raw.modal.option_selected_foreground@) == Outcome::Value(theme.modal_option_selected_foreground)
    &&& color_outcome("modal.option_selected_background"@, raw.modal.option_selected_background@) == Outcome::Value(theme.modal_option_selected_background)
}

/// A theme that reads successfully takes each of its colours from its own
/// setting, never from another one.
pub proof fn read_theme_fields_come_from_their_settings(theme: Theme, raw: RawThemeFile)
    requires
        theme_matches(theme, raw),
    ensures
        theme_fields_from_own_settings(theme, raw),
{
}

/// A theme reads successfully exactly when both palettes read and are not
/// empty and every single colour reads; then none of its settings is
/// rejected.
pub proof fn read_theme_succeeds_when_all_settings_read(raw: RawThemeFile)
    ensures
        theme_outcome(raw) == Outcome::Value(()) <==> ({
            &&& palette_outcome("clock.digits"@, views(raw.clock.digits@)) matches Outcome::Value(d)
                && d.len() > 0
            &&& palette_outcome("timezones.accents"@, views(raw.timezones.accents@)) matches Outcome::Value(a)
                && a.len() > 0
            &&& forall|j: int| 0 <= j < 17 ==> #[trigger] single_outcomes(raw)[j] is Value
        }),
{
    lemma_first_problem_values(single_outcomes(raw));
}

/// Once both palettes have read and are not empty, what reading a theme
/// comes to is the first of its single colours, taken in the order app
/// background; clock panel background, border, title, shadow; zone panel
/// background, label, time, offset; dialog panel background, border, title,
/// question, hint, default option, selected option foreground and background,
/// that does not read.
#[verifier::spinoff_prover]
#[verifier::rlimit(50)]
pub proof fn theme_error_names_first_failing_setting(raw: RawThemeFile)
    requires
        palette_outcome("clock.digits"@, views(raw.clock.digits@)) matches Outcome::Value(d) && d.len()
            > 0,
        palette_outcome("timezones.accents"@, views(raw.timezones.accents@)) matches Outcome::Value(
            a,
        ) && a.len() > 0,
    ensures
        theme_outcome(raw) == first_problem(
            seq![
            color_outcome("app.background"@, raw.app.background@),
            color_outcome("clock.panel_background"@, raw.clock.panel_background@),
            color_outcome("clock.panel_border"@, raw.clock.panel_border@),
            color_outcome("clock.title"@, raw.clock.title@),
            color_outcome("clock.shadow"@, raw.clock.shadow@),
            color_outcome("timezones.panel_background"@, raw.timezones.panel_background@),
            color_outcome("timezones.label"@, raw.timezones.label@),
            color_outcome("timezones.time"@, raw.timezones.time@),
            color_outcome("timezones.offset"@, raw.timezones.offset@),
            color_outcome("modal.panel_background"@, raw.modal.panel_background@),
            color_outcome("modal.panel_border"@, raw.modal.panel_border@),
            color_outcome("modal.title"@, raw.modal.title@),
            color_outcome("modal.question"@, raw.modal.question@),
            color_outcome("modal.hint"@, raw.modal.hint@),
            color_outcome("modal.option_default"@, raw.modal.option_default@),
            color_outcome("modal.option_selected_foreground"@, raw.modal.option_selected_foreground@),
            color_outcome("modal.option_selected_background"@, raw.modal.option_selected_background@),
            ],
        ),
{
    let listed = seq![
        color_outcome("app.background"@, raw.app.background@),
        color_outcome("clock.panel_background"@, raw.clock.panel_background@),
        color_outcome("clock.panel_border"@, raw.clock.panel_border@),
        color_outcome("clock.title"@, raw.clock.title@),
        color_outcome("clock.shadow"@, raw.clock.shadow@),
        color_outcome("timezones.panel_background"@, raw.timezones.panel_background@),
        color_outcome("timezones.label"@, raw.timezones.label@),
        color_outcome("timezones.time"@, raw.timezones.time@),
        color_outcome("timezones.offset"@, raw.timezones.offset@),
        color_outcome("modal.panel_background"@, raw.modal.panel_background@),
        color_outcome("modal.panel_border"@, raw.modal.panel_border@),
        color_outcome("modal.title"@, raw.modal.title@),
        color_outcome("modal.question"@, raw.modal.question@),
        color_outcome("modal.hint"@, raw.modal.hint@),
        color_outcome("modal.option_default"@, raw.modal.option_default@),
        color_outcome("modal.option_selected_foreground"@, raw.modal.option_selected_foreground@),
        color_outcome("modal.option_selected_background"@, raw.modal.option_selected_background@),
    ];
    let fields = single_fields(raw);
    assert(fields.len() == 17);
    assert forall|j: int| 0 <= j < 17 implies #[trigger] single_outcomes(raw)[j] == listed[j] by {
        assert(single_outcomes(raw)[j] == color_outcome(fields[j].0, fields[j].1));
    }
    assert(single_outcomes(raw) =~= listed);
}

/// A theme that reads successfully has colours in both palettes, so its
/// palette lookups always have a colour to give.
pub proof fn read_theme_has_palettes(theme: Theme, raw: RawThemeFile)
    requires
        theme_outcome(raw) == Outcome::Value(()),
        theme_matches(theme, raw),
    ensures
        theme.clock_digits@.len() > 0,
        theme.timezone_panel_border_accents@.len() > 0,
{
}

} // verus!
