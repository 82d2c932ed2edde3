use clocktui::glyphs::{render_big_clock, GLYPH_ROWS};
use unicode_width::UnicodeWidthStr;

#[test]
fn clock_rows_have_consistent_width() {
    let lines = render_big_clock("10:28:04");
    assert_eq!(lines.len(), GLYPH_ROWS);
    let width = lines[0].width();
    assert!(width > 0);
    for line in lines {
        assert_eq!(line.width(), width);
    }
}

fn expected_glyph(ch: char) -> [&'static str; 7] {
    match ch {
        '0' => [" █████ ", "██   ██", "██   ██", "██   ██", "██   ██", "██   ██", " █████ "],
        '1' => ["   ██  ", " ████  ", "   ██  ", "   ██  ", "   ██  ", "   ██  ", " ██████"],
        '2' => [" █████ ", "██   ██", "    ██ ", "  ███  ", " ██    ", "██     ", "███████"],
        '3' => [" █████ ", "██   ██", "    ██ ", "  ███  ", "    ██ ", "██   ██", " █████ "],
        '4' => ["██   ██", "██   ██", "██   ██", "███████", "     ██", "     ██", "     ██"],
        '5' => ["███████", "██     ", "█████  ", "    ██ ", "    ██ ", "██  ██ ", " ████  "],
        '6' => [" █████ ", "██     ", "█████  ", "██  ██ ", "██   ██", "██   ██", " █████ "],
        '7' => ["███████", "    ██ ", "   ██  ", "  ██   ", " ██    ", " ██    ", " ██    "],
        '8' => [" █████ ", "██   ██", "██   ██", " █████ ", "██   ██", "██   ██", " █████ "],
        '9' => [" █████ ", "██   ██", "██   ██", " ██████", "     ██", "    ██ ", " █████ "],
        ':' => ["   ", "██ ", "██ ", "   ", "██ ", "██ ", "   "],
        _ => [" █████ ", "██   ██", "██   ██", "██   ██", "██   ██", "██   ██", " █████ "],
    }
}

#[test]
fn every_glyph_draws_its_pattern() {
    for ch in ['0', '1', '2', '3', '4', '5', '6', '7', '8', '9', ':', 'x'] {
        let lines = render_big_clock(&ch.to_string());
        let expected = expected_glyph(ch);
        for row in 0..GLYPH_ROWS {
            assert_eq!(lines[row], expected[row], "glyph {ch:?} row {row}");
        }
    }
}

#[test]
fn glyphs_stand_two_columns_apart() {
    let lines = render_big_clock("1:2");
    for row in 0..GLYPH_ROWS {
        let expected = format!(
            "{}  {}  {}",
            expected_glyph('1')[row],
            expected_glyph(':')[row],
            expected_glyph('2')[row]
        );
        assert_eq!(lines[row], expected);
    }
    assert_eq!(lines[0].chars().count(), 7 + 2 + 3 + 2 + 7);
}

#[test]
fn empty_text_gives_seven_empty_rows() {
    let lines = render_big_clock("");
    assert_eq!(lines.len(), GLYPH_ROWS);
    assert!(lines.iter().all(|l| l.is_empty()));
}

#[test]
fn unknown_characters_draw_as_zero() {
    assert_eq!(render_big_clock("a"), render_big_clock("0"));
}
