use gh_heat::cell::{
    classify, draw_cell, format_cell, key_cells, number_text, render_mode, Paint, RenderMode,
};

#[test]
fn classify_boundaries() {
    let counts = [4u32, 5, 9, 10, 14, 15, 19, 20];
    let buckets = [1u8, 2, 2, 3, 3, 4, 4, 5];
    for i in 0..counts.len() {
        assert_eq!(classify(counts[i]), buckets[i]);
    }
    assert_eq!(classify(0), 0);
    assert_eq!(classify(1), 1);
    assert_eq!(classify(u32::MAX), 5);
}

#[test]
fn classify_never_falls() {
    let mut last = 0u8;
    for count in 0..200u32 {
        let bucket = classify(count);
        assert!(bucket >= last);
        assert!(bucket <= 5);
        last = bucket;
    }
}

#[test]
fn numbers_come_before_symbols_and_symbols_before_blocks() {
    assert_eq!(render_mode(true, true, true), RenderMode::Numbers);
    assert_eq!(render_mode(false, false, true), RenderMode::Numbers);
    assert_eq!(render_mode(true, true, false), RenderMode::Symbols);
    assert_eq!(render_mode(false, true, false), RenderMode::Symbols);
    assert_eq!(render_mode(true, false, false), RenderMode::DarkBlocks);
    assert_eq!(render_mode(false, false, false), RenderMode::LightBlocks);
}

#[test]
fn symbols_have_their_glyphs_and_colours() {
    let counts = [0u32, 1, 5, 10, 15, 20];
    let glyphs = ["  ", "..", "--", "~~", "**", "##"];
    let paints = [
        Paint::Plain,
        Paint::BrightBlack,
        Paint::Blue,
        Paint::Green,
        Paint::Yellow,
        Paint::Red,
    ];
    for i in 0..6 {
        for dark in [false, true] {
            let cell = format_cell(counts[i], dark, true);
            assert_eq!(cell.text, glyphs[i]);
            assert_eq!(cell.paint, paints[i]);
        }
    }
}

#[test]
fn dark_blocks_follow_the_red_ramp() {
    let counts = [1u32, 5, 10, 15, 20];
    let reds = [59u8, 102, 157, 204, 255];
    assert_eq!(format_cell(0, true, false).paint, Paint::Plain);
    assert_eq!(format_cell(0, true, false).text, "  ");
    for i in 0..5 {
        let cell = format_cell(counts[i], true, false);
        assert_eq!(cell.text, "  ");
        assert_eq!(cell.paint, Paint::Background { red: reds[i], green: 0, blue: 0 });
    }
}

#[test]
fn light_blocks_follow_the_green_ramp() {
    let counts = [1u32, 5, 10, 15, 20];
    let stops = [(220u8, 247u8, 220u8), (153, 237, 153), (85, 219, 85), (44, 160, 44), (0, 109, 0)];
    assert_eq!(format_cell(0, false, false).paint, Paint::Plain);
    for i in 0..5 {
        let cell = format_cell(counts[i], false, false);
        assert_eq!(cell.text, "  ");
        let (red, green, blue) = stops[i];
        assert_eq!(cell.paint, Paint::Background { red, green, blue });
    }
}

#[test]
fn key_shows_each_intensity_once() {
    let key = key_cells(false, true, false);
    let glyphs = ["  ", "..", "--", "~~", "**", "##"];
    assert_eq!(key.len(), 6);
    for i in 0..6 {
        assert_eq!(key[i].text, glyphs[i]);
    }
    let dark = key_cells(true, false, false);
    assert_eq!(dark.len(), 6);
    assert_eq!(dark[0].paint, Paint::Plain);
    assert_eq!(dark[3].paint, Paint::Background { red: 157, green: 0, blue: 0 });
    assert_eq!(dark[5].paint, Paint::Background { red: 255, green: 0, blue: 0 });
}

#[test]
fn numbers_have_no_key() {
    assert!(key_cells(false, false, true).is_empty());
    assert!(key_cells(true, true, true).is_empty());
}

#[test]
fn numbers_stand_to_the_right_of_two_columns() {
    assert_eq!(number_text(0), " 0");
    assert_eq!(number_text(7), " 7");
    assert_eq!(number_text(42), "42");
    assert_eq!(number_text(123), "123");
}

#[test]
fn drawn_cells_follow_the_mode() {
    assert_eq!(draw_cell(7, RenderMode::Numbers), " 7");
    let counts = [0u32, 3, 7, 12, 18, 40];
    let glyphs = ["  ", "..", "--", "~~", "**", "##"];
    for i in 0..6 {
        assert!(draw_cell(counts[i], RenderMode::Symbols).contains(glyphs[i]));
        assert_eq!(format_cell(counts[i], true, true).text, glyphs[i]);
    }
    assert!(draw_cell(7, RenderMode::DarkBlocks).contains("  "));
    assert!(draw_cell(7, RenderMode::LightBlocks).contains("  "));
}

#[test]
fn colours_stand_around_the_glyph_where_they_are_on() {
    let counts = [1u32, 7, 12, 18, 40];
    let glyphs = ["..", "--", "~~", "**", "##"];
    let codes = ["90", "34", "32", "33", "31"];

    colored::control::set_override(true);
    assert_eq!(draw_cell(0, RenderMode::Symbols), "  ");
    assert_eq!(draw_cell(0, RenderMode::DarkBlocks), "  ");
    assert_eq!(draw_cell(0, RenderMode::LightBlocks), "  ");
    for i in 0..5 {
        assert_eq!(
            draw_cell(counts[i], RenderMode::Symbols),
            format!("\x1B[{}m{}\x1B[0m", codes[i], glyphs[i])
        );
        for mode in [RenderMode::DarkBlocks, RenderMode::LightBlocks] {
            let block = draw_cell(counts[i], mode);
            assert!(block.starts_with("\x1B["));
            assert!(block.ends_with("m  \x1B[0m"));
        }
    }

    colored::control::set_override(false);
    for i in 0..5 {
        assert_eq!(draw_cell(counts[i], RenderMode::Symbols), glyphs[i]);
        assert_eq!(draw_cell(counts[i], RenderMode::DarkBlocks), "  ");
        assert_eq!(draw_cell(counts[i], RenderMode::LightBlocks), "  ");
    }
    colored::control::unset_override();
}
