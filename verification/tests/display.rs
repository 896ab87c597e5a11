use startchatgpt::config::ProxySetting;
use startchatgpt::display::{
    connection_text, font_search_done, font_width, ink_bounds, ink_fits, ink_origin, initial_font_size,
    mask_length, rgb, spinner_color, stale_note, status_text, Bounds, GlyphBox,
};

#[test]
fn splash_names_the_connection() {
    assert_eq!(
        connection_text(&ProxySetting::Proxy("http://127.0.0.1:10808".into())),
        "正在通过代理连接  http://127.0.0.1:10808"
    );
    assert_eq!(connection_text(&ProxySetting::Direct), "正在直接连接");
}

#[test]
fn status_words_follow_the_state() {
    assert_eq!(status_text(false, true, true), "未连接");
    assert_eq!(status_text(false, false, true), "连接中");
    assert_eq!(status_text(true, true, true), "已过期");
    assert_eq!(status_text(true, false, false), "剩余");
    assert_eq!(stale_note(true), "\n数据已过期");
    assert_eq!(stale_note(false), "\n正在连接 / 暂无数据");
}

#[test]
fn colours_pack_red_green_blue() {
    assert_eq!(rgb(28, 31, 36), 0x00241f1c);
    assert_eq!(rgb(255, 0, 0), 0xff);
    assert_eq!(rgb(0, 0, 255), 0xff0000);
}

#[test]
fn spinner_fades_behind_its_phase() {
    assert_eq!(spinner_color(3, 3), (103, 230, 188));
    assert_eq!(spinner_color(2, 3).1, 68);
    assert_eq!(spinner_color(4, 3).1, 212);
    assert_eq!(spinner_color(0, 9).1, 212);
}

#[test]
fn ink_bounds_cover_every_glyph() {
    let glyphs = vec![
        GlyphBox { origin_x: 1, origin_y: 10, black_box_x: 6, black_box_y: 10, cell_inc_x: 8 },
        GlyphBox { origin_x: 0, origin_y: 11, black_box_x: 7, black_box_y: 11, cell_inc_x: 8 },
    ];
    assert_eq!(
        ink_bounds(12, &glyphs),
        Bounds { left: 1, top: 1, right: 15, bottom: 12 }
    );
    assert_eq!(
        ink_bounds(12, &vec![]),
        Bounds { left: i32::MAX, top: i32::MAX, right: i32::MIN, bottom: i32::MIN }
    );
}

#[test]
fn icon_layout_centres_the_ink() {
    assert_eq!(initial_font_size(16), 24);
    assert_eq!(font_width(24, 3), 8);
    assert_eq!(font_width(7, 3), 3);
    assert_eq!(font_width(24, 2), 0);
    let ink = Bounds { left: 1, top: 2, right: 14, bottom: 13 };
    assert!(ink_fits(Some(ink), 16));
    assert!(!ink_fits(Some(ink), 14));
    assert!(!ink_fits(None, 48));
    assert!(font_search_done(false, 5));
    assert!(!font_search_done(false, 6));
    assert_eq!(ink_origin(16, ink), (0, 0));
    assert_eq!(mask_length(16), 32);
    assert_eq!(mask_length(20), 80);
}

#[test]
fn icon_arithmetic_reaches_the_limits_of_i32() {
    assert_eq!(initial_font_size(-5), -7);
    assert_eq!(initial_font_size(715827882), 1073741823);
    assert_eq!(mask_length(0), 0);
    assert_eq!(mask_length(46340), 46340 / 16 * 2 * 46340 + 2 * 46340);
}
