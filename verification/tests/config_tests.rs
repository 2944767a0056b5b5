use textframe::config::{FrameConfig, FRAME_BG, SPACE};

#[test]
fn builder_starts_from_defaults() {
    let config = FrameConfig::new();
    assert_eq!(config.border_thickness, 1);
    assert_eq!(config.padding, 1);
    assert_eq!(config.margin, 1);
    assert_eq!(config.width, 80);
    assert_eq!(config.height, 24);
    assert_eq!(config.space_char, ' ');
    assert_eq!(config.frame_char, '▓');
}

#[test]
fn default_glyph_constants() {
    assert_eq!(SPACE, ' ');
    assert_eq!(FRAME_BG, '\u{2593}');
}

#[test]
fn default_trait_gives_the_same_as_new() {
    assert_eq!(FrameConfig::default(), FrameConfig::new());
}

#[test]
fn each_builder_replaces_one_field() {
    let base = FrameConfig::new();
    assert_eq!(base.with_space_char('.'), FrameConfig { space_char: '.', ..base });
    assert_eq!(base.with_frame_char('#'), FrameConfig { frame_char: '#', ..base });
    assert_eq!(base.with_border_thickness(3), FrameConfig { border_thickness: 3, ..base });
    assert_eq!(base.with_padding(4), FrameConfig { padding: 4, ..base });
    assert_eq!(base.with_margin(5), FrameConfig { margin: 5, ..base });
    assert_eq!(base.with_width(120), FrameConfig { width: 120, ..base });
    assert_eq!(base.with_height(40), FrameConfig { height: 40, ..base });
}

#[test]
fn builders_chain() {
    let config = FrameConfig::new()
        .with_border_thickness(2)
        .with_padding(2)
        .with_margin(2)
        .with_width(100)
        .with_height(30)
        .with_space_char('.')
        .with_frame_char('*');
    assert_eq!(
        config,
        FrameConfig {
            border_thickness: 2,
            padding: 2,
            margin: 2,
            width: 100,
            height: 30,
            space_char: '.',
            frame_char: '*',
        }
    );
}

#[test]
fn a_later_builder_call_wins() {
    let config = FrameConfig::new().with_margin(7).with_margin(0);
    assert_eq!(config.margin, 0);
}

#[test]
fn geometry_of_the_defaults() {
    let config = FrameConfig::new();
    assert_eq!(config.framespace(), Some(6));
    assert_eq!(config.content_width(), 74);
    assert_eq!(config.content_height(), 18);
    assert_eq!(config.frame_width(), 78);
}

#[test]
fn geometry_of_a_small_surface() {
    let config = FrameConfig::new().with_width(20).with_height(10);
    assert_eq!(config.framespace(), Some(6));
    assert_eq!(config.content_width(), 14);
    assert_eq!(config.content_height(), 4);
    assert_eq!(config.frame_width(), 18);
}

#[test]
fn content_height_of_a_surface_that_the_frame_fills() {
    let config = FrameConfig::new().with_width(10).with_height(6);
    assert_eq!(config.content_width(), 4);
    assert_eq!(config.content_height(), 0);
}

#[test]
fn content_area_is_clamped_at_zero() {
    let config = FrameConfig::new().with_width(5).with_height(3);
    assert_eq!(config.framespace(), Some(6));
    assert_eq!(config.content_width(), 0);
    assert_eq!(config.content_height(), 0);
}

#[test]
fn frame_width_is_clamped_at_zero() {
    let config = FrameConfig::new().with_margin(6).with_width(11);
    assert_eq!(config.frame_width(), 0);
    let config = FrameConfig::new().with_margin(6).with_width(12);
    assert_eq!(config.frame_width(), 0);
    let config = FrameConfig::new().with_margin(6).with_width(13);
    assert_eq!(config.frame_width(), 1);
}

#[test]
fn geometry_without_frame() {
    let config = FrameConfig::new()
        .with_border_thickness(0)
        .with_padding(0)
        .with_margin(0)
        .with_width(7)
        .with_height(3);
    assert_eq!(config.framespace(), Some(0));
    assert_eq!(config.content_width(), 7);
    assert_eq!(config.content_height(), 3);
    assert_eq!(config.frame_width(), 7);
}

#[test]
fn sizes_beyond_the_machine_word_do_not_wrap_around() {
    let config = FrameConfig::new().with_padding(usize::MAX);
    assert_eq!(config.framespace(), None);
    assert_eq!(config.content_width(), 0);
    assert_eq!(config.content_height(), 0);

    let config = FrameConfig::new()
        .with_border_thickness(0)
        .with_margin(0)
        .with_padding(usize::MAX / 2 + 1);
    assert_eq!(config.framespace(), None);
    assert_eq!(config.content_width(), 0);

    let config = FrameConfig::new().with_margin(usize::MAX);
    assert_eq!(config.frame_width(), 0);
    assert_eq!(config.framespace(), None);
}

#[test]
fn largest_framespace_that_fits() {
    let config = FrameConfig::new()
        .with_border_thickness(0)
        .with_margin(0)
        .with_padding(usize::MAX / 2)
        .with_width(usize::MAX);
    assert_eq!(config.framespace(), Some(usize::MAX - 1));
    assert_eq!(config.content_width(), 1);
}
