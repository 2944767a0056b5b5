use textframe::config::FrameConfig;
use textframe::engine::{ConfigurationError, FrameEngine};
use textframe::surface::{FrameRender, MemoryFrame, RenderOp};

fn small() -> FrameConfig {
    FrameConfig::new().with_width(20).with_height(10).with_frame_char('#')
}

fn engine(config: &FrameConfig, width: usize, height: usize) -> FrameEngine<MemoryFrame> {
    match FrameEngine::new(config, MemoryFrame::with_dimensions(width, height)) {
        Ok(engine) => engine,
        Err(error) => panic!("unexpected {:?}", error),
    }
}

fn lines_of(ops: &[RenderOp]) -> Vec<String> {
    let mut lines = Vec::new();
    for op in ops {
        if let RenderOp::Line(line) = op {
            lines.push(line.clone());
        }
    }
    lines
}

fn owned(items: &[&str]) -> Vec<String> {
    items.iter().map(|s| s.to_string()).collect()
}

#[test]
fn the_surface_is_authoritative_for_the_size() {
    let config = FrameConfig::new().with_width(200).with_height(100).with_margin(2);
    let engine = engine(&config, 20, 10);
    assert_eq!(*engine.config(), config.with_width(20).with_height(10));
    assert!(engine.frame_buffer().is_empty());
    assert!(engine.render_engine().ops().is_empty());
    assert_eq!(engine.render_engine().dimensions(), (20, 10));
}

#[test]
fn a_surface_without_width_is_refused() {
    let result = FrameEngine::new(&FrameConfig::new(), MemoryFrame::with_dimensions(0, 10));
    assert_eq!(result.err(), Some(ConfigurationError { width: 0, height: 10 }));
}

#[test]
fn a_surface_without_height_is_refused() {
    let result = FrameEngine::new(&FrameConfig::new(), MemoryFrame::with_dimensions(20, 0));
    assert_eq!(result.err(), Some(ConfigurationError { width: 20, height: 0 }));
}

#[test]
fn a_surface_without_any_cell_is_refused() {
    let result = FrameEngine::new(&FrameConfig::new(), MemoryFrame::with_dimensions(0, 0));
    assert_eq!(result.err(), Some(ConfigurationError { width: 0, height: 0 }));
}

#[test]
fn a_surface_of_one_cell_is_accepted() {
    let result = FrameEngine::new(&FrameConfig::new(), MemoryFrame::with_dimensions(1, 1));
    assert!(result.is_ok());
}

#[test]
fn the_sixteen_character_line_on_the_small_surface() {
    let mut engine = engine(&small(), 20, 10);
    engine.update("abcdefghijklmnop");

    assert_eq!(engine.config().content_width(), 14);
    assert_eq!(engine.config().content_height(), 4);
    assert_eq!(*engine.frame_buffer(), owned(&["abcdefghijklmn", "op"]));

    let ops = engine.render_engine().ops();
    assert_eq!(ops.len(), 12);
    assert_eq!(ops[0], RenderOp::Clear(' '));
    assert_eq!(ops[1], RenderOp::ResetCursor);
    let lines = lines_of(ops);
    assert_eq!(
        lines,
        owned(&[
            "                    ",
            " ##################",
            " #                #",
            " # abcdefghijklmn #",
            " # op             #",
            " #                #",
            " #                #",
            " #                #",
            " #                #",
            " ##################",
        ])
    );
    assert_eq!(lines.len(), 10);
    let second_chunk = format!("{}{}{}{}{}{}{}", " ", "#", " ", "op", " ".repeat(12), " ", "#");
    assert_eq!(lines[4], second_chunk);
}

#[test]
fn a_frame_that_leaves_no_content_row() {
    let config = FrameConfig::new().with_frame_char('#');
    let mut engine = engine(&config, 10, 6);
    assert_eq!(engine.config().content_width(), 4);
    assert_eq!(engine.config().content_height(), 0);

    engine.update("hi");

    assert!(engine.frame_buffer().is_empty());
    let ops = engine.render_engine().ops();
    assert_eq!(ops[0], RenderOp::Clear(' '));
    assert_eq!(ops[1], RenderOp::ResetCursor);
    assert_eq!(
        lines_of(ops),
        owned(&[
            "          ",
            " ########",
            " #      #",
            " #      #",
            " #      #",
            " ########",
        ])
    );
}

#[test]
fn empty_content_leaves_the_surface_blank() {
    let mut engine = engine(&small(), 20, 10);
    engine.update("");
    assert!(engine.frame_buffer().is_empty());
    assert_eq!(*engine.render_engine().ops(), vec![RenderOp::Clear(' ')]);
}

#[test]
fn empty_content_after_a_painted_frame_blanks_it() {
    let mut engine = engine(&small(), 20, 10);
    engine.update("hello");
    assert_eq!(engine.render_engine().ops().len(), 12);
    engine.update("");
    assert_eq!(*engine.render_engine().ops(), vec![RenderOp::Clear(' ')]);
    assert!(engine.frame_buffer().is_empty());
}

#[test]
fn a_single_line_feed_is_content() {
    let mut engine = engine(&small(), 20, 10);
    engine.update("\n");
    assert_eq!(*engine.frame_buffer(), owned(&[""]));
    assert_eq!(engine.render_engine().ops().len(), 12);
}

#[test]
fn the_clear_uses_the_fill_glyph() {
    let mut engine = engine(&small().with_space_char('.'), 20, 10);
    engine.update("op");
    let ops = engine.render_engine().ops();
    assert_eq!(ops[0], RenderOp::Clear('.'));
    assert_eq!(lines_of(ops)[3], " # op.............#");
}

#[test]
fn content_with_more_lines_than_rows_is_cropped() {
    let mut engine = engine(&small(), 20, 10);
    engine.update("one\ntwo\nthree\nfour\nfive\nsix");

    assert_eq!(*engine.frame_buffer(), owned(&["one", "two", "three", "four"]));
    let lines = lines_of(engine.render_engine().ops());
    assert_eq!(
        lines,
        owned(&[
            "                    ",
            " ##################",
            " #                #",
            " # one            #",
            " # two            #",
            " # three          #",
            " # four           #",
            " #                #",
            " #                #",
            " ##################",
        ])
    );
    for line in &lines {
        assert!(!line.contains("five"));
        assert!(!line.contains("six"));
    }
}

#[test]
fn what_is_cropped_has_no_part_in_the_output() {
    let mut first = engine(&small(), 20, 10);
    first.update("one\ntwo\nthree\nfour\nfive\nsix");
    let mut second = engine(&small(), 20, 10);
    second.update("one\ntwo\nthree\nfour\nsomething else altogether that also wraps");
    assert_eq!(first.render_engine().ops(), second.render_engine().ops());
    assert_eq!(first.frame_buffer(), second.frame_buffer());
}

#[test]
fn wrapped_chunks_count_towards_the_crop() {
    let mut engine = engine(&small(), 20, 10);
    engine.update("abcdefghijklmnopqrstuvwxyzabcdefghijklmnopqrstuvwxyzabcdefghijklmnopqrstuvwxyz");
    assert_eq!(
        *engine.frame_buffer(),
        owned(&["abcdefghijklmn", "opqrstuvwxyzab", "cdefghijklmnop", "qrstuvwxyzabcd"])
    );
    assert_eq!(lines_of(engine.render_engine().ops()).len(), 10);
}

#[test]
fn two_identical_updates_emit_the_same() {
    let mut engine = engine(&small(), 20, 10);
    engine.update("abcdefghijklmnop\nsecond line");
    let first: Vec<RenderOp> = engine.render_engine().ops().clone();
    let buffer: Vec<String> = engine.frame_buffer().clone();

    engine.update("abcdefghijklmnop\nsecond line");
    assert_eq!(*engine.render_engine().ops(), first);
    assert_eq!(*engine.frame_buffer(), buffer);
}

#[test]
fn an_update_does_not_depend_on_the_one_before() {
    let mut fresh = engine(&small(), 20, 10);
    fresh.update("target");
    let expected: Vec<RenderOp> = fresh.render_engine().ops().clone();

    let mut used = engine(&small(), 20, 10);
    used.update("something\nelse\nthat\nfills\nthe\nframe");
    used.update("target");
    assert_eq!(*used.render_engine().ops(), expected);
}

#[test]
fn an_update_keeps_configuration_and_size() {
    let mut engine = engine(&small().with_margin(2), 30, 12);
    let config = *engine.config();
    engine.update("hello\nworld");
    assert_eq!(*engine.config(), config);
    assert_eq!(engine.render_engine().dimensions(), (30, 12));
}

#[test]
fn every_update_emits_as_many_lines_as_the_surface_has_rows() {
    let contents = ["x", "a\nb", "a\nb\nc\nd", "a\nb\nc\nd\ne\nf\ng", "\n\n\n"];
    for content in contents {
        let mut engine = engine(&FrameConfig::new(), 40, 15);
        engine.update(content);
        assert_eq!(lines_of(engine.render_engine().ops()).len(), 15);
    }
}

#[test]
fn without_margin_every_emitted_line_spans_the_surface() {
    let config = FrameConfig::new().with_margin(0).with_padding(2);
    let contents = ["x", "a long line that has to be wrapped more than once", "a\n\nb"];
    for content in contents {
        let mut engine = engine(&config, 17, 12);
        engine.update(content);
        let lines = lines_of(engine.render_engine().ops());
        assert_eq!(lines.len(), 12);
        for line in &lines {
            assert_eq!(line.chars().count(), 17);
        }
    }
}

#[test]
fn with_a_margin_the_framed_lines_end_at_the_right_border() {
    let config = FrameConfig::new().with_margin(3);
    let mut engine = engine(&config, 30, 14);
    engine.update("some text that is long enough to wrap at this width");
    let lines = lines_of(engine.render_engine().ops());
    assert_eq!(lines.len(), 14);
    for (i, line) in lines.iter().enumerate() {
        let expected = if i < 3 { 30 } else { 27 };
        assert_eq!(line.chars().count(), expected);
    }
}

#[test]
fn memory_frame_starts_at_the_default_size() {
    let surface = MemoryFrame::new();
    assert_eq!(surface.dimensions(), (80, 24));
    assert!(surface.ops().is_empty());
}

#[test]
fn memory_frame_records_in_order() {
    let mut surface = MemoryFrame::with_dimensions(4, 2);
    surface.clear('.');
    surface.reset_cursor();
    surface.render_line("ab");
    surface.render_line("");
    assert_eq!(
        *surface.ops(),
        vec![
            RenderOp::Clear('.'),
            RenderOp::ResetCursor,
            RenderOp::Line("ab".to_string()),
            RenderOp::Line(String::new()),
        ]
    );
    assert_eq!(surface.dimensions(), (4, 2));
}

#[test]
fn memory_frame_keeps_everything_until_the_first_clear() {
    let mut surface = MemoryFrame::with_dimensions(4, 2);
    surface.render_line("ab");
    surface.reset_cursor();
    surface.render_line("cd");
    assert_eq!(
        *surface.ops(),
        vec![
            RenderOp::Line("ab".to_string()),
            RenderOp::ResetCursor,
            RenderOp::Line("cd".to_string()),
        ]
    );
}

#[test]
fn a_clear_starts_the_record_anew() {
    let mut surface = MemoryFrame::with_dimensions(4, 2);
    surface.clear('.');
    surface.render_line("ab");
    surface.clear('#');
    assert_eq!(*surface.ops(), vec![RenderOp::Clear('#')]);
    surface.render_line("cd");
    assert_eq!(
        *surface.ops(),
        vec![RenderOp::Clear('#'), RenderOp::Line("cd".to_string())]
    );
    surface.clear('#');
    surface.clear(' ');
    assert_eq!(*surface.ops(), vec![RenderOp::Clear(' ')]);
}
