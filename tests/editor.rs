use scripted_demo::editor::{viewport, Doc, Editor, Line, Span};
use scripted_demo::file_tree::{empty_folder, get_path_list, read_file_tree, EntryInfo};
use scripted_demo::instruction::{Instruction, Rgb};

fn session() -> (Editor, Doc) {
    (Editor::new(0), Doc::new("main.rs".to_string(), empty_folder(), vec![]))
}

fn text_of(line: &Line) -> String {
    line.spans.iter().map(|s| s.text).collect()
}

#[test]
fn move_cursor_extends_buffer() {
    let (mut e, mut d) = session();
    e.apply_inst(Instruction::MoveCursor(5, 3), &mut d, 10);
    assert_eq!(d.lines.len(), 4);
    assert_eq!(d.lines[3].spans.len(), 5);
    assert_eq!(d.lines[3].spans[0], Span::empty());
    assert_eq!((d.buf_cursor_x, d.buf_cursor_y), (5, 3));
    e.apply_inst(Instruction::MoveCursor(0, 1), &mut d, 10);
    assert_eq!(d.lines.len(), 4);
    assert_eq!(d.lines[1].spans.len(), 0);
}

#[test]
fn viewport_scrolls_down_and_up() {
    let (mut e, mut d) = session();
    e.apply_inst(Instruction::MoveCursor(0, 10), &mut d, 3);
    assert_eq!((d.scroll_y, d.screen_cursor_y), (8, 2));
    e.apply_inst(Instruction::MoveCursor(0, 9), &mut d, 3);
    assert_eq!((d.scroll_y, d.screen_cursor_y), (8, 1));
    e.apply_inst(Instruction::MoveCursor(0, 2), &mut d, 3);
    assert_eq!((d.scroll_y, d.screen_cursor_y), (2, 0));
    assert_eq!(viewport(0, 0, 1), (0, 0));
    assert_eq!(viewport(4, 4, 1), (4, 0));
    assert_eq!(viewport(0, 7, 1), (7, 0));
}

#[test]
fn typing_inserts_rather_than_overwrites() {
    let (mut e, mut d) = session();
    let red = Rgb { r: 255, g: 0, b: 0 };
    e.apply_inst(Instruction::Type('a', false), &mut d, 5);
    e.apply_inst(Instruction::SetForeground(red), &mut d, 5);
    e.apply_inst(Instruction::Type('b', true), &mut d, 5);
    e.apply_inst(Instruction::SetX(0), &mut d, 5);
    e.apply_inst(Instruction::Type('c', false), &mut d, 5);
    assert_eq!(text_of(&d.lines[0]), "cab");
    assert_eq!(d.lines[0].spans[2], Span::new('b', red, true));
    assert_eq!(d.lines[0].spans[1], Span::new('a', Rgb::white(), false));
    assert_eq!(e.cursor_x, 1);
    assert_eq!(d.screen_cursor_x, 1);
}

#[test]
fn newline_moves_to_next_row() {
    let (mut e, mut d) = session();
    e.apply_inst(Instruction::Type('x', false), &mut d, 1);
    e.apply_inst(Instruction::Newline { x: 2 }, &mut d, 1);
    assert_eq!((e.cursor_x, e.cursor_y), (2, 1));
    assert_eq!(d.lines.len(), 2);
    assert_eq!(d.lines[1].spans.len(), 2);
    assert_eq!((d.scroll_y, d.screen_cursor_y), (1, 0));
}

#[test]
fn wait_hide_and_key() {
    let (mut e, mut d) = session();
    assert!(!d.waiting && d.show_cursor);
    e.apply_inst(Instruction::Wait, &mut d, 4);
    assert!(d.waiting);
    e.on_key(&mut d);
    assert!(!d.waiting);
    e.apply_inst(Instruction::HideCursor, &mut d, 4);
    assert!(!d.show_cursor);
    e.apply_inst(Instruction::WaitForQuit, &mut d, 4);
    assert_eq!(d.lines.len(), 1);
}

#[test]
fn focus_resets_buffer_and_typing_regrows_it() {
    let (mut e, mut d) = session();
    e.apply_inst(Instruction::MoveCursor(1, 2), &mut d, 4);
    let tree = read_file_tree(vec![EntryInfo {
        name: "lib.rs".to_string(),
        is_dir: false,
        is_file: true,
        holds_focus: false,
    }]);
    e.update_focus(&mut d, "src/lib.rs".to_string(), 7, tree.clone(), vec!["src".to_string(), "  lib.rs".to_string()]);
    assert_eq!(e.ack, 7);
    assert_eq!(d.lines.len(), 0);
    assert_eq!(d.title, "src/lib.rs");
    assert_eq!(d.file_name, "  lib.rs");
    assert_eq!(d.folder_list, vec!["src".to_string()]);
    assert_eq!(d.tree, tree);
    e.apply_inst(Instruction::Type('z', false), &mut d, 4);
    assert_eq!(d.lines.len(), 3);
    assert_eq!(text_of(&d.lines[2]), " z");
}

#[test]
fn doc_new_takes_file_name_from_breadcrumbs() {
    let d = Doc::new("t".to_string(), empty_folder(), vec!["a".to_string(), "  b.rs".to_string()]);
    assert_eq!(d.file_name, "  b.rs");
    assert_eq!(d.folder_list, vec!["a".to_string()]);
    assert_eq!(d.lines.len(), 1);
    let d = Doc::new("t".to_string(), empty_folder(), vec![]);
    assert_eq!(d.file_name, "");
}

#[test]
fn file_tree_filters_entries() {
    let e = |name: &str, is_dir: bool, is_file: bool, holds_focus: bool| EntryInfo {
        name: name.to_string(),
        is_dir,
        is_file,
        holds_focus,
    };
    let f = read_file_tree(vec![
        e("src", true, false, true),
        e("target", true, false, false),
        e(".git", true, false, false),
        e("docs", true, false, false),
        e("README.md", false, true, false),
        e("link", false, false, false),
        e("gitx", false, true, false),
    ]);
    assert_eq!(f.folders, vec!["docs".to_string()]);
    assert_eq!(f.files, vec!["README.md".to_string(), "gitx".to_string()]);
}

#[test]
fn path_list_indents_by_depth() {
    let list = get_path_list(&vec![Some("src".to_string()), None, Some("main.rs".to_string())]);
    assert_eq!(list, vec!["src".to_string(), "    main.rs".to_string()]);
    assert_eq!(get_path_list(&vec![]), Vec::<String>::new());
}
