use mochi::color::{to_color, Color, ColorCode};
use mochi::desktop::{Desktop, BODY_COLOR, BORDER_COLOR, DESK_COLOR, POINTER_COLOR, TITLE_COLOR};
use mochi::framebuffer::{clip_rect, pixel_offset, Rect};
use mochi::programs::is_listed;
use mochi::vga::{cell, TextScreen};

fn blank(attr: u8) -> u16 {
    ((attr as u16) << 8) | 0x20
}

#[test]
fn vga_cell_packs_attribute_and_byte() {
    assert_eq!(cell(b'A', ColorCode::new(Color::White, Color::Blue)), 0x1f41);
    assert_eq!(cell(0, ColorCode(0)), 0);
}

#[test]
fn vga_writes_and_wraps() {
    let mut s = TextScreen::new();
    assert!(s.cells().iter().all(|&c| c == blank(0x07)));
    s.write_str(b"hi");
    assert_eq!(s.cells()[0], 0x0768);
    assert_eq!(s.cells()[1], 0x0769);
    assert_eq!(s.cursor(), (0, 2));
    s.write_byte(b'\n');
    assert_eq!(s.cursor(), (1, 0));
    let long = [b'x'; 81];
    s.write_str(&long);
    assert_eq!(s.cursor(), (2, 1));
    assert_eq!(s.cells()[2 * 80], 0x0778);
}

#[test]
fn vga_scrolls_on_last_row() {
    let mut s = TextScreen::new();
    s.write_str(b"top");
    for _ in 0..24 {
        s.newline();
    }
    assert_eq!(s.cursor(), (24, 0));
    s.write_str(b"end");
    s.newline();
    assert_eq!(s.cursor(), (24, 0));
    assert_eq!(s.cells()[0], blank(0x07));
    assert_eq!(s.cells()[23 * 80], 0x0765);
    assert!(s.cells()[24 * 80..].iter().all(|&c| c == blank(0x07)));
}

#[test]
fn vga_line_in_colour_restores_colour() {
    let mut s = TextScreen::new();
    s.writeln_fmt(b"!", Some((Color::Yellow, Color::Red)));
    assert_eq!(s.cells()[0], 0x4e21);
    assert_eq!(s.color().0, 0x07);
    assert_eq!(s.cursor(), (1, 0));
    s.set_color(Color::Green, Color::Black);
    s.write_byte(b'g');
    assert_eq!(s.cells()[80], 0x0267);
}

#[test]
fn rectangles_are_clipped_to_screen() {
    assert_eq!(clip_rect(10, 10, 5, 5, 100, 100), Some(Rect { x: 10, y: 10, w: 5, h: 5 }));
    assert_eq!(clip_rect(90, 95, 50, 50, 100, 100), Some(Rect { x: 90, y: 95, w: 10, h: 5 }));
    assert_eq!(clip_rect(100, 0, 5, 5, 100, 100), None);
    assert_eq!(clip_rect(0, 0, 0, 5, 100, 100), None);
}

#[test]
fn pixel_offsets() {
    assert_eq!(pixel_offset(3, 2, 640, 480, 700), Some((2 * 700 + 3) * 4));
    assert_eq!(pixel_offset(640, 0, 640, 480, 700), None);
    assert_eq!(pixel_offset(0, 480, 640, 480, 700), None);
    assert_eq!(pixel_offset(1, 1, usize::MAX, usize::MAX, usize::MAX), None);
}

#[test]
fn desktop_layout() {
    let d = Desktop::new(Some((800, 600)));
    assert_eq!((d.cell_w, d.cell_h), (10, 24));
    assert_eq!((d.win_w, d.win_h), (480, 360));
    assert_eq!((d.win_x, d.win_y), (133, 100));
    assert_eq!((d.mouse_x, d.mouse_y), (400, 300));
    assert_eq!(d.text_origin(), (14, 6));
    assert_eq!(d.text_columns(), 47);
    assert_eq!(d.text_rows(), 13);
    let small = Desktop::new(None);
    assert_eq!((small.cell_w, small.cell_h), (8, 16));
    assert_eq!((small.win_w, small.win_h), (160, 160));
}

#[test]
fn desktop_drag_by_title_bar() {
    let mut d = Desktop::new(Some((800, 600)));
    let m = d.pointer(-250, -190, false);
    assert_eq!((m.x, m.y), (150, 110));
    assert!(!m.redraw);
    let m = d.pointer(0, 0, true);
    assert!(d.dragging);
    assert!(!m.redraw);
    let m = d.pointer(2, 1, true);
    assert!(m.redraw);
    assert_eq!((d.win_x, d.win_y), (233, 150));
    let m = d.pointer(100, 100, true);
    assert!(m.redraw);
    assert_eq!((d.win_x, d.win_y), (320, 240));
    d.pointer(0, 0, false);
    assert!(!d.dragging);
    let m = d.pointer(5000, 5000, false);
    assert_eq!((m.x, m.y), (799, 599));
}

#[test]
fn desktop_pointer_press_outside_title_does_not_drag() {
    let mut d = Desktop::new(Some((800, 600)));
    d.pointer(0, 0, true);
    assert!(!d.dragging);
    let m = d.pointer(3, 3, true);
    assert!(!m.redraw);
}

#[test]
fn desktop_backgrounds() {
    let d = Desktop::new(Some((800, 600)));
    assert_eq!(DESK_COLOR, to_color(48, 25, 52));
    assert_eq!(BODY_COLOR, to_color(30, 20, 32));
    assert_eq!(TITLE_COLOR, to_color(40, 30, 42));
    assert_eq!(BORDER_COLOR, to_color(50, 40, 52));
    assert_eq!(POINTER_COLOR, to_color(255, 255, 255));
    assert_eq!(d.background_at(0, 0), DESK_COLOR);
    assert_eq!(d.background_at(140, 105), TITLE_COLOR);
    assert_eq!(d.background_at(200, 200), BODY_COLOR);
    assert_eq!(d.background_at(134, 200), BORDER_COLOR);
}

#[test]
fn desktop_text_area() {
    let d = Desktop::new(Some((800, 600)));
    assert_eq!(d.next_text_row(0), 1);
    assert_eq!(d.next_text_row(12), 12);
    assert!(d.accepts_char(45));
    assert!(!d.accepts_char(46));
    assert_eq!(d.padding_after(7), 40);
    assert_eq!(d.padding_after(70), 0);
}

#[test]
fn directory_listing_skips_dot_entries() {
    assert!(!is_listed(&['.']));
    assert!(!is_listed(&['.', '.']));
    assert!(is_listed(&['.', 'x']));
    assert!(is_listed(&['E', 'F', 'I']));
}
