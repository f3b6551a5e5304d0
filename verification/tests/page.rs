//! Pages on their canvas.

use os101::window::browser::{
    viewport, Viewport, BROWSER_FIELD_BG, BROWSER_FIELD_FOCUS, BROWSER_GUTTER,
};
use os101::window::draw::DrawCmd;
use os101::window::page::{draw_page, render_page, FieldText, PageItem, Place, BROWSER_FIELD_TEXT};

/// A canvas of 300 by 100 pixels at (100, 50), scrolled by 20.
fn canvas() -> Viewport {
    viewport(100, 50, 300, 100, 20)
}

fn at(x: i64, y: i64, w: i64, h: i64) -> Place {
    Place { x, y, w, h }
}

fn drawn(items: Vec<PageItem>) -> Vec<DrawCmd> {
    let mut out = Vec::new();
    draw_page(&mut out, &canvas(), &items, 0xffffff);
    out
}

fn fills(v: &[DrawCmd]) -> Vec<(usize, usize, usize, usize, u32)> {
    v.iter()
        .filter_map(|c| match c {
            DrawCmd::Fill { x, y, w, h, color } => Some((*x, *y, *w, *h, *color)),
            _ => None,
        })
        .collect()
}

fn text(place: Place, underline: bool, strike: bool) -> PageItem {
    PageItem::Text {
        place,
        text: "hello".to_string(),
        color: 0x112233,
        size: 1,
        bold: true,
        underline,
        strike,
    }
}

#[test]
fn boxes_are_cut_to_the_canvas() {
    let boxes = drawn(vec![
        PageItem::Solid { place: at(0, 0, 1000, 1000), color: 1 },
        PageItem::Solid { place: at(10, 30, 20, 0), color: 2 },
        PageItem::Solid { place: at(0, -40, 20, 10), color: 3 },
        PageItem::Solid { place: at(500, 30, 20, 10), color: 4 },
    ]);
    assert_eq!(fills(&boxes), vec![(104, 50, 288, 100, 1), (114, 64, 20, 1, 2)]);
    assert_eq!(100 + 300 - BROWSER_GUTTER, 104 + 288);
}

#[test]
fn text_has_its_lines() {
    let v = drawn(vec![text(at(8, 30, 35, 16), true, true)]);
    assert_eq!(v.len(), 3);
    match &v[0] {
        DrawCmd::Styled { x, y, text, fg, bg, max_w, size, bold, top, bottom } => {
            assert_eq!((*x, *y, text.as_str()), (112, 64, "hello"));
            assert_eq!((*fg, *bg, *max_w), (0x112233, 0xffffff, 280));
            assert_eq!((*size, *bold, *top, *bottom), (1, true, 50, 150));
        }
        _ => panic!("text comes first"),
    }
    assert_eq!(fills(&v), vec![(112, 78, 35, 1, 0x112233), (112, 72, 35, 1, 0x112233)]);
}

#[test]
fn text_above_the_view_keeps_what_is_on_it() {
    let v = drawn(vec![text(at(-5, 6, 400, 16), true, true)]);
    match &v[0] {
        DrawCmd::Styled { x, y, max_w, .. } => assert_eq!((*x, *y, *max_w), (104, 40, 288)),
        _ => panic!("text comes first"),
    }
    assert_eq!(fills(&v), vec![(104, 54, 288, 1, 0x112233)]);
    assert!(drawn(vec![text(at(0, 0, 35, 16), true, true)]).is_empty());
    assert!(drawn(vec![text(at(0, 116, 35, 16), true, true)]).is_empty());
    assert!(drawn(vec![text(at(288, 30, 35, 16), true, true)]).is_empty());
}

fn field(focused: bool, caret_col: usize) -> PageItem {
    PageItem::Field {
        place: at(0, 30, 60, 40),
        button: false,
        supported: true,
        focused,
        text: Some(FieldText {
            rows: vec!["ab".to_string(), "c".to_string()],
            caret_row: 1,
            caret_col,
            inset: 4,
            char_w: 7,
            row_h: 16,
            size: 0,
        }),
    }
}

#[test]
fn fields_show_what_is_typed_and_the_caret() {
    let v = drawn(vec![field(true, 1)]);
    let rows: Vec<(usize, i64, &str, usize)> = v
        .iter()
        .filter_map(|c| match c {
            DrawCmd::Styled { x, y, text, max_w, .. } => Some((*x, *y, text.as_str(), *max_w)),
            _ => None,
        })
        .collect();
    assert_eq!(rows, vec![(108, 68, "ab", 52), (108, 84, "c", 52)]);
    let f = fills(&v);
    assert_eq!(f[0], (104, 64, 60, 40, BROWSER_FIELD_BG));
    assert_eq!(f[1], (104, 64, 1, 40, BROWSER_FIELD_FOCUS));
    assert_eq!(f.last(), Some(&(115, 84, 1, 16, BROWSER_FIELD_TEXT)));
    assert_eq!(fills(&drawn(vec![field(true, 8)])).len(), f.len() - 1);
    assert_eq!(fills(&drawn(vec![field(false, 1)])).len(), f.len() - 1);
}

#[test]
fn pictures_wait_until_they_have_arrived() {
    let picture = |loaded| vec![PageItem::Picture { place: at(10, 0, 0, 200), loaded }];
    assert!(drawn(picture(None)).is_empty());
    let v = drawn(picture(Some(7)));
    match &v[..] {
        [DrawCmd::Scaled { x, y, w, h, picture, right, top, bottom }] => {
            assert_eq!((*x, *y, *w, *h, *picture), (114, 34, 1, 200, 7));
            assert_eq!((*right, *top, *bottom), (392, 50, 150));
        }
        _ => panic!("one picture"),
    }
}

#[test]
fn a_canvas_has_its_ground_and_its_thumb() {
    let mut out = Vec::new();
    let items = vec![PageItem::Solid { place: at(0, 30, 5, 5), color: 9 }];
    render_page(&mut out, (100, 50, 300, 100), &items, 1000, 20, 0xfafafa);
    let f = fills(&out);
    assert_eq!(f[0], (100, 50, 300, 100, 0xfafafa));
    assert_eq!(f[1], (104, 64, 5, 5, 9));
    assert_eq!(f.len(), 4);
    let mut short = Vec::new();
    render_page(&mut short, (100, 50, 300, 100), &items, 10, 0, 0xfafafa);
    assert_eq!(fills(&short).len(), 2);
}
