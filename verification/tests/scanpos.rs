use vidcore::video::scanpos::{DrawIter, ScanPos};
use vidcore::video::Page;
use vidcore::Model;

#[test]
fn lores_addresses() {
    let counters = counters();
    let posns = posns();
    for i in 0..17030 {
        let expected = addr_lores(counters[i], Page::One, Model::IIe);
        let got = posns[i].addr_lores(Page::One, Model::IIe);
        assert_eq!(
            expected, got,
            "expected {:04x}, got {:04x} for {}.{}",
            expected, got, posns[i].line, posns[i].col
        );
    }
}

#[test]
fn hires_addresses() {
    let counters = counters();
    let posns = posns();
    for i in 0..17030 {
        let expected = addr_hires(counters[i], Page::One);
        let got = posns[i].addr_hires(Page::One);
        assert_eq!(
            expected, got,
            "expected {:04x}, got {:04x} for {}.{}",
            expected, got, posns[i].line, posns[i].col
        );
    }
}

fn addr_base(counter: (u16, u16)) -> u16 {
    let vert = counter.0 & 0b11111111;
    let horiz = counter.1 & 0b111111;
    let a2a1a0 = horiz & 0b111;
    let a9a8a7 = ((vert >> 3) & 0b111) << 7;
    let v4v3v4v3 = ((vert & 0b11000000) >> 4) | (vert >> 6);
    let h5h4h3 = horiz >> 3;
    let a6a5a4a3 = ((0b1101 + h5h4h3 + v4v3v4v3) & 0b1111) << 3;
    a9a8a7 | a6a5a4a3 | a2a1a0
}

fn addr_lores(counter: (u16, u16), page: Page, model: Model) -> u16 {
    let addr = addr_base(counter) | (0x400 << page_shift(page));
    if model.precedes(Model::IIe) && (counter.1 < 0b1011000) {
        addr | 0x1000
    } else {
        addr
    }
}

fn addr_hires(counter: (u16, u16), page: Page) -> u16 {
    let addr = addr_base(counter) | (0x2000 << page_shift(page));
    addr | ((counter.0 & 0b111) << 10)
}

fn page_shift(page: Page) -> u32 {
    match page {
        Page::One => 0,
        Page::Two => 1,
    }
}

fn counters() -> Vec<(u16, u16)> {
    let mut counters = vec![];
    let mut v_count = 0b100000000;
    let mut h_count = 0b0000000;
    loop {
        counters.push((v_count, h_count));
        if h_count == 0 {
            h_count = 0b1000000;
        } else if h_count == 0b1111111 {
            h_count = 0;
            if v_count == 0b111111111 {
                v_count = 0b011111010;
            } else if v_count == 0b011111111 {
                break;
            } else {
                v_count = v_count + 1;
            }
        } else {
            h_count = h_count + 1;
        }
    }
    counters
}

fn posns() -> Vec<ScanPos> {
    let mut posns = vec![];
    for line in 0..262 {
        for col in 0..65 {
            posns.push(ScanPos { line, col });
        }
    }
    posns
}

#[test]
fn blank() {
    assert!(lines(new_pos(0, 0), new_pos(0, 25)).is_empty());
    assert!(lines(new_pos(0, 25), new_pos(0, 24)).is_empty());
    assert!(lines(new_pos(1, 25), new_pos(0, 26)).is_empty());
    assert!(lines(new_pos(192, 25), new_pos(193, 25)).is_empty());
}

#[test]
fn non_blank() {
    let draw_lines = lines(new_pos(0, 0), new_pos(0, 26));
    assert_eq!(draw_lines.len(), 1);
    assert!(draw_lines.iter().all(visible));

    let draw_lines = lines(new_pos(0, 25), new_pos(1, 0));
    assert_eq!(draw_lines.len(), 1);
    assert!(draw_lines.iter().all(visible));

    let draw_lines = lines(new_pos(0, 0), new_pos(262, 0));
    assert_eq!(draw_lines.len(), 192);
    assert!(draw_lines.iter().all(visible));
}

#[test]
fn span_values() {
    assert_eq!(lines(new_pos(0, 0), new_pos(0, 26)), vec![(0, 25, 26)]);
    assert_eq!(lines(new_pos(0, 25), new_pos(1, 0)), vec![(0, 25, 65)]);
    assert_eq!(
        lines(new_pos(10, 30), new_pos(12, 40)),
        vec![(10, 30, 65), (11, 25, 65), (12, 25, 40)]
    );
}

#[test]
fn spans_cover_each_line_once() {
    let draw_lines = lines(new_pos(0, 0), new_pos(262, 0));
    for (i, d) in draw_lines.iter().enumerate() {
        assert_eq!(d.0, i as u16);
        assert_eq!(d.1, 25);
        assert_eq!(d.2, 65);
    }
}

fn new_pos(line: u16, col: u16) -> ScanPos {
    ScanPos { line, col }
}

fn lines(start: ScanPos, end: ScanPos) -> Vec<(u16, u16, u16)> {
    let mut iter = DrawIter::new(start, end);
    let mut v = vec![];
    while let Some(span) = iter.next() {
        v.push(span);
    }
    v
}

fn visible(draw_line: &(u16, u16, u16)) -> bool {
    draw_line.0 < 192
        && (draw_line.1 >= 25 && draw_line.1 <= 65)
        && (draw_line.2 >= 25 && draw_line.2 <= 65)
}

#[test]
fn lores_address_values() {
    // top-left visible corner of both pages
    assert_eq!(new_pos(0, 25).addr_lores(Page::One, Model::IIe), 0x0400);
    assert_eq!(new_pos(0, 25).addr_lores(Page::Two, Model::IIe), 0x0800);
    // one row down: next 128-byte block
    assert_eq!(new_pos(8, 25).addr_lores(Page::One, Model::IIe), 0x0480);
    // middle strip: 40 bytes further into the block
    assert_eq!(new_pos(64, 25).addr_lores(Page::One, Model::IIe), 0x0428);
}

#[test]
fn hires_address_values() {
    assert_eq!(new_pos(0, 25).addr_hires(Page::One), 0x2000);
    assert_eq!(new_pos(0, 25).addr_hires(Page::Two), 0x4000);
    // consecutive lines of one row sit 1 kb apart
    assert_eq!(new_pos(1, 25).addr_hires(Page::One), 0x2400);
    assert_eq!(new_pos(7, 25).addr_hires(Page::One), 0x3C00);
}

#[test]
fn border_quirk_on_legacy_models() {
    // border columns force bit 0x1000 on generations before the IIe
    let p = new_pos(0, 0);
    assert_eq!(p.addr_lores(Page::One, Model::II), 0x1468);
    assert_eq!(p.addr_lores(Page::One, Model::IIPlus), 0x1468);
    assert_eq!(p.addr_lores(Page::One, Model::IIe), 0x0468);
    assert_eq!(p.addr_lores(Page::One, Model::IIc), 0x0468);
    // visible columns never carry the quirk bit
    assert_eq!(new_pos(0, 25).addr_lores(Page::One, Model::II), 0x0400);
}

#[test]
fn position_aliasing() {
    // lines 256-261 scan the same memory as lines 250-255
    assert_eq!(
        new_pos(256, 30).addr_lores(Page::One, Model::IIe),
        new_pos(250, 30).addr_lores(Page::One, Model::IIe)
    );
    assert_eq!(
        new_pos(261, 30).addr_hires(Page::One),
        new_pos(255, 30).addr_hires(Page::One)
    );
    // columns 0 and 1 scan the same address
    assert_eq!(
        new_pos(100, 0).addr_hires(Page::One),
        new_pos(100, 1).addr_hires(Page::One)
    );
}

#[test]
fn scanline_recovery() {
    for &line in &[0u16, 5, 8, 63, 100, 191] {
        for &col in &[25u16, 40, 64] {
            let lores = ScanPos { line, col }.addr_lores(Page::One, Model::IIe);
            assert_eq!(ScanPos::scanline_lores(lores), (line >> 3) << 3);
            let hires = ScanPos { line, col }.addr_hires(Page::One);
            assert_eq!(ScanPos::scanline_hires(hires), line);
        }
    }
    // the page does not matter: the inverse masks it away
    let lores = ScanPos { line: 100, col: 30 }.addr_lores(Page::Two, Model::IIe);
    assert_eq!(ScanPos::scanline_lores(lores), 96);
}

#[test]
fn model_order_is_chronological() {
    assert!(Model::II.precedes(Model::IIPlus));
    assert!(Model::IIPlus.precedes(Model::IIe));
    assert!(Model::IIe.precedes(Model::IIc));
    assert!(!Model::IIe.precedes(Model::IIe));
    assert!(!Model::IIc.precedes(Model::II));
}
