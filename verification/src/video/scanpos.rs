//! Maps the raster beam's timing position to the display-memory address
//! the video hardware scans at that instant, and back; enumerates the
//! visible scanline spans between two raster positions.

use vstd::prelude::*;

use crate::video::{Addr, Page};
use crate::Model;

verus! {

/// The raster beam's timing coordinate: `line` counts scanlines from the
/// top of the frame (262 per frame), `col` counts byte columns within a
/// scanline (65 per line, the first 25 of them horizontal blanking).
#[derive(Copy, Clone, Debug, PartialEq, Eq, Structural)]
pub struct ScanPos {
    pub line: Addr,
    pub col: Addr,
}

/// Lines 256-261 scan the same memory as lines 250-255.
pub open spec fn spec_uniq_line(line: u16) -> u16 {
    if line > 255 {
        (line - 6) as u16
    } else {
        line
    }
}

/// Columns 0 and 1 scan the same address.
pub open spec fn spec_uniq_col(col: u16) -> u16 {
    if col < 1 {
        1
    } else {
        col
    }
}

/// The low 7 address bits: the byte offset within a 128-byte block,
/// `(region + (col - 25)) mod 128`, where `region` selects the top,
/// middle or bottom 40-byte strip of the block. Horizontal scanning
/// wraps at 128-byte boundaries, exactly as the hardware's adder does.
pub open spec fn spec_row_offset(line: u16, col: u16) -> u16 {
    ((((line >> 6) * 40) + col + 103) % 128) as u16
}

/// The low 10 address bits scanned in LORES/TEXT mode: one of 8 128-byte
/// blocks, selected by the 8-line row, plus the offset within the block.
pub open spec fn spec_lores_low(line: u16, col: u16) -> u16 {
    (((((line >> 3) & 7) << 7) + spec_row_offset(line, col)) as u16)
}

/// The low 13 address bits scanned in HIRES mode: a 1-kb block per
/// line-within-row, a 128-byte block per row, plus the offset.
pub open spec fn spec_hires_low(line: u16, col: u16) -> u16 {
    ((((line & 7) << 10) + ((((line & 63) >> 3) << 7) + spec_row_offset(line, col))) as u16)
}

/// The full LORES/TEXT address for an already-normalized position.
pub open spec fn spec_display_addr_lores(line: u16, col: u16, page: Page) -> u16 {
    (0x0400u16 << page.spec_shift()) | spec_lores_low(line, col)
}

/// The full HIRES address for an already-normalized position.
pub open spec fn spec_display_addr_hires(line: u16, col: u16, page: Page) -> u16 {
    (0x2000u16 << page.spec_shift()) | spec_hires_low(line, col)
}

/// The LORES/TEXT address scanned at `pos`, with the legacy border quirk:
/// generations before the IIe force bit 0x1000 while scanning the border
/// columns.
pub open spec fn spec_addr_lores(pos: ScanPos, page: Page, model: Model) -> u16 {
    let a = spec_display_addr_lores(spec_uniq_line(pos.line), spec_uniq_col(pos.col), page);
    if model.rank() < Model::IIe.rank() && pos.col < 25 {
        a | 0x1000
    } else {
        a
    }
}

/// The HIRES address scanned at `pos`.
pub open spec fn spec_addr_hires(pos: ScanPos, page: Page) -> u16 {
    spec_display_addr_hires(spec_uniq_line(pos.line), spec_uniq_col(pos.col), page)
}

/// The representative scanline (rounded down to its 8-line row group)
/// whose LORES/TEXT scan reads `addr`.
pub open spec fn spec_scanline_lores(addr: u16) -> u16 {
    let a = addr & 0x3ff;
    let row = a >> 7;
    let region = (((a & 127) / 40) as u16);
    (((((region << 3) + row) as u16)) << 3)
}

/// The scanline whose HIRES scan reads `addr`.
pub open spec fn spec_scanline_hires(addr: u16) -> u16 {
    let a = addr & 0x1fff;
    let blk_1k = a >> 10;
    let blk_128 = (a & 0x3ff) >> 7;
    let region = (((a & 127) / 40) as u16);
    ((((region << 6) + (blk_128 << 3) + blk_1k) as u16))
}

impl ScanPos {
    /// The memory address scanned in LORES/TEXT mode for this scan
    /// position.
    pub fn addr_lores(self, page: Page, model: Model) -> (r: Addr)
        ensures
            r == spec_addr_lores(self, page, model),
    {
        let addr = self.uniq_pos().display_addr_lores(page);
        if model.precedes(Model::IIe) && self.col < 25 {
            addr | 0x1000
        } else {
            addr
        }
    }

    /// The memory address scanned in HIRES mode for this scan
    /// position.
    pub fn addr_hires(self, page: Page) -> (r: Addr)
        ensures
            r == spec_addr_hires(self, page),
    {
        self.uniq_pos().display_addr_hires(page)
    }

    fn uniq_pos(self) -> (r: ScanPos)
        ensures
            r.line == spec_uniq_line(self.line),
            r.col == spec_uniq_col(self.col),
    {
        ScanPos {
            // lines 256-261 scan the same memory as lines 250-255
            line: if self.line > 255 {
                self.line - 6
            } else {
                self.line
            },
            // columns 0 and 1 scan the same address
            col: if self.col < 1 {
                1
            } else {
                self.col
            },
        }
    }

    pub fn display_addr_lores(self, page: Page) -> (r: Addr)
        ensures
            r == spec_display_addr_lores(self.line, self.col, page),
    {
        let l = self.line;
        let c = self.col;

        // 8 scanlines are grouped into one row.
        let row: u16 = l >> 3;

        // Screen memory is divided into 8 128-byte blocks.
        let base: u16 = (row & 7) << 7;

        // Each 128 byte block is divided into top 40, middle 40,
        // bottom 40, unused 8.
        let region: u32 = ((l >> 6) as u32) * 40;

        // Horizontal scanning wraps at 128-byte boundaries.
        let offset: u16 = ((region + (c as u32) + 103) % 128) as u16;

        proof {
            assert(base + offset < 65536 && base + offset == spec_lores_low(l, c))
                by (bit_vector)
                requires
                    row == l >> 3,
                    base == (row & 7) << 7,
                    offset == ((((l >> 6) as u32) * 40 + (c as u32) + 103) % 128) as u16,
            ;
        }
        (0x0400u16 << page.shift()) | (base + offset)
    }

    pub fn display_addr_hires(self, page: Page) -> (r: Addr)
        ensures
            r == spec_display_addr_hires(self.line, self.col, page),
    {
        let l = self.line;
        let c = self.col;

        // Screen memory is divided into 8 1-kb blocks.
        let blk_1k: u16 = (l & 7) << 10;

        // Each 1k block is divided into 8 128-byte blocks.
        let blk_128: u16 = ((l & 63) >> 3) << 7;

        // Each 128 byte block is divided into top 40, middle 40,
        // bottom 40, unused 8.
        let region: u32 = ((l >> 6) as u32) * 40;

        // Horizontal scanning wraps at 128-byte boundaries.
        let offset: u16 = ((region + (c as u32) + 103) % 128) as u16;

        proof {
            assert(blk_1k + (blk_128 + offset) < 65536 && ((blk_1k + (blk_128 + offset)) as u16)
                == spec_hires_low(l, c) && blk_128 + offset < 65536)
                by (bit_vector)
                requires
                    blk_1k == (l & 7) << 10,
                    blk_128 == ((l & 63) >> 3) << 7,
                    offset == ((((l >> 6) as u32) * 40 + (c as u32) + 103) % 128) as u16,
            ;
        }
        (0x2000u16 << page.shift()) | (blk_1k + (blk_128 + offset))
    }

    pub fn scanline_lores(addr: Addr) -> (r: Addr)
        ensures
            r == spec_scanline_lores(addr),
    {
        let a = addr & 0x3ff;
        let row = a >> 7;
        let region = (a & 127) / 40;
        proof {
            assert((region << 3) + row < 65536 && ((((region << 3) + row) as u16) << 3)
                == spec_scanline_lores(addr))
                by (bit_vector)
                requires
                    a == addr & 0x3ff,
                    row == a >> 7,
                    region == (a & 127) / 40,
            ;
        }
        ((region << 3) + row) << 3
    }

    pub fn scanline_hires(addr: Addr) -> (r: Addr)
        ensures
            r == spec_scanline_hires(addr),
    {
        let a = addr & 0x1fff;
        let blk_1k = a >> 10;
        let blk_128 = (a & 0x3ff) >> 7;
        let region = (a & 127) / 40;
        proof {
            assert((region << 6) + (blk_128 << 3) < 65536 && (region << 6) + (blk_128 << 3)
                + blk_1k < 65536 && (((region << 6) + (blk_128 << 3) + blk_1k) as u16)
                == spec_scanline_hires(addr))
                by (bit_vector)
                requires
                    a == addr & 0x1fff,
                    blk_1k == a >> 10,
                    blk_128 == (a & 0x3ff) >> 7,
                    region == (a & 127) / 40,
            ;
        }
        (region << 6) + (blk_128 << 3) + blk_1k
    }
}

/// The hardware's 9-bit vertical counter value while scanning `line`: it
/// runs 256..=511 over the first 256 lines of a frame, then wraps back to
/// 250 for the six extra lines.
pub open spec fn spec_v_count(line: u16) -> u16 {
    if line < 256 {
        (256 + line) as u16
    } else {
        (line - 6) as u16
    }
}

/// The hardware's 7-bit horizontal counter value while scanning `col`: it
/// holds 0 for the long cycle at column 0, then runs 64..=127.
pub open spec fn spec_h_count(col: u16) -> u16 {
    if col == 0 {
        0
    } else {
        (63 + col) as u16
    }
}

/// The low 10 address bits exactly as the two binary counters drive them
/// onto the bus, including the scrambled-adder term for bits 3-6.
pub open spec fn spec_counter_addr_base(v: u16, h: u16) -> u16 {
    let vert = v & 0xff;
    let horiz = h & 0x3f;
    let a2a1a0 = horiz & 7;
    let a9a8a7 = ((vert >> 3) & 7) << 7;
    let v4v3v4v3 = ((vert & 0xc0) >> 4) | (vert >> 6);
    let h5h4h3 = horiz >> 3;
    let a6a5a4a3 = ((((13 + h5h4h3 + v4v3v4v3) as u16) & 15) << 3);
    a9a8a7 | a6a5a4a3 | a2a1a0
}

/// The LORES/TEXT address the counter-driven hardware scans, with the
/// legacy border quirk applied while the horizontal counter is below 88.
pub open spec fn spec_counter_addr_lores(v: u16, h: u16, page: Page, model: Model) -> u16 {
    let a = spec_counter_addr_base(v, h) | (0x0400u16 << page.spec_shift());
    if model.rank() < Model::IIe.rank() && h < 88 {
        a | 0x1000
    } else {
        a
    }
}

/// The HIRES address the counter-driven hardware scans: the base address
/// plus the low vertical counter bits as the 1-kb block number.
pub open spec fn spec_counter_addr_hires(v: u16, h: u16, page: Page) -> u16 {
    (spec_counter_addr_base(v, h) | (0x2000u16 << page.spec_shift())) | ((v & 7) << 10)
}

/// The window base addresses written out for both pages.
pub proof fn lemma_page_bases(page: Page)
    ensures
        (0x0400u16 << page.spec_shift()) == (if page == Page::One {
            0x0400u16
        } else {
            0x0800u16
        }),
        (0x2000u16 << page.spec_shift()) == (if page == Page::One {
            0x2000u16
        } else {
            0x4000u16
        }),
{
    assert(0x0400u16 << 0u16 == 0x0400u16 && 0x0400u16 << 1u16 == 0x0800u16 && 0x2000u16 << 0u16
        == 0x2000u16 && 0x2000u16 << 1u16 == 0x4000u16) by (bit_vector);
}

/// Law: over the whole 262x65 timing grid, both pages and every hardware
/// generation, the formula-driven addresses equal the addresses that the
/// hardware's two binary counters (vertical and horizontal) produce.
pub proof fn lemma_addr_matches_counters(pos: ScanPos, page: Page, model: Model)
    requires
        pos.line < 262,
        pos.col < 65,
    ensures
        spec_addr_lores(pos, page, model) == spec_counter_addr_lores(
            spec_v_count(pos.line),
            spec_h_count(pos.col),
            page,
            model,
        ),
        spec_addr_hires(pos, page) == spec_counter_addr_hires(
            spec_v_count(pos.line),
            spec_h_count(pos.col),
            page,
        ),
{
    let line = pos.line;
    let col = pos.col;
    let l = spec_uniq_line(line);
    let c = spec_uniq_col(col);
    let v = spec_v_count(line);
    let h = spec_h_count(col);

    // The counters' relevant bits are the normalized line and column.
    if line < 256 {
        assert(v & 0xff == l && v & 7 == l & 7) by (bit_vector)
            requires
                line < 256,
                l == line,
                v == (256 + line) as u16,
        ;
    } else {
        assert(v & 0xff == l && v & 7 == l & 7) by (bit_vector)
            requires
                256 <= line < 262,
                l == (line - 6) as u16,
                v == (line - 6) as u16,
        ;
    }
    if col == 0 {
        assert(h & 0x3f == (c - 1) as u16) by (bit_vector)
            requires
                h == 0,
                c == 1,
        ;
    } else {
        assert(h & 0x3f == (c - 1) as u16) by (bit_vector)
            requires
                1 <= col < 65,
                c == col,
                h == (63 + col) as u16,
        ;
    }
    // The border quirk fires on the same columns in both models.
    assert((h < 88) == (col < 25));

    // The scrambled adder and the strip formula agree on the low bits.
    assert(spec_lores_low(l, c) == spec_counter_addr_base(v, h)) by (bit_vector)
        requires
            l < 256,
            1 <= c < 65,
            v & 0xff == l,
            h & 0x3f == (c - 1) as u16,
    ;
    assert(spec_hires_low(l, c) == (spec_counter_addr_base(v, h) | ((v & 7) << 10)))
        by (bit_vector)
        requires
            l < 256,
            1 <= c < 65,
            v & 0xff == l,
            v & 7 == l & 7,
            h & 0x3f == (c - 1) as u16,
    ;

    // Assemble: only commutativity of the disjoint-bit ors is left.
    let pb = 0x0400u16 << page.spec_shift();
    let ph = 0x2000u16 << page.spec_shift();
    let lo = spec_lores_low(l, c);
    let cb = spec_counter_addr_base(v, h);
    let bk = (v & 7) << 10;
    assert(pb | lo == lo | pb) by (bit_vector)
        requires
            lo == lo,
    ;
    assert(ph | (cb | bk) == ((cb | ph) | bk)) by (bit_vector)
        requires
            cb == cb,
    ;
}

/// Law: for a raster position inside the visible area, the scanline
/// recovered from the LORES/TEXT address is the start of the 8-line row
/// group containing the position's line (the mapping is lossy by design).
pub proof fn lemma_scanline_lores_inverse(pos: ScanPos, page: Page, model: Model)
    requires
        pos.line < 192,
        25 <= pos.col < 65,
    ensures
        spec_scanline_lores(spec_addr_lores(pos, page, model)) == ((pos.line >> 3) << 3),
{
    let l = pos.line;
    let c = pos.col;
    lemma_page_bases(page);
    let pb = 0x0400u16 << page.spec_shift();
    assert(spec_scanline_lores(pb | spec_lores_low(l, c)) == ((l >> 3) << 3)) by (bit_vector)
        requires
            l < 192,
            25 <= c < 65,
            pb == 0x0400 || pb == 0x0800,
    ;
}

/// Law: for a raster position inside the visible area, the scanline
/// recovered from the HIRES address is exactly the position's line.
pub proof fn lemma_scanline_hires_inverse(pos: ScanPos, page: Page)
    requires
        pos.line < 192,
        25 <= pos.col < 65,
    ensures
        spec_scanline_hires(spec_addr_hires(pos, page)) == pos.line,
{
    let l = pos.line;
    let c = pos.col;
    lemma_page_bases(page);
    let ph = 0x2000u16 << page.spec_shift();
    assert(spec_scanline_hires(ph | spec_hires_low(l, c)) == l) by (bit_vector)
        requires
            l < 192,
            25 <= c < 65,
            ph == 0x2000 || ph == 0x4000,
    ;
}

/// `start` clipped for iteration: columns before 25 are never drawable,
/// so the first span cannot begin before column 25.
pub open spec fn spec_clip_start(s: ScanPos) -> ScanPos {
    ScanPos { line: s.line, col: if s.col < 25 { 25 } else { s.col } }
}

/// `end` clipped for iteration: an end column in the blanking region
/// collapses to 0 (nothing on that terminal line), and an end line in
/// vertical blank truncates the whole interval to the bottom of the
/// visible area.
pub open spec fn spec_clip_end(e: ScanPos) -> ScanPos {
    if e.line < 192 {
        ScanPos { line: e.line, col: if e.col < 25 { 0 } else { e.col } }
    } else {
        ScanPos { line: 192, col: 0 }
    }
}

/// The spans a [`DrawIter`] in state `(s, e)` still has to yield: a full
/// remaining line for every line before `e.line`, then the partial
/// terminal line if it is nonempty.
pub open spec fn spec_spans(s: ScanPos, e: ScanPos) -> Seq<(u16, u16, u16)>
    decreases e.line - s.line,
{
    if s.line < e.line {
        seq![(s.line, s.col, 65u16)] + spec_spans(
            ScanPos { line: (s.line + 1) as u16, col: 25 },
            e,
        )
    } else if s.line > e.line || s.col >= e.col {
        Seq::empty()
    } else {
        seq![(s.line, s.col, e.col)]
    }
}

/// The number of spans the interval `(s, e)` yields.
pub open spec fn spec_spans_len(s: ScanPos, e: ScanPos) -> nat {
    if s.line > e.line {
        0
    } else if s.line == e.line {
        if s.col < e.col {
            1
        } else {
            0
        }
    } else {
        ((e.line - s.line) as nat) + (if e.col > 25 {
            1nat
        } else {
            0nat
        })
    }
}

/// Law: an interval yields one span for every whole line before the
/// terminal line, plus the terminal span when that one is nonempty.
pub proof fn lemma_spans_len(s: ScanPos, e: ScanPos)
    ensures
        spec_spans(s, e).len() == spec_spans_len(s, e),
    decreases e.line - s.line,
{
    if s.line < e.line {
        lemma_spans_len(ScanPos { line: (s.line + 1) as u16, col: 25 }, e);
    }
}

/// Law: between iterator states with a drawable start column and an end
/// clipped to the visible area, every span lies on a visible line, spans
/// successive lines (so each line is reported at most once), and keeps
/// its columns inside the drawable range.
pub proof fn lemma_spans_wf(s: ScanPos, e: ScanPos)
    requires
        25 <= s.col < 65,
        e.line <= 192,
        e.col <= 65,
        e.line == 192 ==> e.col == 0,
    ensures
        forall|i: int|
            0 <= i < spec_spans(s, e).len() ==> {
                let sp = #[trigger] spec_spans(s, e)[i];
                sp.0 == s.line + i && sp.0 < 192 && 25 <= sp.1 && sp.1 < sp.2 && sp.2 <= 65
            },
    decreases e.line - s.line,
{
    if s.line < e.line {
        let next = ScanPos { line: (s.line + 1) as u16, col: 25 };
        lemma_spans_wf(next, e);
        assert forall|i: int| 0 <= i < spec_spans(s, e).len() implies {
            let sp = #[trigger] spec_spans(s, e)[i];
            sp.0 == s.line + i && sp.0 < 192 && 25 <= sp.1 && sp.1 < sp.2 && sp.2 <= 65
        } by {
            if i > 0 {
                assert(spec_spans(s, e)[i] == spec_spans(next, e)[i - 1]);
            }
        }
    }
}

/// Law: whatever rectangle a caller requests (any lines, columns inside
/// the 65-column grid), the clipped iteration yields only visible spans.
pub proof fn lemma_draw_spans_visible(start: ScanPos, end: ScanPos)
    requires
        start.col < 65,
        end.col < 65,
    ensures
        forall|i: int|
            0 <= i < spec_spans(spec_clip_start(start), spec_clip_end(end)).len() ==> {
                let sp = #[trigger] spec_spans(spec_clip_start(start), spec_clip_end(end))[i];
                sp.0 < 192 && 25 <= sp.1 && sp.1 < sp.2 && sp.2 <= 65
            },
{
    lemma_spans_wf(spec_clip_start(start), spec_clip_end(end));
}

/// Lazily enumerates the visible `(line, col_start, col_end)` spans that
/// must be re-synthesized between two raster positions.
pub struct DrawIter {
    pub start: ScanPos,
    pub end: ScanPos,
}

impl DrawIter {
    pub fn new(start: ScanPos, end: ScanPos) -> (r: DrawIter)
        ensures
            r.start == spec_clip_start(start),
            r.end == spec_clip_end(end),
    {
        let start = ScanPos {
            line: start.line,
            col: if start.col < 25 {
                25
            } else {
                start.col
            },
        };
        let end = if end.line < 192 {
            ScanPos { line: end.line, col: if end.col < 25 { 0 } else { end.col } }
        } else {
            ScanPos { line: 192, col: 0 }
        };
        DrawIter { start, end }
    }

    /// Yields the next span, or `None` once the interval is exhausted.
    pub fn next(&mut self) -> (r: Option<(Addr, Addr, Addr)>)
        requires
            old(self).end.line < 65535,
        ensures
            final(self).end == old(self).end,
            old(self).start.line < old(self).end.line ==> final(self).start == (ScanPos {
                line: (old(self).start.line + 1) as u16,
                col: 25,
            }),
            old(self).start.line == old(self).end.line && old(self).start.col < old(
                self,
            ).end.col ==> final(self).start == (ScanPos {
                line: (old(self).start.line + 1) as u16,
                col: old(self).start.col,
            }),
            old(self).start.line > old(self).end.line || (old(self).start.line == old(
                self,
            ).end.line && old(self).start.col >= old(self).end.col) ==> final(self).start == old(
                self,
            ).start,
            r == (if spec_spans(old(self).start, old(self).end).len() > 0 {
                Some(spec_spans(old(self).start, old(self).end)[0])
            } else {
                None::<(u16, u16, u16)>
            }),
            spec_spans(final(self).start, final(self).end) == (if spec_spans(
                old(self).start,
                old(self).end,
            ).len() > 0 {
                spec_spans(old(self).start, old(self).end).drop_first()
            } else {
                spec_spans(old(self).start, old(self).end)
            }),
    {
        if self.start.line < self.end.line {
            let result = (self.start.line, self.start.col, 65u16);
            self.start = ScanPos { line: self.start.line + 1, col: 25 };
            proof {
                assert(spec_spans(self.start, self.end) =~= spec_spans(
                    old(self).start,
                    old(self).end,
                ).drop_first());
            }
            Some(result)
        } else if self.start.line > self.end.line || self.start.col >= self.end.col {
            None
        } else {
            // start.line == end.line
            let result = (self.start.line, self.start.col, self.end.col);
            self.start = ScanPos { line: self.start.line + 1, col: self.start.col };
            proof {
                assert(spec_spans(self.start, self.end) =~= spec_spans(
                    old(self).start,
                    old(self).end,
                ).drop_first());
            }
            Some(result)
        }
    }
}

} // verus!
