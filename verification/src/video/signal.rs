//! Turns display-memory bytes into two-level composite luminance samples,
//! one scanline at a time. Each scanline owns 567 fine dots of the sample
//! buffer; small phase state (the hires delay bit, the lores rotation) is
//! threaded between partial calls on the same scanline by the caller.

use vstd::prelude::*;

verus! {

/// The luminance sample a data bit produces: the high level for a set
/// bit, the low level otherwise.
pub open spec fn dot_level(pixel: u8) -> u8 {
    if pixel & 1 == 1 {
        0xff
    } else {
        0
    }
}

/// The sample that bit `j` of `byte` produces.
pub open spec fn dot_of(byte: u8, j: int) -> u8 {
    dot_level(byte >> (j as u32))
}

/// One frame's luminance samples and the dot cursor the synthesizer
/// writes at: 567 fine dots per scanline, 262 scanlines per frame. The
/// buffer itself is owned by the caller and handed in per frame.
pub struct Signal {
    pub pixels: Vec<u8>,
    pub pos: u32,
}

impl Signal {
    /// Writes the sample for data bit `pixel` at dot `pos`, leaving the
    /// cursor alone.
    pub fn dot_14m(&mut self, pos: u32, pixel: u8)
        requires
            pos < old(self).pixels.len(),
        ensures
            final(self).pixels@ == old(self).pixels@.update(pos as int, dot_level(pixel)),
            final(self).pos == old(self).pos,
    {
        let level: u8 = if pixel & 1 == 1 {
            0xff
        } else {
            0
        };
        self.pixels.set(pos as usize, level);
    }

    /// Draws bits 0-6 of `pixel` as 7 consecutive fine dots starting at
    /// the cursor, then advances the cursor past them.
    pub fn byte_14m(&mut self, pixel: u8)
        requires
            old(self).pos + 7 <= old(self).pixels.len(),
            old(self).pos + 7 <= u32::MAX,
        ensures
            final(self).pixels@ == spec_byte_14m(old(self).pixels@, old(self).pos as int, pixel),
            final(self).pos == old(self).pos + 7,
    {
        proof {
            assert(pixel >> 0u32 == pixel) by (bit_vector);
        }
        self.dot_14m(self.pos, pixel);
        self.dot_14m(self.pos + 1, pixel >> 1);
        self.dot_14m(self.pos + 2, pixel >> 2);
        self.dot_14m(self.pos + 3, pixel >> 3);
        self.dot_14m(self.pos + 4, pixel >> 4);
        self.dot_14m(self.pos + 5, pixel >> 5);
        self.dot_14m(self.pos + 6, pixel >> 6);
        self.pos = self.pos + 7;
    }

    /// Writes the sample for data bit `pixel` as a pair of adjacent fine
    /// dots, leaving the cursor alone.
    pub fn dot_7m(&mut self, pos: u32, pixel: u8)
        requires
            pos + 2 <= old(self).pixels.len(),
            pos + 1 <= u32::MAX,
        ensures
            final(self).pixels@ == old(self).pixels@.update(pos as int, dot_level(pixel)).update(
                pos + 1,
                dot_level(pixel),
            ),
            final(self).pos == old(self).pos,
    {
        self.dot_14m(pos, pixel);
        self.dot_14m(pos + 1, pixel);
    }

    /// Draws bits 0-6 of `byte` as 7 dot pairs (each data bit two fine
    /// dots wide) starting at the cursor, then advances the cursor past
    /// the 14 dots drawn.
    pub fn byte_7m(&mut self, byte: u8)
        requires
            old(self).pos + 14 <= old(self).pixels.len(),
            old(self).pos + 14 <= u32::MAX,
        ensures
            final(self).pixels@ == spec_byte_7m(old(self).pixels@, old(self).pos as int, byte),
            final(self).pos == old(self).pos + 14,
    {
        proof {
            assert(byte >> 0u32 == byte) by (bit_vector);
        }
        self.dot_7m(self.pos, byte);
        self.dot_7m(self.pos + 2, byte >> 1);
        self.dot_7m(self.pos + 4, byte >> 2);
        self.dot_7m(self.pos + 6, byte >> 3);
        self.dot_7m(self.pos + 8, byte >> 4);
        self.dot_7m(self.pos + 10, byte >> 5);
        self.dot_7m(self.pos + 12, byte >> 6);
        self.pos = self.pos + 14;
    }
}

impl Signal {
    /// Resets the dot cursor to the start of `line`'s slice of the
    /// buffer. Outside 80-column mode one black byte-width is emitted
    /// first, reproducing the hardware's one-byte video-shift startup
    /// delay.
    pub fn start_scanline(&mut self, line: u16, is_80: bool)
        requires
            !is_80 ==> (line as int) * 567 + 7 <= old(self).pixels.len(),
        ensures
            final(self).pos == (line as int) * 567 + (if is_80 {
                0int
            } else {
                7int
            }),
            final(self).pixels@ == (if is_80 {
                old(self).pixels@
            } else {
                spec_byte_14m(old(self).pixels@, (line as int) * 567, 0u8)
            }),
    {
        self.pos = (line as u32) * 567;
        if !is_80 {
            self.byte_14m(0);
        }
    }

    /// Draws a run of hires bytes at the cursor. Each byte leads with the
    /// carried delay bit as one fine dot, then draws its 7 data bits as
    /// dot pairs, shifted one fine dot right when its high bit is set;
    /// bit 6 becomes the delay bit carried to the next byte. Returns the
    /// delay bit for the next call on this scanline.
    pub fn hires(&mut self, mem: &[u8], prev_bit: u8) -> (r: u8)
        requires
            mem@.len() > 0 ==> old(self).pos + 14 * mem@.len() + (mem@.last() >> 7u32) <= old(
                self,
            ).pixels.len(),
            old(self).pos + 14 * mem@.len() + 1 <= u32::MAX,
        ensures
            final(self).pixels@ == spec_hires_pixels(
                old(self).pixels@,
                old(self).pos as int,
                mem@,
                prev_bit,
            ),
            final(self).pos == old(self).pos + 14 * mem@.len(),
            final(self).pixels@.len() == old(self).pixels@.len(),
            r == spec_hires_carry(mem@, prev_bit),
    {
        let ghost s0 = self.pixels@;
        let ghost p0 = self.pos as int;
        let mut prev = prev_bit;
        let n = mem.len();
        let mut i: usize = 0;
        while i < n
            invariant
                n == mem@.len(),
                i <= n,
                self.pixels@ == spec_hires_pixels(s0, p0, mem@.take(i as int), prev_bit),
                prev == spec_hires_carry(mem@.take(i as int), prev_bit),
                self.pos == p0 + 14 * i,
                self.pixels@.len() == s0.len(),
                n > 0 ==> p0 + 14 * n + (mem@.last() >> 7u32) <= s0.len(),
                p0 + 14 * n + 1 <= u32::MAX,
                p0 >= 0,
            decreases n - i,
        {
            let byte = mem[i];
            let d = byte >> 7u32;
            proof {
                assert(byte >> 7u32 <= 1) by (bit_vector);
                if i + 1 == n {
                    assert(mem@.last() == byte);
                }
            }
            self.dot_14m(self.pos, prev);
            prev = byte >> 6u32;

            self.pos = self.pos + (d as u32);
            self.byte_7m(byte);
            self.pos = self.pos - (d as u32);
            i = i + 1;
            proof {
                let gi = i as int;
                let b = mem@[gi - 1];
                let xq = p0 + 14 * (gi - 1);
                let cprev = spec_hires_carry(mem@.take(gi - 1), prev_bit);
                let xs = spec_hires_pixels(s0, p0, mem@.take(gi - 1), prev_bit);
                lemma_hires_split(s0, p0, mem@.take(gi), prev_bit, gi - 1);
                assert(mem@.take(gi).take(gi - 1) =~= mem@.take(gi - 1));
                assert(mem@.take(gi).skip(gi - 1) =~= seq![b]);
                assert(mem@.take(gi).last() == b);
                assert(seq![b].drop_first() =~= Seq::<u8>::empty());
                let stepped = spec_hires_step(xs, xq, b, cprev);
                assert(spec_hires_pixels(stepped, xq + 14, seq![b].drop_first(), b >> 6u32)
                    == stepped);
                assert(spec_hires_pixels(xs, xq, seq![b], cprev) == stepped);
                assert(self.pixels@ == spec_hires_pixels(s0, p0, mem@.take(gi), prev_bit));
            }
        }
        proof {
            assert(mem@.take(n as int) =~= mem@);
        }
        prev
    }

    /// Draws matched aux/main byte pairs at the double (80-column) rate:
    /// the aux byte's 7 bits, then the main byte's, one fine dot each.
    /// Returns bit 6 of the final main byte for interface symmetry;
    /// double-hires consumes no carried delay bit.
    pub fn hires_80(&mut self, aux: &[u8], main: &[u8]) -> (r: u8)
        requires
            aux@.len() == main@.len(),
            main@.len() > 0,
            old(self).pos + 14 * aux@.len() <= old(self).pixels.len(),
            old(self).pos + 14 * aux@.len() <= u32::MAX,
        ensures
            final(self).pixels@ == spec_hires80_pixels(
                old(self).pixels@,
                old(self).pos as int,
                aux@,
                main@,
            ),
            final(self).pos == old(self).pos + 14 * aux@.len(),
            final(self).pixels@.len() == old(self).pixels@.len(),
            r == main@.last() >> 6u32,
    {
        let ghost s0 = self.pixels@;
        let ghost p0 = self.pos as int;
        let n = aux.len();
        let mut i: usize = 0;
        while i < n
            invariant
                n == aux@.len(),
                n == main@.len(),
                i <= n,
                self.pixels@ == spec_hires80_pixels(
                    s0,
                    p0,
                    aux@.take(i as int),
                    main@.take(i as int),
                ),
                self.pos == p0 + 14 * i,
                self.pixels@.len() == s0.len(),
                p0 + 14 * n <= s0.len(),
                p0 + 14 * n <= u32::MAX,
                p0 >= 0,
            decreases n - i,
        {
            let pattern = aux[i];
            self.byte_14m(pattern);
            let pattern = main[i];
            self.byte_14m(pattern);
            i = i + 1;
            proof {
                let gi = i as int;
                let a = aux@[gi - 1];
                let m = main@[gi - 1];
                let xq = p0 + 14 * (gi - 1);
                let xs = spec_hires80_pixels(s0, p0, aux@.take(gi - 1), main@.take(gi - 1));
                lemma_hires80_split(s0, p0, aux@.take(gi), main@.take(gi), gi - 1);
                assert(aux@.take(gi).take(gi - 1) =~= aux@.take(gi - 1));
                assert(main@.take(gi).take(gi - 1) =~= main@.take(gi - 1));
                assert(aux@.take(gi).skip(gi - 1) =~= seq![a]);
                assert(main@.take(gi).skip(gi - 1) =~= seq![m]);
                assert(seq![a].drop_first() =~= Seq::<u8>::empty());
                assert(seq![m].drop_first() =~= Seq::<u8>::empty());
                let stepped = spec_byte_14m(spec_byte_14m(xs, xq, a), xq + 7, m);
                assert(spec_hires80_pixels(
                    stepped,
                    xq + 14,
                    seq![a].drop_first(),
                    seq![m].drop_first(),
                ) == stepped);
                assert(spec_hires80_pixels(xs, xq, seq![a], seq![m]) == stepped);
                assert(self.pixels@ == spec_hires80_pixels(
                    s0,
                    p0,
                    aux@.take(gi),
                    main@.take(gi),
                ));
            }
        }
        proof {
            assert(aux@.take(n as int) =~= aux@);
            assert(main@.take(n as int) =~= main@);
        }
        main[main.len() - 1] >> 6u32
    }

    /// Draws a run of LORES/TEXT bytes at the cursor. Bit 2 of `line`
    /// selects each byte's upper or lower nibble; the nibble is doubled
    /// into a byte pattern and rotated by a phase that alternates with
    /// the scanned address's parity, and the pattern plus its 1-bit
    /// rotation are drawn as two byte-widths of dot pairs. Returns the
    /// rotation-continuity bit for the next call on this scanline.
    pub fn lores(&mut self, mem: &[u8], line: u16, start_addr: u16) -> (r: u8)
        requires
            mem@.len() > 0,
            old(self).pos + 14 * mem@.len() <= old(self).pixels.len(),
            old(self).pos + 14 * mem@.len() <= u32::MAX,
        ensures
            final(self).pixels@ == spec_lores_pixels(
                old(self).pixels@,
                old(self).pos as int,
                mem@,
                line,
                spec_lores_rot0(start_addr),
            ),
            final(self).pos == old(self).pos + 14 * mem@.len(),
            final(self).pixels@.len() == old(self).pixels@.len(),
            r == spec_lores_carry(mem@, start_addr),
    {
        let ghost s0 = self.pixels@;
        let ghost p0 = self.pos as int;
        let ghost rot0 = spec_lores_rot0(start_addr);
        // rot = 2 for odd addresses, 0 for even
        let mut rot: u8 = #[verifier::truncate] (((start_addr << 1u32) & 2) as u8);
        proof {
            assert(((start_addr << 1u32) & 2) as u8 == 0 || ((start_addr << 1u32) & 2) as u8
                == 2) by (bit_vector);
            assert((line & 4) <= 4) by (bit_vector);
        }
        let n = mem.len();
        let mut i: usize = 0;
        while i < n
            invariant
                n == mem@.len(),
                i <= n,
                self.pixels@ == spec_lores_pixels(s0, p0, mem@.take(i as int), line, rot0),
                rot == spec_lores_rot(start_addr, i as int),
                rot == 0 || rot == 2,
                self.pos == p0 + 14 * i,
                self.pixels@.len() == s0.len(),
                p0 + 14 * n <= s0.len(),
                p0 + 14 * n <= u32::MAX,
                p0 >= 0,
                (line & 4) <= 4,
                rot0 == spec_lores_rot0(start_addr),
            decreases n - i,
        {
            let byte = mem[i];
            let nibble = (byte >> ((line & 4) as u32)) & 0xf;
            let dup = nibble | (nibble << 4u32);
            let pattern = if rot == 0 {
                dup
            } else {
                (dup >> 2u32) | (dup << 6u32)
            };

            self.byte_14m(pattern);
            self.byte_14m((pattern << 1u32) | (pattern >> 7u32));

            proof {
                assert(0u8 ^ 2 == 2u8 && 2u8 ^ 2 == 0u8) by (bit_vector);
                assert((spec_lores_rot0(start_addr) ^ 2) ^ 2 == spec_lores_rot0(start_addr))
                    by (bit_vector);
            }
            rot = rot ^ 2;
            i = i + 1;
            proof {
                let gi = i as int;
                let b = mem@[gi - 1];
                let xq = p0 + 14 * (gi - 1);
                let rprev = spec_lores_rot(start_addr, gi - 1);
                let pat = spec_lores_pattern(b, line, rprev);
                let xs = spec_lores_pixels(s0, p0, mem@.take(gi - 1), line, rot0);
                lemma_lores_split(s0, p0, mem@.take(gi), line, rot0, gi - 1);
                assert(mem@.take(gi).take(gi - 1) =~= mem@.take(gi - 1));
                assert(mem@.take(gi).skip(gi - 1) =~= seq![b]);
                assert(seq![b].drop_first() =~= Seq::<u8>::empty());
                let stepped = spec_byte_14m(spec_byte_14m(xs, xq, pat), xq + 7, spec_rotl1(pat));
                assert(spec_lores_pixels(stepped, xq + 14, seq![b].drop_first(), line, rprev ^ 2)
                    == stepped);
                assert(spec_lores_pixels(xs, xq, seq![b], line, rprev) == stepped);
                assert(self.pixels@ == spec_lores_pixels(s0, p0, mem@.take(gi), line, rot0));
            }
        }
        proof {
            assert(mem@.take(n as int) =~= mem@);
            assert(0u8 ^ 2 == 2u8 && 2u8 ^ 2 == 0u8) by (bit_vector);
        }
        // The last value of Q0/QH will be either bit 1 (for even
        // addresses) or bit 3 (for odd) of the last scanned data.
        // (Note that rot must be flipped again to undo the flip that
        // happens *after* the last byte is processed.)
        let last = mem[mem.len() - 1];
        last >> (((rot ^ 2) + 1) as u32)
    }
}

/// The samples after one hires byte at `p`: the carried delay bit leads,
/// then the byte's bits as dot pairs, shifted right one fine dot when the
/// byte's high bit is set.
pub open spec fn spec_hires_step(s: Seq<u8>, p: int, byte: u8, carry: u8) -> Seq<u8> {
    spec_byte_7m(s.update(p, dot_level(carry)), p + ((byte >> 7u32) as int), byte)
}

/// The samples after a run of hires bytes starting at `p` with carried
/// delay bit `carry`.
pub open spec fn spec_hires_pixels(s: Seq<u8>, p: int, bytes: Seq<u8>, carry: u8) -> Seq<u8>
    decreases bytes.len(),
{
    if bytes.len() == 0 {
        s
    } else {
        spec_hires_pixels(
            spec_hires_step(s, p, bytes[0], carry),
            p + 14,
            bytes.drop_first(),
            bytes[0] >> 6u32,
        )
    }
}

/// The delay bit left for the next call after a run of hires bytes.
pub open spec fn spec_hires_carry(bytes: Seq<u8>, carry: u8) -> u8 {
    if bytes.len() == 0 {
        carry
    } else {
        bytes.last() >> 6u32
    }
}

/// The samples after a run of double-hires aux/main byte pairs at `p`.
pub open spec fn spec_hires80_pixels(s: Seq<u8>, p: int, aux: Seq<u8>, main: Seq<u8>) -> Seq<u8>
    decreases aux.len(),
{
    if aux.len() == 0 || main.len() == 0 {
        s
    } else {
        spec_hires80_pixels(
            spec_byte_14m(spec_byte_14m(s, p, aux[0]), p + 7, main[0]),
            p + 14,
            aux.drop_first(),
            main.drop_first(),
        )
    }
}

/// The nibble of `byte` a LORES cell shows on `line`: bit 2 of the line
/// selects the upper or lower half, since each nibble spans 4 scanlines.
pub open spec fn spec_lores_nibble(byte: u8, line: u16) -> u8 {
    (byte >> ((line & 4) as u32)) & 0xf
}

/// A nibble replicated into both halves of a byte.
pub open spec fn spec_lores_dup(nibble: u8) -> u8 {
    nibble | (nibble << 4u32)
}

/// A byte rotated right by two bit positions.
pub open spec fn spec_rotr2(b: u8) -> u8 {
    (b >> 2u32) | (b << 6u32)
}

/// A byte rotated left by one bit position.
pub open spec fn spec_rotl1(b: u8) -> u8 {
    (b << 1u32) | (b >> 7u32)
}

/// The dot pattern a LORES byte produces under rotation phase `rot`.
pub open spec fn spec_lores_pattern(byte: u8, line: u16, rot: u8) -> u8 {
    let d = spec_lores_dup(spec_lores_nibble(byte, line));
    if rot == 0 {
        d
    } else {
        spec_rotr2(d)
    }
}

/// The initial rotation phase: 2 for odd start addresses, 0 for even.
pub open spec fn spec_lores_rot0(start_addr: u16) -> u8 {
    ((start_addr << 1u32) & 2) as u8
}

/// The rotation phase in force for the byte at index `i`, alternating
/// between the two phases byte by byte.
pub open spec fn spec_lores_rot(start_addr: u16, i: int) -> u8 {
    if i % 2 == 0 {
        spec_lores_rot0(start_addr)
    } else {
        spec_lores_rot0(start_addr) ^ 2
    }
}

/// The samples after a run of LORES bytes at `p`: each byte's pattern and
/// its 1-bit rotation, drawn as two byte-widths of dot pairs.
pub open spec fn spec_lores_pixels(s: Seq<u8>, p: int, bytes: Seq<u8>, line: u16, rot: u8) -> Seq<
    u8,
>
    decreases bytes.len(),
{
    if bytes.len() == 0 {
        s
    } else {
        let pat = spec_lores_pattern(bytes[0], line, rot);
        spec_lores_pixels(
            spec_byte_14m(spec_byte_14m(s, p, pat), p + 7, spec_rotl1(pat)),
            p + 14,
            bytes.drop_first(),
            line,
            rot ^ 2,
        )
    }
}

/// The rotation-continuity bit left for the next call: bit 1 of the last
/// scanned byte when its address was even, bit 3 when it was odd.
pub open spec fn spec_lores_carry(bytes: Seq<u8>, start_addr: u16) -> u8 {
    bytes.last() >> ((((spec_lores_rot(start_addr, bytes.len() as int) ^ 2) + 1) as u32))
}

/// Law: synthesizing a run of hires bytes in one call produces exactly
/// the samples and the final delay bit of synthesizing any prefix first
/// and the remainder afterwards with the intermediate delay bit passed
/// through, so a scanline's redraw may be split at any byte boundary.
pub proof fn lemma_hires_split(s: Seq<u8>, p: int, bytes: Seq<u8>, carry: u8, k: int)
    requires
        0 <= k <= bytes.len(),
    ensures
        spec_hires_pixels(s, p, bytes, carry) == spec_hires_pixels(
            spec_hires_pixels(s, p, bytes.take(k), carry),
            p + 14 * k,
            bytes.skip(k),
            spec_hires_carry(bytes.take(k), carry),
        ),
        spec_hires_carry(bytes, carry) == spec_hires_carry(
            bytes.skip(k),
            spec_hires_carry(bytes.take(k), carry),
        ),
    decreases k,
{
    if k == 0 {
        assert(bytes.take(0) =~= Seq::<u8>::empty());
        assert(bytes.skip(0) =~= bytes);
    } else {
        let b0 = bytes[0];
        let s1 = spec_hires_step(s, p, b0, carry);
        let rest = bytes.drop_first();
        assert(bytes.take(k).drop_first() =~= rest.take(k - 1));
        assert(bytes.skip(k) =~= rest.skip(k - 1));
        assert(bytes.take(k)[0] == b0);
        lemma_hires_split(s1, p + 14, rest, b0 >> 6u32, k - 1);
        if k == 1 {
            assert(rest.take(0) =~= Seq::<u8>::empty());
        } else {
            assert(bytes.take(k).last() == rest.take(k - 1).last());
        }
    }
}

/// Law: a run of double-hires byte pairs likewise splits at any pair
/// boundary; double-hires carries no phase state between the parts.
pub proof fn lemma_hires80_split(s: Seq<u8>, p: int, aux: Seq<u8>, main: Seq<u8>, k: int)
    requires
        0 <= k <= aux.len(),
        aux.len() == main.len(),
    ensures
        spec_hires80_pixels(s, p, aux, main) == spec_hires80_pixels(
            spec_hires80_pixels(s, p, aux.take(k), main.take(k)),
            p + 14 * k,
            aux.skip(k),
            main.skip(k),
        ),
    decreases k,
{
    if k == 0 {
        assert(aux.take(0) =~= Seq::<u8>::empty());
        assert(aux.skip(0) =~= aux);
        assert(main.skip(0) =~= main);
    } else {
        let s1 = spec_byte_14m(spec_byte_14m(s, p, aux[0]), p + 7, main[0]);
        assert(aux.take(k).drop_first() =~= aux.drop_first().take(k - 1));
        assert(main.take(k).drop_first() =~= main.drop_first().take(k - 1));
        assert(aux.skip(k) =~= aux.drop_first().skip(k - 1));
        assert(main.skip(k) =~= main.drop_first().skip(k - 1));
        assert(aux.take(k)[0] == aux[0] && main.take(k)[0] == main[0]);
        lemma_hires80_split(s1, p + 14, aux.drop_first(), main.drop_first(), k - 1);
    }
}

/// Law: a run of LORES bytes splits at any byte boundary once the
/// rotation phase is carried across the split.
pub proof fn lemma_lores_split(s: Seq<u8>, p: int, bytes: Seq<u8>, line: u16, rot: u8, k: int)
    requires
        0 <= k <= bytes.len(),
    ensures
        spec_lores_pixels(s, p, bytes, line, rot) == spec_lores_pixels(
            spec_lores_pixels(s, p, bytes.take(k), line, rot),
            p + 14 * k,
            bytes.skip(k),
            line,
            (if k % 2 == 0 {
                rot
            } else {
                rot ^ 2
            }),
        ),
    decreases k,
{
    if k == 0 {
        assert(bytes.take(0) =~= Seq::<u8>::empty());
        assert(bytes.skip(0) =~= bytes);
    } else {
        let pat = spec_lores_pattern(bytes[0], line, rot);
        let s1 = spec_byte_14m(spec_byte_14m(s, p, pat), p + 7, spec_rotl1(pat));
        assert(bytes.take(k).drop_first() =~= bytes.drop_first().take(k - 1));
        assert(bytes.skip(k) =~= bytes.drop_first().skip(k - 1));
        assert(bytes.take(k)[0] == bytes[0]);
        lemma_lores_split(s1, p + 14, bytes.drop_first(), line, rot ^ 2, k - 1);
        assert((rot ^ 2) ^ 2 == rot) by (bit_vector);
    }
}

/// Law: a double-hires call with `n` byte pairs writes exactly the `14n`
/// fine dots starting at the cursor - each aux bit, then each main bit,
/// one dot apiece - and leaves every other sample unchanged.
pub proof fn lemma_hires80_dots(s: Seq<u8>, p: int, aux: Seq<u8>, main: Seq<u8>)
    requires
        aux.len() == main.len(),
        0 <= p,
        p + 14 * aux.len() <= s.len(),
    ensures
        spec_hires80_pixels(s, p, aux, main).len() == s.len(),
        forall|k: int|
            0 <= k < s.len() && !(p <= k < p + 14 * aux.len()) ==> spec_hires80_pixels(
                s,
                p,
                aux,
                main,
            )[k] == s[k],
        forall|i: int, j: int|
            0 <= i < aux.len() && 0 <= j < 7 ==> spec_hires80_pixels(s, p, aux, main)[p + 14 * i
                + j] == dot_of(aux[i], j) && spec_hires80_pixels(s, p, aux, main)[p + 14 * i + 7
                + j] == dot_of(main[i], j),
    decreases aux.len(),
{
    if aux.len() > 0 {
        let s2 = spec_byte_14m(spec_byte_14m(s, p, aux[0]), p + 7, main[0]);
        let rr = spec_hires80_pixels(s2, p + 14, aux.drop_first(), main.drop_first());
        let r = spec_hires80_pixels(s, p, aux, main);
        lemma_hires80_dots(s2, p + 14, aux.drop_first(), main.drop_first());
        assert(r == rr);
        assert forall|k: int| 0 <= k < s.len() && !(p <= k < p + 14 * aux.len()) implies r[k]
            == s[k] by {
            assert(rr[k] == s2[k]);
            assert(s2[k] == s[k]);
        }
        assert forall|i: int, j: int| 0 <= i < aux.len() && 0 <= j < 7 implies r[p + 14 * i + j]
            == dot_of(aux[i], j) && r[p + 14 * i + 7 + j] == dot_of(main[i], j) by {
            if i == 0 {
                assert(rr[p + j] == s2[p + j]);
                assert(rr[p + 7 + j] == s2[p + 7 + j]);
            } else {
                assert(r[p + 14 * i + j] == rr[(p + 14) + 14 * (i - 1) + j]);
                assert(r[p + 14 * i + 7 + j] == rr[(p + 14) + 14 * (i - 1) + 7 + j]);
                assert(aux.drop_first()[i - 1] == aux[i]);
                assert(main.drop_first()[i - 1] == main[i]);
            }
        }
    }
}

/// Law: a hires call touches at most the dot range its bytes cover (14
/// fine dots per byte, plus one for the trailing delayed dot); every
/// sample outside that range keeps its old value.
pub proof fn lemma_hires_frame(s: Seq<u8>, p: int, bytes: Seq<u8>, carry: u8)
    requires
        0 <= p,
        p + 14 * bytes.len() + 1 <= s.len(),
    ensures
        spec_hires_pixels(s, p, bytes, carry).len() == s.len(),
        forall|k: int|
            0 <= k < s.len() && !(p <= k < p + 14 * bytes.len() + 1) ==> spec_hires_pixels(
                s,
                p,
                bytes,
                carry,
            )[k] == s[k],
    decreases bytes.len(),
{
    if bytes.len() > 0 {
        let b0 = bytes[0];
        let s1 = spec_hires_step(s, p, b0, carry);
        let rest = bytes.drop_first();
        assert(b0 >> 7u32 <= 1) by (bit_vector);
        lemma_hires_frame(s1, p + 14, rest, b0 >> 6u32);
        let r = spec_hires_pixels(s, p, bytes, carry);
        assert(r == spec_hires_pixels(s1, p + 14, rest, b0 >> 6u32));
        assert forall|k: int| 0 <= k < s.len() && !(p <= k < p + 14 * bytes.len() + 1) implies r[k]
            == s[k] by {
            assert(r[k] == s1[k]);
            assert(s1[k] == s[k]);
        }
    }
}

/// Law: synthesis is deterministic. Equal sample buffers, cursors, data
/// bytes and carried phase state produce byte-identical samples and the
/// same carried state, for each of the three encodings.
pub proof fn lemma_synthesis_deterministic(
    s1: Seq<u8>,
    s2: Seq<u8>,
    p1: int,
    p2: int,
    a1: Seq<u8>,
    a2: Seq<u8>,
    b1: Seq<u8>,
    b2: Seq<u8>,
    c1: u8,
    c2: u8,
    line1: u16,
    line2: u16,
    sa1: u16,
    sa2: u16,
)
    requires
        s1 == s2,
        p1 == p2,
        a1 == a2,
        b1 == b2,
        c1 == c2,
        line1 == line2,
        sa1 == sa2,
    ensures
        spec_hires_pixels(s1, p1, a1, c1) == spec_hires_pixels(s2, p2, a2, c2),
        spec_hires_carry(a1, c1) == spec_hires_carry(a2, c2),
        spec_hires80_pixels(s1, p1, a1, b1) == spec_hires80_pixels(s2, p2, a2, b2),
        spec_lores_pixels(s1, p1, a1, line1, spec_lores_rot0(sa1)) == spec_lores_pixels(
            s2,
            p2,
            a2,
            line2,
            spec_lores_rot0(sa2),
        ),
        spec_lores_carry(a1, sa1) == spec_lores_carry(a2, sa2),
{
}

/// The samples after bits 0-6 of `byte` are drawn as 7 fine dots at `p`.
pub open spec fn spec_byte_14m(s: Seq<u8>, p: int, byte: u8) -> Seq<u8> {
    s.update(p, dot_of(byte, 0)).update(p + 1, dot_of(byte, 1)).update(p + 2, dot_of(byte, 2))
        .update(p + 3, dot_of(byte, 3)).update(p + 4, dot_of(byte, 4)).update(
        p + 5,
        dot_of(byte, 5),
    ).update(p + 6, dot_of(byte, 6))
}

/// The samples after bits 0-6 of `byte` are drawn as 7 dot pairs at `p`.
pub open spec fn spec_byte_7m(s: Seq<u8>, p: int, byte: u8) -> Seq<u8> {
    s.update(p, dot_of(byte, 0)).update(p + 1, dot_of(byte, 0)).update(p + 2, dot_of(byte, 1))
        .update(p + 3, dot_of(byte, 1)).update(p + 4, dot_of(byte, 2)).update(
        p + 5,
        dot_of(byte, 2),
    ).update(p + 6, dot_of(byte, 3)).update(p + 7, dot_of(byte, 3)).update(p + 8, dot_of(byte, 4))
        .update(p + 9, dot_of(byte, 4)).update(p + 10, dot_of(byte, 5)).update(
        p + 11,
        dot_of(byte, 5),
    ).update(p + 12, dot_of(byte, 6)).update(p + 13, dot_of(byte, 6))
}

} // verus!
