use vidcore::video::signal::Signal;

const HI: u8 = 0xff;
const LO: u8 = 0x00;

fn fresh(len: usize) -> Signal {
    Signal { pixels: vec![9u8; len], pos: 0 }
}

#[test]
fn hires_single_byte() {
    let mut sig = fresh(40);
    let carry = sig.hires(&[0x55], 1);
    // bit 7 clear: the byte's dot pairs start at the cursor and cover
    // the carried delay dot
    let want = [HI, HI, LO, LO, HI, HI, LO, LO, HI, HI, LO, LO, HI, HI];
    assert_eq!(&sig.pixels[..14], &want);
    assert_eq!(sig.pixels[14], 9);
    assert_eq!(sig.pos, 14);
    assert_eq!(carry, 1);
}

#[test]
fn hires_delay_bit_shifts_dots() {
    let mut sig = fresh(40);
    let carry = sig.hires(&[0xD5], 0);
    // bit 7 set: everything moves one fine dot right and the carried-in
    // delay bit (here 0) fills the first dot
    assert_eq!(sig.pixels[0], LO);
    let want = [HI, HI, LO, LO, HI, HI, LO, LO, HI, HI, LO, LO, HI, HI];
    assert_eq!(&sig.pixels[1..15], &want);
    assert_eq!(sig.pixels[15], 9);
    assert_eq!(sig.pos, 14);
    assert_eq!(carry, 3);
}

#[test]
fn hires_split_matches_whole() {
    let bytes = [0x81u8, 0x40, 0xFF, 0x03];
    for split in 0..=bytes.len() {
        let mut whole = fresh(80);
        let carry_whole = whole.hires(&bytes, 1);

        let mut parts = fresh(80);
        let mid = parts.hires(&bytes[..split], 1);
        let carry_parts = parts.hires(&bytes[split..], mid);

        assert_eq!(whole.pixels, parts.pixels, "split at {}", split);
        assert_eq!(whole.pos, parts.pos);
        assert_eq!(carry_whole, carry_parts, "split at {}", split);
    }
}

#[test]
fn synthesis_is_deterministic() {
    let bytes = [0x12u8, 0xA9, 0x7F, 0x80];
    let mut one = fresh(120);
    let mut two = fresh(120);
    let c1 = one.hires(&bytes, 1);
    let c2 = two.hires(&bytes, 1);
    assert_eq!(one.pixels, two.pixels);
    assert_eq!(c1, c2);

    let mut one = fresh(120);
    let mut two = fresh(120);
    let c1 = one.lores(&bytes, 3, 0x400);
    let c2 = two.lores(&bytes, 3, 0x400);
    assert_eq!(one.pixels, two.pixels);
    assert_eq!(c1, c2);
}

#[test]
fn double_hires_writes_14_dots_per_pair() {
    let aux = [0x0Fu8, 0x01];
    let main = [0xF0u8, 0x40];
    let mut sig = fresh(60);
    let carry = sig.hires_80(&aux, &main);
    let want = [
        HI, HI, HI, HI, LO, LO, LO, // aux byte 0
        LO, LO, LO, LO, HI, HI, HI, // main byte 0
        HI, LO, LO, LO, LO, LO, LO, // aux byte 1
        LO, LO, LO, LO, LO, LO, HI, // main byte 1
    ];
    assert_eq!(&sig.pixels[..28], &want);
    // exactly 14 dots per pair: nothing beyond the 28 written dots moves
    assert!(sig.pixels[28..].iter().all(|&p| p == 9));
    assert_eq!(sig.pos, 28);
    assert_eq!(carry, 1);
}

#[test]
fn lores_nibble_selection_and_rotation() {
    // lower nibble on lines with bit 2 clear
    let mut sig = fresh(40);
    let carry = sig.lores(&[0x5A], 0, 0);
    let want = [
        LO, HI, LO, HI, LO, HI, LO, // pattern 0xAA
        HI, LO, HI, LO, HI, LO, HI, // its 1-bit rotation 0x55
    ];
    assert_eq!(&sig.pixels[..14], &want);
    assert_eq!(sig.pos, 14);
    assert_eq!(carry, 0x2D);

    // upper nibble on lines with bit 2 set
    let mut sig = fresh(40);
    let carry = sig.lores(&[0x5A], 4, 0);
    let want = [
        HI, LO, HI, LO, HI, LO, HI, // pattern 0x55
        LO, HI, LO, HI, LO, HI, LO, // its 1-bit rotation 0xAA
    ];
    assert_eq!(&sig.pixels[..14], &want);
    assert_eq!(carry, 0x2D);
}

#[test]
fn lores_rotation_phase_alternates() {
    // an odd start address begins in the rotated phase
    let mut sig = fresh(40);
    let carry = sig.lores(&[0x11], 0, 1);
    let want = [
        LO, LO, HI, LO, LO, LO, HI, // pattern 0x44 (0x11 rotated right 2)
        LO, LO, LO, HI, LO, LO, LO, // its 1-bit rotation 0x88
    ];
    assert_eq!(&sig.pixels[..14], &want);
    assert_eq!(carry, 0x02);

    // an even start address flips the phase for the second byte
    let mut sig = fresh(40);
    let carry = sig.lores(&[0x01, 0x01], 0, 0);
    let want = [
        HI, LO, LO, LO, HI, LO, LO, // pattern 0x11
        LO, HI, LO, LO, LO, HI, LO, // rotation 0x22
        LO, LO, HI, LO, LO, LO, HI, // pattern 0x44 (phase flipped)
        LO, LO, LO, HI, LO, LO, LO, // rotation 0x88
    ];
    assert_eq!(&sig.pixels[..28], &want);
    assert_eq!(sig.pos, 28);
    assert_eq!(carry, 0x00);
}

#[test]
fn start_scanline_emits_startup_delay() {
    let mut sig = fresh(1200);
    sig.start_scanline(1, false);
    assert_eq!(sig.pos, 1 * 567 + 7);
    assert!(sig.pixels[567..574].iter().all(|&p| p == LO));
    assert_eq!(sig.pixels[566], 9);
    assert_eq!(sig.pixels[574], 9);

    let mut sig = fresh(1200);
    sig.start_scanline(2, true);
    assert_eq!(sig.pos, 2 * 567);
    assert!(sig.pixels.iter().all(|&p| p == 9));
}

#[test]
fn dot_and_byte_primitives() {
    let mut sig = fresh(40);
    sig.dot_14m(5, 1);
    assert_eq!(sig.pixels[5], HI);
    sig.dot_14m(5, 0x54);
    assert_eq!(sig.pixels[5], LO);
    assert_eq!(sig.pos, 0);

    let mut sig = fresh(40);
    sig.pos = 3;
    sig.byte_14m(0x41);
    assert_eq!(&sig.pixels[3..10], &[HI, LO, LO, LO, LO, LO, HI]);
    assert_eq!(sig.pos, 10);

    let mut sig = fresh(40);
    sig.dot_7m(4, 1);
    assert_eq!(&sig.pixels[4..6], &[HI, HI]);
    assert_eq!(sig.pos, 0);

    let mut sig = fresh(40);
    sig.byte_7m(0x41);
    let want = [HI, HI, LO, LO, LO, LO, LO, LO, LO, LO, LO, LO, HI, HI];
    assert_eq!(&sig.pixels[..14], &want);
    assert_eq!(sig.pos, 14);
}
