use qrcode::{EcLevel, QrCode};
use tphone::error::Error;
use tphone::qr::{
    can_render, render_modules, render_onion, EMPTY, FULL, LONGEST_DATA, LOWER, QUIET, SHORT_DATA, UPPER,
};

const SAMPLE: &str = "abcdefghijklmnopqrstuvwxyz234567abcdefghijklmnopqrstuvwx.onion";

#[test]
fn renders_non_empty_with_block_chars() {
    let out = render_onion(SAMPLE).expect("render");
    assert!(!out.is_empty());
    assert!(
        out.chars().any(|c| c == FULL || c == UPPER || c == LOWER),
        "expected at least one block glyph in the output"
    );
}

#[test]
fn deterministic() {
    let a = render_onion(SAMPLE).expect("render a");
    let b = render_onion(SAMPLE).expect("render b");
    assert_eq!(a, b, "rendering must be deterministic");
}

#[test]
fn quiet_zone_border_present() {
    let code = QrCode::with_error_correction_level(SAMPLE.as_bytes(), EcLevel::M).expect("encode");
    let width = code.width();
    let padded = width + 2 * QUIET;

    let rendered = render_onion(SAMPLE).expect("render");
    let lines: Vec<&str> = rendered.lines().collect();

    // Half-block packing: ceil(padded / 2) rows, padded columns each.
    let expected_rows = padded.div_ceil(2);
    assert_eq!(lines.len(), expected_rows, "row count");
    for line in &lines {
        assert_eq!(line.chars().count(), padded, "every line is `padded` wide");
    }

    // The top quiet-zone rows are all spaces.
    for line in lines.iter().take(QUIET / 2) {
        assert!(
            line.chars().all(|c| c == EMPTY),
            "top quiet-zone text row must be all spaces"
        );
    }
    // Left and right QUIET columns of every text row are light.
    for line in &lines {
        let chars: Vec<char> = line.chars().collect();
        for &c in chars.iter().take(QUIET) {
            assert_eq!(c, EMPTY, "left quiet-zone column must be a space");
        }
        for &c in chars.iter().rev().take(QUIET) {
            assert_eq!(c, EMPTY, "right quiet-zone column must be a space");
        }
    }
}

// Every module of the symbol is where it belongs, at the medium error correction level.
#[test]
fn picture_holds_the_symbol() {
    let code = QrCode::with_error_correction_level(SAMPLE.as_bytes(), EcLevel::M).expect("encode");
    let width = code.width();
    let rendered = render_onion(SAMPLE).expect("render");
    let rows: Vec<Vec<char>> = rendered.lines().map(|l| l.chars().collect()).collect();
    for y in 0..width {
        for x in 0..width {
            let dark = code[(x, y)] == qrcode::Color::Dark;
            let c = rows[(y + QUIET) / 2][x + QUIET];
            let shown = if (y + QUIET) % 2 == 0 {
                c == FULL || c == UPPER
            } else {
                c == FULL || c == LOWER
            };
            assert_eq!(dark, shown);
        }
    }
}

#[test]
fn empty_input_errors() {
    assert!(render_onion("").is_err());
    assert!(render_onion("   ").is_err());
    assert!(matches!(render_onion(" \t\n"), Err(Error::Qr(_))));
}

#[test]
fn arbitrary_nonempty_string_renders() {
    // Not a valid onion, but render is payload-agnostic and must succeed.
    let out = render_onion("hello-world").expect("render");
    assert!(!out.is_empty());
}

#[test]
fn an_address_too_long_for_a_symbol_errors() {
    for text in ["x".repeat(6000), "7".repeat(LONGEST_DATA + 1)] {
        assert!(can_render(&text));
        match render_onion(&text) {
            Err(Error::Qr(m)) => assert_eq!(m, "data too long"),
            other => panic!("expected a QR error, got {other:?}"),
        }
    }
}

#[test]
fn what_can_be_rendered_goes_by_its_length() {
    assert!(can_render(SAMPLE));
    assert!(can_render(""));
    assert!(can_render(&" ".repeat(1000)));
    assert!(render_onion(&" ".repeat(1000)).is_err());
    assert!(can_render(&"x".repeat(SHORT_DATA)));
    assert!(!can_render(&"x".repeat(SHORT_DATA + 1)));
    assert!(!can_render(&"x".repeat(LONGEST_DATA)));
    assert!(can_render(&"x".repeat(LONGEST_DATA + 1)));
}

// Whatever it holds, a short text has a symbol: among these are the texts that switch between the
// encoder's modes most often, and those that come out dark under a mask.
#[test]
fn every_short_text_renders() {
    for unit in ["x", "7", "A", "1234x", "12\u{3042}", "ABCDEFGx", "\n%P", "U\0*", "\0", "\u{7f}", "\u{20ac}"] {
        let mut text = unit.repeat(SHORT_DATA / unit.len());
        while text.len() < SHORT_DATA {
            text.push('z');
        }
        for start in (0..text.len()).step_by(35) {
            if text.is_char_boundary(start) {
                let part = &text[start..];
                assert_eq!(render_onion(part).is_ok(), !part.trim().is_empty());
            }
        }
    }
}

// Short byte strings of all kinds, through the encoder alone: none panics, and none makes a symbol
// wider than 69 modules.
#[test]
fn the_encoder_returns_on_short_data() {
    let mut state: u64 = 0x9e37_79b9_7f4a_7c15;
    let mut next = move || {
        state ^= state << 13;
        state ^= state >> 7;
        state ^= state << 17;
        state
    };
    for round in 0..300u64 {
        let len = if round % 2 == 0 { SHORT_DATA } else { (next() % 214) as usize };
        let mut data: Vec<u8> = Vec::new();
        while data.len() < len {
            match next() % (2 + round % 5) {
                0 => data.extend_from_slice(b"12"),
                1 => data.extend_from_slice(&[0x81 + (next() % 31) as u8, 0x40]),
                2 => data.push(next() as u8),
                3 => data.extend_from_slice(b"1234"),
                4 => data.extend_from_slice(b"ABC"),
                _ => data.push(b'x'),
            }
        }
        data.truncate(len);
        let code = QrCode::with_error_correction_level(&data, EcLevel::M).expect("encode");
        assert!(code.width() <= 69);
    }
}

#[test]
fn modules_are_packed_two_rows_to_a_line() {
    // dark, light / light, dark / dark, dark would not be square; use 3 x 3.
    let modules = vec![true, false, true, true, true, false, false, true, false];
    let out = render_modules(3, &modules);
    assert_eq!(
        out,
        "       \n  \u{2588}\u{2584}\u{2580}  \n   \u{2580}   \n       \n"
    );
}
