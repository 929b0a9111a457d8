use mandelzoom::palette::{colorize, Rgb};

fn table() -> Vec<Rgb> {
    vec![
        Rgb { r: 66, g: 30, b: 15 },
        Rgb { r: 25, g: 7, b: 26 },
        Rgb { r: 9, g: 1, b: 47 },
        Rgb { r: 4, g: 4, b: 73 },
        Rgb { r: 0, g: 7, b: 100 },
        Rgb { r: 12, g: 44, b: 138 },
        Rgb { r: 24, g: 82, b: 177 },
        Rgb { r: 57, g: 125, b: 209 },
        Rgb { r: 134, g: 181, b: 229 },
        Rgb { r: 211, g: 236, b: 248 },
        Rgb { r: 241, g: 233, b: 191 },
        Rgb { r: 248, g: 201, b: 95 },
        Rgb { r: 255, g: 170, b: 0 },
        Rgb { r: 204, g: 128, b: 0 },
        Rgb { r: 153, g: 87, b: 0 },
        Rgb { r: 106, g: 52, b: 3 },
    ]
}

#[test]
fn palette_table_entries() {
    let t = table();
    for n in 0..16u32 {
        assert_eq!(colorize(n), t[n as usize]);
    }
}

#[test]
fn palette_is_periodic() {
    for n in [0u32, 1, 7, 15, 16, 100, 255, 1000, u32::MAX - 16] {
        assert_eq!(colorize(n), colorize(n + 16));
    }
}

#[test]
fn palette_is_total() {
    let t = table();
    for n in [0u32, 255, 256, 1000, 65535, u32::MAX] {
        let c = colorize(n);
        assert!(t.contains(&c));
    }
}
