use vauth::theme::{hex_to_rgb, parse_theme, Rgb};

fn rgb(r: u8, g: u8, b: u8) -> Option<Rgb> {
    Some(Rgb { r, g, b })
}

#[test]
fn hex_colours() {
    assert_eq!(hex_to_rgb("#24BD5C"), rgb(0x24, 0xBD, 0x5C));
    assert_eq!(hex_to_rgb("24bd5c"), rgb(0x24, 0xBD, 0x5C));
    assert_eq!(hex_to_rgb("##24bd5c"), rgb(0x24, 0xBD, 0x5C));
    assert_eq!(hex_to_rgb("+f+f+f"), rgb(15, 15, 15));
    assert_eq!(hex_to_rgb("#24BD5"), None);
    assert_eq!(hex_to_rgb("#24BD5G"), None);
    assert_eq!(hex_to_rgb("#12345678"), None);
    assert_eq!(hex_to_rgb("f+f+f+"), None);
    assert_eq!(hex_to_rgb(""), None);
}

#[test]
fn scheme_file_colours() {
    let content = "-- generated scheme\n\
local colours = {\n\
    background = \"#17171C\",\n\
    primaryContainer = \"#000000\",\n\
    primary = \"#24BD5C\",\n\
    text = \"F5F5F6\",\n\
    error = \"zz\",\n\
    error = \"#C66E73\",\n\
    surface = nothing,\n\
    surface = \"#0A0A0B\",\n\
    outline = \"#878787\",\n\
}\n";
    let t = parse_theme(content);
    assert_eq!(t.background, rgb(0x17, 0x17, 0x1C));
    assert_eq!(t.foreground, rgb(0xF5, 0xF5, 0xF6));
    assert_eq!(t.primary, rgb(0x24, 0xBD, 0x5C));
    assert_eq!(t.error, None);
    assert_eq!(t.surface, rgb(0x0A, 0x0A, 0x0B));
    assert_eq!(t.dim, rgb(0x87, 0x87, 0x87));
}

#[test]
fn scheme_preferred_keys_and_line_endings() {
    let content = "\tonBackground = \"#010203\"\r\ntext = \"#040506\"\r\nsubtext0 = \"#0708090\"\r\noutline = \"#0A0B0C\"";
    let t = parse_theme(content);
    assert_eq!(t.foreground, rgb(1, 2, 3));
    // subtext0 is set but unreadable, so the dimmed colour falls back to outline
    assert_eq!(t.dim, rgb(0x0A, 0x0B, 0x0C));
    assert_eq!(t.background, None);
    assert_eq!(parse_theme(""), parse_theme("\n\n"));
}
