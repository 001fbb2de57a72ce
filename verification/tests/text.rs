use audiomock::text::{shell_escape, trim, white_space};

#[test]
fn shell_escape_escapes_spaces() {
    assert_eq!(shell_escape("/tmp/my file.wav"), "/tmp/my\\ file.wav");
    assert_eq!(shell_escape("a  b"), "a\\ \\ b");
    assert_eq!(shell_escape(""), "");
    assert_eq!(shell_escape("/no/spaces.ogg"), "/no/spaces.ogg");
    assert_eq!(shell_escape("ünï côdé"), "ünï\\ côdé");
}

#[test]
fn trim_agrees_with_std() {
    for s in [
        "",
        "   ",
        "  qemu:output_FL \n",
        "\t\u{a0}x y\u{3000}\u{2029}",
        "\u{85}mid\u{200b}",
        "no-trim",
        "\u{1680}\u{2000}\u{200a}\u{202f}\u{205f}a\r\u{b}\u{c}",
    ] {
        assert_eq!(trim(s), s.trim(), "{s:?}");
    }
}

#[test]
fn white_space_is_unicode_white_space() {
    for c in '\u{0}'..='\u{3100}' {
        assert_eq!(white_space(c), c.is_whitespace(), "{:?}", c);
    }
}
