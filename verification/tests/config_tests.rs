use chip8::config::{Config, HELP, TITLE};

fn config() -> Config {
    Config::new(
        "chip8",
        "1",
        "20",
        "3",
        "CHIP-8 emulator",
        "GPL-3.0-or-later",
        "the authors",
        "https://example.org/chip8",
    )
}

#[test]
fn test_version_is_built_from_its_parts() {
    assert_eq!("v1.20.3", config().version());
    let config = Config::new("", "0", "0", "0", "", "", "", "");
    assert_eq!("v0.0.0", config.version());
}

#[test]
fn test_settings_are_kept() {
    let config = config();
    assert_eq!("chip8", config.name());
    assert_eq!("CHIP-8 emulator", config.description());
    assert_eq!("GPL-3.0-or-later", config.license());
    assert_eq!("the authors", config.authors());
    assert_eq!("https://example.org/chip8", config.repository());
}

#[test]
fn test_title_is_the_banner() {
    let title = Config::title();
    assert_eq!(TITLE, title);
    assert_eq!(8, title.lines().count());
    assert!(title.starts_with("\n "));
    assert!(title.lines().nth(1).unwrap().ends_with('\u{2557}'));
}

#[test]
fn test_help_lists_the_options() {
    let help = Config::help();
    assert_eq!(HELP, help);
    assert!(help.starts_with("\nUSAGE\n       chip8 [options] <file>\n"));
    for option in ["--disasm", "--emulator", "--help", "--version"] {
        assert!(help.contains(option));
    }
}
