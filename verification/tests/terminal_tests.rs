//! Tests of the terminal model and its utility types.

use yayagram::terminal::util::{Color, Point, Size};
use yayagram::terminal::{Terminal, TerminalCommand};

#[test]
fn it_works() {
    assert_eq!(2 + 2, 4);
}

#[test]
fn test_write_queues_text() {
    let mut terminal = Terminal::new(Size {
        width: 80,
        height: 24,
    });
    terminal.write("hello");
    terminal.set_cursor(Point { x: 3, y: 4 });
    terminal.reset_colors();
    assert_eq!(
        terminal.commands,
        vec![
            TerminalCommand::Write(String::from("hello")),
            TerminalCommand::MoveTo(Point { x: 3, y: 4 }),
            TerminalCommand::ResetColor,
        ]
    );
}

#[test]
fn test_initialize_and_deinitialize() {
    let mut terminal = Terminal::new(Size {
        width: 80,
        height: 24,
    });
    terminal.initialize(Some("title"), true);
    assert!(terminal.commands.contains(&TerminalCommand::EnterAlternateScreen));
    assert!(terminal.commands.contains(&TerminalCommand::EnableMouseCapture));
    assert!(terminal
        .commands
        .contains(&TerminalCommand::SetTitle(String::from("title"))));
    terminal.deinitialize();
    assert!(terminal.commands.contains(&TerminalCommand::LeaveAlternateScreen));
    assert!(terminal.commands.contains(&TerminalCommand::DisableMouseCapture));
}

#[test]
fn test_terminal_contains() {
    let terminal = Terminal::new(Size {
        width: 10,
        height: 6,
    });
    assert!(terminal.contains(Point { x: 1, y: 1 }));
    assert!(terminal.contains(Point { x: 9, y: 5 }));
    assert!(!terminal.contains(Point { x: 0, y: 1 }));
    assert!(!terminal.contains(Point { x: 1, y: 0 }));
    assert!(!terminal.contains(Point { x: 10, y: 1 }));
}

#[test]
fn test_size_product() {
    let size = Size {
        width: 99,
        height: 42,
    };
    assert_eq!(size.product(), 99 * 42);
}

#[test]
fn test_color_invert() {
    assert_eq!(Color::Black.invert(), Color::White);
    assert_eq!(Color::DarkGray.invert(), Color::White);
    assert_eq!(Color::Red.invert(), Color::Black);
    assert_eq!(
        Color::Rgb { r: 10, g: 20, b: 30 }.invert(),
        Color::Rgb {
            r: 245,
            g: 235,
            b: 225
        }
    );
    assert_eq!(Color::Byte(240).invert(), Color::Byte(245));
    assert_eq!(Color::Byte(100).invert(), Color::Byte(140));
}

fn rgb(r: u8, g: u8, b: u8) -> Option<Color> {
    Some(Color::Rgb { r, g, b })
}

#[test]
fn test_parse_rgb_color() {
    fn parse(string: &str) -> Option<Color> {
        Color::from_rgb(string)
    }

    assert_eq!(parse("255, 255, 255"), rgb(255, 255, 255));
    assert_eq!(parse("200,255,255"), rgb(200, 255, 255));
    assert_eq!(parse("-200,-255,-255"), rgb(200, 255, 255));
    assert_eq!(parse("(255,200,255)"), rgb(255, 200, 255));
    assert_eq!(parse("www255,255,200www"), rgb(255, 255, 200));
    assert_eq!(parse("    www100www,www0www,www100www"), rgb(100, 0, 100));
    assert_eq!(parse("www100www,www20www,,,"), rgb(100, 20, 0));
    assert_eq!(parse("   123"), rgb(123, 0, 0));
    assert_eq!(parse("99999,99999,99999"), rgb(255, 255, 255));
    assert_eq!(parse("FF0000,00FF00,0000FF"), rgb(255, 0, 0));
    assert_eq!(parse("00FF00"), rgb(0, 255, 0));
    assert_eq!(parse("    00FF00"), rgb(0, 255, 0));
    assert_eq!(parse("-50,-50,-50-00FF00"), rgb(50, 50, 50));
    assert_eq!(parse("256"), rgb(255, 0, 0));
    assert_eq!(parse("99999"), rgb(255, 0, 0));
    assert_eq!(parse("rgb(123,255,100)"), rgb(123, 255, 100));
    assert_eq!(parse("123,255,100"), rgb(123, 255, 100));
}

#[test]
fn test_parse_hex() {
    fn parse(string: &str) -> Option<Color> {
        Color::from_hex(string)
    }

    assert_eq!(parse("dea584"), rgb(222, 165, 132));
    assert_eq!(parse("ff0000"), rgb(255, 0, 0));
}

#[test]
fn test_parse_hex_rejects_short_or_bad_input() {
    assert_eq!(Color::from_hex(""), None);
    assert_eq!(Color::from_hex("ff000"), None);
    assert_eq!(Color::from_hex("ff00zz"), None);
    assert_eq!(Color::from_hex("00FF00"), Some(Color::Rgb { r: 0, g: 255, b: 0 }));
}
