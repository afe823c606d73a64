use avt::parser::{Emulator, Parser};

#[derive(Debug, PartialEq)]
enum Event {
    Print(char),
    Execute(char),
    Csi(char, Vec<char>, Vec<u16>),
    Esc(char, Vec<char>),
}

#[derive(Debug, Default)]
struct TestEmulator {
    events: Vec<Event>,
}

impl Emulator for TestEmulator {
    fn print(&mut self, input: char) {
        self.events.push(Event::Print(input));
    }

    fn execute(&mut self, input: char) {
        self.events.push(Event::Execute(input));
    }

    fn csi_dispatch(&mut self, input: char, interims: &[char], params: &[u16]) {
        self.events
            .push(Event::Csi(input, interims.to_vec(), params.to_vec()));
    }

    fn esc_dispatch(&mut self, input: char, interims: &[char]) {
        self.events.push(Event::Esc(input, interims.to_vec()));
    }
}

fn run(message: &str, input: &str, expected: &[Event]) {
    let mut parser = Parser::default();
    let mut terminal = TestEmulator::default();
    parser.feed_str(input, &mut terminal);
    assert_eq!(terminal.events, expected, "{}", message);
}

#[test]
fn parser_print() {
    run(
        "Print exact characters to buffer",
        "ab",
        &[Event::Print('a'), Event::Print('b')],
    );
}

#[test]
fn execute() {
    run("Execute a backspace", "\x08", &[Event::Execute('\u{08}')]);
}

#[test]
fn csi() {
    run(
        "Move cursor to start",
        "\x1b[H",
        &[Event::Csi('H', vec![], vec![0])],
    );
    run(
        "Cursor visibility",
        "\x1b[34h",
        &[Event::Csi('h', vec![], vec![34])],
    );
    run(
        "Report keyboard mode",
        "\x1b[?u",
        &[Event::Csi('u', vec!['?'], vec![0])],
    );
    run(
        "Switch to alternate buffer",
        "\x1b[?1049h",
        &[Event::Csi('h', vec!['?'], vec![1049])],
    );
    run(
        "Report private mode",
        "\x1b[?2026$p",
        &[Event::Csi('p', vec!['?', '$'], vec![2026])],
    );
}

#[test]
fn esc() {
    run(
        "Set ascii character set",
        "\x1b(A",
        &[Event::Esc('A', vec!['('])],
    );
    run(
        "Set keypad application mode",
        "\x1b=",
        &[Event::Esc('=', vec![])],
    );
}

#[test]
fn color() {
    run(
        "Set foreground RGB",
        "\x1b[38;2;200;200;200mHi\x1b[0m",
        &[
            Event::Csi('m', vec![], vec![38, 2, 200, 200, 200]),
            Event::Print('H'),
            Event::Print('i'),
            Event::Csi('m', vec![], vec![0]),
        ],
    );
}

#[test]
fn todo() {
    run("TEMP", "\x1b]11;?\x07", &[]);
}
