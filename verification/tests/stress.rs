use avt::Vt;

struct Rng(u64);

impl Rng {
    fn next(&mut self) -> u64 {
        self.0 = self
            .0
            .wrapping_mul(6364136223846793005)
            .wrapping_add(1442695040888963407);
        self.0 >> 33
    }

    fn below(&mut self, n: usize) -> usize {
        (self.next() % n as u64) as usize
    }
}

const ALPHABET: &[&str] = &[
    "a", "b", "Z", " ", "~", "é", "日", "\x1B", "\x1B", "\x1B[", "\x1B[", "\x1B[?", "\x1B(0", "\x1B(B",
    "\x1B#8", "\x1Bc", "\x1B7", "\x1B8", "\x1BD", "\x1BE", "\x1BH", "\x1BM", "\x1B]", "\x1BP",
    "\x1B\\", "0", "1", "2", "3", "4", "5", "6", "7", "8", "9", "10", "20", "25", "38", "47",
    "48", "1047", "1048", "1049", "65535", "99999", ";", ";", ";", ":", "?", "!", "$", " ", ">",
    "@", "A", "B", "C", "D", "E", "F", "G", "H", "I", "J", "K", "L", "M", "P", "S", "T", "W",
    "X", "Z", "`", "a", "b", "c", "d", "e", "f", "g", "h", "l", "m", "p", "q", "r", "s", "t",
    "u", "\x07", "\x08", "\t", "\n", "\x0B", "\x0C", "\r", "\x0E", "\x0F", "\x18", "\x1A",
    "\x7F", "\u{84}", "\u{85}", "\u{88}", "\u{8d}", "\u{90}", "\u{98}", "\u{9b}", "\u{9c}",
    "\u{9d}", "\u{9e}", "\u{9f}", "\u{a0}",
];

fn check(vt: &Vt, cols: usize, rows: usize) {
    let view = vt.view();
    assert_eq!(view.len(), rows);
    for line in view {
        assert_eq!(line.cells.len(), cols);
    }
    assert!(!view[rows - 1].wrapped);
    if let Some((col, row)) = vt.cursor() {
        assert!(row < rows);
        assert!(col <= cols);
    }
}

fn run(seed: u64, mut cols: usize, mut rows: usize, steps: usize) {
    let mut rng = Rng(seed);
    let mut vt = Vt::new((cols, rows));
    for step in 0..steps {
        let mut input = String::new();
        for _ in 0..1 + rng.below(6) {
            input.push_str(ALPHABET[rng.below(ALPHABET.len())]);
        }
        let changed = vt.feed_str(&input);
        assert!(changed.iter().all(|row| *row < rows));
        assert!(changed.windows(2).all(|pair| pair[0] < pair[1]));
        check(&vt, cols, rows);
        if step % 97 == 96 {
            cols = 1 + rng.below(12);
            rows = 1 + rng.below(6);
            vt.resize(cols, rows);
            check(&vt, cols, rows);
        }
    }
}

#[test]
fn random_input_keeps_the_screen_in_shape() {
    run(1, 8, 4, 4000);
    run(2, 1, 1, 2000);
    run(3, 20, 2, 3000);
}

#[test]
fn random_input_after_a_hard_reset_is_as_on_a_new_terminal() {
    let mut rng = Rng(7);
    for round in 0..40 {
        let cols = 1 + rng.below(10);
        let rows = 1 + rng.below(5);
        let mut used = Vt::new((cols, rows));
        let mut fresh = Vt::new((cols, rows));
        let mut before = String::new();
        let mut after = String::new();
        for _ in 0..50 + round {
            before.push_str(ALPHABET[rng.below(ALPHABET.len())]);
            after.push_str(ALPHABET[rng.below(ALPHABET.len())]);
        }
        used.feed_str(&before);
        used.feed_str("\x1Bc");
        used.feed_str(&after);
        fresh.feed_str(&after);
        assert_eq!(used.cursor(), fresh.cursor());
        for (a, b) in used.view().iter().zip(fresh.view()) {
            assert_eq!(a.cells, b.cells);
            assert_eq!(a.wrapped, b.wrapped);
        }
    }
}
