use avt::line::Line;
use avt::Pen;

#[test]
fn line_print() {
    let mut line = Line::blank(4, &Pen::default());
    line.print(1, 'a'.into());
    line.print(2, 'b'.into());
    line.print(3, 'c'.into());

    assert_eq!(
        line.cells,
        vec![' '.into(), 'a'.into(), 'b'.into(), 'c'.into()]
    );
}

#[test]
fn insert() {
    let mut line = Line::blank(4, &Pen::default());
    line.insert(1, 2, 'a'.into());

    assert_eq!(
        line.cells,
        vec![' '.into(), 'a'.into(), 'a'.into(), ' '.into()]
    );
}

#[test]
fn delete() {
    let mut line = Line::new(vec!['a'.into(), 'b'.into(), 'c'.into(), 'd'.into()]);
    line.delete(1, 2, &Pen::default());

    assert_eq!(
        line.cells,
        vec!['a'.into(), 'd'.into(), ' '.into(), ' '.into()]
    );
}

#[test]
fn clear() {
    let mut line = Line::new(vec!['a'.into(), 'b'.into(), 'c'.into(), 'd'.into()]);
    line.clear(1..3, &Pen::default());

    assert_eq!(
        line.cells,
        vec!['a'.into(), ' '.into(), ' '.into(), 'd'.into()]
    );
}
