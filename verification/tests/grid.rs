use termsheet::cell::{Cell, CellIndex, Number};
use termsheet::delimited::read_table;
use termsheet::file::FileApp;
use termsheet::grid::Grid;

fn read_number(text: &str) -> Option<Number> {
    match text.parse::<f32>() {
        Ok(value) => Some(Number::new(value.to_bits(), format!("{value}"))),
        Err(_) => None,
    }
}

fn number(value: f32) -> Cell {
    Cell::Num(Number::new(value.to_bits(), format!("{value}")))
}

fn text(content: &str) -> Cell {
    Cell::Text(content.to_string())
}

#[test]
fn table_of_lines_and_fields() {
    assert_eq!(
        read_table("a;b\nc", ';'),
        vec![vec!["a".to_string(), "b".to_string()], vec!["c".to_string()]]
    );
    assert_eq!(read_table("", ';'), Vec::<Vec<String>>::new());
    assert_eq!(read_table("\n", ';'), vec![vec![String::new()]]);
    assert_eq!(
        read_table("a;\n", ';'),
        vec![vec!["a".to_string(), String::new()]]
    );
}

#[test]
fn table_drops_carriage_return_before_line_feed_only() {
    assert_eq!(
        read_table("foo\nbar\n\r\nbaz\r", ';'),
        vec![
            vec!["foo".to_string()],
            vec!["bar".to_string()],
            vec![String::new()],
            vec!["baz\r".to_string()]
        ]
    );
    assert_eq!(
        read_table("a\r\r\nb", ';'),
        vec![vec!["a\r".to_string()], vec!["b".to_string()]]
    );
}

#[test]
fn table_agrees_with_std_lines_and_split() {
    for sample in [
        "1;2\n3;4",
        ";;a\n\nb;",
        "x\r\ny;z\r\n",
        "\n\n",
        ";",
        "é;ü\n;ß",
        "tail\r",
    ] {
        let expected: Vec<Vec<String>> = sample
            .lines()
            .map(|line| line.split(';').map(|field| field.to_string()).collect())
            .collect();
        assert_eq!(read_table(sample, ';'), expected, "{sample:?}");
    }
}

#[test]
fn parse_two_by_two() {
    let grid = FileApp::parse_csv("1;2\n3;4", &read_number);
    assert_eq!(grid.get(CellIndex::new(0, 0)), Some(&number(1.0)));
    assert_eq!(grid.get(CellIndex::new(1, 0)), Some(&number(2.0)));
    assert_eq!(grid.get(CellIndex::new(0, 1)), Some(&number(3.0)));
    assert_eq!(grid.get(CellIndex::new(1, 1)), Some(&number(4.0)));
    assert_eq!(grid.get(CellIndex::new(2, 0)), None);
    assert_eq!(grid.get(CellIndex::new(0, 2)), None);
}

#[test]
fn parse_skips_empty_fields() {
    let grid = FileApp::parse_csv("a;;=b\n\n;c", &read_number);
    assert_eq!(grid.get(CellIndex::new(0, 0)), Some(&text("a")));
    assert_eq!(grid.get(CellIndex::new(1, 0)), None);
    assert_eq!(grid.get(CellIndex::new(2, 0)), Some(&Cell::Formula(())));
    assert_eq!(grid.get(CellIndex::new(0, 1)), None);
    assert_eq!(grid.get(CellIndex::new(0, 2)), None);
    assert_eq!(grid.get(CellIndex::new(1, 2)), Some(&text("c")));
}

#[test]
fn insert_get_remove() {
    let mut grid = Grid::new();
    assert_eq!(grid.insert(CellIndex::new(3, 4), text("a")), None);
    assert_eq!(grid.insert(CellIndex::new(3, 4), text("b")), Some(text("a")));
    assert_eq!(grid.get(CellIndex::new(3, 4)), Some(&text("b")));
    assert_eq!(grid.get(CellIndex::new(4, 3)), None);
    assert_eq!(grid.remove(CellIndex::new(3, 4)), Some(text("b")));
    assert_eq!(grid.remove(CellIndex::new(3, 4)), None);
    assert_eq!(grid.get(CellIndex::new(3, 4)), None);
}

#[test]
fn serialize_fills_the_gaps() {
    let mut grid = Grid::new();
    grid.insert(CellIndex::new(0, 2), text("b"));
    grid.insert(CellIndex::new(2, 0), text("a"));
    grid.insert(CellIndex::new(3, 2), number(1.5));
    grid.insert(CellIndex::new(1, 2), Cell::Formula(()));
    assert_eq!(grid.serialize(), ";;a\n\nb;=?;;1.5");
    assert_eq!(Grid::new().serialize(), "");
}

#[test]
fn serialize_is_row_major_whatever_the_order_of_writes() {
    let mut grid = Grid::new();
    grid.insert(CellIndex::new(1, 1), text("d"));
    grid.insert(CellIndex::new(0, 1), text("c"));
    grid.insert(CellIndex::new(1, 0), text("b"));
    grid.insert(CellIndex::new(0, 0), text("a"));
    assert_eq!(grid.serialize(), "a;b\nc;d");
}

#[test]
fn round_trip() {
    for sample in ["1;2\n3;4", ";;a\n\nb;=x;;1.5", "hello;;world\n\n\n;42.5;=SUM(A1:A2)", ""] {
        let first = FileApp::parse_csv(sample, &read_number);
        let saved = first.serialize();
        let second = FileApp::parse_csv(&saved, &read_number);
        assert_eq!(second.serialize(), saved);
        for y in 0..6 {
            for x in 0..6 {
                let index = CellIndex::new(x, y);
                assert_eq!(first.get(index), second.get(index), "{sample:?} at {x},{y}");
            }
        }
    }
}

#[test]
fn a_cell_without_text_is_not_kept() {
    let mut grid = Grid::new();
    assert_eq!(grid.insert(CellIndex::new(0, 0), text("")), None);
    assert_eq!(grid.get(CellIndex::new(0, 0)), None);
    grid.insert(CellIndex::new(1, 0), text("a"));
    assert_eq!(grid.insert(CellIndex::new(1, 0), text("")), Some(text("a")));
    assert_eq!(grid.get(CellIndex::new(1, 0)), None);
    assert_eq!(
        grid.insert(CellIndex::new(2, 0), Cell::Num(Number::new(0, String::new()))),
        None
    );
    assert_eq!(grid.get(CellIndex::new(2, 0)), None);
    assert_eq!(grid.serialize(), "");
    assert!(text("").is_blank());
    assert!(!text(" ").is_blank());
    assert!(!Cell::Formula(()).is_blank());
    assert!(!number(0.0).is_blank());
}

#[test]
fn a_reader_that_shows_no_text_gives_no_cell() {
    let silent = |field: &str| -> Option<Number> {
        if field == "7" {
            Some(Number::new(7f32.to_bits(), String::new()))
        } else {
            None
        }
    };
    let grid = FileApp::parse_csv("7;a", &silent);
    assert_eq!(grid.get(CellIndex::new(0, 0)), None);
    assert_eq!(grid.get(CellIndex::new(1, 0)), Some(&text("a")));
}
