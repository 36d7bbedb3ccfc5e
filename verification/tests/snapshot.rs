use conway_rs::conway::snapshot::{
    append_decimal, read_snapshot, text_chars, write_snapshot, ImportError,
};

fn cells_line(width: usize, height: usize, alive: &[usize]) -> String {
    let mut line = vec!['0'; width * height];
    for &i in alive {
        line[i] = '1';
    }
    line.into_iter().collect()
}

#[test]
fn text_chars_gives_every_character() {
    assert_eq!(text_chars("a\u{e9}\n1"), vec!['a', '\u{e9}', '\n', '1']);
    assert!(text_chars("").is_empty());
}

#[test]
fn append_decimal_writes_digits_without_leading_zeros() {
    for &(n, expected) in &[(0usize, "0"), (7, "7"), (10, "10"), (64, "64"), (1905, "1905")] {
        let mut out = String::from("x");
        append_decimal(&mut out, n);
        assert_eq!(out, format!("x{}", expected));
    }
    let mut out = String::new();
    append_decimal(&mut out, usize::MAX);
    assert_eq!(out, format!("{}", usize::MAX));
}

#[test]
fn write_snapshot_gives_header_and_cell_line() {
    let mut cells = vec![false; 64];
    cells[0] = true;
    cells[9] = true;
    cells[63] = true;
    let text = write_snapshot(8, 8, false, &cells);
    assert_eq!(text, format!("8 8 false\n{}", cells_line(8, 8, &[0, 9, 63])));
    let text = write_snapshot(2, 1, true, &vec![false, true]);
    assert_eq!(text, "2 1 true\n01");
}

#[test]
fn read_snapshot_reads_what_write_snapshot_wrote() {
    let mut cells = vec![false; 8 * 12];
    for i in (0..cells.len()).step_by(5) {
        cells[i] = true;
    }
    let text = write_snapshot(12, 8, true, &cells);
    let snapshot = read_snapshot(&text).unwrap();
    assert_eq!(snapshot.width, 12);
    assert_eq!(snapshot.height, 8);
    assert!(snapshot.periodic);
    assert_eq!(snapshot.cells, cells);
}

#[test]
fn read_snapshot_is_lenient_about_space_line_ends_and_cell_characters() {
    let mut line = cells_line(8, 8, &[1, 2]);
    line.replace_range(10..11, "x");
    line.replace_range(11..12, "2");
    let text = format!("  +8\t008 \u{3000} false trailing words\r\n{}\r\nwhatever follows", line);
    let snapshot = read_snapshot(&text).unwrap();
    assert_eq!((snapshot.width, snapshot.height, snapshot.periodic), (8, 8, false));
    let mut expected = vec![false; 64];
    expected[1] = true;
    expected[2] = true;
    assert_eq!(snapshot.cells, expected);
}

#[test]
fn read_snapshot_counts_characters_not_bytes() {
    let mut line: Vec<char> = vec!['1'; 64];
    line[5] = '\u{e9}';
    let text: String = "8 8 true\n".chars().chain(line.into_iter()).collect();
    let snapshot = read_snapshot(&text).unwrap();
    assert_eq!(snapshot.cells.iter().filter(|c| **c).count(), 63);
    assert!(!snapshot.cells[5]);
}

#[test]
fn read_snapshot_rejects_a_missing_line_or_field() {
    assert_eq!(read_snapshot("").err(), Some(ImportError::InvalidFormat));
    assert_eq!(read_snapshot("\n").err(), Some(ImportError::InvalidFormat));
    assert_eq!(read_snapshot("   \n0101").err(), Some(ImportError::InvalidFormat));
    assert_eq!(read_snapshot("8\n0101").err(), Some(ImportError::InvalidFormat));
    assert_eq!(read_snapshot("8 8\n0101").err(), Some(ImportError::InvalidFormat));
    assert_eq!(read_snapshot("8 8 true").err(), Some(ImportError::InvalidFormat));
    assert_eq!(read_snapshot("8 8 true\n").err(), Some(ImportError::InvalidFormat));
}

#[test]
fn read_snapshot_rejects_a_field_that_does_not_parse() {
    let line = cells_line(8, 8, &[]);
    for header in [
        "x 8 true", "8 y true", "8 8 yes", "8 8 True", "-8 8 true", "8 8.0 true", "+ 8 true",
        "++8 8 true", "8 8 truee", "8 8 fals", "99999999999999999999999999 8 true", "8, 8 true",
    ] {
        assert_eq!(
            read_snapshot(&format!("{}\n{}", header, line)).err(),
            Some(ImportError::InvalidHeader),
            "{}",
            header
        );
    }
}

#[test]
fn read_snapshot_reports_the_first_fault_of_the_header() {
    assert_eq!(read_snapshot("x").err(), Some(ImportError::InvalidHeader));
    assert_eq!(read_snapshot("8 x").err(), Some(ImportError::InvalidHeader));
    assert_eq!(read_snapshot("100 x").err(), Some(ImportError::InvalidHeader));
    assert_eq!(read_snapshot("100 8").err(), Some(ImportError::InvalidFormat));
}

#[test]
fn read_snapshot_rejects_sizes_out_of_range() {
    for &(w, h) in &[(4usize, 8usize), (100, 8), (8, 7), (8, 65), (0, 0), (7, 64), (65, 64)] {
        let text = format!("{} {} false\n{}", w, h, cells_line(w, h, &[]));
        assert_eq!(read_snapshot(&text).err(), Some(ImportError::InvalidBoardSize));
    }
    // The size is judged before the cell line is looked for.
    assert_eq!(read_snapshot("4 4 true").err(), Some(ImportError::InvalidBoardSize));
    for &(w, h) in &[(8usize, 8usize), (64, 64), (8, 64), (64, 8)] {
        let text = format!("{} {} false\n{}", w, h, cells_line(w, h, &[]));
        assert!(read_snapshot(&text).is_ok());
    }
}

#[test]
fn read_snapshot_rejects_a_wrong_number_of_cells() {
    let line = cells_line(8, 8, &[]);
    assert_eq!(
        read_snapshot(&format!("8 8 false\n{}", &line[1..])).err(),
        Some(ImportError::InvalidCellCount)
    );
    assert_eq!(
        read_snapshot(&format!("8 8 false\n{}0", line)).err(),
        Some(ImportError::InvalidCellCount)
    );
    assert_eq!(read_snapshot("8 8 false\n\n").err(), Some(ImportError::InvalidCellCount));
    assert_eq!(
        read_snapshot(&format!("8 9 false\n{}", line)).err(),
        Some(ImportError::InvalidCellCount)
    );
}

#[test]
fn a_carriage_return_at_the_end_of_the_text_is_a_cell() {
    // No line feed follows, so the carriage return counts as a character of
    // the cell line, and reads as a dead cell.
    let text = format!("8 8 true\n{}\r", "0".repeat(63));
    let snapshot = read_snapshot(&text).unwrap();
    assert_eq!((snapshot.width, snapshot.height, snapshot.periodic), (8, 8, true));
    assert_eq!(snapshot.cells, vec![false; 64]);
    let text = format!("8 8 true\n{}\r", "1".repeat(63));
    let snapshot = read_snapshot(&text).unwrap();
    assert_eq!(snapshot.cells.iter().filter(|c| **c).count(), 63);
    assert!(!snapshot.cells[63]);
}

#[test]
fn a_full_cell_line_with_a_carriage_return_at_the_end_of_the_text_is_too_long() {
    let text = format!("8 8 true\n{}\r", "0".repeat(64));
    assert_eq!(read_snapshot(&text).err(), Some(ImportError::InvalidCellCount));
}

#[test]
fn a_carriage_return_before_a_line_feed_is_not_part_of_the_line() {
    let text = format!("8 8 true\r\n{}\r\n", "0".repeat(64));
    assert!(read_snapshot(&text).is_ok());
    let text = format!("8 8 true\r\n{}\r\n", "0".repeat(63));
    assert_eq!(read_snapshot(&text).err(), Some(ImportError::InvalidCellCount));
    // Only one carriage return goes with the line feed.
    let text = format!("8 8 true\n{}\r\r\n", "0".repeat(63));
    assert!(read_snapshot(&text).is_ok());
    let text = format!("8 8 true\n{}\r\r\n", "0".repeat(64));
    assert_eq!(read_snapshot(&text).err(), Some(ImportError::InvalidCellCount));
}

#[test]
fn a_header_that_ends_the_text_with_a_carriage_return_still_parses() {
    // The carriage return stays in the header line, where it is white space.
    assert_eq!(read_snapshot("4 4 true\r").err(), Some(ImportError::InvalidBoardSize));
    assert_eq!(read_snapshot("8 8 true\r").err(), Some(ImportError::InvalidFormat));
}
