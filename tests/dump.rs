use chip8::hex;
use chip8::hex::{address, dump_lines, get_lines, get_rle, get_rows, get_run};

fn text(line: &Vec<char>) -> String {
    line.iter().collect()
}

fn chars(s: &str) -> Vec<char> {
    s.chars().collect()
}

#[test]
fn dump_concat_formats_bytes() {
    assert_eq!(text(&hex::concat(&vec![0xAB, 0x01, 0x00, 0xFF])), "ab 01 00 ff");
    assert_eq!(text(&hex::concat(&vec![0x7])), "07");
    assert_eq!(text(&hex::concat(&vec![])), "");
}

#[test]
fn dump_address_is_padded() {
    assert_eq!(text(&address(0)), "0000");
    assert_eq!(text(&address(0x1F)), "001f");
    assert_eq!(text(&address(0x200)), "0200");
    assert_eq!(text(&address(0xFF8)), "0ff8");
    assert_eq!(text(&address(0x12345)), "12345");
}

#[test]
fn dump_rows_are_eight_wide() {
    let bytes: Vec<u8> = (0u8..20).collect();
    let rows = get_rows(&bytes);
    assert_eq!(rows.len(), 3);
    assert_eq!(rows[0], (0u8..8).collect::<Vec<u8>>());
    assert_eq!(rows[2], vec![16, 17, 18, 19]);
    assert!(get_rows(&vec![]).is_empty());
    let lines = get_lines(rows);
    assert_eq!(text(&lines[2]), "10 11 12 13");
}

#[test]
fn dump_runs() {
    let lines = vec![chars("a"), chars("a"), chars("a"), chars("b"), chars("a")];
    let mut p = 0;
    let run = get_run(&lines, &mut p);
    assert_eq!((run.0, text(&run.1)), (3, "a".to_string()));
    assert_eq!(p, 3);
    let rle = get_rle(lines);
    let flat: Vec<(usize, String)> = rle.iter().map(|(n, l)| (*n, text(l))).collect();
    assert_eq!(flat, vec![(3, "a".to_string()), (1, "b".to_string()), (1, "a".to_string())]);
}

#[test]
fn dump_shortens_repeated_lines() {
    let out: Vec<String> = dump_lines(&vec![0u8; 20]).iter().map(text).collect();
    assert_eq!(
        out,
        vec![
            "0000: 00 00 00 00 00 00 00 00",
            "0008: 00 00 00 00 00 00 00 00",
            "0010: 00 00 00 00",
        ]
    );
    let mut memory = vec![0u8; 4096];
    memory[0x200] = 0x6A;
    memory[0x201] = 0x02;
    let out: Vec<String> = dump_lines(&memory).iter().map(text).collect();
    assert_eq!(
        out,
        vec![
            "0000: 00 00 00 00 00 00 00 00",
            "...",
            "01f8: 00 00 00 00 00 00 00 00",
            "0200: 6a 02 00 00 00 00 00 00",
            "0208: 00 00 00 00 00 00 00 00",
            "...",
            "0ff8: 00 00 00 00 00 00 00 00",
        ]
    );
    assert!(dump_lines(&vec![]).is_empty());
}
