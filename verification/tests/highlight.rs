use debugproxy::highlight::{highlight_cells, match_ranges};

#[test]
fn occurrences_do_not_overlap() {
    let hay: Vec<char> = "aaaa".chars().collect();
    assert_eq!(match_ranges(&hay, &vec!['a', 'a']), vec![(0, 2), (2, 4)]);
    let text: Vec<char> = "error: an error".chars().collect();
    assert_eq!(match_ranges(&text, &"error".chars().collect()), vec![(0, 5), (10, 15)]);
    assert!(match_ranges(&text, &"zzz".chars().collect()).is_empty());
    assert!(match_ranges(&vec!['a'], &vec!['a', 'b']).is_empty());
}

#[test]
fn marked_cells_take_the_mark_style() {
    let cells = vec![('a', 1u8), ('b', 1u8), ('c', 2u8)];
    let r = highlight_cells(&cells, &vec![(1, 3)], 9u8);
    assert_eq!(r, vec![('a', 1), ('b', 9), ('c', 9)]);
    assert_eq!(highlight_cells(&cells, &vec![], 9u8), cells);
}
