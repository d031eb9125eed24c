use video_shell::sorting::sort_strings;
use video_shell::text::{compare, Rank};

fn strings(list: &[&str]) -> Vec<String> {
    list.iter().map(|s| s.to_string()).collect()
}

#[test]
fn capitals_come_before_small_letters() {
    assert_eq!(compare("B", "a"), Rank::Before);
    assert_eq!(compare("a", "B"), Rank::After);
}

#[test]
fn equal_texts_rank_the_same() {
    assert_eq!(compare("", ""), Rank::Same);
    assert_eq!(compare("clip.mp4", "clip.mp4"), Rank::Same);
}

#[test]
fn prefix_comes_first() {
    assert_eq!(compare("", "a"), Rank::Before);
    assert_eq!(compare("clip", "clip.mp4"), Rank::Before);
    assert_eq!(compare("clip.mp4", "clip"), Rank::After);
}

#[test]
fn first_difference_decides() {
    assert_eq!(compare("abc", "abd"), Rank::Before);
    assert_eq!(compare("abd", "abcz"), Rank::After);
    assert_eq!(compare("/v/10.mp4", "/v/9.mp4"), Rank::Before);
}

#[test]
fn characters_rank_by_code_point() {
    assert_eq!(compare("z", "é"), Rank::Before);
    assert_eq!(compare("\u{FFFD}", "\u{1F600}"), Rank::Before);
    assert_eq!(compare("\u{1F600}", "\u{FF5E}"), Rank::After);
}

#[test]
fn ranks_as_the_standard_library_orders_strings() {
    let samples = ["", "a", "B", "ab", "a b", "é", "z", "Z", "\u{1F600}", "\u{FF5E}", "aé", "a\u{7F}"];
    for a in samples {
        for b in samples {
            let expected = if a < b {
                Rank::Before
            } else if a == b {
                Rank::Same
            } else {
                Rank::After
            };
            assert_eq!(compare(a, b), expected, "{a:?} against {b:?}");
        }
    }
}

#[test]
fn sorts_into_ascending_order() {
    let list = strings(&["pear", "Apple", "fig", "apple", "Fig", ""]);
    assert_eq!(sort_strings(&list), strings(&["", "Apple", "Fig", "apple", "fig", "pear"]));
}

#[test]
fn sorting_keeps_repeated_strings() {
    let list = strings(&["b", "a", "b", "a", "b"]);
    assert_eq!(sort_strings(&list), strings(&["a", "a", "b", "b", "b"]));
}

#[test]
fn sorting_nothing_gives_nothing() {
    assert_eq!(sort_strings(&Vec::new()), Vec::<String>::new());
    assert_eq!(sort_strings(&strings(&["only"])), strings(&["only"]));
}

#[test]
fn sorts_as_the_standard_library_does() {
    let mut list = Vec::new();
    let mut seed: u32 = 12345;
    for _ in 0..500 {
        let mut s = String::new();
        seed = seed.wrapping_mul(1664525).wrapping_add(1013904223);
        let len = (seed >> 28) % 6;
        for _ in 0..len {
            seed = seed.wrapping_mul(1664525).wrapping_add(1013904223);
            let pick = (seed >> 24) % 8;
            s.push(['a', 'B', '.', '/', 'é', '9', 'z', '\u{1F600}'][usize::try_from(pick).unwrap()]);
        }
        list.push(s);
    }
    let mut expected = list.clone();
    expected.sort();
    assert_eq!(sort_strings(&list), expected);
}
