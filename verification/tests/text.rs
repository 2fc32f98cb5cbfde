use ludusavi::text::{adjusted_size, decimal_text, join, rank_by_text};

fn strings(texts: &[&str]) -> Vec<String> {
    texts.iter().map(|text| text.to_string()).collect()
}

#[test]
fn numbers_in_decimal() {
    assert_eq!("0", decimal_text(0));
    assert_eq!("7", decimal_text(7));
    assert_eq!("10", decimal_text(10));
    assert_eq!("1234567890", decimal_text(1_234_567_890));
    assert_eq!("18446744073709551615", decimal_text(u64::MAX));
}

#[test]
fn sizes_below_one_unit_are_in_bytes() {
    assert_eq!("0 B", adjusted_size(0));
    assert_eq!("1 B", adjusted_size(1));
    assert_eq!("4 B", adjusted_size(4));
    assert_eq!("1023 B", adjusted_size(1023));
}

#[test]
fn sizes_in_binary_units_with_two_decimals() {
    assert_eq!("1.00 KiB", adjusted_size(1024));
    assert_eq!("100.00 KiB", adjusted_size(102_400));
    assert_eq!("150.00 KiB", adjusted_size(153_600));
    assert_eq!("1.50 KiB", adjusted_size(1536));
    assert_eq!("1.00 MiB", adjusted_size(1_048_576));
    assert_eq!("1.50 MiB", adjusted_size(1_572_864));
    assert_eq!("1.00 GiB", adjusted_size(1 << 30));
    assert_eq!("1.00 TiB", adjusted_size(1 << 40));
    assert_eq!("1.00 PiB", adjusted_size(1 << 50));
    assert_eq!("1.00 EiB", adjusted_size(1 << 60));
    assert_eq!("16.00 EiB", adjusted_size(u64::MAX));
}

#[test]
fn sizes_are_rounded_to_the_nearest_hundredth() {
    // 1029 / 1024 = 1.00488..., 1030 / 1024 = 1.00585...
    assert_eq!("1.00 KiB", adjusted_size(1029));
    assert_eq!("1.01 KiB", adjusted_size(1030));
    // 1.005 KiB exactly is 1029.12 bytes; a half is rounded up: 3.125 KiB = 3200 bytes.
    assert_eq!("3.13 KiB", adjusted_size(3200));
    assert_eq!("1.09 KiB", adjusted_size(1116));
    assert_eq!("1024.00 KiB", adjusted_size(1_048_575));
    assert_eq!("1023.99 KiB", adjusted_size(1_048_570));
}

#[test]
fn joined_lines() {
    assert_eq!("", join(&strings(&[]), "\n"));
    assert_eq!("one", join(&strings(&["one"]), "\n"));
    assert_eq!("one\ntwo\n\nfour", join(&strings(&["one", "two", "", "four"]), "\n"));
    assert_eq!("a, b", join(&strings(&["a", "b"]), ", "));
    assert_eq!("ab", join(&strings(&["a", "b"]), ""));
}

#[test]
fn places_in_the_order_of_the_texts() {
    assert_eq!(vec![1, 2, 0], rank_by_text(&strings(&["pear", "apple", "fig"])));
    assert_eq!(Vec::<usize>::new(), rank_by_text(&strings(&[])));
    assert_eq!(vec![0], rank_by_text(&strings(&["only"])));
    assert_eq!(vec![0, 1, 2], rank_by_text(&strings(&["a", "b", "c"])));
    assert_eq!(vec![2, 1, 0], rank_by_text(&strings(&["c", "b", "a"])));
}

#[test]
fn equal_texts_keep_the_order_of_their_places() {
    assert_eq!(vec![1, 3, 0, 2], rank_by_text(&strings(&["b", "a", "b", "a"])));
}

#[test]
fn texts_are_ordered_by_the_codes_of_their_characters() {
    // A prefix comes first; upper case comes before lower case; "é" and "Δ" come after every ASCII letter.
    assert_eq!(vec![0, 1], rank_by_text(&strings(&["save", "save1"])));
    assert_eq!(vec![1, 0], rank_by_text(&strings(&["a", "Z"])));
    assert_eq!(vec![2, 1, 0, 3], rank_by_text(&strings(&["é", "z", "", "Δ"])));
    assert_eq!(vec![1, 0], rank_by_text(&strings(&["/b", "/a/b"])));
}
