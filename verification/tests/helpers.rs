use escape_codec::dates::Date;
use escape_codec::decimal::{digit, push_decimal};
use escape_codec::doubling::{
    double, double_each, double_i32, double_repeated, double_string, other_double,
};
use escape_codec::english::tell_slang;
use escape_codec::longest::{bigger_by_mut_u8, longest_by_str, longest_by_string};

#[test]
fn double_of_ten_is_twenty() {
    assert_eq!(double(10), 20);
    assert_eq!(other_double(10), 20);
    assert_eq!(double_i32(10), 20);
}

#[test]
fn double_at_the_edges() {
    assert_eq!(double(0), 0);
    assert_eq!(double(127), 254);
    assert_eq!(other_double(127), 254);
    assert_eq!(double_i32(-1_073_741_824), i32::MIN);
    assert_eq!(double_i32(1_073_741_823), 2_147_483_646);
}

#[test]
fn double_string_appends_the_factor() {
    assert_eq!(double_string(String::from("100")), "100 * 2");
    assert_eq!(double_string(String::new()), " * 2");
}

#[test]
fn double_repeated_writes_the_text_twice() {
    assert_eq!(double_repeated(String::from("abcd")), "abcdabcd x 2");
    assert_eq!(double_repeated(String::new()), " x 2");
}

#[test]
fn double_each_doubles_every_number() {
    assert_eq!(double_each([1; 10]), [2; 10]);
    assert_eq!(
        double_each([0, 1, 2, 3, 4, 5, 6, 7, 8, 127]),
        [0, 2, 4, 6, 8, 10, 12, 14, 16, 254]
    );
}

#[test]
fn longest_by_str_names_the_longer_text() {
    let first = longest_by_str("This is a longer string", "This is a short string").unwrap();
    assert_eq!(first.name, "string1");
    assert_eq!(first.value, "This is a longer string");
    assert_eq!(first.text(), "string1:This is a longer string");
    let second = longest_by_str("ab", "abc").unwrap();
    assert_eq!(second.name, "string2");
    assert_eq!(second.value, "abc");
    assert_eq!(second.text(), "string2:abc");
}

#[test]
fn longest_by_str_of_equal_lengths_is_none() {
    assert!(longest_by_str("abc", "xyz").is_none());
    assert!(longest_by_str("", "").is_none());
}

#[test]
fn longest_by_str_counts_bytes() {
    let longer = longest_by_str("\u{e9}", "z").unwrap();
    assert_eq!(longer.name, "string1");
    assert!(longest_by_str("\u{e9}", "zz").is_none());
}

#[test]
fn bigger_by_mut_u8_picks_the_bigger_number() {
    let mut v1: u8 = 10;
    let mut v2: u8 = 5;
    assert_eq!(bigger_by_mut_u8(&mut v1, &mut v2), Some(&mut 10));
    assert_eq!(bigger_by_mut_u8(&mut v2, &mut v1), Some(&mut 10));
    assert_eq!((v1, v2), (10, 5));
}

#[test]
fn bigger_by_mut_u8_hands_out_the_bigger_number_itself() {
    let mut v1: u8 = 3;
    let mut v2: u8 = 9;
    if let Some(bigger) = bigger_by_mut_u8(&mut v1, &mut v2) {
        *bigger = 100;
    }
    assert_eq!((v1, v2), (3, 100));
}

#[test]
fn bigger_by_mut_u8_of_equal_numbers_is_none() {
    let mut v1: u8 = 7;
    let mut v2: u8 = 7;
    assert_eq!(bigger_by_mut_u8(&mut v1, &mut v2), None);
    assert_eq!((v1, v2), (7, 7));
}

#[test]
fn longest_by_string_returns_the_longer_text() {
    assert_eq!(
        longest_by_string(String::from("longer"), String::from("long")),
        Some(String::from("longer"))
    );
    assert_eq!(
        longest_by_string(String::from("long"), String::from("longer")),
        Some(String::from("longer"))
    );
}

#[test]
fn longest_by_string_of_equal_lengths_is_none() {
    assert_eq!(longest_by_string(String::from("v1"), String::from("v2")), None);
}

#[test]
fn french_date_is_written_day_first() {
    let date = Date::French(10, 1, 2022);
    assert_eq!(date.to_str(), "10/1/2022");
    assert_eq!(date.iso(), "2022110");
}

#[test]
fn us_date_is_written_year_first() {
    let date = Date::Us(2022, 3, 21);
    assert_eq!(date.to_str(), "2022/3/21");
    assert_eq!(date.iso(), "2022321");
}

#[test]
fn generic_date_is_followed_by_its_time_zone() {
    let date = Date::Generic { year: 1999, month: 12, day: 31, tz: "UTC" };
    assert_eq!(date.to_str(), "1999/12/31 UTC");
    assert_eq!(date.iso(), "19991231");
}

#[test]
fn dates_at_the_edges_of_their_fields() {
    assert_eq!(Date::French(0, 0, 0).to_str(), "0/0/0");
    assert_eq!(Date::French(0, 0, 0).iso(), "000");
    assert_eq!(Date::Us(65535, 255, 255).to_str(), "65535/255/255");
    assert_eq!(Date::Us(65535, 255, 255).iso(), "65535255255");
    assert_eq!(Date::Generic { year: 7, month: 8, day: 9, tz: "" }.to_str(), "7/8/9 ");
}

#[test]
fn digits_are_the_ten_decimal_characters() {
    let expected: [char; 10] = ['0', '1', '2', '3', '4', '5', '6', '7', '8', '9'];
    for d in 0u8..10 {
        assert_eq!(digit(d), expected[d as usize]);
    }
}

#[test]
fn push_decimal_writes_numbers_as_the_standard_library_does() {
    for n in 0u16..=u16::MAX {
        let mut text = String::new();
        push_decimal(&mut text, n);
        assert_eq!(text, format!("{}", n));
    }
}

#[test]
fn push_decimal_appends_to_what_is_there() {
    let mut text = String::from("n=");
    push_decimal(&mut text, 10);
    push_decimal(&mut text, 0);
    assert_eq!(text, "n=100");
}

#[test]
fn tell_slang_refuses() {
    assert_eq!(tell_slang(), "No I won't tell slang!");
}
