use rust_digger::percentage;

#[test]
fn lib_test_percentage() {
    assert_eq!(percentage(20, 100), "20");
    assert_eq!(percentage(5, 20), "25");
    assert_eq!(percentage(1234, 10000), "12.34");
    assert_eq!(percentage(1_234_567, 10_000_000), "12.34");
}

#[test]
fn main_test_percentage() {
    assert_eq!(percentage(20, 100), "20");
    assert_eq!(percentage(5, 20), "25");
    assert_eq!(percentage(1234, 10000), "12.34");
    assert_eq!(percentage(1234567, 10000000), "12.34");
}

#[test]
fn percentage_is_cut_off_not_rounded() {
    assert_eq!(percentage(1, 3), "33.33");
    assert_eq!(percentage(2, 3), "66.66");
    assert_eq!(percentage(1, 6), "16.66");
    assert_eq!(percentage(9999, 10000), "99.99");
    assert_eq!(percentage(99999, 100000), "99.99");
    assert_eq!(percentage(1, 100000), "0");
}

#[test]
fn percentage_leaves_closing_zeros_out() {
    assert_eq!(percentage(0, 5), "0");
    assert_eq!(percentage(5, 5), "100");
    assert_eq!(percentage(1, 2), "50");
    assert_eq!(percentage(1, 8), "12.5");
    assert_eq!(percentage(1, 1000), "0.1");
    assert_eq!(percentage(1, 10000), "0.01");
    assert_eq!(percentage(101, 10000), "1.01");
    assert_eq!(percentage(1, 20), "5");
    assert_eq!(percentage(21, 200), "10.5");
}

#[test]
fn percentage_of_more_than_the_whole() {
    assert_eq!(percentage(3, 2), "150");
    assert_eq!(percentage(10, 1), "1000");
    assert_eq!(percentage(usize::MAX, usize::MAX), "100");
    assert_eq!(percentage(usize::MAX, 1), format!("{}00", usize::MAX));
}

#[test]
fn percentage_of_nothing() {
    assert_eq!(percentage(0, 0), "NaN");
    assert_eq!(percentage(1, 0), "inf");
}
