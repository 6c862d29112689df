use rust_digger::{read_crates, sort_newest_first, Crate};

fn package(name: &str, updated_at: &str) -> Crate {
    Crate {
        name: name.to_string(),
        updated_at: updated_at.to_string(),
        ..Crate::new()
    }
}

fn names(crates: &[Crate]) -> Vec<String> {
    crates.iter().map(|krate| krate.name.clone()).collect()
}

fn rows(list: &[(&str, &str)]) -> Vec<Result<Crate, String>> {
    list.iter()
        .map(|(name, updated_at)| Ok(package(name, updated_at)))
        .collect()
}

#[test]
fn packages_are_ordered_newest_first() {
    let crates = vec![
        package("a", "2021-03-01 10:00:00"),
        package("b", "2023-01-15 08:30:00"),
        package("c", "2019-12-31 23:59:59"),
        package("d", "2023-01-15 08:30:01"),
    ];
    assert_eq!(names(&sort_newest_first(&crates)), vec!["d", "b", "a", "c"]);
}

#[test]
fn packages_of_one_time_keep_their_order() {
    let crates = vec![
        package("a", "2021"),
        package("b", "2022"),
        package("c", "2021"),
        package("d", "2022"),
        package("e", "2021"),
        package("f", "2020"),
        package("g", "2022"),
    ];
    assert_eq!(
        names(&sort_newest_first(&crates)),
        vec!["b", "d", "g", "a", "c", "e", "f"]
    );
}

#[test]
fn order_goes_by_the_text_of_the_time() {
    let crates = vec![
        package("a", ""),
        package("b", "2"),
        package("c", "10"),
        package("d", "2a"),
        package("e", "é"),
        package("f", "z"),
    ];
    assert_eq!(
        names(&sort_newest_first(&crates)),
        vec!["e", "f", "d", "b", "c", "a"]
    );
}

#[test]
fn order_is_that_of_a_stable_sort() {
    let mut crates = Vec::new();
    let mut seed: u32 = 12345;
    for i in 0..200 {
        seed = seed.wrapping_mul(1103515245).wrapping_add(12345);
        let time = format!("{:02}", (seed >> 16) % 20);
        crates.push(package(&format!("p{}", i), &time));
    }
    let mut expected: Vec<(String, String)> = crates
        .iter()
        .map(|krate| (krate.name.clone(), krate.updated_at.clone()))
        .collect();
    expected.sort_by(|a, b| b.1.cmp(&a.1));
    let sorted = sort_newest_first(&crates);
    let found: Vec<(String, String)> = sorted
        .iter()
        .map(|krate| (krate.name.clone(), krate.updated_at.clone()))
        .collect();
    assert_eq!(found, expected);
}

#[test]
fn short_lists_are_ordered() {
    assert!(sort_newest_first(&Vec::new()).is_empty());
    assert_eq!(names(&sort_newest_first(&vec![package("a", "1")])), vec!["a"]);
    assert_eq!(
        names(&sort_newest_first(&vec![package("a", "1"), package("b", "2")])),
        vec!["b", "a"]
    );
}

#[test]
fn every_row_is_read_without_a_limit() {
    let records = rows(&[("a", "1"), ("b", "3"), ("c", "2")]);
    let crates = read_crates(0, &records).expect("rows");
    assert_eq!(names(&crates), vec!["b", "c", "a"]);
}

#[test]
fn limit_takes_that_many_rows() {
    let records = rows(&[("a", "1"), ("b", "3"), ("c", "2"), ("d", "4")]);
    assert_eq!(names(&read_crates(1, &records).expect("rows")), vec!["a"]);
    assert_eq!(names(&read_crates(2, &records).expect("rows")), vec!["b", "a"]);
    assert_eq!(names(&read_crates(3, &records).expect("rows")), vec!["b", "c", "a"]);
    assert_eq!(
        names(&read_crates(4, &records).expect("rows")),
        vec!["d", "b", "c", "a"]
    );
    assert_eq!(
        names(&read_crates(5, &records).expect("rows")),
        vec!["d", "b", "c", "a"]
    );
    assert_eq!(
        names(&read_crates(u32::MAX, &records).expect("rows")),
        vec!["d", "b", "c", "a"]
    );
}

#[test]
fn rows_under_a_limit_are_counted() {
    assert_eq!(rust_digger::rows_to_read(0, 0), 0);
    assert_eq!(rust_digger::rows_to_read(0, 7), 7);
    assert_eq!(rust_digger::rows_to_read(1, 7), 1);
    assert_eq!(rust_digger::rows_to_read(6, 7), 6);
    assert_eq!(rust_digger::rows_to_read(7, 7), 7);
    assert_eq!(rust_digger::rows_to_read(8, 7), 7);
    assert_eq!(rust_digger::rows_to_read(3, 0), 0);
    assert_eq!(rust_digger::rows_to_read(u32::MAX, 7), 7);
}

#[test]
fn row_that_cannot_be_read_fails_the_list() {
    let mut records = rows(&[("a", "1"), ("b", "3")]);
    records.push(Err("missing field `name`".to_string()));
    records.push(Ok(package("c", "2")));
    records.push(Err("second".to_string()));
    assert_eq!(
        read_crates(0, &records).err(),
        Some("error: missing field `name`".to_string())
    );
    assert_eq!(
        read_crates(3, &records).err(),
        Some("error: missing field `name`".to_string())
    );
    assert_eq!(
        read_crates(4, &records).err(),
        Some("error: missing field `name`".to_string())
    );
}

#[test]
fn row_behind_the_limit_is_not_looked_at() {
    let mut records = rows(&[("a", "1"), ("b", "3")]);
    records.push(Err("broken".to_string()));
    assert_eq!(names(&read_crates(2, &records).expect("rows")), vec!["b", "a"]);
    assert_eq!(names(&read_crates(1, &records).expect("rows")), vec!["a"]);
}

#[test]
fn no_rows_no_packages() {
    assert!(read_crates(0, &Vec::new()).expect("rows").is_empty());
    assert!(read_crates(7, &Vec::new()).expect("rows").is_empty());
}
