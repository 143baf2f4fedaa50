use faster::lengths::get_nx;
use faster::lengths::nx_of_sorted;
use faster::lengths::quartile_of_sorted;
use faster::lengths::quartiles;
use faster::lengths::total;

#[test]
fn quartiles_of_ten_lengths() {
    let mut v: Vec<i64> = vec![3500, 165, 3000, 249, 2017, 1000, 3000, 1500, 2500, 2000];
    assert_eq!(quartiles(&mut v, 1), 1000);
    assert_eq!(quartiles(&mut v, 2), 2017);
    assert_eq!(quartiles(&mut v, 3), 3000);
}

#[test]
fn quartiles_sorts_in_place() {
    let mut v: Vec<i64> = vec![5, 1, 4, 2, 3];
    let q2 = quartiles(&mut v, 2);
    assert_eq!(q2, 3);
    assert_eq!(v, vec![1, 2, 3, 4, 5]);
}

#[test]
fn quartiles_keeps_duplicates() {
    let mut v: Vec<i64> = vec![7, 7, 1, 7, 1];
    assert_eq!(quartiles(&mut v, 1), 1);
    assert_eq!(v, vec![1, 1, 7, 7, 7]);
    assert_eq!(quartiles(&mut v, 3), 7);
}

#[test]
fn quartiles_of_small_collections() {
    let mut one: Vec<i64> = vec![42];
    assert_eq!(quartiles(&mut one, 1), 42);
    assert_eq!(quartiles(&mut one, 2), 42);
    assert_eq!(quartiles(&mut one, 3), 42);
    let mut two: Vec<i64> = vec![9, 4];
    assert_eq!(quartiles(&mut two, 1), 4);
    assert_eq!(quartiles(&mut two, 2), 9);
    assert_eq!(quartiles(&mut two, 3), 9);
    let mut four: Vec<i64> = vec![40, 10, 30, 20];
    assert_eq!(quartiles(&mut four, 1), 20);
    assert_eq!(quartiles(&mut four, 2), 30);
    assert_eq!(quartiles(&mut four, 3), 40);
}

#[test]
fn quartiles_of_nothing_is_zero() {
    let mut v: Vec<i64> = Vec::new();
    assert_eq!(quartiles(&mut v, 1), 0);
    assert_eq!(quartiles(&mut v, 2), 0);
    assert_eq!(quartiles(&mut v, 3), 0);
}

#[test]
fn quartile_of_sorted_reads_the_index() {
    let v: Vec<i64> = vec![1, 2, 3, 4, 5, 6, 7, 8];
    assert_eq!(quartile_of_sorted(&v, 1), 3);
    assert_eq!(quartile_of_sorted(&v, 2), 5);
    assert_eq!(quartile_of_sorted(&v, 3), 7);
}

#[test]
fn total_adds_all_lengths() {
    let v: Vec<i64> = vec![3500, 165, 3000, 249, 2017, 1000, 3000, 1500, 2500, 2000];
    assert_eq!(total(&v), 18931);
    let none: Vec<i64> = Vec::new();
    assert_eq!(total(&none), 0);
}

#[test]
fn total_is_wider_than_one_length() {
    let v: Vec<i64> = vec![i64::MAX, i64::MAX, 2];
    assert_eq!(total(&v), 2 * (i64::MAX as i128) + 2);
}

#[test]
fn nx_at_half_of_the_bases() {
    let mut v: Vec<i64> = vec![6, 2, 5, 3, 4];
    let half = total(&v) / 2;
    assert_eq!(half, 10);
    assert_eq!(get_nx(&mut v, half), 5);
    assert_eq!(v, vec![2, 3, 4, 5, 6]);
}

#[test]
fn nx_threshold_is_strict() {
    let v: Vec<i64> = vec![2, 3, 4, 5, 6];
    assert_eq!(nx_of_sorted(&v, 8), 4);
    assert_eq!(nx_of_sorted(&v, 9), 5);
    assert_eq!(nx_of_sorted(&v, 13), 5);
    assert_eq!(nx_of_sorted(&v, 14), 6);
}

#[test]
fn nx_of_the_whole_is_the_longest() {
    let mut v: Vec<i64> = vec![30, 10, 20, 30, 5];
    let whole = total(&v);
    assert_eq!(get_nx(&mut v, whole), 30);
    let mut ties: Vec<i64> = vec![4, 4, 4];
    assert_eq!(get_nx(&mut ties, 12), 4);
    let mut beyond: Vec<i64> = vec![1, 2, 3];
    assert_eq!(get_nx(&mut beyond, 1000), 3);
}

#[test]
fn nx_of_nothing_is_the_shortest() {
    let mut v: Vec<i64> = vec![30, 10, 20, 30, 5];
    assert_eq!(get_nx(&mut v, 0), 5);
    let mut zeros: Vec<i64> = vec![0, 0, 0];
    assert_eq!(get_nx(&mut zeros, 0), 0);
}

#[test]
fn nx_below_the_shortest_is_the_shortest() {
    let mut v: Vec<i64> = vec![30, 10, 20, 30, 5];
    assert_eq!(get_nx(&mut v, 4), 5);
    assert_eq!(get_nx(&mut v, -1), 5);
    assert_eq!(get_nx(&mut v, 5), 10);
    let mut equal: Vec<i64> = vec![6, 6, 6];
    assert_eq!(get_nx(&mut equal, 100), 6);
}

#[test]
fn nx_skips_empty_reads_at_threshold_zero() {
    let mut v: Vec<i64> = vec![0, 7, 0, 9];
    assert_eq!(get_nx(&mut v, 0), 7);
}

#[test]
fn nx_of_an_empty_collection_is_zero() {
    let mut v: Vec<i64> = Vec::new();
    assert_eq!(get_nx(&mut v, 0), 0);
    assert_eq!(get_nx(&mut v, 5), 0);
}
