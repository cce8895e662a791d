use lib::iterators::{
    all_positive, any_even, chain, chunks, double_in_place, doubled, even_doubles,
    even_squares_first_three, evens, find_first_even, first_even_square, flatten, max_value,
    min_value, odds, parse_numbers, partial_sums, partition_even, position_of, product_fold,
    range_vec, reduce_sum, replace_value, reversed, skip_first, skip_while_below, sum_by_index,
    sum_fold, take_first, take_while_below, unzip, windows, word_chars, zip_pairs, Counter,
};

const V: [i32; 10] = [1, 2, 3, 4, 5, 6, 7, 8, 9, 10];

#[test]
fn counter_iterates_one_to_max() {
    let mut c = Counter::new(3);
    assert_eq!(c.next(), Some(1));
    assert_eq!(c.next(), Some(2));
    assert_eq!(c.next(), Some(3));
    assert_eq!(c.next(), None);
    assert_eq!(c.next(), None);
}

#[test]
fn counter_consumers() {
    assert_eq!(Counter::new(5).sum_all(), 15);
    assert_eq!(Counter::new(3).collect_all(), vec![1, 2, 3]);
    assert_eq!(Counter::new(10).nth(5), Some(6));
    assert_eq!(Counter::new(3).nth(3), None);
    assert_eq!(Counter::new(0).sum_all(), 0);
}

#[test]
fn counter_consumers_continue_from_where_it_stands() {
    let mut c = Counter::new(5);
    c.next();
    c.next();
    assert_eq!(c.sum_all(), 12);
    assert_eq!(c.next(), None);
}

#[test]
fn map_filter_and_friends() {
    assert_eq!(doubled(&V), vec![2, 4, 6, 8, 10, 12, 14, 16, 18, 20]);
    assert_eq!(evens(&V), vec![2, 4, 6, 8, 10]);
    assert_eq!(odds(&V), vec![1, 3, 5, 7, 9]);
    assert_eq!(take_first(&V, 3), vec![1, 2, 3]);
    assert_eq!(take_first(&V, 20), V.to_vec());
    assert_eq!(skip_first(&V, 3), vec![4, 5, 6, 7, 8, 9, 10]);
    assert_eq!(skip_first(&V, 20), Vec::<i32>::new());
    assert_eq!(take_while_below(&V, 5), vec![1, 2, 3, 4]);
    assert_eq!(skip_while_below(&V, 5), vec![5, 6, 7, 8, 9, 10]);
    assert_eq!(take_while_below(&[5, 1], 5), Vec::<i32>::new());
    assert_eq!(skip_while_below(&[1, 6, 2], 5), vec![6, 2]);
}

#[test]
fn evens_of_negative_numbers() {
    assert_eq!(evens(&[-3, -2, 0, 1]), vec![-2, 0]);
    assert_eq!(odds(&[-3, -2, 0, 1]), vec![-3, 1]);
}

#[test]
fn parse_numbers_skips_words_that_are_not_numbers() {
    assert_eq!(parse_numbers(&["1", "2", "three", "4"]), vec![1, 2, 4]);
    assert_eq!(parse_numbers(&["-5", "+6", " 7", "", "-", "2147483648", "-2147483648"]), vec![-5, 6, -2147483648]);
}

#[test]
fn chain_zip_flatten() {
    assert_eq!(chain(&[1, 2, 3], &[4, 5, 6]), vec![1, 2, 3, 4, 5, 6]);
    assert_eq!(
        zip_pairs(&["Alice", "Bob", "Charlie"], &[30, 25, 35]),
        vec![("Alice", 30), ("Bob", 25), ("Charlie", 35)]
    );
    assert_eq!(zip_pairs(&["Alice", "Bob"], &[30]), vec![("Alice", 30)]);
    assert_eq!(flatten(&[vec![1, 2], vec![3, 4], vec![5]]), vec![1, 2, 3, 4, 5]);
    assert_eq!(flatten(&[vec![], vec![7], vec![]]), vec![7]);
    assert_eq!(
        word_chars(&["hello", "world"]),
        vec!['h', 'e', 'l', 'l', 'o', 'w', 'o', 'r', 'l', 'd']
    );
}

#[test]
fn inspect_pipeline_result() {
    assert_eq!(even_doubles(&V), vec![4, 8, 12, 16, 20]);
}

#[test]
fn consumers_on_one_to_five() {
    let v = [1, 2, 3, 4, 5];
    assert_eq!(sum_fold(&v), 15);
    assert_eq!(sum_by_index(&v), 15);
    assert_eq!(product_fold(&v), 120);
    assert_eq!(reduce_sum(&v), Some(15));
    assert_eq!(reduce_sum(&[]), None);
    assert_eq!(min_value(&v), Some(1));
    assert_eq!(max_value(&v), Some(5));
    assert_eq!(min_value(&[]), None);
    assert_eq!(max_value(&[]), None);
    assert!(any_even(&v));
    assert!(!any_even(&[1, 3]));
    assert!(all_positive(&v));
    assert!(!all_positive(&[1, 0]));
    assert_eq!(find_first_even(&v), Some(2));
    assert_eq!(find_first_even(&[1, 3]), None);
    assert_eq!(first_even_square(&v), Some(4));
    assert_eq!(position_of(&v, 3), Some(2));
    assert_eq!(position_of(&v, 9), None);
}

#[test]
fn partition_and_unzip() {
    assert_eq!(partition_even(&[1, 2, 3, 4, 5]), (vec![2, 4], vec![1, 3, 5]));
    assert_eq!(unzip(&[(1, 2), (3, 4), (5, 6)]), (vec![1, 3, 5], vec![2, 4, 6]));
}

#[test]
fn unzip_undoes_zip() {
    let left = [1, 2, 3];
    let right = [4, 5, 6];
    let pairs: Vec<(i32, i32)> = left.iter().copied().zip(right.iter().copied()).collect();
    assert_eq!(unzip(&pairs), (left.to_vec(), right.to_vec()));
}

#[test]
fn common_patterns() {
    assert_eq!(even_squares_first_three(&V), vec![4, 16, 36]);
    assert_eq!(even_squares_first_three(&[2, 3]), vec![4]);
    assert_eq!(replace_value(&[1, 2, 3, 4, 5], 3, 99), vec![1, 2, 99, 4, 5]);
    assert_eq!(partial_sums(&[1, 2, 3, 4, 5]), vec![1, 3, 6, 10, 15]);
    assert_eq!(windows(&[1, 2, 3, 4, 5], 2), vec![vec![1, 2], vec![2, 3], vec![3, 4], vec![4, 5]]);
    assert_eq!(windows(&[1], 2), Vec::<Vec<i32>>::new());
    assert_eq!(chunks(&[1, 2, 3, 4, 5], 2), vec![vec![1, 2], vec![3, 4], vec![5]]);
    assert_eq!(chunks(&[], 3), Vec::<Vec<i32>>::new());
}

#[test]
fn index_loop_and_fold_agree() {
    let v = range_vec(0, 1000);
    assert_eq!(v.len(), 1000);
    assert_eq!(sum_by_index(&v), sum_fold(&v));
    assert_eq!(sum_fold(&v), 499500);
}

#[test]
fn range_vec_from_one() {
    assert_eq!(range_vec(1, 10), vec![1, 2, 3, 4, 5, 6, 7, 8, 9, 10]);
    assert_eq!(range_vec(i32::MAX, 1), vec![i32::MAX]);
}

#[test]
fn reversed_and_doubled_in_place() {
    assert_eq!(reversed(&[1, 2, 3, 4, 5]), vec![5, 4, 3, 2, 1]);
    let mut v = vec![1, 2, 3];
    double_in_place(&mut v);
    assert_eq!(v, vec![2, 4, 6]);
}

#[test]
fn partition_keeps_every_element_once() {
    let v = [5, -2, 0, 7, 7, 8, -3];
    let (e, o) = partition_even(&v);
    assert_eq!(e.len() + o.len(), v.len());
    let mut all: Vec<i32> = e.iter().chain(o.iter()).copied().collect();
    let mut orig = v.to_vec();
    all.sort();
    orig.sort();
    assert_eq!(all, orig);
}
