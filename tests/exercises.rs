use shell::brackets::brackets_are_balanced;
use shell::exercises::{add1, fibonacci, filter, pick_longest, split_ref, sum, unique};
use shell::point::{day_after, day_after2, Day, Point};

#[test]
fn sum_test_1() {
    assert_eq!(sum(&[1, 2, 3, 4]), 10);
}

#[test]
fn sum_of_nothing_and_negatives() {
    assert_eq!(sum(&[]), 0);
    assert_eq!(sum(&[5, -7, 2]), 0);
}

#[test]
fn unique_test_1() {
    assert_eq!(unique(&vec![1, 1, 2]), vec![1, 2]);
}

#[test]
fn unique_keeps_first_occurrences() {
    assert_eq!(unique(&vec![3, 1, 3, 2, 1]), vec![3, 1, 2]);
    assert_eq!(unique(&vec![]), Vec::<i32>::new());
}

#[test]
fn fibonaci_1() {
    assert_eq!(fibonacci(1, 1, 5), vec![1, 1, 2, 3, 5]);
}

#[test]
fn fibonacci_short() {
    assert_eq!(fibonacci(2, 7, 0), Vec::<i32>::new());
    assert_eq!(fibonacci(2, 7, 1), vec![2]);
    assert_eq!(fibonacci(2, 7, 4), vec![2, 7, 9, 16]);
}

#[test]
fn filter_tests() {
    assert_eq!(filter(& vec![1, 2, 3, 4, 5, 6], & |n| n % 2 == 0),
               vec![2, 4, 6]);
}

#[test]
fn filter_keeps_order_and_all_or_nothing() {
    assert_eq!(filter(&vec![5, 1, 4], &|n| n > 0), vec![5, 1, 4]);
    assert_eq!(filter(&vec![5, 1, 4], &|_n| false), Vec::<i32>::new());
}

#[test]
fn pick_longest_tests() {
    assert_eq!(pick_longest(& "cat".to_string(), & "dog".to_string()), "cat");
    assert_eq!(pick_longest("a", "bb"), "bb");
}

#[test]
fn add1_test() {
    let mut x = 1;
    add1(&mut x);
    assert_eq!(x, 2);
}

#[test]
fn copy_string_test() {
    let str1 = String::from("foo");
    let str2 = str1.clone();
    assert_eq!(str1, str2);
    assert_eq!(pick_longest(&str1, &str2), "foo");
}

#[test]
fn split_ref_tests() {
    let string = "Hello World!".to_string();
    assert_eq!(split_ref(& string), ["Hello", "World!"]);
    assert_eq!(split_ref("Hello World!"), & ["Hello", "World!"]);
    assert_eq!(split_ref("Hello World!"), vec!["Hello", "World!"]);
}

#[test]
fn split_ref_on_blank_text() {
    assert!(split_ref("   ").is_empty());
    assert_eq!(split_ref("  a\tb  "), vec!["a", "b"]);
}

#[test]
fn brackets() {
    assert!(brackets_are_balanced(""));
    assert!(brackets_are_balanced("[]"));
    assert!(brackets_are_balanced("{[()]}(x)"));
    assert!(!brackets_are_balanced("{[)]}"));
    assert!(!brackets_are_balanced("(("));
    assert!(!brackets_are_balanced("())"));
    assert!(!brackets_are_balanced("}{"));
}

#[test]
fn point_add() {
    let p = Point { x: 1, y: -2 };
    let q = Point { x: 10, y: 20 };
    let r = p.add(&q);
    assert_eq!((r.x, r.y), (11, 18));
}

#[test]
fn days() {
    assert_eq!(day_after("Monday".to_string()), "Tuesday");
    assert_eq!(day_after("Saturday".to_string()), "Sunday");
    assert_eq!(day_after("Sunday".to_string()), "Monday");
    assert_eq!(day_after2(&Day::Sunday), Day::Monday);
    assert_eq!(day_after2(&Day::Wednesday), Day::Thursday);
}
