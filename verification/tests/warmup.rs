use balancebeam::vecops::{add_n, add_n_inplace, add_n_inplace2, dedup, dedup2, vec_to_string};

#[test]
fn test_add_n() {
    assert_eq!(add_n(vec![1], 2), vec![3]);
}

#[test]
fn test_add_n_inplace() {
    let mut v = vec![1, 2, 3];
    add_n_inplace(&mut v, 2);
    assert_eq!(v, vec![3, 4, 5]);
}

#[test]
fn test_dedup() {
    let mut v = vec![3, 1, 0, 1, 4, 4];
    dedup(&mut v);
    assert_eq!(v, vec![3, 1, 0, 4]);
}

#[test]
fn test_add_n_inplace2() {
    let mut v = vec![-1, 0, 7];
    add_n_inplace2(&mut v, -2);
    assert_eq!(v, vec![-3, -2, 5]);
}

#[test]
fn test_dedup2() {
    let mut v = vec![2, 2, 2, 9];
    dedup2(&mut v);
    assert_eq!(v, vec![2, 9]);
}

#[test]
fn test_dedup_empty() {
    let mut v: Vec<i32> = vec![];
    dedup(&mut v);
    assert_eq!(v, vec![]);
}

#[test]
fn test_vec_to_string() {
    let v = vec!['a', 'b', 'c'];
    assert_eq!(vec_to_string(&v), "abc");
    let empty: Vec<char> = vec![];
    assert_eq!(vec_to_string(&empty), "");
}
