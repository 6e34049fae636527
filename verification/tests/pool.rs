use gemini_pool::pool::RotationPool;

fn keys(list: &[&str]) -> Vec<String> {
    list.iter().map(|k| k.to_string()).collect()
}

#[test]
fn empty_pool_is_refused_at_construction() {
    assert!(RotationPool::new(vec![]).is_none());
}

#[test]
fn pool_with_an_empty_credential_is_refused() {
    assert!(RotationPool::new(keys(&["a", "", "c"])).is_none());
    assert!(RotationPool::new(keys(&[""])).is_none());
}

#[test]
fn pool_reports_its_size() {
    let pool = RotationPool::new(keys(&["a", "b", "c"])).unwrap();
    assert_eq!(pool.len(), 3);
}

#[test]
fn one_round_returns_every_credential_once() {
    for size in 1..=7usize {
        let list: Vec<String> = (0..size).map(|i| format!("key-{}", i)).collect();
        let pool = RotationPool::new(list.clone()).unwrap();
        let mut seen: Vec<String> = (0..size).map(|_| pool.get_next_api_key().to_string()).collect();
        seen.sort();
        let mut wanted = list;
        wanted.sort();
        assert_eq!(seen, wanted);
    }
}

#[test]
fn a_round_from_the_middle_returns_every_credential_once() {
    let pool = RotationPool::new(keys(&["a", "b", "c"])).unwrap();
    pool.get_next_api_key();
    let mut seen: Vec<String> = (0..3).map(|_| pool.get_next_api_key().to_string()).collect();
    seen.sort();
    assert_eq!(seen, keys(&["a", "b", "c"]));
}

#[test]
fn rotation_follows_the_order_of_the_pool() {
    let pool = RotationPool::new(keys(&["a", "b", "c"])).unwrap();
    let seen: Vec<&str> = (0..7).map(|_| pool.get_next_api_key()).collect();
    assert_eq!(seen, vec!["a", "b", "c", "a", "b", "c", "a"]);
}

#[test]
fn a_ticket_stands_for_its_remainder() {
    let pool = RotationPool::new(keys(&["a", "b", "c"])).unwrap();
    assert_eq!(pool.key_at(0), "a");
    assert_eq!(pool.key_at(4), "b");
    assert_eq!(pool.key_at(5), "c");
    assert_eq!(pool.key_at(usize::MAX), ["a", "b", "c"][usize::MAX % 3]);
}

#[test]
fn duplicate_credentials_are_handed_out_as_often_as_they_stand_in_the_pool() {
    let pool = RotationPool::new(keys(&["a", "a", "b"])).unwrap();
    let seen: Vec<&str> = (0..3).map(|_| pool.get_next_api_key()).collect();
    assert_eq!(seen, vec!["a", "a", "b"]);
}
