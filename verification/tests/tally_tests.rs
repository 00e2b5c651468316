use vote_bot::tally::{Catalog, ConfigError, VoteTally};

fn catalog_abc() -> Catalog {
    let tokens = vec![b"up".to_vec(), b"down".to_vec(), b"left".to_vec()];
    let keys = vec![b"UpArrow".to_vec(), b"DownArrow".to_vec(), b"LeftArrow".to_vec()];
    Catalog::new(tokens, keys).unwrap()
}

#[test]
fn empty_catalog_is_rejected() {
    let r = Catalog::new(vec![], vec![]);
    assert_eq!(r.err(), Some(ConfigError::EmptyCatalog));
}

#[test]
fn duplicate_token_is_rejected() {
    let tokens = vec![b"up".to_vec(), b"up".to_vec()];
    let keys = vec![b"K1".to_vec(), b"K2".to_vec()];
    let r = Catalog::new(tokens, keys);
    assert_eq!(r.err(), Some(ConfigError::DuplicateToken));
}

#[test]
fn board_keys_match_catalog_after_reset() {
    let cat = catalog_abc();
    let mut t = VoteTally::new(&cat);
    t.record(b"up", &cat);
    t.reset();
    assert_eq!(t.len(), cat.len());
    for i in 0..t.len() {
        assert_eq!(t.count_at(i), 0);
    }
}

#[test]
fn replay_counts_each_token_exactly() {
    let cat = catalog_abc();
    let mut t = VoteTally::new(&cat);
    let lines: Vec<&[u8]> = vec![b"up", b"down", b"up", b"noise", b"up"];
    for l in lines {
        t.record(l, &cat);
    }
    assert_eq!(t.count_at(0), 3);
    assert_eq!(t.count_at(1), 1);
    assert_eq!(t.count_at(2), 0);
}

#[test]
fn unknown_token_is_a_no_op() {
    let cat = catalog_abc();
    let mut t = VoteTally::new(&cat);
    t.record(b"sideways", &cat);
    for i in 0..t.len() {
        assert_eq!(t.count_at(i), 0);
    }
}

#[test]
fn winner_none_when_all_zero() {
    let cat = catalog_abc();
    let t = VoteTally::new(&cat);
    assert_eq!(t.winner_idx(), None);
}

#[test]
fn winner_is_unique_maximum() {
    let cat = catalog_abc();
    let mut t = VoteTally::new(&cat);
    t.record(b"down", &cat);
    t.record(b"down", &cat);
    t.record(b"up", &cat);
    assert_eq!(t.winner_idx(), Some((1, 2)));
}

#[test]
fn winner_tie_goes_to_first_configured() {
    let cat = catalog_abc();
    let mut t = VoteTally::new(&cat);
    t.record(b"left", &cat);
    t.record(b"up", &cat);
    assert_eq!(t.winner_idx(), Some((0, 1)));
}

#[test]
fn reset_twice_is_idempotent() {
    let cat = catalog_abc();
    let mut t = VoteTally::new(&cat);
    t.record(b"up", &cat);
    t.reset();
    for i in 0..t.len() {
        assert_eq!(t.count_at(i), 0);
    }
    t.reset();
    assert_eq!(t.len(), cat.len());
    for i in 0..t.len() {
        assert_eq!(t.count_at(i), 0);
    }
}
