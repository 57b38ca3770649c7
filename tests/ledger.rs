use shaft_db::{
    index_users, users_by_balance, User,
    balance_for_user, balance_of, generate_token, recent_transactions, user_for_token,
    users_with_balances, validate_transaction, DatabaseError, Ledger, TokenRecord, Transaction,
    UserRecord, TOKEN_LENGTH,
};

fn tx(shafter: &str, shaftee: &str, amount: i64, time_sec: i64) -> Transaction {
    Transaction {
        shafter: shafter.to_string(),
        shaftee: shaftee.to_string(),
        amount,
        time_sec,
        reason: format!("{} owes {}", shaftee, shafter),
    }
}

fn user(id: &str) -> UserRecord {
    UserRecord { user_id: id.to_string(), display_name: format!("User {}", id) }
}

fn ledger_with(ids: &[&str]) -> Ledger {
    let mut ledger = Ledger::new();
    for id in ids {
        let created = ledger.create_user_by_external_id(id.to_string(), format!("User {}", id));
        assert_eq!(created, Ok(id.to_string()));
    }
    ledger
}

#[test]
fn balances_of_two_transactions() {
    let mut ledger = ledger_with(&["A", "B", "C"]);
    assert_eq!(ledger.record_transaction(tx("A", "B", 500, 1)), Ok(()));
    assert_eq!(ledger.record_transaction(tx("B", "C", 200, 2)), Ok(()));
    assert_eq!(ledger.get_balance(&"A".to_string()), Ok(500));
    assert_eq!(ledger.get_balance(&"B".to_string()), Ok(-300));
    assert_eq!(ledger.get_balance(&"C".to_string()), Ok(-200));
}

#[test]
fn balance_is_shafter_sum_minus_shaftee_sum() {
    let txs = vec![
        tx("A", "B", 10, 1),
        tx("B", "A", 3, 2),
        tx("A", "C", -4, 3),
        tx("C", "B", 7, 4),
        tx("A", "A", 100, 5),
    ];
    let id = "A".to_string();
    let as_shafter: i128 = txs.iter().filter(|t| t.shafter == id).map(|t| t.amount as i128).sum();
    let as_shaftee: i128 = txs.iter().filter(|t| t.shaftee == id).map(|t| t.amount as i128).sum();
    assert_eq!(balance_of(&txs, &id), as_shafter - as_shaftee);
    assert_eq!(balance_of(&txs, &id), 3);
    assert_eq!(balance_of(&txs, &"B".to_string()), -10 + 3 - 7);
}

#[test]
fn balance_beyond_i64_range() {
    let txs = vec![tx("A", "B", i64::MAX, 1), tx("A", "B", i64::MAX, 2), tx("C", "B", i64::MIN, 3)];
    assert_eq!(balance_of(&txs, &"A".to_string()), 2 * (i64::MAX as i128));
    assert_eq!(balance_of(&txs, &"B".to_string()), -2 * (i64::MAX as i128) - (i64::MIN as i128));
}

#[test]
fn user_without_transactions_has_zero_balance() {
    let users = vec![user("A")];
    assert_eq!(balance_for_user(&users, &vec![], &"A".to_string()), Ok(0));
}

#[test]
fn balance_of_unknown_user_fails() {
    let users = vec![user("A")];
    let txs = vec![tx("Z", "A", 5, 1)];
    assert_eq!(
        balance_for_user(&users, &txs, &"Z".to_string()),
        Err(DatabaseError::UnknownUser { user_id: "Z".to_string() })
    );
}

#[test]
fn listing_is_ordered_by_balance() {
    let mut ledger = ledger_with(&["A", "B", "C", "D"]);
    ledger.record_transaction(tx("A", "B", 500, 1)).unwrap();
    ledger.record_transaction(tx("B", "C", 200, 2)).unwrap();
    let listed = ledger.list_users_with_balances();
    let ids: Vec<&str> = listed.keys().map(|k| k.as_str()).collect();
    let balances: Vec<i128> = listed.values().map(|u| u.balance).collect();
    assert_eq!(ids, vec!["B", "C", "D", "A"]);
    assert_eq!(balances, vec![-300, -200, 0, 500]);
    assert_eq!(listed.get("C").unwrap().display_name, "User C");
    assert_eq!(listed.get("A").unwrap().user_id, "A");
}

#[test]
fn listing_with_equal_balances_holds_every_user() {
    let users = vec![user("X"), user("Y"), user("Z")];
    let listed = users_with_balances(&users, &vec![]);
    let mut ids: Vec<&str> = listed.iter().map(|u| u.user_id.as_str()).collect();
    ids.sort();
    assert_eq!(ids, vec!["X", "Y", "Z"]);
    assert!(listed.iter().all(|u| u.balance == 0));
}

#[test]
fn listing_of_no_users_is_empty() {
    assert!(users_with_balances(&vec![], &vec![tx("A", "B", 1, 1)]).is_empty());
}

#[test]
fn issued_token_authenticates_its_user() {
    let mut ledger = ledger_with(&["A", "B"]);
    ledger.record_transaction(tx("A", "B", 42, 1)).unwrap();
    let token = ledger.issue_token("A".to_string()).unwrap();
    assert_eq!(token.len(), TOKEN_LENGTH);
    let found = ledger.authenticate_token(&token).unwrap();
    assert_eq!(found.user_id, "A");
    assert_eq!(found.display_name, "User A");
    assert_eq!(found.balance, 42);
}

#[test]
fn revoked_token_no_longer_authenticates() {
    let mut ledger = ledger_with(&["A"]);
    let token = ledger.issue_token("A".to_string()).unwrap();
    let other = ledger.issue_token("A".to_string()).unwrap();
    assert_eq!(ledger.revoke_token(&token), Ok(()));
    assert_eq!(ledger.authenticate_token(&token), None);
    assert!(ledger.authenticate_token(&other).is_some());
    assert_eq!(ledger.revoke_token(&token), Ok(()));
    assert_eq!(ledger.tokens.len(), 1);
}

#[test]
fn duplicate_token_is_refused() {
    let mut ledger = ledger_with(&["A"]);
    assert_eq!(ledger.add_token("t1".to_string(), "A".to_string()), Ok(()));
    let refused = ledger.add_token("t1".to_string(), "B".to_string());
    assert!(matches!(refused, Err(DatabaseError::Query { .. })));
    assert_eq!(ledger.tokens.len(), 1);
    assert_eq!(ledger.tokens[0].user_id, "A");
}

#[test]
fn token_of_missing_user_does_not_authenticate() {
    let tokens = vec![TokenRecord { token: "t".to_string(), user_id: "ghost".to_string() }];
    let users = vec![user("A")];
    assert_eq!(user_for_token(&tokens, &users, &vec![], &"t".to_string()), None);
    assert_eq!(user_for_token(&tokens, &users, &vec![], &"u".to_string()), None);
}

#[test]
fn unknown_shaftee_leaves_ledger_unchanged() {
    let mut ledger = ledger_with(&["A"]);
    ledger.record_transaction(tx("A", "A", 1, 1)).unwrap();
    let result = ledger.record_transaction(tx("A", "nobody", 5, 2));
    assert_eq!(result, Err(DatabaseError::UnknownUser { user_id: "nobody".to_string() }));
    assert_eq!(ledger.transactions.len(), 1);
    assert_eq!(ledger.get_balance(&"A".to_string()), Ok(0));
}

#[test]
fn unknown_shafter_is_accepted() {
    let users = vec![user("B")];
    assert_eq!(validate_transaction(&users, &tx("nobody", "B", 5, 1)), Ok(()));
}

#[test]
fn recent_transactions_most_recent_first() {
    let txs = vec![tx("A", "B", 1, 10), tx("A", "B", 2, 20), tx("A", "B", 3, 30)];
    let recent = recent_transactions(&txs, 2);
    assert_eq!(recent.len(), 2);
    assert_eq!(recent[0], txs[2]);
    assert_eq!(recent[1], txs[1]);
    assert_eq!(recent_transactions(&txs, 10).len(), 3);
    assert_eq!(recent_transactions(&txs, 10)[2].time_sec, 10);
    assert!(recent_transactions(&txs, 0).is_empty());
    assert!(recent_transactions(&vec![], 5).is_empty());
}

#[test]
fn recent_transactions_through_ledger() {
    let mut ledger = ledger_with(&["A", "B"]);
    ledger.record_transaction(tx("A", "B", 7, 100)).unwrap();
    ledger.record_transaction(tx("B", "A", 8, 200)).unwrap();
    let recent = ledger.list_recent_transactions(1);
    assert_eq!(recent.len(), 1);
    assert_eq!(recent[0].amount, 8);
    assert_eq!(recent[0].reason, "A owes B");
}

#[test]
fn duplicate_external_id_is_refused() {
    let mut ledger = ledger_with(&["gh1"]);
    let again = ledger.create_user_by_external_id("gh1".to_string(), "Someone else".to_string());
    assert!(matches!(again, Err(DatabaseError::Query { .. })));
    assert_eq!(ledger.users.len(), 1);
    assert_eq!(ledger.links.len(), 1);
    assert_eq!(ledger.users[0].display_name, "User gh1");
}

#[test]
fn lookup_by_external_id() {
    let ledger = ledger_with(&["gh1", "gh2"]);
    assert_eq!(ledger.lookup_user_by_external_id(&"gh2".to_string()), Some("gh2".to_string()));
    assert_eq!(ledger.lookup_user_by_external_id(&"gh3".to_string()), None);
}

#[test]
fn generated_tokens_are_alphanumeric() {
    let a = generate_token();
    let b = generate_token();
    assert_eq!(a.chars().count(), TOKEN_LENGTH);
    assert!(a.chars().all(|c| c.is_ascii_alphanumeric()));
    assert!(b.chars().all(|c| c.is_ascii_alphanumeric()));
    assert_ne!(a, b);
}

#[test]
fn users_by_balance_is_keyed_in_order() {
    let users = vec![user("A"), user("B"), user("C")];
    let txs = vec![tx("C", "A", 9, 1), tx("B", "C", 4, 2)];
    let map = users_by_balance(&users, &txs);
    let entries: Vec<(String, i128)> = map.iter().map(|(k, u)| (k.clone(), u.balance)).collect();
    assert_eq!(
        entries,
        vec![("A".to_string(), -9), ("B".to_string(), 4), ("C".to_string(), 5)]
    );
}

#[test]
fn index_users_keeps_order() {
    let listed = vec![
        User { user_id: "z".to_string(), display_name: "Zed".to_string(), balance: -1 },
        User { user_id: "a".to_string(), display_name: "Ay".to_string(), balance: 3 },
    ];
    let map = index_users(&listed);
    assert_eq!(map.len(), 2);
    let keys: Vec<&String> = map.keys().collect();
    assert_eq!(keys, vec!["z", "a"]);
    assert_eq!(map.get("a"), Some(&listed[1]));
}

#[test]
fn recording_moves_balances_by_the_amount() {
    let mut ledger = ledger_with(&["A", "B", "C"]);
    ledger.record_transaction(tx("C", "A", 30, 1)).unwrap();
    let a_before = ledger.get_balance(&"A".to_string()).unwrap();
    let b_before = ledger.get_balance(&"B".to_string()).unwrap();
    let c_before = ledger.get_balance(&"C".to_string()).unwrap();
    ledger.record_transaction(tx("A", "B", 75, 2)).unwrap();
    assert_eq!(ledger.get_balance(&"A".to_string()), Ok(a_before + 75));
    assert_eq!(ledger.get_balance(&"B".to_string()), Ok(b_before - 75));
    assert_eq!(ledger.get_balance(&"C".to_string()), Ok(c_before));
}

#[test]
fn listing_agrees_with_single_lookup() {
    let mut ledger = ledger_with(&["A", "B", "C"]);
    ledger.record_transaction(tx("A", "B", 11, 1)).unwrap();
    ledger.record_transaction(tx("C", "A", 4, 2)).unwrap();
    ledger.record_transaction(tx("B", "C", -6, 3)).unwrap();
    let listed = ledger.list_users_with_balances();
    assert_eq!(listed.len(), 3);
    for (id, u) in listed.iter() {
        assert_eq!(ledger.get_balance(id), Ok(u.balance));
    }
}

#[test]
fn issuing_into_an_empty_token_table_succeeds() {
    let mut ledger = ledger_with(&["A"]);
    let token = ledger.issue_token("A".to_string());
    assert!(token.is_ok());
    assert_eq!(ledger.tokens.len(), 1);
    assert_eq!(ledger.tokens[0].user_id, "A");
}

#[test]
fn recording_a_sequence_sums_its_amounts() {
    let base = vec![tx("A", "B", 5, 1)];
    let recorded = vec![tx("A", "C", 7, 2), tx("B", "A", 2, 3), tx("C", "A", 1, 4)];
    let mut all = base.clone();
    all.extend(recorded.iter().cloned());
    let id = "A".to_string();
    let as_shafter: i128 = recorded.iter().filter(|t| t.shafter == id).map(|t| t.amount as i128).sum();
    let as_shaftee: i128 = recorded.iter().filter(|t| t.shaftee == id).map(|t| t.amount as i128).sum();
    assert_eq!(balance_of(&all, &id), balance_of(&base, &id) + as_shafter - as_shaftee);
    assert_eq!(balance_of(&all, &id), 9);
}
