use crud_store::AccountId;
use crud_store::CrudContract;
use crud_store::CrudError;


#[test]
fn new_store_seeds_one_active_record() {
    let mut c = CrudContract::new(AccountId(1), 7);
    let all = c.read_all_messages(AccountId(1)).unwrap();
    assert_eq!(all.len(), 1);
    assert_eq!(all[0].sender, AccountId(1));
    assert_eq!(all[0].message, "First record: the store is open.".to_string());
    assert_eq!(all[0].created_at, 7);
    assert_eq!(all[0].updated_at, 7);
    assert_eq!(all[0].deleted_at, None);
    assert_eq!(c.get_senders(), vec![AccountId(1)]);
}

#[test]
fn create_then_read() {
    let mut c = CrudContract::new(AccountId(1), 0);
    assert_eq!(c.create_message(AccountId(2), "0123456789".to_string(), 5), Ok(()));
    assert_eq!(c.read_message_from(AccountId(2)), Ok("0123456789".to_string()));
}

#[test]
fn read_is_idempotent() {
    let mut c = CrudContract::new(AccountId(1), 0);
    assert_eq!(c.create_message(AccountId(2), "0123456789".to_string(), 5), Ok(()));
    let first = c.read_message_from(AccountId(2));
    let second = c.read_message_from(AccountId(2));
    assert_eq!(first, second);
    let missing_first = c.read_message_from(AccountId(3));
    let missing_second = c.read_message_from(AccountId(3));
    assert_eq!(missing_first, missing_second);
    assert_eq!(missing_first, Err(CrudError::AnyMessageFound));
}

#[test]
fn double_create_is_rejected() {
    let mut c = CrudContract::new(AccountId(1), 0);
    assert_eq!(c.create_message(AccountId(2), "0123456789".to_string(), 5), Ok(()));
    assert_eq!(
        c.create_message(AccountId(2), "another message".to_string(), 6),
        Err(CrudError::MessageAlreadyCreatedBySender)
    );
    assert_eq!(c.read_message_from(AccountId(2)), Ok("0123456789".to_string()));
    assert_eq!(c.read_all_messages(AccountId(1)).unwrap().len(), 2);
}

#[test]
fn short_content_is_rejected() {
    let mut c = CrudContract::new(AccountId(1), 0);
    assert_eq!(
        c.create_message(AccountId(2), "short".to_string(), 5),
        Err(CrudError::MessageTooShort)
    );
    assert_eq!(c.read_message_from(AccountId(2)), Err(CrudError::AnyMessageFound));
    assert_eq!(c.read_all_messages(AccountId(1)).unwrap().len(), 1);
}

#[test]
fn content_length_boundary() {
    let mut c = CrudContract::new(AccountId(1), 0);
    assert_eq!(
        c.create_message(AccountId(2), "012345678".to_string(), 5),
        Err(CrudError::MessageTooShort)
    );
    assert_eq!(c.create_message(AccountId(2), "0123456789".to_string(), 5), Ok(()));
}

#[test]
fn content_length_counts_characters() {
    let mut c = CrudContract::new(AccountId(1), 0);
    assert_eq!(c.create_message(AccountId(2), "ääääääääää".to_string(), 5), Ok(()));
    assert_eq!(c.read_message_from(AccountId(2)), Ok("ääääääääää".to_string()));
}

#[test]
fn update_round_trip() {
    let mut c = CrudContract::new(AccountId(1), 0);
    assert_eq!(c.create_message(AccountId(2), "0123456789".to_string(), 5), Ok(()));
    assert_eq!(c.update_message(AccountId(2), "abcdefghij".to_string(), 6), Ok(()));
    assert_eq!(c.read_message_from(AccountId(2)), Ok("abcdefghij".to_string()));
    let all = c.read_all_messages(AccountId(1)).unwrap();
    let rec = all.iter().find(|m| m.sender == AccountId(2)).unwrap();
    assert_eq!(rec.created_at, 5);
    assert_eq!(rec.updated_at, 6);
}

#[test]
fn identical_update_is_rejected() {
    let mut c = CrudContract::new(AccountId(1), 0);
    assert_eq!(c.create_message(AccountId(2), "0123456789".to_string(), 5), Ok(()));
    assert_eq!(
        c.update_message(AccountId(2), "0123456789".to_string(), 6),
        Err(CrudError::MessageIsIdentical)
    );
    let all = c.read_all_messages(AccountId(1)).unwrap();
    let rec = all.iter().find(|m| m.sender == AccountId(2)).unwrap();
    assert_eq!(rec.updated_at, 5);
}

#[test]
fn update_with_short_content_is_rejected() {
    let mut c = CrudContract::new(AccountId(1), 0);
    assert_eq!(c.create_message(AccountId(2), "0123456789".to_string(), 5), Ok(()));
    assert_eq!(
        c.update_message(AccountId(2), "tiny".to_string(), 6),
        Err(CrudError::MessageTooShort)
    );
    assert_eq!(c.read_message_from(AccountId(2)), Ok("0123456789".to_string()));
}

#[test]
fn update_without_active_record_is_rejected() {
    let mut c = CrudContract::new(AccountId(1), 0);
    assert_eq!(
        c.update_message(AccountId(2), "0123456789".to_string(), 5),
        Err(CrudError::AnyMessageFound)
    );
}

#[test]
fn delete_then_recreate() {
    let mut c = CrudContract::new(AccountId(1), 0);
    assert_eq!(c.create_message(AccountId(2), "0123456789".to_string(), 5), Ok(()));
    assert_eq!(c.delete_message(AccountId(2), 6), Ok(()));
    assert_eq!(c.read_message_from(AccountId(2)), Err(CrudError::AnyMessageFound));
    assert_eq!(c.create_message(AccountId(2), "a brand new text".to_string(), 7), Ok(()));
    assert_eq!(c.read_message_from(AccountId(2)), Ok("a brand new text".to_string()));
    let all = c.read_all_messages(AccountId(1)).unwrap();
    let user_records: Vec<_> = all.iter().filter(|m| m.sender == AccountId(2)).collect();
    assert_eq!(user_records.len(), 2);
    let active: Vec<_> = user_records.iter().filter(|m| m.deleted_at.is_none()).collect();
    assert_eq!(active.len(), 1);
    assert_eq!(active[0].message, "a brand new text".to_string());
    let deleted: Vec<_> = user_records.iter().filter(|m| m.deleted_at.is_some()).collect();
    assert_eq!(deleted.len(), 1);
    assert_eq!(deleted[0].deleted_at, Some(6));
    assert_eq!(deleted[0].message, "0123456789".to_string());
}

#[test]
fn delete_without_active_record_is_rejected() {
    let mut c = CrudContract::new(AccountId(1), 0);
    assert_eq!(c.delete_message(AccountId(2), 5), Err(CrudError::AnyMessageFound));
}

#[test]
fn read_all_requires_administrator() {
    let mut c = CrudContract::new(AccountId(1), 0);
    assert_eq!(c.read_all_messages(AccountId(2)), Err(CrudError::Unauthorized));
    assert_eq!(c.create_message(AccountId(2), "0123456789".to_string(), 5), Ok(()));
    assert_eq!(c.read_all_messages(AccountId(2)), Err(CrudError::Unauthorized));
    assert_eq!(c.read_all_messages(AccountId(3)), Err(CrudError::Unauthorized));
    assert!(c.read_all_messages(AccountId(1)).is_ok());
}

#[test]
fn read_all_sorts_by_created_at_descending() {
    let mut c = CrudContract::new(AccountId(1), 0);
    assert_eq!(c.create_message(AccountId(2), "made at one".to_string(), 1), Ok(()));
    assert_eq!(c.create_message(AccountId(3), "made at two".to_string(), 2), Ok(()));
    assert_eq!(c.create_message(AccountId(4), "made at three".to_string(), 3), Ok(()));
    let all = c.read_all_messages(AccountId(1)).unwrap();
    let stamps: Vec<u64> = all.iter().map(|m| m.created_at).collect();
    assert_eq!(stamps, vec![3, 2, 1, 0]);
}

#[test]
fn senders_exclude_deleted_owners() {
    let mut c = CrudContract::new(AccountId(1), 0);
    assert_eq!(c.create_message(AccountId(2), "0123456789".to_string(), 1), Ok(()));
    assert_eq!(c.delete_message(AccountId(2), 2), Ok(()));
    let senders = c.get_senders();
    assert!(!senders.contains(&AccountId(2)));
    assert_eq!(senders, vec![AccountId(1)]);
}

#[test]
fn senders_are_sorted_and_deduplicated() {
    let mut c = CrudContract::new(AccountId(9), 0);
    assert_eq!(c.create_message(AccountId(4), "0123456789".to_string(), 1), Ok(()));
    assert_eq!(c.create_message(AccountId(2), "0123456789".to_string(), 2), Ok(()));
    assert_eq!(c.create_message(AccountId(7), "0123456789".to_string(), 3), Ok(()));
    assert_eq!(c.delete_message(AccountId(4), 4), Ok(()));
    assert_eq!(c.create_message(AccountId(4), "created again".to_string(), 5), Ok(()));
    let senders = c.get_senders();
    assert_eq!(
        senders,
        vec![AccountId(2), AccountId(4), AccountId(7), AccountId(9)]
    );
}
