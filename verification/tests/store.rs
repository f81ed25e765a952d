use product_lifecycle::model::{
    Error, Invalid, LifecycleState, NewProduct, Product, VerificationStatus,
};
use product_lifecycle::statement::{Command, Reply};
use product_lifecycle::store::Store;

const A: u128 = 101;
const B: u128 = 102;
const C: u128 = 103;
const T: u128 = 201;
const U: u128 = 202;

fn store() -> Store {
    let mut store = Store::new();
    store.add_category(A, "A".to_string()).unwrap();
    store.add_category(B, "B".to_string()).unwrap();
    store.add_category(C, "C".to_string()).unwrap();
    store.add_tag(T, "T".to_string()).unwrap();
    store.add_tag(U, "U".to_string()).unwrap();
    store
}

fn spec(name: &str, price: f64) -> NewProduct {
    NewProduct {
        vendor_id: 7,
        name: name.to_string(),
        description: "described".to_string(),
        price: price.to_bits(),
        image_url: "/uploads/i.png".to_string(),
        is_draft: true,
        category_ids: None,
        tag_ids: None,
    }
}

fn sorted(mut ids: Vec<u128>) -> Vec<u128> {
    ids.sort();
    ids
}

fn product(store: &mut Store) -> Product {
    store.create(spec("thing", 1000.0)).unwrap()
}

#[test]
fn new_store_is_empty() {
    let store = Store::new();
    assert!(store.list_products().is_empty());
    assert!(store.list_categories().is_empty());
    assert!(store.list_tags().is_empty());
    assert!(store.list_notifications(7).is_empty());
    assert!(!store.in_transaction());
}

#[test]
fn create_hands_out_identifiers_and_times_in_order() {
    let mut store = Store::new();
    let first = store.create(spec("first", 1.0)).unwrap();
    let second = store.create(spec("second", 2.0)).unwrap();
    assert_eq!(first.id, 1);
    assert_eq!(second.id, 2);
    assert_eq!(first.created_at, 0);
    assert_eq!(first.updated_at, 0);
    assert_eq!(second.created_at, 1);
    assert_eq!(first.verification, VerificationStatus::Unverified);
    assert_eq!(store.list_products(), vec![first, second]);
}

#[test]
fn repository_create_keeps_the_flag_it_is_given() {
    let mut store = Store::new();
    let mut wanted = spec("shown", 1.0);
    wanted.is_draft = false;
    let created = store.create(wanted).unwrap();
    assert!(!created.is_draft);
    assert_eq!(created.state(), LifecycleState::Pending);
}

#[test]
fn create_validates() {
    let mut store = Store::new();
    assert_eq!(store.create(spec("", 1.0)), Err(Error::ValidationError(Invalid::EmptyName)));
    assert_eq!(
        store.create(spec("x", 0.0)),
        Err(Error::ValidationError(Invalid::NonPositivePrice))
    );
    let mut no_description = spec("x", 1.0);
    no_description.description.clear();
    no_description.image_url.clear();
    assert_eq!(
        store.create(no_description),
        Err(Error::ValidationError(Invalid::EmptyDescription))
    );
    let mut no_image = spec("x", 1.0);
    no_image.image_url.clear();
    assert_eq!(store.create(no_image), Err(Error::ValidationError(Invalid::EmptyImage)));
    assert!(store.list_products().is_empty());
}

#[test]
fn update_overwrites_and_refreshes_the_time() {
    let mut store = store();
    let created = product(&mut store);
    let mut wanted = spec("renamed", 5.0);
    wanted.vendor_id = 8;
    wanted.is_draft = false;
    let updated = store.update(created.id, wanted).unwrap();
    assert_eq!(updated.id, created.id);
    assert_eq!(updated.name, "renamed");
    assert_eq!(updated.price, 5f64.to_bits());
    assert_eq!(updated.vendor_id, 8);
    assert!(!updated.is_draft);
    assert_eq!(updated.verification, created.verification);
    assert_eq!(updated.created_at, created.created_at);
    assert!(updated.updated_at > created.updated_at);
    assert_eq!(store.get(created.id), Ok(updated));
}

#[test]
fn time_of_last_update_does_not_go_back() {
    let mut store = store();
    let created = product(&mut store);
    let mut last = created.updated_at;
    assert!(created.created_at <= created.updated_at);
    store.set_draft_flag(created.id, false).unwrap();
    store.set_verification_status(created.id, VerificationStatus::Verified).unwrap();
    store.update(created.id, spec("renamed", 5.0)).unwrap();
    store.replace_categories(created.id, vec![A]).unwrap();
    store.notify(7, created.id, "hello".to_string()).unwrap();
    for _ in 0..3 {
        store.set_draft_flag(created.id, true).unwrap();
        let row = store.get(created.id).unwrap();
        assert_eq!(row.created_at, created.created_at);
        assert!(row.created_at <= row.updated_at);
        assert!(row.updated_at > last);
        last = row.updated_at;
    }
}

#[test]
fn statements_on_a_missing_product_are_not_found() {
    let mut store = store();
    assert_eq!(store.get(9), Err(Error::NotFound));
    assert_eq!(store.update(9, spec("x", 1.0)), Err(Error::NotFound));
    assert_eq!(store.delete(9), Err(Error::NotFound));
    assert_eq!(store.set_draft_flag(9, true), Err(Error::NotFound));
    assert_eq!(
        store.set_verification_status(9, VerificationStatus::Verified),
        Err(Error::NotFound)
    );
    assert!(store.list_products().is_empty());
}

#[test]
fn update_validates_before_it_looks_for_the_product() {
    let mut store = store();
    assert_eq!(
        store.update(9, spec("", 1.0)),
        Err(Error::ValidationError(Invalid::EmptyName))
    );
}

#[test]
fn narrow_mutators_change_one_field() {
    let mut store = store();
    let created = product(&mut store);
    store.set_draft_flag(created.id, false).unwrap();
    let shown = store.get(created.id).unwrap();
    assert!(!shown.is_draft);
    assert_eq!(shown.name, created.name);
    assert_eq!(shown.state(), LifecycleState::Pending);
    store.set_verification_status(created.id, VerificationStatus::Rejected).unwrap();
    let rejected = store.get(created.id).unwrap();
    assert_eq!(rejected.verification, VerificationStatus::Rejected);
    assert_eq!(rejected.state(), LifecycleState::Rejected);
    assert!(rejected.updated_at > shown.updated_at);
    store.set_verification_status(created.id, VerificationStatus::Verified).unwrap();
    assert_eq!(store.get(created.id).unwrap().state(), LifecycleState::Verified);
    store.set_draft_flag(created.id, true).unwrap();
    assert_eq!(store.get(created.id).unwrap().state(), LifecycleState::Draft);
}

#[test]
fn replace_is_total() {
    let mut store = store();
    let p = product(&mut store).id;
    store.replace_categories(p, vec![A, B]).unwrap();
    assert_eq!(sorted(store.categories_of(p)), vec![A, B]);
    store.replace_categories(p, vec![C]).unwrap();
    assert_eq!(store.categories_of(p), vec![C]);
    assert_eq!(store.count_categories(p), Ok(1));
    store.replace_tags(p, vec![T, U]).unwrap();
    store.replace_tags(p, vec![U]).unwrap();
    assert_eq!(store.tags_of(p), vec![U]);
    assert_eq!(store.count_tags(p), Ok(1));
}

#[test]
fn replace_with_nothing_leaves_no_links() {
    let mut store = store();
    let p = product(&mut store).id;
    store.replace_categories(p, vec![A, B]).unwrap();
    store.replace_categories(p, vec![]).unwrap();
    assert!(store.categories_of(p).is_empty());
    assert_eq!(store.count_categories(p), Ok(0));
}

#[test]
fn replace_takes_a_set() {
    let mut store = store();
    let p = product(&mut store).id;
    store.replace_categories(p, vec![A, B, A, A]).unwrap();
    assert_eq!(sorted(store.categories_of(p)), vec![A, B]);
    assert_eq!(store.count_categories(p), Ok(2));
}

#[test]
fn replace_leaves_other_products_alone() {
    let mut store = store();
    let p = product(&mut store).id;
    let q = product(&mut store).id;
    store.replace_categories(p, vec![A]).unwrap();
    store.replace_categories(q, vec![B, C]).unwrap();
    store.replace_tags(q, vec![T]).unwrap();
    store.replace_categories(p, vec![C]).unwrap();
    assert_eq!(store.categories_of(p), vec![C]);
    assert_eq!(sorted(store.categories_of(q)), vec![B, C]);
    assert_eq!(store.tags_of(q), vec![T]);
    assert!(store.tags_of(p).is_empty());
}

#[test]
fn replace_with_unknown_reference_changes_nothing() {
    let mut store = store();
    let p = product(&mut store).id;
    store.replace_categories(p, vec![A]).unwrap();
    store.replace_tags(p, vec![T]).unwrap();
    assert_eq!(store.replace_categories(p, vec![B, 999]), Err(Error::ConstraintViolation));
    assert_eq!(store.replace_tags(p, vec![999]), Err(Error::ConstraintViolation));
    assert_eq!(store.replace_categories(p, vec![T]), Err(Error::ConstraintViolation));
    assert_eq!(store.categories_of(p), vec![A]);
    assert_eq!(store.tags_of(p), vec![T]);
}

#[test]
fn links_need_a_product() {
    let mut store = store();
    assert_eq!(store.replace_categories(9, vec![A]), Err(Error::ConstraintViolation));
    assert_eq!(store.replace_tags(9, vec![T]), Err(Error::ConstraintViolation));
    assert_eq!(store.count_categories(9), Ok(0));
    assert_eq!(store.count_tags(9), Ok(0));
}

#[test]
fn delete_all_links_is_idempotent() {
    let mut store = store();
    let p = product(&mut store).id;
    let q = product(&mut store).id;
    store.replace_categories(p, vec![A, B]).unwrap();
    store.replace_tags(p, vec![T]).unwrap();
    store.replace_categories(q, vec![A]).unwrap();
    assert_eq!(store.delete_all_links(p), Ok(()));
    assert!(store.categories_of(p).is_empty());
    assert!(store.tags_of(p).is_empty());
    assert_eq!(store.delete_all_links(p), Ok(()));
    assert!(store.categories_of(p).is_empty());
    assert!(store.tags_of(p).is_empty());
    assert_eq!(store.categories_of(q), vec![A]);
    assert_eq!(store.delete_all_links(999), Ok(()));
}

#[test]
fn product_with_dependents_cannot_be_removed() {
    let mut store = store();
    let p = product(&mut store).id;
    store.replace_categories(p, vec![A]).unwrap();
    assert_eq!(store.delete(p), Err(Error::ConstraintViolation));
    store.delete_all_links(p).unwrap();
    store.replace_tags(p, vec![T]).unwrap();
    assert_eq!(store.delete(p), Err(Error::ConstraintViolation));
    store.delete_all_links(p).unwrap();
    store.notify(7, p, "hello".to_string()).unwrap();
    assert_eq!(store.delete(p), Err(Error::ConstraintViolation));
    store.delete_notifications(p).unwrap();
    assert_eq!(store.delete(p), Ok(()));
    assert_eq!(store.get(p), Err(Error::NotFound));
    assert_eq!(store.get_product(p), None);
}

#[test]
fn notifications_are_listed_newest_first_per_vendor() {
    let mut store = store();
    let p = product(&mut store).id;
    let q = product(&mut store).id;
    store.notify(7, p, "one".to_string()).unwrap();
    store.notify(8, p, "two".to_string()).unwrap();
    store.notify(7, q, "three".to_string()).unwrap();
    let mine = store.list_notifications(7);
    assert_eq!(mine.len(), 2);
    assert_eq!(mine[0].message, "three");
    assert_eq!(mine[0].product_id, q);
    assert_eq!(mine[1].message, "one");
    assert!(mine[0].created_at > mine[1].created_at);
    assert!(mine.iter().all(|n| n.vendor_id == 7 && !n.is_read));
    let theirs = store.list_notifications(8);
    assert_eq!(theirs.len(), 1);
    assert_eq!(theirs[0].message, "two");
    assert!(store.list_notifications(9).is_empty());
    store.delete_notifications(p).unwrap();
    let left = store.list_notifications(7);
    assert_eq!(left.len(), 1);
    assert_eq!(left[0].message, "three");
    assert!(store.list_notifications(8).is_empty());
}

#[test]
fn notification_needs_a_product() {
    let mut store = store();
    assert_eq!(store.notify(7, 9, "hello".to_string()), Err(Error::ConstraintViolation));
    assert!(store.list_notifications(7).is_empty());
}

#[test]
fn rollback_undoes_and_commit_keeps() {
    let mut store = store();
    let kept = product(&mut store);
    assert_eq!(store.begin(), Ok(()));
    assert!(store.in_transaction());
    let undone = product(&mut store);
    store.replace_categories(kept.id, vec![A]).unwrap();
    store.notify(7, kept.id, "hello".to_string()).unwrap();
    store.rollback();
    assert!(!store.in_transaction());
    assert_eq!(store.list_products(), vec![kept.clone()]);
    assert_eq!(store.get_product(undone.id), None);
    assert!(store.categories_of(kept.id).is_empty());
    assert!(store.list_notifications(7).is_empty());

    assert_eq!(store.begin(), Ok(()));
    store.replace_categories(kept.id, vec![B]).unwrap();
    assert_eq!(store.commit(), Ok(()));
    assert!(!store.in_transaction());
    store.rollback();
    assert_eq!(store.categories_of(kept.id), vec![B]);
}

#[test]
fn transactions_do_not_nest() {
    let mut store = store();
    assert_eq!(store.commit(), Err(Error::StoreError));
    assert_eq!(store.begin(), Ok(()));
    assert_eq!(store.begin(), Err(Error::StoreError));
    assert!(store.in_transaction());
    assert_eq!(store.commit(), Ok(()));
    assert_eq!(store.commit(), Err(Error::StoreError));
}

#[test]
fn the_fuse_fails_one_statement() {
    let mut store = store();
    let p = product(&mut store);
    store.fail_after(2);
    assert_eq!(store.get(p.id), Ok(p.clone()));
    assert_eq!(store.get(9), Err(Error::NotFound));
    assert_eq!(store.set_draft_flag(p.id, false), Err(Error::StoreError));
    assert_eq!(store.get(p.id), Ok(p.clone()));
    assert_eq!(store.set_draft_flag(p.id, false), Ok(()));
}

#[test]
fn failed_commit_gives_the_transaction_up() {
    let mut store = store();
    let p = product(&mut store);
    store.begin().unwrap();
    store.set_draft_flag(p.id, false).unwrap();
    store.fail_after(0);
    assert_eq!(store.commit(), Err(Error::StoreError));
    assert!(!store.in_transaction());
    assert_eq!(store.get_product(p.id), Some(p));
}

#[test]
fn rollback_is_not_counted_and_does_not_fail() {
    let mut store = store();
    let p = product(&mut store);
    store.begin().unwrap();
    store.set_draft_flag(p.id, false).unwrap();
    store.fail_after(0);
    store.rollback();
    assert_eq!(store.get_product(p.id), Some(p.clone()));
    assert_eq!(store.get(p.id), Err(Error::StoreError));
    assert_eq!(store.get(p.id), Ok(p));
}

#[test]
fn execute_answers_like_the_typed_statements() {
    let mut store = store();
    let created = match store.execute(Command::Create(spec("thing", 1000.0))) {
        Reply::Product(product) => product,
        other => panic!("unexpected {:?}", other),
    };
    assert_eq!(store.execute(Command::ReplaceCategories(created.id, vec![A, B])), Reply::Done);
    assert_eq!(store.execute(Command::CountCategories(created.id)), Reply::Count(2));
    assert_eq!(store.execute(Command::CountTags(created.id)), Reply::Count(0));
    assert_eq!(store.execute(Command::Get(created.id)), Reply::Product(created.clone()));
    assert_eq!(store.execute(Command::Get(99)), Reply::Failed(Error::NotFound));
    assert_eq!(
        store.execute(Command::Delete(created.id)),
        Reply::Failed(Error::ConstraintViolation)
    );
    assert_eq!(store.execute(Command::DeleteAllLinks(created.id)), Reply::Done);
    assert_eq!(store.execute(Command::Notify(7, created.id, "m".to_string())), Reply::Done);
    assert_eq!(store.execute(Command::DeleteNotifications(created.id)), Reply::Done);
    assert_eq!(store.execute(Command::Begin), Reply::Done);
    assert_eq!(store.execute(Command::Delete(created.id)), Reply::Done);
    assert_eq!(store.execute(Command::Rollback), Reply::Done);
    assert_eq!(store.execute(Command::Rollback), Reply::Done);
    assert_eq!(store.get_product(created.id), Some(created));
}

#[test]
fn reference_data_is_unique_by_identifier_and_name() {
    let mut store = store();
    assert_eq!(store.add_category(A, "other".to_string()), Err(Error::ConstraintViolation));
    assert_eq!(store.add_category(999, "A".to_string()), Err(Error::ConstraintViolation));
    assert_eq!(store.add_tag(T, "other".to_string()), Err(Error::ConstraintViolation));
    assert_eq!(store.add_tag(999, "T".to_string()), Err(Error::ConstraintViolation));
    assert_eq!(store.add_category(T, "T".to_string()), Ok(()));
    let names: Vec<String> = store.list_categories().into_iter().map(|c| c.name).collect();
    assert_eq!(names, vec!["A", "B", "C", "T"]);
    let ids: Vec<u128> = store.list_tags().into_iter().map(|t| t.id).collect();
    assert_eq!(ids, vec![T, U]);
}
