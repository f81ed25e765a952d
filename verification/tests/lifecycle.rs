use product_lifecycle::evaluator::{evaluate, message_for};
use product_lifecycle::lifecycle::{
    create_product, delete_product, save_draft, submit_product, update_product, verify_product,
};
use product_lifecycle::machine::Evaluation;
use product_lifecycle::model::{
    Error, Invalid, LifecycleState, NewProduct, Product, VerificationStatus,
};
use product_lifecycle::store::Store;

const VENDOR: u128 = 0xabc;
const CRAFTS: u128 = 0x11111111_1111_1111_1111_111111111111;
const FOOD: u128 = 0x22222222_2222_2222_2222_222222222222;
const HOME: u128 = 0x44444444_4444_4444_4444_444444444444;
const HANDMADE: u128 = 0x77777777_7777_7777_7777_777777777777;
const ORGANIC: u128 = 0x88888888_8888_8888_8888_888888888888;

const VERIFIED: &str = "Your product has been verified and is now live!";
const REJECTED: &str = "Your product verification failed. Please check the requirements.";

fn store() -> Store {
    let mut store = Store::new();
    store.add_category(CRAFTS, "Handcrafts".to_string()).unwrap();
    store.add_category(FOOD, "Food & Drinks".to_string()).unwrap();
    store.add_category(HOME, "Home & Decor".to_string()).unwrap();
    store.add_tag(HANDMADE, "Handmade".to_string()).unwrap();
    store.add_tag(ORGANIC, "Organic".to_string()).unwrap();
    store
}

fn spec(price: f64, categories: &[u128], tags: &[u128]) -> NewProduct {
    NewProduct {
        vendor_id: VENDOR,
        name: "Basket".to_string(),
        description: "A woven basket".to_string(),
        price: price.to_bits(),
        image_url: "/uploads/basket.png".to_string(),
        is_draft: true,
        category_ids: Some(categories.to_vec()),
        tag_ids: Some(tags.to_vec()),
    }
}

fn sorted(mut ids: Vec<u128>) -> Vec<u128> {
    ids.sort();
    ids
}

fn row(store: &Store, id: u128) -> Product {
    store.get_product(id).expect("the product exists")
}

#[test]
fn created_product_is_a_draft_with_its_links() {
    let mut store = store();
    let created = create_product(&mut store, spec(10000.0, &[CRAFTS], &[HANDMADE, ORGANIC])).unwrap();
    assert_eq!(created.name, "Basket");
    assert_eq!(created.vendor_id, VENDOR);
    assert_eq!(created.price, 10000f64.to_bits());
    assert!(created.is_draft);
    assert_eq!(created.verification, VerificationStatus::Unverified);
    assert_eq!(created.state(), LifecycleState::Draft);
    assert_eq!(created.created_at, created.updated_at);
    assert_eq!(row(&store, created.id), created);
    assert_eq!(store.categories_of(created.id), vec![CRAFTS]);
    assert_eq!(sorted(store.tags_of(created.id)), vec![HANDMADE, ORGANIC]);
    assert!(!store.in_transaction());
}

#[test]
fn create_enters_draft_even_when_asked_otherwise() {
    let mut store = store();
    let mut wanted = spec(10000.0, &[CRAFTS], &[HANDMADE]);
    wanted.is_draft = false;
    let created = create_product(&mut store, wanted).unwrap();
    assert!(created.is_draft);
    assert_eq!(row(&store, created.id).state(), LifecycleState::Draft);
}

#[test]
fn create_rejects_invalid_input_before_any_write() {
    let mut store = store();
    let mut no_name = spec(10000.0, &[CRAFTS], &[HANDMADE]);
    no_name.name = String::new();
    assert_eq!(
        create_product(&mut store, no_name),
        Err(Error::ValidationError(Invalid::EmptyName))
    );
    let mut no_description = spec(10000.0, &[CRAFTS], &[HANDMADE]);
    no_description.description = String::new();
    assert_eq!(
        create_product(&mut store, no_description),
        Err(Error::ValidationError(Invalid::EmptyDescription))
    );
    let mut no_image = spec(10000.0, &[CRAFTS], &[HANDMADE]);
    no_image.image_url = String::new();
    assert_eq!(
        create_product(&mut store, no_image),
        Err(Error::ValidationError(Invalid::EmptyImage))
    );
    assert_eq!(
        create_product(&mut store, spec(0.0, &[CRAFTS], &[HANDMADE])),
        Err(Error::ValidationError(Invalid::NonPositivePrice))
    );
    for price in [-5.0, -0.0, f64::NAN, f64::INFINITY, f64::NEG_INFINITY] {
        assert_eq!(
            create_product(&mut store, spec(price, &[CRAFTS], &[HANDMADE])),
            Err(Error::ValidationError(Invalid::NonPositivePrice))
        );
    }
    assert!(store.list_products().is_empty());
}

#[test]
fn create_with_unknown_category_leaves_no_trace() {
    let mut store = store();
    let result = create_product(&mut store, spec(10000.0, &[CRAFTS, 0xdead], &[HANDMADE]));
    assert_eq!(result, Err(Error::ConstraintViolation));
    assert!(store.list_products().is_empty());
    assert!(!store.in_transaction());
    let next = create_product(&mut store, spec(10000.0, &[CRAFTS], &[HANDMADE])).unwrap();
    assert_eq!(store.list_products(), vec![next]);
}

#[test]
fn create_with_unknown_tag_leaves_no_trace() {
    let mut store = store();
    let result = create_product(&mut store, spec(10000.0, &[CRAFTS], &[0xbeef]));
    assert_eq!(result, Err(Error::ConstraintViolation));
    assert!(store.list_products().is_empty());
}

#[test]
fn create_fails_as_a_whole_whichever_statement_fails() {
    for statement in 0..5u64 {
        let mut store = store();
        store.fail_after(statement);
        let result = create_product(&mut store, spec(10000.0, &[CRAFTS], &[HANDMADE]));
        assert_eq!(result, Err(Error::StoreError), "statement {}", statement);
        assert!(store.list_products().is_empty());
        assert!(!store.in_transaction());
    }
    let mut store = store();
    store.fail_after(5);
    assert!(create_product(&mut store, spec(10000.0, &[CRAFTS], &[HANDMADE])).is_ok());
}

#[test]
fn update_overwrites_fields_and_replaces_links() {
    let mut store = store();
    let created = create_product(&mut store, spec(10000.0, &[CRAFTS, FOOD], &[HANDMADE])).unwrap();
    let mut wanted = spec(750.0, &[HOME], &[ORGANIC]);
    wanted.name = "Bowl".to_string();
    let updated = update_product(&mut store, created.id, wanted).unwrap();
    assert_eq!(updated.id, created.id);
    assert_eq!(updated.name, "Bowl");
    assert_eq!(updated.price, 750f64.to_bits());
    assert_eq!(updated.created_at, created.created_at);
    assert!(updated.updated_at > created.updated_at);
    assert_eq!(row(&store, created.id), updated);
    assert_eq!(store.categories_of(created.id), vec![HOME]);
    assert_eq!(store.tags_of(created.id), vec![ORGANIC]);
}

#[test]
fn update_without_lists_removes_all_links() {
    let mut store = store();
    let created = create_product(&mut store, spec(10000.0, &[CRAFTS], &[HANDMADE])).unwrap();
    let mut wanted = spec(10000.0, &[], &[]);
    wanted.category_ids = None;
    wanted.tag_ids = None;
    update_product(&mut store, created.id, wanted).unwrap();
    assert!(store.categories_of(created.id).is_empty());
    assert!(store.tags_of(created.id).is_empty());
}

#[test]
fn update_of_missing_product_is_not_found() {
    let mut store = store();
    assert_eq!(
        update_product(&mut store, 42, spec(10000.0, &[CRAFTS], &[HANDMADE])),
        Err(Error::NotFound)
    );
    assert!(!store.in_transaction());
}

#[test]
fn update_with_unknown_tag_changes_nothing() {
    let mut store = store();
    let created = create_product(&mut store, spec(10000.0, &[CRAFTS], &[HANDMADE])).unwrap();
    let mut wanted = spec(1.0, &[FOOD], &[0xbeef]);
    wanted.name = "Bowl".to_string();
    assert_eq!(update_product(&mut store, created.id, wanted), Err(Error::ConstraintViolation));
    assert_eq!(row(&store, created.id), created);
    assert_eq!(store.categories_of(created.id), vec![CRAFTS]);
    assert_eq!(store.tags_of(created.id), vec![HANDMADE]);
}

#[test]
fn update_rejects_invalid_input() {
    let mut store = store();
    let created = create_product(&mut store, spec(10000.0, &[CRAFTS], &[HANDMADE])).unwrap();
    assert_eq!(
        update_product(&mut store, created.id, spec(0.0, &[CRAFTS], &[HANDMADE])),
        Err(Error::ValidationError(Invalid::NonPositivePrice))
    );
    assert_eq!(row(&store, created.id), created);
}

#[test]
fn update_fails_as_a_whole_whichever_statement_fails() {
    for statement in 0..5u64 {
        let mut store = store();
        let created = create_product(&mut store, spec(10000.0, &[CRAFTS], &[HANDMADE])).unwrap();
        store.fail_after(statement);
        let result = update_product(&mut store, created.id, spec(20.0, &[FOOD], &[ORGANIC]));
        assert_eq!(result, Err(Error::StoreError), "statement {}", statement);
        assert_eq!(row(&store, created.id), created);
        assert_eq!(store.categories_of(created.id), vec![CRAFTS]);
        assert_eq!(store.tags_of(created.id), vec![HANDMADE]);
    }
}

#[test]
fn submitted_product_above_minimum_is_verified_and_notified() {
    let mut store = store();
    let created = create_product(&mut store, spec(10000.0, &[CRAFTS], &[HANDMADE])).unwrap();
    let result = submit_product(&mut store, created.id);
    assert_eq!(result, Ok(Evaluation::Notified(VerificationStatus::Verified)));
    let product = row(&store, created.id);
    assert!(!product.is_draft);
    assert_eq!(product.verification, VerificationStatus::Verified);
    assert_eq!(product.state(), LifecycleState::Verified);
    let notifications = store.list_notifications(VENDOR);
    assert_eq!(notifications.len(), 1);
    assert_eq!(notifications[0].message, VERIFIED);
    assert_eq!(notifications[0].product_id, created.id);
    assert_eq!(notifications[0].vendor_id, VENDOR);
    assert!(!notifications[0].is_read);
}

#[test]
fn submitted_product_below_minimum_is_rejected_and_notified() {
    let mut store = store();
    let created = create_product(&mut store, spec(100.0, &[CRAFTS], &[HANDMADE])).unwrap();
    let result = submit_product(&mut store, created.id);
    assert_eq!(result, Ok(Evaluation::Notified(VerificationStatus::Rejected)));
    let product = row(&store, created.id);
    assert_eq!(product.verification, VerificationStatus::Rejected);
    assert_eq!(product.state(), LifecycleState::Rejected);
    let notifications = store.list_notifications(VENDOR);
    assert_eq!(notifications.len(), 1);
    assert_eq!(notifications[0].message, REJECTED);
}

#[test]
fn price_with_a_fraction_is_judged_as_the_number_it_is() {
    let mut store = store();
    for (price, expected) in [
        (499.99, VerificationStatus::Rejected),
        (500.0, VerificationStatus::Verified),
        (500.01, VerificationStatus::Verified),
        (0.4, VerificationStatus::Rejected),
        (999_999_999.99, VerificationStatus::Verified),
        (1_000_000_000.0, VerificationStatus::Verified),
        (1_000_000_000.4, VerificationStatus::Rejected),
    ] {
        let created = create_product(&mut store, spec(price, &[CRAFTS], &[HANDMADE])).unwrap();
        assert_eq!(f64::from_bits(created.price), price);
        assert_eq!(submit_product(&mut store, created.id), Ok(Evaluation::Notified(expected)));
    }
}

#[test]
fn submitted_product_without_links_is_rejected() {
    let mut store = store();
    let no_category = create_product(&mut store, spec(10000.0, &[], &[HANDMADE])).unwrap();
    let no_tag = create_product(&mut store, spec(10000.0, &[CRAFTS], &[])).unwrap();
    assert_eq!(
        submit_product(&mut store, no_category.id),
        Ok(Evaluation::Notified(VerificationStatus::Rejected))
    );
    assert_eq!(
        submit_product(&mut store, no_tag.id),
        Ok(Evaluation::Notified(VerificationStatus::Rejected))
    );
}

#[test]
fn submit_of_missing_product_is_not_found() {
    let mut store = store();
    assert_eq!(submit_product(&mut store, 42), Err(Error::NotFound));
    assert!(store.list_notifications(VENDOR).is_empty());
    assert!(!store.in_transaction());
}

#[test]
fn resubmission_evaluates_again() {
    let mut store = store();
    let created = create_product(&mut store, spec(100.0, &[CRAFTS], &[HANDMADE])).unwrap();
    submit_product(&mut store, created.id).unwrap();
    assert_eq!(row(&store, created.id).state(), LifecycleState::Rejected);
    update_product(&mut store, created.id, spec(500.0, &[CRAFTS], &[HANDMADE])).unwrap();
    assert_eq!(row(&store, created.id).state(), LifecycleState::Draft);
    assert_eq!(row(&store, created.id).verification, VerificationStatus::Rejected);
    assert_eq!(
        submit_product(&mut store, created.id),
        Ok(Evaluation::Notified(VerificationStatus::Verified))
    );
    let notifications = store.list_notifications(VENDOR);
    assert_eq!(notifications.len(), 2);
    assert_eq!(notifications[0].message, VERIFIED);
    assert_eq!(notifications[1].message, REJECTED);
    assert!(notifications[0].id > notifications[1].id);
    assert!(notifications[0].created_at >= notifications[1].created_at);
}

#[test]
fn failed_first_phase_of_submit_changes_nothing() {
    for statement in 0..4u64 {
        let mut store = store();
        let created = create_product(&mut store, spec(10000.0, &[CRAFTS], &[HANDMADE])).unwrap();
        store.fail_after(statement);
        assert_eq!(submit_product(&mut store, created.id), Err(Error::StoreError));
        assert_eq!(row(&store, created.id), created);
        assert!(store.list_notifications(VENDOR).is_empty());
        assert!(!store.in_transaction());
    }
}

#[test]
fn failed_evaluation_leaves_the_product_pending_and_submit_succeeds() {
    for statement in 4..8u64 {
        let mut store = store();
        let created = create_product(&mut store, spec(10000.0, &[CRAFTS], &[HANDMADE])).unwrap();
        store.fail_after(statement);
        assert_eq!(
            submit_product(&mut store, created.id),
            Ok(Evaluation::Abandoned),
            "statement {}",
            statement
        );
        let product = row(&store, created.id);
        assert!(!product.is_draft);
        assert_eq!(product.verification, VerificationStatus::Unverified);
        assert_eq!(product.state(), LifecycleState::Pending);
        assert!(store.list_notifications(VENDOR).is_empty());
    }
}

#[test]
fn failed_notification_keeps_the_verdict() {
    let mut store = store();
    let created = create_product(&mut store, spec(10000.0, &[CRAFTS], &[HANDMADE])).unwrap();
    store.fail_after(8);
    assert_eq!(
        submit_product(&mut store, created.id),
        Ok(Evaluation::Recorded(VerificationStatus::Verified))
    );
    assert_eq!(row(&store, created.id).state(), LifecycleState::Verified);
    assert!(store.list_notifications(VENDOR).is_empty());
}

#[test]
fn abandoned_evaluation_can_be_taken_up_again() {
    let mut store = store();
    let created = create_product(&mut store, spec(10000.0, &[CRAFTS], &[HANDMADE])).unwrap();
    store.fail_after(5);
    assert_eq!(submit_product(&mut store, created.id), Ok(Evaluation::Abandoned));
    assert_eq!(row(&store, created.id).state(), LifecycleState::Pending);
    assert_eq!(
        verify_product(&mut store, created.id),
        Evaluation::Notified(VerificationStatus::Verified)
    );
    assert_eq!(row(&store, created.id).state(), LifecycleState::Verified);
    let notifications = store.list_notifications(VENDOR);
    assert_eq!(notifications.len(), 1);
    assert_eq!(notifications[0].message, VERIFIED);
}

#[test]
fn verify_does_not_take_a_product_out_of_draft() {
    let mut store = store();
    let created = create_product(&mut store, spec(100.0, &[CRAFTS], &[HANDMADE])).unwrap();
    assert_eq!(
        verify_product(&mut store, created.id),
        Evaluation::Notified(VerificationStatus::Rejected)
    );
    let product = row(&store, created.id);
    assert!(product.is_draft);
    assert_eq!(product.verification, VerificationStatus::Rejected);
    assert_eq!(store.list_notifications(VENDOR)[0].message, REJECTED);
}

#[test]
fn verify_of_missing_product_does_nothing() {
    let mut store = store();
    assert_eq!(verify_product(&mut store, 42), Evaluation::Abandoned);
    assert!(store.list_notifications(VENDOR).is_empty());
    assert!(store.list_products().is_empty());
}

#[test]
fn verify_stops_at_the_statement_that_fails() {
    for statement in 0..4u64 {
        let mut store = store();
        let created = create_product(&mut store, spec(10000.0, &[CRAFTS], &[HANDMADE])).unwrap();
        store.fail_after(statement);
        assert_eq!(verify_product(&mut store, created.id), Evaluation::Abandoned);
        assert_eq!(row(&store, created.id), created);
        assert!(store.list_notifications(VENDOR).is_empty());
    }
    let mut store = store();
    let created = create_product(&mut store, spec(10000.0, &[CRAFTS], &[HANDMADE])).unwrap();
    store.fail_after(4);
    assert_eq!(
        verify_product(&mut store, created.id),
        Evaluation::Recorded(VerificationStatus::Verified)
    );
    assert_eq!(row(&store, created.id).verification, VerificationStatus::Verified);
    assert!(store.list_notifications(VENDOR).is_empty());
}

#[test]
fn save_draft_puts_a_submitted_product_back_into_draft() {
    let mut store = store();
    let created = create_product(&mut store, spec(10000.0, &[CRAFTS], &[HANDMADE])).unwrap();
    submit_product(&mut store, created.id).unwrap();
    assert_eq!(save_draft(&mut store, created.id), Ok(()));
    let product = row(&store, created.id);
    assert!(product.is_draft);
    assert_eq!(product.verification, VerificationStatus::Verified);
    assert_eq!(product.state(), LifecycleState::Draft);
    assert_eq!(store.list_notifications(VENDOR).len(), 1);
}

#[test]
fn save_draft_of_missing_product_is_not_found() {
    let mut store = store();
    assert_eq!(save_draft(&mut store, 42), Err(Error::NotFound));
}

#[test]
fn save_draft_reports_a_store_failure() {
    let mut store = store();
    let created = create_product(&mut store, spec(10000.0, &[CRAFTS], &[HANDMADE])).unwrap();
    submit_product(&mut store, created.id).unwrap();
    let before = row(&store, created.id);
    store.fail_after(0);
    assert_eq!(save_draft(&mut store, created.id), Err(Error::StoreError));
    assert_eq!(row(&store, created.id), before);
}

#[test]
fn delete_removes_product_links_and_notifications() {
    let mut store = store();
    let kept = create_product(&mut store, spec(10000.0, &[FOOD], &[ORGANIC])).unwrap();
    let created = create_product(&mut store, spec(10000.0, &[CRAFTS], &[HANDMADE])).unwrap();
    submit_product(&mut store, kept.id).unwrap();
    submit_product(&mut store, created.id).unwrap();
    assert_eq!(store.list_notifications(VENDOR).len(), 2);
    assert_eq!(delete_product(&mut store, created.id), Ok(()));
    assert_eq!(store.get_product(created.id), None);
    assert!(store.categories_of(created.id).is_empty());
    assert!(store.tags_of(created.id).is_empty());
    let notifications = store.list_notifications(VENDOR);
    assert_eq!(notifications.len(), 1);
    assert_eq!(notifications[0].product_id, kept.id);
    assert_eq!(store.categories_of(kept.id), vec![FOOD]);
    assert_eq!(store.tags_of(kept.id), vec![ORGANIC]);
    assert_eq!(store.list_products().len(), 1);
}

#[test]
fn delete_of_missing_product_is_not_found() {
    let mut store = store();
    assert_eq!(delete_product(&mut store, 42), Err(Error::NotFound));
    let created = create_product(&mut store, spec(10000.0, &[CRAFTS], &[HANDMADE])).unwrap();
    assert_eq!(delete_product(&mut store, created.id), Ok(()));
    assert_eq!(delete_product(&mut store, created.id), Err(Error::NotFound));
    assert!(!store.in_transaction());
}

#[test]
fn delete_of_product_without_dependents_succeeds() {
    let mut store = store();
    let created = create_product(&mut store, spec(10000.0, &[], &[])).unwrap();
    assert_eq!(delete_product(&mut store, created.id), Ok(()));
    assert!(store.list_products().is_empty());
}

#[test]
fn delete_fails_as_a_whole_whichever_statement_fails() {
    for statement in 0..5u64 {
        let mut store = store();
        let created = create_product(&mut store, spec(10000.0, &[CRAFTS], &[HANDMADE])).unwrap();
        submit_product(&mut store, created.id).unwrap();
        let before = row(&store, created.id);
        store.fail_after(statement);
        assert_eq!(delete_product(&mut store, created.id), Err(Error::StoreError));
        assert_eq!(row(&store, created.id), before);
        assert_eq!(store.categories_of(created.id), vec![CRAFTS]);
        assert_eq!(store.tags_of(created.id), vec![HANDMADE]);
        assert_eq!(store.list_notifications(VENDOR).len(), 1);
        assert!(!store.in_transaction());
    }
}

#[test]
fn evaluator_agrees_with_submission() {
    let verdict = evaluate("Basket", "A woven basket", "/uploads/basket.png", 10000f64.to_bits(), 1, 1);
    assert_eq!(verdict.status, VerificationStatus::Verified);
    assert_eq!(verdict.message, message_for(VerificationStatus::Verified));
    assert_eq!(verdict.message, VERIFIED);
}
