//! What holds of the lifecycle as a whole, proved from what the operations
//! and statements are said to do.

use crate::db::{Db, StoreState};
use crate::evaluator::Verdict;
use crate::evaluator::{message_of, status_of};
use crate::lifecycle::{
    advanced, budget, create_product_spec, delete_product_spec, drive, lemma_drive, operation_spec,
    pending_db, save_draft_spec, submit_product_spec, update_product_spec, verify_product_spec,
};
use crate::machine::{Evaluation, MachineView, OperationView, OutcomeView, Stage};
use crate::model::{
    LifecycleState, NewProductView, ProductCategory, ProductTag, ProductView, VerificationStatus,
};
use crate::statement::{CommandView, ReplyView};
use vstd::prelude::*;

verus! {

/// All or nothing: an operation that fails leaves every table as it was,
/// and the store in or out of a transaction as it was. This holds whichever
/// statement failed, and whether it failed for what it was asked or because
/// the store failed.
pub proof fn lemma_failure_leaves_no_trace(s: StoreState, op: OperationView)
    ensures
        operation_spec(s, op).1 is Failed ==> operation_spec(s, op).0.db == s.db
            && operation_spec(s, op).0.snapshot == s.snapshot,
{
}

/// An operation on a store that is not in a transaction leaves it out of
/// one, however it ends.
pub proof fn lemma_no_transaction_left_open(s: StoreState, op: OperationView)
    requires
        !s.in_transaction(),
    ensures
        !operation_spec(s, op).0.in_transaction(),
{
}

/// An operation leaves a consistent store consistent, however it ends.
pub proof fn lemma_operation_keeps_consistency(s: StoreState, op: OperationView)
    requires
        s.wf(),
    ensures
        operation_spec(s, op).0.wf(),
{
    lemma_drive(s, op);
    lemma_drive_keeps_consistency(MachineView::start(op), s);
}

proof fn lemma_drive_keeps_consistency(m: MachineView, s: StoreState)
    requires
        s.wf(),
    ensures
        drive(m, s).0.wf(),
    decreases budget(m),
{
    match m.pending() {
        Some(cmd) => {
            s.lemma_execute_wf(cmd);
            let (after, reply) = s.execute(cmd);
            lemma_drive_keeps_consistency(m.advance(reply), after);
        },
        None => {},
    }
}

/// No operation changes the reference data: categories and tags stay as
/// they are, however the operation ends.
pub proof fn lemma_reference_data_stays(s: StoreState, op: OperationView)
    requires
        s.wf(),
    ensures
        operation_spec(s, op).0.db.categories == s.db.categories,
        operation_spec(s, op).0.db.tags == s.db.tags,
{
}

/// A product that was created or updated has exactly the categories and
/// tags that were asked for, whatever it had before, and no other product
/// has gained or lost a link.
pub proof fn lemma_written_product_has_the_links_asked_for(
    s: StoreState,
    op: OperationView,
    row: ProductView,
)
    requires
        s.wf(),
        op is Create || op is Update,
        operation_spec(s, op).1 == OutcomeView::Created(row) || operation_spec(s, op).1
            == OutcomeView::Updated(row),
    ensures
        operation_spec(s, op).0.db.products.contains_key(row.id),
        operation_spec(s, op).0.db.products[row.id] == row,
        operation_spec(s, op).0.db.categories_of(row.id) == op.spec()->0.categories().to_set(),
        operation_spec(s, op).0.db.tags_of(row.id) == op.spec()->0.tags().to_set(),
        forall|other: u128|
            other != row.id ==> #[trigger] operation_spec(s, op).0.db.categories_of(other)
                == s.db.categories_of(other) && operation_spec(s, op).0.db.tags_of(other)
                == s.db.tags_of(other),
{
    let after = operation_spec(s, op).0.db;
    let spec = op.spec()->0;
    assert(after.categories_of(row.id) =~= spec.categories().to_set());
    assert(after.tags_of(row.id) =~= spec.tags().to_set());
    assert forall|other: u128| other != row.id implies #[trigger] after.categories_of(other)
        == s.db.categories_of(other) && after.tags_of(other) == s.db.tags_of(other) by {
        assert(after.categories_of(other) =~= s.db.categories_of(other));
        assert(after.tags_of(other) =~= s.db.tags_of(other));
    }
}

/// An update overwrites the fields that a specification sets and nothing
/// else: the product keeps its identifier, its time of creation and its
/// verification status, its time of last update does not go back, and
/// nobody is notified.
pub proof fn lemma_update_overwrites_and_refreshes(s: StoreState, id: u128, spec: NewProductView)
    requires
        s.wf(),
        update_product_spec(s, id, spec).1 is Updated,
    ensures
        ({
            let (after, outcome) = update_product_spec(s, id, spec);
            let row = outcome->Updated_0;
            let old = s.db.products[id];
            &&& s.db.products.contains_key(id)
            &&& after.db.products[id] == row
            &&& row.id == id
            &&& row.vendor_id == spec.vendor_id
            &&& row.name == spec.name
            &&& row.description == spec.description
            &&& row.price == spec.price
            &&& row.image_url == spec.image_url
            &&& row.is_draft == spec.is_draft
            &&& row.verification == old.verification
            &&& row.created_at == old.created_at
            &&& row.created_at <= row.updated_at
            &&& row.updated_at >= old.updated_at
            &&& after.db.notifications == s.db.notifications
        }),
{
}

/// No operation takes the time of the last update of a product back, nor
/// the clock.
pub proof fn lemma_time_does_not_go_back(s: StoreState, op: OperationView, id: u128)
    requires
        s.wf(),
        s.db.products.contains_key(id),
        operation_spec(s, op).0.db.products.contains_key(id),
    ensures
        operation_spec(s, op).0.db.products[id].updated_at >= s.db.products[id].updated_at,
        operation_spec(s, op).0.db.products[id].created_at == s.db.products[id].created_at,
        operation_spec(s, op).0.db.clock >= s.db.clock,
{
    assert(s.db.products_wf());
    match op {
        OperationView::Submit(other) => {
            lemma_evaluation_keeps_time(advanced(s, 4, pending_db(s.db, other)), other, id);
        },
        OperationView::Verify(other) => {
            lemma_evaluation_keeps_time(s, other, id);
        },
        _ => {},
    }
}

/// An evaluation takes neither the clock nor a time of last update back.
proof fn lemma_evaluation_keeps_time(s: StoreState, evaluated: u128, id: u128)
    requires
        s.db.products_wf(),
        s.db.products.contains_key(id),
    ensures
        verify_product_spec(s, evaluated).0.db.products.contains_key(id),
        verify_product_spec(s, evaluated).0.db.products[id].updated_at
            >= s.db.products[id].updated_at,
        verify_product_spec(s, evaluated).0.db.products[id].created_at
            == s.db.products[id].created_at,
        verify_product_spec(s, evaluated).0.db.clock >= s.db.clock,
        verify_product_spec(s, evaluated).0.db.products_wf(),
{
}

/// Replacing is total: after the categories of a product were replaced
/// twice, the product has exactly the categories of the second time, as if
/// the first had not taken place, and every other product has the
/// categories it had.
pub proof fn lemma_replace_categories_is_total(
    db: Db,
    product: u128,
    first: Seq<u128>,
    second: Seq<u128>,
)
    requires
        db.products.contains_key(product),
        db.all_categories(first),
        db.all_categories(second),
    ensures
        db.replace_categories(product, first).1 == ReplyView::Done,
        db.replace_categories(product, first).0.replace_categories(product, second)
            == db.replace_categories(product, second),
        db.replace_categories(product, second).1 == ReplyView::Done,
        db.replace_categories(product, second).0.categories_of(product) == second.to_set(),
        forall|other: u128|
            other != product ==> #[trigger] db.replace_categories(product, second).0.categories_of(
                other,
            ) == db.categories_of(other),
{
    let once = db.replace_categories(product, first).0;
    assert(once.categories == db.categories);
    assert(once.all_categories(second));
    assert(once.with_categories(product, second).product_categories =~= db.with_categories(
        product,
        second,
    ).product_categories);
    let after = db.replace_categories(product, second).0;
    assert(after.categories_of(product) =~= second.to_set());
    assert forall|other: u128| other != product implies #[trigger] after.categories_of(other)
        == db.categories_of(other) by {
        assert(after.categories_of(other) =~= db.categories_of(other));
    }
}

/// Replacing is total for tags as it is for categories.
pub proof fn lemma_replace_tags_is_total(
    db: Db,
    product: u128,
    first: Seq<u128>,
    second: Seq<u128>,
)
    requires
        db.products.contains_key(product),
        db.all_tags(first),
        db.all_tags(second),
    ensures
        db.replace_tags(product, first).1 == ReplyView::Done,
        db.replace_tags(product, first).0.replace_tags(product, second) == db.replace_tags(
            product,
            second,
        ),
        db.replace_tags(product, second).1 == ReplyView::Done,
        db.replace_tags(product, second).0.tags_of(product) == second.to_set(),
        forall|other: u128|
            other != product ==> #[trigger] db.replace_tags(product, second).0.tags_of(other)
                == db.tags_of(other),
{
    let once = db.replace_tags(product, first).0;
    assert(once.tags == db.tags);
    assert(once.all_tags(second));
    assert(once.with_tags(product, second).product_tags =~= db.with_tags(
        product,
        second,
    ).product_tags);
    let after = db.replace_tags(product, second).0;
    assert(after.tags_of(product) =~= second.to_set());
    assert forall|other: u128| other != product implies #[trigger] after.tags_of(other)
        == db.tags_of(other) by {
        assert(after.tags_of(other) =~= db.tags_of(other));
    }
}

/// A failed replacement changes nothing.
pub proof fn lemma_failed_replace_changes_nothing(db: Db, product: u128, ids: Seq<u128>)
    ensures
        db.replace_categories(product, ids).1 != ReplyView::Done ==> db.replace_categories(
            product,
            ids,
        ) == (db, ReplyView::Failed(crate::model::Error::ConstraintViolation)),
        db.replace_tags(product, ids).1 != ReplyView::Done ==> db.replace_tags(product, ids) == (
            db,
            ReplyView::Failed(crate::model::Error::ConstraintViolation),
        ),
{
}

/// Deleting the links of a product twice comes to the same as deleting
/// them once: the product has no links, and neither time is an error.
pub proof fn lemma_delete_all_links_is_idempotent(db: Db, product: u128)
    ensures
        db.apply(CommandView::DeleteAllLinks(product)).1 == ReplyView::Done,
        db.without_links(product).apply(CommandView::DeleteAllLinks(product)) == (
            db.without_links(product),
            ReplyView::Done,
        ),
        db.without_links(product).categories_of(product) == Set::<u128>::empty(),
        db.without_links(product).tags_of(product) == Set::<u128>::empty(),
        forall|other: u128|
            other != product ==> #[trigger] db.without_links(product).categories_of(other)
                == db.categories_of(other) && db.without_links(product).tags_of(other)
                == db.tags_of(other),
{
    let once = db.without_links(product);
    let twice = once.without_links(product);
    assert(twice.product_categories =~= once.product_categories);
    assert(twice.product_tags =~= once.product_tags);
    assert(once.categories_of(product) =~= Set::<u128>::empty());
    assert(once.tags_of(product) =~= Set::<u128>::empty());
    assert forall|other: u128| other != product implies #[trigger] once.categories_of(other)
        == db.categories_of(other) && once.tags_of(other) == db.tags_of(other) by {
        assert(once.categories_of(other) =~= db.categories_of(other));
        assert(once.tags_of(other) =~= db.tags_of(other));
    }
}

/// A submission whose first phase is committed succeeds, whatever fails
/// afterwards.
pub proof fn lemma_submit_succeeds_once_committed(s: StoreState, id: u128)
    requires
        !s.in_transaction(),
        s.db.products.contains_key(id),
        s.fuse matches Some(n) ==> n >= 4,
    ensures
        submit_product_spec(s, id).1 is Submitted,
{
}

/// If the evaluation fails before the verdict is recorded, the product is
/// pending: out of draft, without a verification status. Nobody is
/// notified, and nothing else has changed.
pub proof fn lemma_failed_evaluation_leaves_product_pending(s: StoreState, id: u128)
    requires
        s.wf(),
        !s.in_transaction(),
        s.db.products.contains_key(id),
        s.fuse matches Some(n) && 4 <= n < 8,
    ensures
        submit_product_spec(s, id).1 == OutcomeView::Submitted(Evaluation::Abandoned),
        submit_product_spec(s, id).0.db == pending_db(s.db, id),
        pending_db(s.db, id).products.contains_key(id),
        pending_db(s.db, id).products[id].state() == LifecycleState::Pending,
        pending_db(s.db, id).notifications == s.db.notifications,
        pending_db(s.db, id).product_categories == s.db.product_categories,
        pending_db(s.db, id).product_tags == s.db.product_tags,
        forall|other: u128|
            other != id ==> (#[trigger] pending_db(s.db, id).products.contains_key(other)
                == s.db.products.contains_key(other)) && pending_db(s.db, id).products[other]
                == s.db.products[other],
{
}

/// If the notification fails, the verdict stays recorded and nobody is
/// notified.
pub proof fn lemma_failed_notification_keeps_verdict(s: StoreState, id: u128)
    requires
        s.wf(),
        !s.in_transaction(),
        s.db.products.contains_key(id),
        s.fuse == Some(8nat),
    ensures
        submit_product_spec(s, id).1 matches OutcomeView::Submitted(Evaluation::Recorded(status))
            && submit_product_spec(s, id).0.db.products[id].verification == status
            && !submit_product_spec(s, id).0.db.products[id].is_draft,
        submit_product_spec(s, id).0.db.notifications == s.db.notifications,
{
}

/// An evaluation never takes a product back into draft, and changes
/// nothing but the verification status of the product, the time of its last
/// update, and the notifications. A product that does not exist is not
/// evaluated.
pub proof fn lemma_evaluation_touches_one_product(s: StoreState, id: u128)
    requires
        s.wf(),
    ensures
        ({
            let (after, evaluation) = verify_product_spec(s, id);
            &&& after.snapshot == s.snapshot
            &&& after.db.product_categories == s.db.product_categories
            &&& after.db.product_tags == s.db.product_tags
            &&& after.db.products.dom() == s.db.products.dom()
            &&& forall|other: u128|
                other != id ==> #[trigger] after.db.products[other] == s.db.products[other]
            &&& s.db.products.contains_key(id) ==> after.db.products[id] == (ProductView {
                verification: after.db.products[id].verification,
                updated_at: after.db.products[id].updated_at,
                ..s.db.products[id]
            })
            &&& evaluation is Abandoned ==> after.db == s.db
            &&& !s.db.products.contains_key(id) ==> evaluation is Abandoned
            &&& !(evaluation is Notified) ==> after.db.notifications == s.db.notifications
        }),
{
    let (after, evaluation) = verify_product_spec(s, id);
    if s.db.products.contains_key(id) {
        assert(after.db.products.dom() =~= s.db.products.dom());
    }
}

/// A submission that runs to its end leaves the product verified or
/// rejected as the evaluator decides on its row and the number of its
/// links, and one more notification, to the vendor of the product, with the
/// message of the verdict.
pub proof fn lemma_submit_evaluates_and_notifies(s: StoreState, id: u128)
    requires
        s.wf(),
        !s.in_transaction(),
        s.db.products.contains_key(id),
        s.fuse matches Some(n) ==> n >= 9,
        s.db.next_id < u128::MAX,
    ensures
        ({
            let (after, outcome) = submit_product_spec(s, id);
            let row = s.db.products[id];
            let status = status_of(
                row.name,
                row.description,
                row.image_url,
                row.price,
                s.db.categories_of(id).len(),
                s.db.tags_of(id).len(),
            );
            &&& outcome == OutcomeView::Submitted(Evaluation::Notified(status))
            &&& after.db.products[id].verification == status
            &&& !after.db.products[id].is_draft
            &&& after.db.notifications.dom() == s.db.notifications.dom().insert(s.db.next_id)
            &&& after.db.notifications[s.db.next_id].vendor_id == row.vendor_id
            &&& after.db.notifications[s.db.next_id].product_id == id
            &&& after.db.notifications[s.db.next_id].message == message_of(status)
            &&& !after.db.notifications[s.db.next_id].is_read
        }),
{
    let pending = pending_db(s.db, id);
    assert(pending.categories_of(id) =~= s.db.categories_of(id));
    assert(pending.tags_of(id) =~= s.db.tags_of(id));
}

/// The lifecycle of a product: it is created a draft, whatever was asked
/// for; saving a draft makes it a draft; a submission makes it pending, and
/// verified or rejected once the verdict is recorded.
pub proof fn lemma_lifecycle_states(s: StoreState, id: u128, spec: NewProductView)
    requires
        s.wf(),
        !s.in_transaction(),
    ensures
        create_product_spec(s, spec).1 matches OutcomeView::Created(row) ==> row.state()
            == LifecycleState::Draft && create_product_spec(s, spec).0.db.products[row.id] == row,
        save_draft_spec(s, id).1 == OutcomeView::DraftSaved ==> save_draft_spec(
            s,
            id,
        ).0.db.products[id].state() == LifecycleState::Draft,
        s.db.products.contains_key(id) ==> pending_db(s.db, id).products[id].state()
            == LifecycleState::Pending,
        submit_product_spec(s, id).1 matches OutcomeView::Submitted(evaluation) ==> {
            let state = submit_product_spec(s, id).0.db.products[id].state();
            match evaluation {
                Evaluation::Abandoned => state == LifecycleState::Pending,
                Evaluation::Recorded(status) | Evaluation::Notified(status) => state == (
                if status == VerificationStatus::Verified {
                    LifecycleState::Verified
                } else {
                    LifecycleState::Rejected
                }),
            }
        },
{
}

/// Deleting a product takes its links and the notifications about it with
/// it: nothing refers to the product afterwards. The other products, their
/// links and the notifications about them stay.
pub proof fn lemma_delete_cascades(s: StoreState, id: u128)
    requires
        !s.in_transaction(),
        s.db.products.contains_key(id),
        s.fuse matches Some(n) ==> n >= 5,
    ensures
        ({
            let (after, outcome) = delete_product_spec(s, id);
            &&& outcome == OutcomeView::Deleted
            &&& !after.db.products.contains_key(id)
            &&& !after.db.referenced(id)
            &&& forall|l: ProductCategory| #[trigger]
                after.db.product_categories.contains(l) <==> s.db.product_categories.contains(l)
                    && l.product_id != id
            &&& forall|l: ProductTag| #[trigger]
                after.db.product_tags.contains(l) <==> s.db.product_tags.contains(l) && l.product_id
                    != id
            &&& forall|n: u128| #[trigger]
                after.db.notifications.contains_key(n) <==> s.db.notifications.contains_key(n)
                    && s.db.notifications[n].product_id != id
            &&& forall|n: u128| #[trigger]
                after.db.notifications.contains_key(n) ==> after.db.notifications[n]
                    == s.db.notifications[n]
            &&& forall|other: u128|
                other != id ==> (#[trigger] after.db.products.contains_key(other)
                    == s.db.products.contains_key(other)) && after.db.products[other]
                    == s.db.products[other]
        }),
{
}

/// After a product was deleted, no list of notifications holds one about
/// it.
pub proof fn lemma_deleted_product_is_not_listed(
    s: StoreState,
    id: u128,
    vendor: u128,
    rows: Seq<crate::model::NotificationView>,
)
    requires
        !s.in_transaction(),
        s.db.products.contains_key(id),
        s.fuse matches Some(n) ==> n >= 5,
        delete_product_spec(s, id).0.db.lists_newest_first(vendor, rows),
    ensures
        forall|i: int| 0 <= i < rows.len() ==> (#[trigger] rows[i]).product_id != id,
{
    lemma_delete_cascades(s, id);
    let after = delete_product_spec(s, id).0.db;
    assert forall|i: int| 0 <= i < rows.len() implies (#[trigger] rows[i]).product_id != id by {
        assert(after.notifications_of(vendor).contains(rows[i].id));
        assert(after.notifications.contains_key(rows[i].id));
    }
}

/// Whatever a store answers, a machine comes to its end: every answer
/// brings it closer.
pub proof fn lemma_machine_terminates(m: MachineView, reply: ReplyView)
    requires
        m.pending() is Some,
    ensures
        budget(m.advance(reply)) < budget(m),
{
}

/// Whatever store a machine runs against: when a statement of a
/// transaction is answered with a failure, the next statement is the
/// rollback, no other follows, and the failure is the outcome.
pub proof fn lemma_failure_is_rolled_back(m: MachineView, reply: ReplyView, next: ReplyView)
    requires
        m.pending() is Some,
        m.stage.in_transaction() || (m.stage == Stage::Draft && m.op is Submit),
        reply is Failed,
    ensures
        m.advance(reply).pending() == Some(CommandView::Rollback),
        m.advance(reply).advance(next).pending() is None,
        m.advance(reply).advance(next).outcome() == OutcomeView::Failed(reply->Failed_0),
{
}

/// Whatever store a machine runs against: a commit is only asked for after
/// the statement before it was answered with success.
pub proof fn lemma_commit_follows_success(m: MachineView, reply: ReplyView)
    requires
        m.stage != Stage::Commit,
        m.advance(reply).stage == Stage::Commit,
    ensures
        reply == ReplyView::Done,
        m.stage.in_transaction(),
{
}

/// Whatever store a machine runs against: a verdict that could not be
/// recorded, because the product is gone or the store failed, is not tried
/// again and the vendor is not notified of it.
pub proof fn lemma_unrecorded_verdict_is_final(m: MachineView, reply: ReplyView)
    requires
        m.stage is Record,
        reply != ReplyView::Done,
    ensures
        m.advance(reply).stage == Stage::Submitted(Evaluation::Abandoned),
        m.advance(reply).pending() is None,
{
}

/// The stages of the second phase of a submission.
pub open spec fn in_second_phase(stage: Stage) -> bool {
    match stage {
        Stage::Read | Stage::CountCategories | Stage::CountTags | Stage::Record(_) | Stage::Notify(
            _,
        ) | Stage::Submitted(_) => true,
        _ => false,
    }
}

/// Whatever store a machine runs against: once the first phase of a
/// submission is committed, no answer makes the submission fail. The machine
/// stays in the second phase until it ends, and it ends with success.
pub proof fn lemma_second_phase_cannot_fail(m: MachineView, reply: ReplyView)
    requires
        m.wf(),
        in_second_phase(m.stage),
    ensures
        m.advance(reply).wf(),
        in_second_phase(m.advance(reply).stage),
        m.pending() is None ==> m.outcome() is Submitted || m.outcome() is Evaluated,
{
}

/// Whatever store a machine runs against: a submission enters its second
/// phase when its commit is answered with success.
pub proof fn lemma_second_phase_follows_commit(m: MachineView, reply: ReplyView)
    requires
        m.op is Submit,
        m.stage == Stage::Commit,
    ensures
        in_second_phase(m.advance(reply).stage) <==> reply == ReplyView::Done,
        reply != ReplyView::Done ==> m.advance(reply).stage is Failed,
{
}

/// Whatever store a machine runs against: the vendor is notified only of a
/// verdict that was recorded, and the verdict is the evaluator's on the row
/// and the counts that the store answered with.
pub proof fn lemma_verdict_comes_from_the_evaluator(m: MachineView, reply: ReplyView)
    requires
        m.stage == Stage::CountTags,
        m.advance(reply).stage is Record,
    ensures
        m.product is Some,
        reply is Count,
        m.advance(reply).stage == Stage::Record(
            status_of(
                m.product->0.name,
                m.product->0.description,
                m.product->0.image_url,
                m.product->0.price,
                m.category_count,
                reply->Count_0,
            ),
        ),
{
}

/// What the evaluator promises of a verdict on a product.
pub open spec fn is_verdict_on(
    v: Verdict,
    name: Seq<char>,
    description: Seq<char>,
    image_url: Seq<char>,
    price: u64,
    category_count: nat,
    tag_count: nat,
) -> bool {
    &&& v.status == status_of(name, description, image_url, price, category_count, tag_count)
    &&& v.message@ == message_of(v.status)
}

/// The verdict is determined by what is evaluated: two verdicts on the same
/// name, description, image, price and counts have the same status and the
/// same message.
pub proof fn lemma_verdict_is_determined(
    a: Verdict,
    b: Verdict,
    name: Seq<char>,
    description: Seq<char>,
    image_url: Seq<char>,
    price: u64,
    category_count: nat,
    tag_count: nat,
)
    requires
        is_verdict_on(a, name, description, image_url, price, category_count, tag_count),
        is_verdict_on(b, name, description, image_url, price, category_count, tag_count),
    ensures
        a.status == b.status,
        a.message@ == b.message@,
{
}

} // verus!
