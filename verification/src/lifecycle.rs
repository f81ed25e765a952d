//! The lifecycle operations on a store, and what each of them comes to.
//!
//! [`drive`] is what a machine and a store do together. For each operation a
//! function says directly what that comes to: which rows the store holds
//! afterwards and what the caller is told.

use crate::db::{new_row, overwritten_row, Db, StoreState};
use crate::evaluator::{message_of, status_of};
use crate::machine::{
    Evaluation, Machine, MachineView, Operation, OperationView, Outcome, OutcomeView, Stage,
};
use crate::model::{
    Error, NewProduct, NewProductView, Notification, Product, VerificationStatus,
};
use crate::statement::{CommandView, ReplyView};
use crate::store::{notification_views, product_ids, product_views, Store};
use crate::table::{increasing, table};
use vstd::prelude::*;

verus! {

/// An upper bound on the number of statements that a machine still issues.
pub open spec fn budget(m: MachineView) -> nat {
    if m.pending() is Some {
        m.stage.rank()
    } else {
        0
    }
}

/// The store and the outcome after the machine has run to its end, each of
/// its statements being carried out by the store.
pub open spec fn drive(m: MachineView, s: StoreState) -> (StoreState, OutcomeView)
    decreases budget(m),
{
    match m.pending() {
        Some(cmd) => {
            let (after, reply) = s.execute(cmd);
            drive(m.advance(reply), after)
        },
        None => (s, m.outcome()),
    }
}

/// The store after `statements` statements that counted and did not end
/// the fuse, with the tables `db` and no transaction open.
pub open spec fn advanced(s: StoreState, statements: nat, db: Db) -> StoreState {
    StoreState {
        db,
        snapshot: None,
        fuse: match s.fuse {
            Some(n) => Some((n - statements) as nat),
            None => None,
        },
    }
}

/// The store after an operation that ended with `outcome`, having issued
/// `statements` statements that count and left the tables as `db`, with no
/// transaction open. If the fuse ends among these statements, the operation
/// fails with a store error instead and the tables are as before.
pub open spec fn settled(s: StoreState, statements: nat, db: Db, outcome: OutcomeView) -> (
    StoreState,
    OutcomeView,
) {
    match s.fuse {
        Some(n) if n < statements => (
            StoreState { fuse: None, ..s },
            OutcomeView::Failed(Error::StoreError),
        ),
        _ => (advanced(s, statements, db), outcome),
    }
}

/// What an operation that opens a transaction comes to on a store that is
/// already in one: the begin fails and nothing else is tried.
pub open spec fn refused(s: StoreState) -> (StoreState, OutcomeView) {
    (s.execute(CommandView::Begin).0, OutcomeView::Failed(Error::StoreError))
}

/// What creating a product comes to. A specification that is not valid is
/// turned down before any statement. Otherwise the product is created as a
/// draft with exactly the categories and tags asked for, unless one of them
/// does not exist: then nothing changes.
pub open spec fn create_product_spec(s: StoreState, spec: NewProductView) -> (
    StoreState,
    OutcomeView,
) {
    let id = s.db.next_id;
    match spec.defect() {
        Some(d) => (s, OutcomeView::Failed(Error::ValidationError(d))),
        None => if s.in_transaction() {
            refused(s)
        } else if id == u128::MAX {
            settled(s, 2, s.db, OutcomeView::Failed(Error::StoreError))
        } else if !s.db.all_categories(spec.categories()) {
            settled(s, 3, s.db, OutcomeView::Failed(Error::ConstraintViolation))
        } else if !s.db.all_tags(spec.tags()) {
            settled(s, 4, s.db, OutcomeView::Failed(Error::ConstraintViolation))
        } else {
            settled(
                s,
                5,
                s.db.create(spec.as_draft()).0.with_categories(id, spec.categories()).with_tags(
                    id,
                    spec.tags(),
                ),
                OutcomeView::Created(new_row(spec.as_draft(), id, s.db.clock)),
            )
        },
    }
}

/// What updating a product comes to. A specification that is not valid is
/// turned down before any statement. Otherwise the fields of the product
/// are overwritten and its categories and tags replaced by exactly the ones
/// asked for, unless the product or one of them does not exist: then
/// nothing changes.
pub open spec fn update_product_spec(s: StoreState, id: u128, spec: NewProductView) -> (
    StoreState,
    OutcomeView,
) {
    match spec.defect() {
        Some(d) => (s, OutcomeView::Failed(Error::ValidationError(d))),
        None => if s.in_transaction() {
            refused(s)
        } else if !s.db.products.contains_key(id) {
            settled(s, 2, s.db, OutcomeView::Failed(Error::NotFound))
        } else if !s.db.all_categories(spec.categories()) {
            settled(s, 3, s.db, OutcomeView::Failed(Error::ConstraintViolation))
        } else if !s.db.all_tags(spec.tags()) {
            settled(s, 4, s.db, OutcomeView::Failed(Error::ConstraintViolation))
        } else {
            settled(
                s,
                5,
                s.db.update(id, spec).0.with_categories(id, spec.categories()).with_tags(
                    id,
                    spec.tags(),
                ),
                OutcomeView::Updated(overwritten_row(s.db.products[id], spec, s.db.clock)),
            )
        },
    }
}

/// What deleting a product comes to: the product goes with its links and
/// the notifications about it, or it does not exist and nothing changes.
pub open spec fn delete_product_spec(s: StoreState, id: u128) -> (StoreState, OutcomeView) {
    if s.in_transaction() {
        refused(s)
    } else if s.db.products.contains_key(id) {
        settled(
            s,
            5,
            Db {
                products: s.db.products.remove(id),
                ..s.db.without_links(id).without_notifications(id)
            },
            OutcomeView::Deleted,
        )
    } else {
        settled(s, 4, s.db, OutcomeView::Failed(Error::NotFound))
    }
}

/// What saving a draft comes to: one statement, which sets the draft flag
/// of the product if it exists.
pub open spec fn save_draft_spec(s: StoreState, id: u128) -> (StoreState, OutcomeView) {
    if s.trips() {
        (StoreState { fuse: None, ..s }, OutcomeView::Failed(Error::StoreError))
    } else if s.db.products.contains_key(id) {
        (
            StoreState { db: s.db.set_draft_flag(id, true).0, ..s.counted() },
            OutcomeView::DraftSaved,
        )
    } else {
        (s.counted(), OutcomeView::Failed(Error::NotFound))
    }
}

/// The tables after the first phase of submitting `id`: the product is out
/// of draft and has no verification status.
pub open spec fn pending_db(db: Db, id: u128) -> Db {
    db.set_draft_flag(id, false).0.set_verification_status(id, VerificationStatus::Unverified).0
}

/// The verdict on a product as the tables hold it.
pub open spec fn verdict_in(db: Db, id: u128) -> VerificationStatus {
    let row = db.products[id];
    status_of(
        row.name,
        row.description,
        row.image_url,
        row.price,
        db.categories_of(id).len(),
        db.tags_of(id).len(),
    )
}

/// What evaluating a product comes to: the store afterwards, and how far the
/// evaluation got.
///
/// There are five statements: reading the product, counting its categories
/// and its tags, recording the verdict, notifying the vendor. The verdict
/// is the evaluator's on the row and the counts. The first statement that
/// fails ends the evaluation: before the verdict is recorded nothing has
/// changed then, and a notification that fails leaves the verdict in place.
/// A product that does not exist is not evaluated.
pub open spec fn verify_product_spec(s: StoreState, id: u128) -> (StoreState, Evaluation) {
    let status = verdict_in(s.db, id);
    let recorded = s.db.set_verification_status(id, status).0;
    let ended = StoreState { fuse: None, ..s };
    if !s.db.products.contains_key(id) {
        (
            if s.trips() {
                ended
            } else {
                s.counted()
            },
            Evaluation::Abandoned,
        )
    } else {
        match s.fuse {
            Some(n) if n < 4 => (ended, Evaluation::Abandoned),
            Some(n) if n == 4 => (StoreState { db: recorded, ..ended }, Evaluation::Recorded(status)),
            _ => {
                let fuse = match s.fuse {
                    Some(n) => Some((n - 5) as nat),
                    None => None,
                };
                if recorded.next_id == u128::MAX {
                    (StoreState { db: recorded, fuse, ..s }, Evaluation::Recorded(status))
                } else {
                    (
                        StoreState {
                            db: recorded.notify(
                                s.db.products[id].vendor_id,
                                id,
                                message_of(status),
                            ).0,
                            fuse,
                            ..s
                        },
                        Evaluation::Notified(status),
                    )
                }
            },
        }
    }
}

/// What submitting a product comes to.
///
/// The first phase is a transaction of four statements, which takes the
/// product out of draft and clears its verification status. It fails as a
/// whole, with nothing changed, if the product does not exist or the store
/// fails. Once it is committed the submission has succeeded, whatever
/// follows. The second phase is the evaluation of the product as the first
/// phase has left it.
pub open spec fn submit_product_spec(s: StoreState, id: u128) -> (StoreState, OutcomeView) {
    if s.in_transaction() {
        refused(s)
    } else if !s.db.products.contains_key(id) {
        settled(s, 2, s.db, OutcomeView::Failed(Error::NotFound))
    } else {
        match s.fuse {
            Some(n) if n < 4 => (
                StoreState { fuse: None, ..s },
                OutcomeView::Failed(Error::StoreError),
            ),
            _ => {
                let committed = advanced(s, 4, pending_db(s.db, id));
                let (after, evaluation) = verify_product_spec(committed, id);
                (after, OutcomeView::Submitted(evaluation))
            },
        }
    }
}

/// What an operation comes to.
pub open spec fn operation_spec(s: StoreState, op: OperationView) -> (StoreState, OutcomeView) {
    match op {
        OperationView::Create(spec) => create_product_spec(s, spec),
        OperationView::Update(id, spec) => update_product_spec(s, id, spec),
        OperationView::Delete(id) => delete_product_spec(s, id),
        OperationView::SaveDraft(id) => save_draft_spec(s, id),
        OperationView::Submit(id) => submit_product_spec(s, id),
        OperationView::Verify(id) => (
            verify_product_spec(s, id).0,
            OutcomeView::Evaluated(verify_product_spec(s, id).1),
        ),
    }
}

/// The counterpart of [`settled`] for a store whose transaction began with
/// the tables `base`.
spec fn settled_in(s: StoreState, base: Db, statements: nat, db: Db, outcome: OutcomeView) -> (
    StoreState,
    OutcomeView,
) {
    match s.fuse {
        Some(n) if n < statements => (
            StoreState { db: base, snapshot: None, fuse: None },
            OutcomeView::Failed(Error::StoreError),
        ),
        Some(n) => (StoreState { db, snapshot: None, fuse: Some((n - statements) as nat) }, outcome),
        None => (StoreState { db, snapshot: None, fuse: None }, outcome),
    }
}

proof fn lemma_step(m: MachineView, s: StoreState)
    requires
        m.pending() is Some,
    ensures
        drive(m, s) == drive(
            m.advance(s.execute(m.pending()->0).1),
            s.execute(m.pending()->0).0,
        ),
{
}

proof fn lemma_end(m: MachineView, s: StoreState)
    requires
        m.pending() is None,
    ensures
        drive(m, s) == (s, m.outcome()),
{
}

proof fn lemma_rollback(m: MachineView, s: StoreState, e: Error)
    requires
        m.stage == Stage::Rollback(e),
    ensures
        drive(m, s) == (s.rolled_back(), OutcomeView::Failed(e)),
{
    lemma_step(m, s);
    lemma_end(m.at(Stage::Failed(e)), s.rolled_back());
}

/// A statement of a transaction that is answered with `Done` or a failure.
proof fn lemma_statement(m: MachineView, s: StoreState, base: Db)
    requires
        m.pending() is Some,
        m.stage.in_transaction() || (m.stage == Stage::Draft && m.op is Submit),
        m.stage != Stage::Insert,
        m.stage != Stage::Overwrite,
        s.snapshot == Some(base),
    ensures
        drive(m, s) == ({
            let (after, reply) = s.execute(m.pending()->0);
            match MachineView::failure(reply) {
                Some(e) => (
                    StoreState { db: base, snapshot: None, fuse: after.fuse },
                    OutcomeView::Failed(e),
                ),
                None => drive(m.at(m.next()), after),
            }
        }),
{
    lemma_step(m, s);
    let (after, reply) = s.execute(m.pending()->0);
    match MachineView::failure(reply) {
        Some(e) => {
            lemma_rollback(m.at(Stage::Rollback(e)), after, e);
        },
        None => {},
    }
}

/// The statement of a transaction that is answered with a row.
proof fn lemma_row_statement(m: MachineView, s: StoreState, base: Db)
    requires
        m.pending() is Some,
        m.stage == Stage::Insert || m.stage == Stage::Overwrite,
        s.snapshot == Some(base),
    ensures
        drive(m, s) == ({
            let (after, reply) = s.execute(m.pending()->0);
            match reply {
                ReplyView::Product(p) => drive(
                    MachineView { stage: Stage::Categories, product: Some(p), ..m },
                    after,
                ),
                ReplyView::Failed(e) => (
                    StoreState { db: base, snapshot: None, fuse: after.fuse },
                    OutcomeView::Failed(e),
                ),
                _ => (
                    StoreState { db: base, snapshot: None, fuse: after.fuse },
                    OutcomeView::Failed(Error::StoreError),
                ),
            }
        }),
{
    lemma_step(m, s);
    let (after, reply) = s.execute(m.pending()->0);
    match reply {
        ReplyView::Product(p) => {},
        ReplyView::Failed(e) => {
            lemma_rollback(m.at(Stage::Rollback(e)), after, e);
        },
        _ => {
            lemma_rollback(m.at(Stage::Rollback(Error::StoreError)), after, Error::StoreError);
        },
    }
}

/// The commit of an operation that ends with it.
proof fn lemma_commit(m: MachineView, s: StoreState, base: Db)
    requires
        m.stage == Stage::Commit,
        !(m.op is Submit),
        s.snapshot == Some(base),
    ensures
        drive(m, s) == settled_in(s, base, 1, s.db, m.at(Stage::Done).outcome()),
{
    lemma_step(m, s);
    let (after, reply) = s.execute(CommandView::Commit);
    lemma_end(m.advance(reply), after);
}

/// The begin of an operation that starts with it.
proof fn lemma_begin(m: MachineView, s: StoreState)
    requires
        m.stage == Stage::Begin,
    ensures
        drive(m, s) == (if s.in_transaction() {
            refused(s)
        } else if s.trips() {
            (StoreState { fuse: None, ..s }, OutcomeView::Failed(Error::StoreError))
        } else {
            drive(m.at(m.op.first()), StoreState { snapshot: Some(s.db), ..s.counted() })
        }),
{
    lemma_step(m, s);
    let (after, reply) = s.execute(CommandView::Begin);
    if s.in_transaction() || s.trips() {
        lemma_end(m.advance(reply), after);
    }
}

/// Replacing the links and committing, the common end of create and update.
proof fn lemma_links_and_commit(m: MachineView, s: StoreState, base: Db, spec: NewProductView)
    requires
        m.stage == Stage::Categories,
        m.op.spec() == Some(spec),
        !(m.op is Create) || m.product is Some,
        s.snapshot == Some(base),
        s.db.products.contains_key(m.subject()),
    ensures
        drive(m, s) == (if !s.db.all_categories(spec.categories()) {
            settled_in(s, base, 1, base, OutcomeView::Failed(Error::ConstraintViolation))
        } else if !s.db.all_tags(spec.tags()) {
            settled_in(s, base, 2, base, OutcomeView::Failed(Error::ConstraintViolation))
        } else {
            settled_in(
                s,
                base,
                3,
                s.db.with_categories(m.subject(), spec.categories()).with_tags(
                    m.subject(),
                    spec.tags(),
                ),
                m.at(Stage::Done).outcome(),
            )
        }),
{
    let id = m.subject();
    lemma_statement(m, s, base);
    let (s1, r1) = s.execute(CommandView::ReplaceCategories(id, spec.categories()));
    if MachineView::failure(r1) is None {
        let m1 = m.at(Stage::Tags);
        lemma_statement(m1, s1, base);
        let (s2, r2) = s1.execute(CommandView::ReplaceTags(id, spec.tags()));
        assert(s1.db.all_tags(spec.tags()) == s.db.all_tags(spec.tags()));
        if MachineView::failure(r2) is None {
            lemma_commit(m1.at(Stage::Commit), s2, base);
        }
    }
}

proof fn lemma_create_product(s: StoreState, spec: NewProductView)
    ensures
        drive(MachineView::start(OperationView::Create(spec)), s) == create_product_spec(s, spec),
{
    let m = MachineView::start(OperationView::Create(spec));
    if spec.defect() is Some {
        lemma_end(m, s);
    } else {
        lemma_begin(m, s);
        if !s.in_transaction() && !s.trips() {
            let s1 = StoreState { snapshot: Some(s.db), ..s.counted() };
            let m1 = m.at(Stage::Insert);
            lemma_row_statement(m1, s1, s.db);
            let (s2, r2) = s1.execute(CommandView::Create(spec.as_draft()));
            if r2 is Product {
                let p = r2->Product_0;
                let m2 = MachineView { stage: Stage::Categories, product: Some(p), ..m1 };
                lemma_links_and_commit(m2, s2, s.db, spec);
                assert(s2.db.all_categories(spec.categories()) == s.db.all_categories(
                    spec.categories(),
                ));
                assert(s2.db.all_tags(spec.tags()) == s.db.all_tags(spec.tags()));
            }
        }
    }
}

proof fn lemma_update_product(s: StoreState, id: u128, spec: NewProductView)
    ensures
        drive(MachineView::start(OperationView::Update(id, spec)), s) == update_product_spec(
            s,
            id,
            spec,
        ),
{
    let m = MachineView::start(OperationView::Update(id, spec));
    if spec.defect() is Some {
        lemma_end(m, s);
    } else {
        lemma_begin(m, s);
        if !s.in_transaction() && !s.trips() {
            let s1 = StoreState { snapshot: Some(s.db), ..s.counted() };
            let m1 = m.at(Stage::Overwrite);
            lemma_row_statement(m1, s1, s.db);
            let (s2, r2) = s1.execute(CommandView::Update(id, spec));
            if r2 is Product {
                let p = r2->Product_0;
                let m2 = MachineView { stage: Stage::Categories, product: Some(p), ..m1 };
                lemma_links_and_commit(m2, s2, s.db, spec);
                assert(s2.db.all_categories(spec.categories()) == s.db.all_categories(
                    spec.categories(),
                ));
                assert(s2.db.all_tags(spec.tags()) == s.db.all_tags(spec.tags()));
            }
        }
    }
}

proof fn lemma_delete_product(s: StoreState, id: u128)
    ensures
        drive(MachineView::start(OperationView::Delete(id)), s) == delete_product_spec(s, id),
{
    let m = MachineView::start(OperationView::Delete(id));
    lemma_begin(m, s);
    if !s.in_transaction() && !s.trips() {
        let s1 = StoreState { snapshot: Some(s.db), ..s.counted() };
        let m1 = m.at(Stage::Links);
        lemma_statement(m1, s1, s.db);
        let (s2, r2) = s1.execute(CommandView::DeleteAllLinks(id));
        if MachineView::failure(r2) is None {
            let m2 = m1.at(Stage::Notifications);
            lemma_statement(m2, s2, s.db);
            let (s3, r3) = s2.execute(CommandView::DeleteNotifications(id));
            if MachineView::failure(r3) is None {
                let m3 = m2.at(Stage::Remove);
                lemma_statement(m3, s3, s.db);
                let (s4, r4) = s3.execute(CommandView::Delete(id));
                assert(!s3.db.referenced(id));
                if MachineView::failure(r4) is None {
                    lemma_commit(m3.at(Stage::Commit), s4, s.db);
                }
            }
        }
    }
}

proof fn lemma_save_draft(s: StoreState, id: u128)
    ensures
        drive(MachineView::start(OperationView::SaveDraft(id)), s) == save_draft_spec(s, id),
{
    let m = MachineView::start(OperationView::SaveDraft(id));
    lemma_step(m, s);
    let (after, reply) = s.execute(CommandView::SetDraftFlag(id, true));
    lemma_end(m.advance(reply), after);
}

/// The evaluation of a product, alone or as the second phase of a
/// submission.
proof fn lemma_second_phase(m: MachineView, s: StoreState, id: u128)
    requires
        m.stage == Stage::Read,
        m.op == OperationView::Submit(id) || m.op == OperationView::Verify(id),
    ensures
        drive(m, s) == (
            verify_product_spec(s, id).0,
            m.at(Stage::Submitted(verify_product_spec(s, id).1)).outcome(),
        ),
{
    lemma_step(m, s);
    let (s1, r1) = s.execute(CommandView::Get(id));
    let m1 = m.advance(r1);
    if r1 is Product {
        lemma_step(m1, s1);
        let (s2, r2) = s1.execute(CommandView::CountCategories(id));
        let m2 = m1.advance(r2);
        if r2 is Count {
            lemma_step(m2, s2);
            let (s3, r3) = s2.execute(CommandView::CountTags(id));
            let m3 = m2.advance(r3);
            if r3 is Count {
                let status = verdict_in(s.db, id);
                assert(m3.stage == Stage::Record(status));
                lemma_step(m3, s3);
                let (s4, r4) = s3.execute(CommandView::SetVerificationStatus(id, status));
                let m4 = m3.advance(r4);
                if r4 is Done {
                    lemma_step(m4, s4);
                    let (s5, r5) = s4.execute(
                        CommandView::Notify(s.db.products[id].vendor_id, id, message_of(status)),
                    );
                    lemma_end(m4.advance(r5), s5);
                } else {
                    lemma_end(m4, s4);
                }
            } else {
                lemma_end(m3, s3);
            }
        } else {
            lemma_end(m2, s2);
        }
    } else {
        lemma_end(m1, s1);
    }
}

proof fn lemma_submit_product(s: StoreState, id: u128)
    ensures
        drive(MachineView::start(OperationView::Submit(id)), s) == submit_product_spec(s, id),
{
    let m = MachineView::start(OperationView::Submit(id));
    lemma_begin(m, s);
    if !s.in_transaction() && !s.trips() {
        let s1 = StoreState { snapshot: Some(s.db), ..s.counted() };
        let m1 = m.at(Stage::Draft);
        lemma_statement(m1, s1, s.db);
        let (s2, r2) = s1.execute(CommandView::SetDraftFlag(id, false));
        if MachineView::failure(r2) is None {
            let m2 = m1.at(Stage::Reset);
            lemma_statement(m2, s2, s.db);
            let (s3, r3) = s2.execute(
                CommandView::SetVerificationStatus(id, VerificationStatus::Unverified),
            );
            if MachineView::failure(r3) is None {
                let m3 = m2.at(Stage::Commit);
                lemma_step(m3, s3);
                let (s4, r4) = s3.execute(CommandView::Commit);
                if MachineView::failure(r4) is None {
                    assert(s4 == advanced(s, 4, pending_db(s.db, id)));
                    lemma_second_phase(m3.at(Stage::Read), s4, id);
                } else {
                    lemma_end(m3.advance(r4), s4);
                }
            }
        }
    }
}

/// A machine run against a store comes to what the operation is said to
/// come to.
pub proof fn lemma_drive(s: StoreState, op: OperationView)
    ensures
        drive(MachineView::start(op), s) == operation_spec(s, op),
{
    match op {
        OperationView::Create(spec) => lemma_create_product(s, spec),
        OperationView::Update(id, spec) => lemma_update_product(s, id, spec),
        OperationView::Delete(id) => lemma_delete_product(s, id),
        OperationView::SaveDraft(id) => lemma_save_draft(s, id),
        OperationView::Submit(id) => lemma_submit_product(s, id),
        OperationView::Verify(id) => lemma_second_phase(
            MachineView::start(OperationView::Verify(id)),
            s,
            id,
        ),
    }
}

/// Runs an operation against the store: a machine names the statements,
/// the store carries them out.
pub fn run(store: &mut Store, op: Operation) -> (r: Outcome)
    requires
        old(store).wf(),
    ensures
        final(store).wf(),
        (final(store)@, r@) == operation_spec(old(store)@, op@),
{
    let ghost start = store@;
    proof {
        lemma_drive(start, op@);
    }
    let mut machine = Machine::start(op);
    loop
        invariant
            store.wf(),
            start == old(store)@,
            drive(machine@, store@) == operation_spec(start, op@),
        decreases budget(machine@),
    {
        match machine.pending() {
            None => {
                return machine.outcome();
            },
            Some(cmd) => {
                let reply = store.execute(cmd);
                machine = machine.advance(reply);
            },
        }
    }
}

/// The outcome that a result of creating or updating stands for.
pub open spec fn written(r: Result<Product, Error>, created: bool) -> OutcomeView {
    match r {
        Ok(product) => if created {
            OutcomeView::Created(product@)
        } else {
            OutcomeView::Updated(product@)
        },
        Err(e) => OutcomeView::Failed(e),
    }
}

/// The outcome that a result without a value stands for.
pub open spec fn finished(r: Result<(), Error>, success: OutcomeView) -> OutcomeView {
    match r {
        Ok(()) => success,
        Err(e) => OutcomeView::Failed(e),
    }
}

/// Creates a product as a draft, with the categories and tags asked for, in
/// one transaction.
pub fn create_product(store: &mut Store, spec: NewProduct) -> (r: Result<Product, Error>)
    requires
        old(store).wf(),
    ensures
        final(store).wf(),
        (final(store)@, written(r, true)) == create_product_spec(old(store)@, spec@),
{
    match run(store, Operation::Create(spec)) {
        Outcome::Created(product) => Ok(product),
        Outcome::Failed(e) => Err(e),
        _ => Err(Error::StoreError),
    }
}

/// Overwrites a product and replaces its categories and tags by the ones
/// asked for, in one transaction.
pub fn update_product(store: &mut Store, id: u128, spec: NewProduct) -> (r: Result<
    Product,
    Error,
>)
    requires
        old(store).wf(),
    ensures
        final(store).wf(),
        (final(store)@, written(r, false)) == update_product_spec(old(store)@, id, spec@),
{
    match run(store, Operation::Update(id, spec)) {
        Outcome::Updated(product) => Ok(product),
        Outcome::Failed(e) => Err(e),
        _ => Err(Error::StoreError),
    }
}

/// Deletes a product with its links and the notifications about it, in one
/// transaction.
pub fn delete_product(store: &mut Store, id: u128) -> (r: Result<(), Error>)
    requires
        old(store).wf(),
    ensures
        final(store).wf(),
        (final(store)@, finished(r, OutcomeView::Deleted)) == delete_product_spec(old(store)@, id),
{
    match run(store, Operation::Delete(id)) {
        Outcome::Deleted => Ok(()),
        Outcome::Failed(e) => Err(e),
        _ => Err(Error::StoreError),
    }
}

/// Puts a product back into draft.
pub fn save_draft(store: &mut Store, id: u128) -> (r: Result<(), Error>)
    requires
        old(store).wf(),
    ensures
        final(store).wf(),
        (final(store)@, finished(r, OutcomeView::DraftSaved)) == save_draft_spec(old(store)@, id),
{
    match run(store, Operation::SaveDraft(id)) {
        Outcome::DraftSaved => Ok(()),
        Outcome::Failed(e) => Err(e),
        _ => Err(Error::StoreError),
    }
}

/// Submits a product for verification. `Ok` says that the submission was
/// accepted, and how far the evaluation got.
pub fn submit_product(store: &mut Store, id: u128) -> (r: Result<Evaluation, Error>)
    requires
        old(store).wf(),
    ensures
        final(store).wf(),
        (
            final(store)@,
            match r {
                Ok(evaluation) => OutcomeView::Submitted(evaluation),
                Err(e) => OutcomeView::Failed(e),
            },
        ) == submit_product_spec(old(store)@, id),
{
    match run(store, Operation::Submit(id)) {
        Outcome::Submitted(evaluation) => Ok(evaluation),
        Outcome::Failed(e) => Err(e),
        _ => Err(Error::StoreError),
    }
}

/// Evaluates a product as it stands, records the verdict and notifies the
/// vendor: what a submission does after it was accepted. It can be called
/// again for a product whose evaluation did not get to its end.
pub fn verify_product(store: &mut Store, id: u128) -> (r: Evaluation)
    requires
        old(store).wf(),
    ensures
        final(store).wf(),
        (final(store)@, r) == verify_product_spec(old(store)@, id),
{
    match run(store, Operation::Verify(id)) {
        Outcome::Evaluated(evaluation) => evaluation,
        _ => Evaluation::Abandoned,
    }
}

/// All products, each once, in the order of their identifiers.
pub fn get_products(store: &Store) -> (r: Vec<Product>)
    requires
        store.wf(),
    ensures
        increasing(product_ids(r@)),
        table(product_ids(r@), product_views(r@)) == store@.db.products,
{
    store.list_products()
}

/// The notifications to a vendor, each once, the newest first.
pub fn get_notifications(store: &Store, vendor: u128) -> (r: Vec<Notification>)
    requires
        store.wf(),
    ensures
        store@.db.lists_newest_first(vendor, notification_views(r@)),
{
    store.list_notifications(vendor)
}

} // verus!
