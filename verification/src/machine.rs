//! The lifecycle operations as a machine that issues statements.
//!
//! A [`Machine`] is started for one operation. It names the statement to
//! carry out next, takes the store's answer, and moves on, until it has an
//! outcome. It never touches a store itself, so the same machine runs
//! against any store that understands the statements.
//!
//! Create, update and delete are one transaction each: the first statement
//! that fails is followed by a rollback, and the failure is the outcome.
//! Submit is two phases. The first, a transaction, takes the product out of
//! draft and clears its verification status. The second reads the product
//! and its link counts, evaluates it, records the verdict and notifies the
//! vendor; a failure there ends the operation, which still succeeds. Verify
//! is that second phase alone.

use crate::evaluator::{evaluate, message_for, message_of, status_of};
use crate::model::{Error, NewProduct, NewProductView, Product, ProductView, VerificationStatus};
use crate::statement::{Command, CommandView, Reply, ReplyView};
use vstd::prelude::*;

verus! {

/// How far the second phase of a submission got.
#[derive(Clone, Copy, Debug, PartialEq, Eq, Structural)]
pub enum Evaluation {
    /// It ended before a verdict was recorded: the product is pending.
    Abandoned,
    /// The verdict was recorded, the vendor was not notified.
    Recorded(VerificationStatus),
    /// The verdict was recorded and the vendor notified.
    Notified(VerificationStatus),
}

/// A lifecycle operation.
#[derive(Clone, Debug, PartialEq, Eq)]
pub enum Operation {
    Create(NewProduct),
    Update(u128, NewProduct),
    Delete(u128),
    SaveDraft(u128),
    Submit(u128),
    /// The second phase of a submission alone: evaluating a product as it
    /// stands, recording the verdict and notifying the vendor.
    Verify(u128),
}

/// An operation with its texts as sequences of characters.
pub enum OperationView {
    Create(NewProductView),
    Update(u128, NewProductView),
    Delete(u128),
    SaveDraft(u128),
    Submit(u128),
    Verify(u128),
}

impl View for Operation {
    type V = OperationView;

    open spec fn view(&self) -> OperationView {
        match *self {
            Operation::Create(spec) => OperationView::Create(spec@),
            Operation::Update(id, spec) => OperationView::Update(id, spec@),
            Operation::Delete(id) => OperationView::Delete(id),
            Operation::SaveDraft(id) => OperationView::SaveDraft(id),
            Operation::Submit(id) => OperationView::Submit(id),
            Operation::Verify(id) => OperationView::Verify(id),
        }
    }
}

/// How an operation ended.
#[derive(Clone, Debug, PartialEq, Eq)]
pub enum Outcome {
    Created(Product),
    Updated(Product),
    Deleted,
    DraftSaved,
    /// The submission was accepted; this is how far its evaluation got.
    Submitted(Evaluation),
    /// This is how far the evaluation got.
    Evaluated(Evaluation),
    Failed(Error),
}

/// An outcome with its texts as sequences of characters.
pub enum OutcomeView {
    Created(ProductView),
    Updated(ProductView),
    Deleted,
    DraftSaved,
    Submitted(Evaluation),
    Evaluated(Evaluation),
    Failed(Error),
}

impl View for Outcome {
    type V = OutcomeView;

    open spec fn view(&self) -> OutcomeView {
        match *self {
            Outcome::Created(product) => OutcomeView::Created(product@),
            Outcome::Updated(product) => OutcomeView::Updated(product@),
            Outcome::Deleted => OutcomeView::Deleted,
            Outcome::DraftSaved => OutcomeView::DraftSaved,
            Outcome::Submitted(evaluation) => OutcomeView::Submitted(evaluation),
            Outcome::Evaluated(evaluation) => OutcomeView::Evaluated(evaluation),
            Outcome::Failed(error) => OutcomeView::Failed(error),
        }
    }
}

/// The statement that a machine waits on, or how it ended.
#[derive(Clone, Copy, Debug, PartialEq, Eq, Structural)]
pub enum Stage {
    /// Opening the transaction.
    Begin,
    /// Inserting the product.
    Insert,
    /// Overwriting the product.
    Overwrite,
    /// Replacing the categories of the product.
    Categories,
    /// Replacing the tags of the product.
    Tags,
    /// Removing the links of the product.
    Links,
    /// Removing the notifications about the product.
    Notifications,
    /// Removing the product.
    Remove,
    /// Setting the draft flag.
    Draft,
    /// Clearing the verification status.
    Reset,
    /// Committing the transaction.
    Commit,
    /// Rolling back after this failure.
    Rollback(Error),
    /// Reading the product to evaluate.
    Read,
    /// Counting the categories of the product.
    CountCategories,
    /// Counting the tags of the product.
    CountTags,
    /// Recording this verdict.
    Record(VerificationStatus),
    /// Notifying the vendor of this verdict.
    Notify(VerificationStatus),
    /// Ended with success.
    Done,
    /// Ended after the first phase of a submission, or with an evaluation;
    /// this is how far the evaluation got.
    Submitted(Evaluation),
    /// Ended with this failure.
    Failed(Error),
}

impl Stage {
    /// An upper bound on the number of statements still to come.
    pub open spec fn rank(self) -> nat {
        match self {
            Stage::Begin => 12,
            Stage::Insert | Stage::Overwrite | Stage::Links | Stage::Draft => 11,
            Stage::Categories | Stage::Notifications | Stage::Reset => 10,
            Stage::Tags | Stage::Remove => 9,
            Stage::Commit => 8,
            Stage::Read => 7,
            Stage::CountCategories => 6,
            Stage::CountTags => 5,
            Stage::Record(_) => 4,
            Stage::Notify(_) => 3,
            Stage::Rollback(_) => 1,
            Stage::Done | Stage::Submitted(_) | Stage::Failed(_) => 0,
        }
    }

    /// The stage waits on a statement inside the transaction, after its
    /// begin and before its commit.
    pub open spec fn in_transaction(self) -> bool {
        match self {
            Stage::Insert | Stage::Overwrite | Stage::Categories | Stage::Tags | Stage::Links
            | Stage::Notifications | Stage::Remove | Stage::Reset => true,
            _ => false,
        }
    }
}

/// One lifecycle operation in progress.
pub struct Machine {
    op: Operation,
    stage: Stage,
    product: Option<Product>,
    category_count: u64,
}

/// What a machine knows: its operation, how far it has got, and what the
/// store has answered that it still needs.
pub struct MachineView {
    pub op: OperationView,
    pub stage: Stage,
    /// The row that the store last answered with.
    pub product: Option<ProductView>,
    /// The number of categories that the store counted.
    pub category_count: nat,
}

impl View for Machine {
    type V = MachineView;

    closed spec fn view(&self) -> MachineView {
        MachineView {
            op: self.op@,
            stage: self.stage,
            product: match self.product {
                Some(p) => Some(p@),
                None => None,
            },
            category_count: self.category_count as nat,
        }
    }
}

impl OperationView {
    /// The specification that the operation carries, if it carries one.
    pub open spec fn spec(self) -> Option<NewProductView> {
        match self {
            OperationView::Create(spec) => Some(spec),
            OperationView::Update(_, spec) => Some(spec),
            _ => None,
        }
    }

    /// The stage after the transaction has begun.
    pub open spec fn first(self) -> Stage {
        match self {
            OperationView::Create(_) => Stage::Insert,
            OperationView::Update(_, _) => Stage::Overwrite,
            OperationView::Delete(_) => Stage::Links,
            OperationView::SaveDraft(_) => Stage::Draft,
            OperationView::Submit(_) => Stage::Draft,
            OperationView::Verify(_) => Stage::Read,
        }
    }
}

impl MachineView {
    /// The machine at the start of an operation. A specification that is
    /// not valid ends the operation before any statement.
    pub open spec fn start(op: OperationView) -> MachineView {
        MachineView {
            op,
            stage: match op.spec() {
                Some(spec) => match spec.defect() {
                    Some(d) => Stage::Failed(Error::ValidationError(d)),
                    None => Stage::Begin,
                },
                None => if op is SaveDraft {
                    Stage::Draft
                } else if op is Verify {
                    Stage::Read
                } else {
                    Stage::Begin
                },
            },
            product: None,
            category_count: 0,
        }
    }

    /// The product that the operation works on: the one it names, or the
    /// one it has created.
    pub open spec fn subject(self) -> u128 {
        match self.op {
            OperationView::Create(_) => match self.product {
                Some(p) => p.id,
                None => 0,
            },
            OperationView::Update(id, _) => id,
            OperationView::Delete(id) => id,
            OperationView::SaveDraft(id) => id,
            OperationView::Submit(id) => id,
            OperationView::Verify(id) => id,
        }
    }

    /// The statement to carry out next; none when the operation has ended.
    pub open spec fn pending(self) -> Option<CommandView> {
        let id = self.subject();
        match self.stage {
            Stage::Begin => Some(CommandView::Begin),
            Stage::Commit => Some(CommandView::Commit),
            Stage::Rollback(_) => Some(CommandView::Rollback),
            Stage::Insert => match self.op {
                OperationView::Create(spec) => Some(CommandView::Create(spec.as_draft())),
                _ => None,
            },
            Stage::Overwrite => match self.op {
                OperationView::Update(_, spec) => Some(CommandView::Update(id, spec)),
                _ => None,
            },
            Stage::Categories => match self.op.spec() {
                Some(spec) => Some(CommandView::ReplaceCategories(id, spec.categories())),
                None => None,
            },
            Stage::Tags => match self.op.spec() {
                Some(spec) => Some(CommandView::ReplaceTags(id, spec.tags())),
                None => None,
            },
            Stage::Links => Some(CommandView::DeleteAllLinks(id)),
            Stage::Notifications => Some(CommandView::DeleteNotifications(id)),
            Stage::Remove => Some(CommandView::Delete(id)),
            Stage::Draft => Some(CommandView::SetDraftFlag(id, self.op is SaveDraft)),
            Stage::Reset => Some(
                CommandView::SetVerificationStatus(id, VerificationStatus::Unverified),
            ),
            Stage::Read => Some(CommandView::Get(id)),
            Stage::CountCategories => Some(CommandView::CountCategories(id)),
            Stage::CountTags => Some(CommandView::CountTags(id)),
            Stage::Record(status) => Some(CommandView::SetVerificationStatus(id, status)),
            Stage::Notify(status) => match self.product {
                Some(p) => Some(CommandView::Notify(p.vendor_id, id, message_of(status))),
                None => None,
            },
            Stage::Done | Stage::Submitted(_) | Stage::Failed(_) => None,
        }
    }

    /// The failure that a reply stands for where `Done` was expected: its
    /// own error, or a store error for an answer of another kind.
    pub open spec fn failure(reply: ReplyView) -> Option<Error> {
        match reply {
            ReplyView::Done => None,
            ReplyView::Failed(e) => Some(e),
            _ => Some(Error::StoreError),
        }
    }

    /// The machine at another stage.
    pub open spec fn at(self, stage: Stage) -> MachineView {
        MachineView { stage, ..self }
    }

    /// The stage after a statement of the transaction was answered with
    /// `Done`.
    pub open spec fn next(self) -> Stage {
        match self.stage {
            Stage::Begin => self.op.first(),
            Stage::Categories => Stage::Tags,
            Stage::Tags => Stage::Commit,
            Stage::Links => Stage::Notifications,
            Stage::Notifications => Stage::Remove,
            Stage::Remove => Stage::Commit,
            Stage::Draft => if self.op is SaveDraft {
                Stage::Done
            } else {
                Stage::Reset
            },
            Stage::Reset => Stage::Commit,
            Stage::Commit => if self.op is Submit {
                Stage::Read
            } else {
                Stage::Done
            },
            _ => Stage::Failed(Error::StoreError),
        }
    }

    /// The machine after the store has answered the pending statement.
    pub open spec fn advance(self, reply: ReplyView) -> MachineView {
        match self.stage {
            Stage::Begin | Stage::Commit => match Self::failure(reply) {
                None => self.at(self.next()),
                Some(e) => self.at(Stage::Failed(e)),
            },
            Stage::Draft => match Self::failure(reply) {
                None => self.at(self.next()),
                Some(e) => if self.op is SaveDraft {
                    self.at(Stage::Failed(e))
                } else {
                    self.at(Stage::Rollback(e))
                },
            },
            Stage::Insert | Stage::Overwrite => match reply {
                ReplyView::Product(p) => MachineView {
                    stage: Stage::Categories,
                    product: Some(p),
                    ..self
                },
                ReplyView::Failed(e) => self.at(Stage::Rollback(e)),
                _ => self.at(Stage::Rollback(Error::StoreError)),
            },
            Stage::Categories | Stage::Tags | Stage::Links | Stage::Notifications | Stage::Remove
            | Stage::Reset => match Self::failure(reply) {
                None => self.at(self.next()),
                Some(e) => self.at(Stage::Rollback(e)),
            },
            Stage::Rollback(e) => self.at(Stage::Failed(e)),
            Stage::Read => match reply {
                ReplyView::Product(p) => MachineView {
                    stage: Stage::CountCategories,
                    product: Some(p),
                    ..self
                },
                _ => self.at(Stage::Submitted(Evaluation::Abandoned)),
            },
            Stage::CountCategories => match reply {
                ReplyView::Count(n) => MachineView {
                    stage: Stage::CountTags,
                    category_count: n,
                    ..self
                },
                _ => self.at(Stage::Submitted(Evaluation::Abandoned)),
            },
            Stage::CountTags => match (reply, self.product) {
                (ReplyView::Count(n), Some(p)) => self.at(
                    Stage::Record(
                        status_of(
                            p.name,
                            p.description,
                            p.image_url,
                            p.price,
                            self.category_count,
                            n,
                        ),
                    ),
                ),
                _ => self.at(Stage::Submitted(Evaluation::Abandoned)),
            },
            Stage::Record(status) => match reply {
                ReplyView::Done => self.at(Stage::Notify(status)),
                _ => self.at(Stage::Submitted(Evaluation::Abandoned)),
            },
            Stage::Notify(status) => match reply {
                ReplyView::Done => self.at(Stage::Submitted(Evaluation::Notified(status))),
                _ => self.at(Stage::Submitted(Evaluation::Recorded(status))),
            },
            Stage::Done | Stage::Submitted(_) | Stage::Failed(_) => self,
        }
    }

    /// How the operation ended. Of a machine that has not ended, and of one
    /// that lacks the row that its outcome carries, this is a store error.
    pub open spec fn outcome(self) -> OutcomeView {
        match self.stage {
            Stage::Done => match (self.op, self.product) {
                (OperationView::Create(_), Some(p)) => OutcomeView::Created(p),
                (OperationView::Update(_, _), Some(p)) => OutcomeView::Updated(p),
                (OperationView::Delete(_), _) => OutcomeView::Deleted,
                (OperationView::SaveDraft(_), _) => OutcomeView::DraftSaved,
                _ => OutcomeView::Failed(Error::StoreError),
            },
            Stage::Submitted(evaluation) => if self.op is Verify {
                OutcomeView::Evaluated(evaluation)
            } else {
                OutcomeView::Submitted(evaluation)
            },
            Stage::Failed(e) => OutcomeView::Failed(e),
            _ => OutcomeView::Failed(Error::StoreError),
        }
    }
}

impl MachineView {
    /// The stage is one of the operation, and the machine holds the row
    /// that the stage works with. This holds of a machine at its start and
    /// after every answer.
    pub open spec fn wf(self) -> bool {
        match self.stage {
            Stage::Begin | Stage::Rollback(_) => !(self.op is SaveDraft) && !(self.op is Verify),
            Stage::Insert => self.op is Create,
            Stage::Overwrite => self.op is Update,
            Stage::Categories | Stage::Tags => self.op.spec() is Some && self.product is Some,
            Stage::Links | Stage::Notifications | Stage::Remove => self.op is Delete,
            Stage::Draft => self.op is SaveDraft || self.op is Submit,
            Stage::Reset => self.op is Submit,
            Stage::Read => self.op is Submit || self.op is Verify,
            Stage::Commit => !(self.op is SaveDraft) && !(self.op is Verify) && (self.op.spec()
                is Some ==> self.product is Some),
            Stage::CountCategories | Stage::CountTags | Stage::Record(_) | Stage::Notify(_) => (
            self.op is Submit || self.op is Verify) && self.product is Some,
            Stage::Done => !(self.op is Submit) && !(self.op is Verify) && (self.op.spec() is Some
                ==> self.product is Some),
            Stage::Submitted(_) => self.op is Submit || self.op is Verify,
            Stage::Failed(_) => true,
        }
    }

    /// The operation has ended.
    pub open spec fn ended(self) -> bool {
        self.stage is Done || self.stage is Submitted || self.stage is Failed
    }

    /// A machine starts in order.
    pub proof fn lemma_start_wf(op: OperationView)
        ensures
            Self::start(op).wf(),
    {
    }

    /// An answer leaves a machine in order.
    pub proof fn lemma_advance_wf(self, reply: ReplyView)
        requires
            self.wf(),
        ensures
            self.advance(reply).wf(),
    {
    }

    /// A machine in order has a statement pending until it has ended, and
    /// then its outcome is the one of its operation.
    pub proof fn lemma_pending_until_ended(self)
        requires
            self.wf(),
        ensures
            self.pending() is None <==> self.ended(),
            self.stage is Done ==> match self.op {
                OperationView::Create(_) => self.outcome() is Created,
                OperationView::Update(_, _) => self.outcome() is Updated,
                OperationView::Delete(_) => self.outcome() is Deleted,
                OperationView::SaveDraft(_) => self.outcome() is DraftSaved,
                OperationView::Submit(_) => false,
                OperationView::Verify(_) => false,
            },
            self.stage is Submitted ==> (if self.op is Verify {
                self.outcome() is Evaluated
            } else {
                self.outcome() is Submitted
            }),
            self.stage is Failed ==> self.outcome() is Failed,
    {
    }
}

impl Machine {
    /// The machine at the start of an operation.
    pub fn start(op: Operation) -> (m: Machine)
        ensures
            m@ == MachineView::start(op@),
            m@.wf(),
    {
        let stage = match &op {
            Operation::Create(spec) => match spec.validate() {
                Err(d) => Stage::Failed(Error::ValidationError(d)),
                Ok(()) => Stage::Begin,
            },
            Operation::Update(_, spec) => match spec.validate() {
                Err(d) => Stage::Failed(Error::ValidationError(d)),
                Ok(()) => Stage::Begin,
            },
            Operation::SaveDraft(_) => Stage::Draft,
            Operation::Verify(_) => Stage::Read,
            _ => Stage::Begin,
        };
        Machine { op, stage, product: None, category_count: 0 }
    }

    fn subject(&self) -> (id: u128)
        ensures
            id == self@.subject(),
    {
        match &self.op {
            Operation::Create(_) => match &self.product {
                Some(p) => p.id,
                None => 0,
            },
            Operation::Update(id, _) => *id,
            Operation::Delete(id) => *id,
            Operation::SaveDraft(id) => *id,
            Operation::Submit(id) => *id,
            Operation::Verify(id) => *id,
        }
    }

    /// The statement to carry out next; none when the operation has ended.
    pub fn pending(&self) -> (r: Option<Command>)
        ensures
            match r {
                Some(cmd) => self@.pending() == Some(cmd@),
                None => self@.pending() is None,
            },
    {
        let id = self.subject();
        match self.stage {
            Stage::Begin => Some(Command::Begin),
            Stage::Commit => Some(Command::Commit),
            Stage::Rollback(_) => Some(Command::Rollback),
            Stage::Insert => match &self.op {
                Operation::Create(spec) => Some(Command::Create(spec.as_draft())),
                _ => None,
            },
            Stage::Overwrite => match &self.op {
                Operation::Update(_, spec) => Some(Command::Update(id, spec.duplicate())),
                _ => None,
            },
            Stage::Categories => match &self.op {
                Operation::Create(spec) => Some(Command::ReplaceCategories(id, spec.categories())),
                Operation::Update(_, spec) => Some(
                    Command::ReplaceCategories(id, spec.categories()),
                ),
                _ => None,
            },
            Stage::Tags => match &self.op {
                Operation::Create(spec) => Some(Command::ReplaceTags(id, spec.tags())),
                Operation::Update(_, spec) => Some(Command::ReplaceTags(id, spec.tags())),
                _ => None,
            },
            Stage::Links => Some(Command::DeleteAllLinks(id)),
            Stage::Notifications => Some(Command::DeleteNotifications(id)),
            Stage::Remove => Some(Command::Delete(id)),
            Stage::Draft => match &self.op {
                Operation::SaveDraft(_) => Some(Command::SetDraftFlag(id, true)),
                _ => Some(Command::SetDraftFlag(id, false)),
            },
            Stage::Reset => Some(
                Command::SetVerificationStatus(id, VerificationStatus::Unverified),
            ),
            Stage::Read => Some(Command::Get(id)),
            Stage::CountCategories => Some(Command::CountCategories(id)),
            Stage::CountTags => Some(Command::CountTags(id)),
            Stage::Record(status) => Some(Command::SetVerificationStatus(id, status)),
            Stage::Notify(status) => match &self.product {
                Some(p) => Some(Command::Notify(p.vendor_id, id, message_for(status))),
                None => None,
            },
            Stage::Done | Stage::Submitted(_) | Stage::Failed(_) => None,
        }
    }

    fn failure(reply: &Reply) -> (r: Option<Error>)
        ensures
            r == MachineView::failure(reply@),
    {
        match reply {
            Reply::Done => None,
            Reply::Failed(e) => Some(*e),
            _ => Some(Error::StoreError),
        }
    }

    fn at(self, stage: Stage) -> (m: Machine)
        ensures
            m@ == self@.at(stage),
    {
        Machine { stage, ..self }
    }

    fn next(&self) -> (stage: Stage)
        ensures
            stage == self@.next(),
    {
        match self.stage {
            Stage::Begin => match &self.op {
                Operation::Create(_) => Stage::Insert,
                Operation::Update(_, _) => Stage::Overwrite,
                Operation::Delete(_) => Stage::Links,
                Operation::SaveDraft(_) => Stage::Draft,
                Operation::Submit(_) => Stage::Draft,
                Operation::Verify(_) => Stage::Read,
            },
            Stage::Categories => Stage::Tags,
            Stage::Tags => Stage::Commit,
            Stage::Links => Stage::Notifications,
            Stage::Notifications => Stage::Remove,
            Stage::Remove => Stage::Commit,
            Stage::Draft => match &self.op {
                Operation::SaveDraft(_) => Stage::Done,
                _ => Stage::Reset,
            },
            Stage::Reset => Stage::Commit,
            Stage::Commit => match &self.op {
                Operation::Submit(_) => Stage::Read,
                _ => Stage::Done,
            },
            _ => Stage::Failed(Error::StoreError),
        }
    }

    /// The machine after the store has answered the pending statement.
    pub fn advance(self, reply: Reply) -> (m: Machine)
        ensures
            m@ == self@.advance(reply@),
            self@.wf() ==> m@.wf(),
    {
        match self.stage {
            Stage::Begin | Stage::Commit => match Self::failure(&reply) {
                None => {
                    let stage = self.next();
                    self.at(stage)
                },
                Some(e) => self.at(Stage::Failed(e)),
            },
            Stage::Draft => match Self::failure(&reply) {
                None => {
                    let stage = self.next();
                    self.at(stage)
                },
                Some(e) => match &self.op {
                    Operation::SaveDraft(_) => self.at(Stage::Failed(e)),
                    _ => self.at(Stage::Rollback(e)),
                },
            },
            Stage::Insert | Stage::Overwrite => match reply {
                Reply::Product(p) => Machine { stage: Stage::Categories, product: Some(p), ..self },
                Reply::Failed(e) => self.at(Stage::Rollback(e)),
                _ => self.at(Stage::Rollback(Error::StoreError)),
            },
            Stage::Categories | Stage::Tags | Stage::Links | Stage::Notifications | Stage::Remove
            | Stage::Reset => match Self::failure(&reply) {
                None => {
                    let stage = self.next();
                    self.at(stage)
                },
                Some(e) => self.at(Stage::Rollback(e)),
            },
            Stage::Rollback(e) => self.at(Stage::Failed(e)),
            Stage::Read => match reply {
                Reply::Product(p) => Machine {
                    stage: Stage::CountCategories,
                    product: Some(p),
                    ..self
                },
                _ => self.at(Stage::Submitted(Evaluation::Abandoned)),
            },
            Stage::CountCategories => match reply {
                Reply::Count(n) => Machine { stage: Stage::CountTags, category_count: n, ..self },
                _ => self.at(Stage::Submitted(Evaluation::Abandoned)),
            },
            Stage::CountTags => {
                let verdict = match (&reply, &self.product) {
                    (Reply::Count(n), Some(p)) => Some(
                        evaluate(
                            p.name.as_str(),
                            p.description.as_str(),
                            p.image_url.as_str(),
                            p.price,
                            self.category_count,
                            *n,
                        ).status,
                    ),
                    _ => None,
                };
                match verdict {
                    Some(status) => self.at(Stage::Record(status)),
                    None => self.at(Stage::Submitted(Evaluation::Abandoned)),
                }
            },
            Stage::Record(status) => match reply {
                Reply::Done => self.at(Stage::Notify(status)),
                _ => self.at(Stage::Submitted(Evaluation::Abandoned)),
            },
            Stage::Notify(status) => match reply {
                Reply::Done => self.at(Stage::Submitted(Evaluation::Notified(status))),
                _ => self.at(Stage::Submitted(Evaluation::Recorded(status))),
            },
            Stage::Done | Stage::Submitted(_) | Stage::Failed(_) => self,
        }
    }

    /// How the operation ended.
    pub fn outcome(self) -> (r: Outcome)
        ensures
            r@ == self@.outcome(),
    {
        match self.stage {
            Stage::Done => match (self.op, self.product) {
                (Operation::Create(_), Some(p)) => Outcome::Created(p),
                (Operation::Update(_, _), Some(p)) => Outcome::Updated(p),
                (Operation::Delete(_), _) => Outcome::Deleted,
                (Operation::SaveDraft(_), _) => Outcome::DraftSaved,
                _ => Outcome::Failed(Error::StoreError),
            },
            Stage::Submitted(evaluation) => match self.op {
                Operation::Verify(_) => Outcome::Evaluated(evaluation),
                _ => Outcome::Submitted(evaluation),
            },
            Stage::Failed(e) => Outcome::Failed(e),
            _ => Outcome::Failed(Error::StoreError),
        }
    }
}

} // verus!
