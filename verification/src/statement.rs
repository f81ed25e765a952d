//! The statements that a store carries out and what it answers.
//!
//! A lifecycle operation is a sequence of statements. The same statements
//! are carried out by the store in memory of this library and by whatever
//! database a server is built on.

use crate::model::{Error, NewProduct, NewProductView, Product, ProductView, VerificationStatus};
use vstd::prelude::*;

verus! {

/// One statement for the store.
#[derive(Clone, Debug, PartialEq, Eq)]
pub enum Command {
    /// Opens a transaction.
    Begin,
    /// Makes the changes of the open transaction durable.
    Commit,
    /// Undoes the changes of the open transaction.
    Rollback,
    /// Inserts a product row; answered with the row.
    Create(NewProduct),
    /// Overwrites the fields of a product that a specification sets;
    /// answered with the row.
    Update(u128, NewProduct),
    /// Reads a product row.
    Get(u128),
    /// Removes a product row.
    Delete(u128),
    SetDraftFlag(u128, bool),
    SetVerificationStatus(u128, VerificationStatus),
    /// Makes the given categories the categories of a product.
    ReplaceCategories(u128, Vec<u128>),
    /// Makes the given tags the tags of a product.
    ReplaceTags(u128, Vec<u128>),
    /// Removes every category and tag link of a product.
    DeleteAllLinks(u128),
    /// Removes every notification about a product.
    DeleteNotifications(u128),
    /// Counts the categories of a product.
    CountCategories(u128),
    /// Counts the tags of a product.
    CountTags(u128),
    /// Records a message to a vendor about a product.
    Notify(u128, u128, String),
}

/// A statement with its texts and lists as sequences.
pub enum CommandView {
    Begin,
    Commit,
    Rollback,
    Create(NewProductView),
    Update(u128, NewProductView),
    Get(u128),
    Delete(u128),
    SetDraftFlag(u128, bool),
    SetVerificationStatus(u128, VerificationStatus),
    ReplaceCategories(u128, Seq<u128>),
    ReplaceTags(u128, Seq<u128>),
    DeleteAllLinks(u128),
    DeleteNotifications(u128),
    CountCategories(u128),
    CountTags(u128),
    Notify(u128, u128, Seq<char>),
}

impl View for Command {
    type V = CommandView;

    open spec fn view(&self) -> CommandView {
        match *self {
            Command::Begin => CommandView::Begin,
            Command::Commit => CommandView::Commit,
            Command::Rollback => CommandView::Rollback,
            Command::Create(spec) => CommandView::Create(spec@),
            Command::Update(id, spec) => CommandView::Update(id, spec@),
            Command::Get(id) => CommandView::Get(id),
            Command::Delete(id) => CommandView::Delete(id),
            Command::SetDraftFlag(id, flag) => CommandView::SetDraftFlag(id, flag),
            Command::SetVerificationStatus(id, status) => CommandView::SetVerificationStatus(
                id,
                status,
            ),
            Command::ReplaceCategories(id, ids) => CommandView::ReplaceCategories(id, ids@),
            Command::ReplaceTags(id, ids) => CommandView::ReplaceTags(id, ids@),
            Command::DeleteAllLinks(id) => CommandView::DeleteAllLinks(id),
            Command::DeleteNotifications(id) => CommandView::DeleteNotifications(id),
            Command::CountCategories(id) => CommandView::CountCategories(id),
            Command::CountTags(id) => CommandView::CountTags(id),
            Command::Notify(vendor, product, message) => CommandView::Notify(
                vendor,
                product,
                message@,
            ),
        }
    }
}

/// What the store answers to a statement.
#[derive(Clone, Debug, PartialEq, Eq)]
pub enum Reply {
    /// The statement was carried out.
    Done,
    /// The statement was carried out; this is the row it wrote or read.
    Product(Product),
    /// The statement was carried out; this is what it counted.
    Count(u64),
    /// The statement changed nothing.
    Failed(Error),
}

/// An answer with its row seen as a product view and its count as a
/// natural number.
pub enum ReplyView {
    Done,
    Product(ProductView),
    Count(nat),
    Failed(Error),
}

impl View for Reply {
    type V = ReplyView;

    open spec fn view(&self) -> ReplyView {
        match *self {
            Reply::Done => ReplyView::Done,
            Reply::Product(product) => ReplyView::Product(product@),
            Reply::Count(n) => ReplyView::Count(n as nat),
            Reply::Failed(error) => ReplyView::Failed(error),
        }
    }
}

impl Reply {
    /// The answer of a store that reports how many rows a statement on one
    /// product changed: none means that the product does not exist.
    pub fn from_rows_affected(rows: u64) -> (r: Reply)
        ensures
            r@ == (if rows == 0 {
                ReplyView::Failed(Error::NotFound)
            } else {
                ReplyView::Done
            }),
    {
        if rows == 0 {
            Reply::Failed(Error::NotFound)
        } else {
            Reply::Done
        }
    }

    /// The answer of a store that hands out the row of a statement on one
    /// product, if there is one: none means that the product does not
    /// exist.
    pub fn from_row(row: Option<Product>) -> (r: Reply)
        ensures
            r@ == (match row {
                Some(product) => ReplyView::Product(product@),
                None => ReplyView::Failed(Error::NotFound),
            }),
    {
        match row {
            Some(product) => Reply::Product(product),
            None => Reply::Failed(Error::NotFound),
        }
    }
}

} // verus!
