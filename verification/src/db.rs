//! The store as a mathematical object: its tables, what each statement does
//! to them, and what it answers.
//!
//! Products and notifications are maps from identifier to row, links are
//! sets of pairs, and the reference data (categories and tags) are lists.
//! A store has at most one open transaction, whose start is remembered so
//! that a rollback can go back to it.

use crate::model::{
    is_price, CategoryView, Error, NewProductView, NotificationView, ProductCategory, ProductTag,
    ProductView, TagView, VerificationStatus,
};
use crate::statement::{CommandView, ReplyView};
use vstd::prelude::*;

verus! {

/// The tables.
pub struct Db {
    pub products: Map<u128, ProductView>,
    pub categories: Seq<CategoryView>,
    pub tags: Seq<TagView>,
    pub product_categories: Set<ProductCategory>,
    pub product_tags: Set<ProductTag>,
    pub notifications: Map<u128, NotificationView>,
    /// The identifier that the next new row gets.
    pub next_id: u128,
    /// The time that the next write is stamped with.
    pub clock: u64,
}

/// The clock after a write: one tick later, unless it has reached its end.
pub open spec fn tick(clock: u64) -> u64 {
    if clock < u64::MAX {
        (clock + 1) as u64
    } else {
        clock
    }
}

/// A product row meets the requirements of a product specification.
pub open spec fn row_is_valid(p: ProductView) -> bool {
    &&& p.name.len() > 0
    &&& p.description.len() > 0
    &&& p.image_url.len() > 0
    &&& is_price(p.price)
}

/// The row that a specification gives a new product.
pub open spec fn new_row(spec: NewProductView, id: u128, now: u64) -> ProductView {
    ProductView {
        id,
        vendor_id: spec.vendor_id,
        name: spec.name,
        description: spec.description,
        price: spec.price,
        image_url: spec.image_url,
        is_draft: spec.is_draft,
        verification: VerificationStatus::Unverified,
        created_at: now,
        updated_at: now,
    }
}

/// The row of a product after a specification has overwritten it:
/// identifier, verification status and time of creation stay.
pub open spec fn overwritten_row(old: ProductView, spec: NewProductView, now: u64) -> ProductView {
    ProductView {
        vendor_id: spec.vendor_id,
        name: spec.name,
        description: spec.description,
        price: spec.price,
        image_url: spec.image_url,
        is_draft: spec.is_draft,
        updated_at: now,
        ..old
    }
}

impl Db {
    /// No rows at all.
    pub open spec fn empty() -> Db {
        Db {
            products: Map::empty(),
            categories: Seq::empty(),
            tags: Seq::empty(),
            product_categories: Set::empty(),
            product_tags: Set::empty(),
            notifications: Map::empty(),
            next_id: 1,
            clock: 0,
        }
    }

    /// Some category has this identifier.
    pub open spec fn has_category(self, id: u128) -> bool {
        exists|i: int| 0 <= i < self.categories.len() && (#[trigger] self.categories[i]).id == id
    }

    /// Some tag has this identifier.
    pub open spec fn has_tag(self, id: u128) -> bool {
        exists|i: int| 0 <= i < self.tags.len() && (#[trigger] self.tags[i]).id == id
    }

    /// The categories that a product is linked to.
    pub open spec fn categories_of(self, product: u128) -> Set<u128> {
        Set::new(
            |c: u128|
                self.product_categories.contains(
                    ProductCategory { product_id: product, category_id: c },
                ),
        )
    }

    /// The tags that a product is linked to.
    pub open spec fn tags_of(self, product: u128) -> Set<u128> {
        Set::new(|t: u128| self.product_tags.contains(ProductTag { product_id: product, tag_id: t }))
    }

    /// Some link or notification refers to the product.
    pub open spec fn referenced(self, product: u128) -> bool {
        ||| exists|l: ProductCategory| #[trigger]
            self.product_categories.contains(l) && l.product_id == product
        ||| exists|l: ProductTag| #[trigger] self.product_tags.contains(l) && l.product_id == product
        ||| exists|id: u128| #[trigger]
            self.notifications.contains_key(id) && self.notifications[id].product_id == product
    }

    /// Product rows are filed under their identifier, which was handed out
    /// before, and are valid. A row was created no later than it was last
    /// updated, and that was no later than the clock shows.
    pub open spec fn products_wf(self) -> bool {
        &&& self.products.dom().finite()
        &&& forall|id: u128| #[trigger]
            self.products.contains_key(id) ==> {
                &&& self.products[id].id == id
                &&& id < self.next_id
                &&& row_is_valid(self.products[id])
                &&& self.products[id].created_at <= self.products[id].updated_at <= self.clock
            }
    }

    /// Every category link joins a product and a category that exist.
    pub open spec fn category_links_wf(self) -> bool {
        &&& self.product_categories.finite()
        &&& forall|l: ProductCategory| #[trigger]
            self.product_categories.contains(l) ==> self.products.contains_key(l.product_id)
                && self.has_category(l.category_id)
    }

    /// Every tag link joins a product and a tag that exist.
    pub open spec fn tag_links_wf(self) -> bool {
        &&& self.product_tags.finite()
        &&& forall|l: ProductTag| #[trigger]
            self.product_tags.contains(l) ==> self.products.contains_key(l.product_id)
                && self.has_tag(l.tag_id)
    }

    /// Every link joins a product and a category or tag that exist.
    pub open spec fn links_wf(self) -> bool {
        &&& self.category_links_wf()
        &&& self.tag_links_wf()
    }

    /// Notifications are filed under their identifier, which was handed out
    /// before, are about products that exist, and a later one has the higher
    /// identifier.
    pub open spec fn notifications_wf(self) -> bool {
        &&& self.notifications.dom().finite()
        &&& forall|id: u128| #[trigger]
            self.notifications.contains_key(id) ==> {
                &&& self.notifications[id].id == id
                &&& id < self.next_id
                &&& self.products.contains_key(self.notifications[id].product_id)
                &&& self.notifications[id].created_at <= self.clock
            }
        &&& forall|a: u128, b: u128|
            #![trigger self.notifications[a], self.notifications[b]]
            self.notifications.contains_key(a) && self.notifications.contains_key(b) && a < b
                ==> self.notifications[a].created_at <= self.notifications[b].created_at
    }

    /// No two categories share an identifier or a name, and no two tags.
    pub open spec fn reference_data_wf(self) -> bool {
        &&& forall|i: int, j: int|
            #![trigger self.categories[i], self.categories[j]]
            0 <= i < j < self.categories.len() ==> self.categories[i].id != self.categories[j].id
                && self.categories[i].name != self.categories[j].name
        &&& forall|i: int, j: int|
            #![trigger self.tags[i], self.tags[j]]
            0 <= i < j < self.tags.len() ==> self.tags[i].id != self.tags[j].id && self.tags[i].name
                != self.tags[j].name
    }

    /// The tables are consistent.
    pub open spec fn wf(self) -> bool {
        &&& self.products_wf()
        &&& self.links_wf()
        &&& self.notifications_wf()
        &&& self.reference_data_wf()
    }

    /// The tables with `row` filed under its identifier and the clock one
    /// tick later.
    pub open spec fn with_product(self, row: ProductView) -> Db {
        Db { products: self.products.insert(row.id, row), clock: tick(self.clock), ..self }
    }

    /// Inserting a product. A specification that is not valid is turned
    /// down. Otherwise the product gets the next identifier, no
    /// verification status, and the time of the clock as its time of
    /// creation and of its last update; the answer is its row. The store
    /// fails when it has no identifier left.
    pub open spec fn create(self, spec: NewProductView) -> (Db, ReplyView) {
        match spec.defect() {
            Some(d) => (self, ReplyView::Failed(Error::ValidationError(d))),
            None => if self.next_id == u128::MAX {
                (self, ReplyView::Failed(Error::StoreError))
            } else {
                let row = new_row(spec, self.next_id, self.clock);
                (
                    Db { next_id: (self.next_id + 1) as u128, ..self.with_product(row) },
                    ReplyView::Product(row),
                )
            },
        }
    }

    /// Overwriting a product. A specification that is not valid is turned
    /// down, and so is one for a product that does not exist. Otherwise
    /// the fields that the specification sets are overwritten and the time
    /// of the last update is refreshed; the answer is the row.
    pub open spec fn update(self, id: u128, spec: NewProductView) -> (Db, ReplyView) {
        match spec.defect() {
            Some(d) => (self, ReplyView::Failed(Error::ValidationError(d))),
            None => if !self.products.contains_key(id) {
                (self, ReplyView::Failed(Error::NotFound))
            } else {
                let row = overwritten_row(self.products[id], spec, self.clock);
                (self.with_product(row), ReplyView::Product(row))
            },
        }
    }

    /// Reading a product: its row, if it exists.
    pub open spec fn get(self, id: u128) -> (Db, ReplyView) {
        if self.products.contains_key(id) {
            (self, ReplyView::Product(self.products[id]))
        } else {
            (self, ReplyView::Failed(Error::NotFound))
        }
    }

    /// Removing a product. The product must exist, and no link and no
    /// notification may refer to it: the store does not remove what refers
    /// to a product, and does not leave it dangling either.
    pub open spec fn delete(self, id: u128) -> (Db, ReplyView) {
        if !self.products.contains_key(id) {
            (self, ReplyView::Failed(Error::NotFound))
        } else if self.referenced(id) {
            (self, ReplyView::Failed(Error::ConstraintViolation))
        } else {
            (Db { products: self.products.remove(id), ..self }, ReplyView::Done)
        }
    }

    /// Setting the draft flag of a product that exists; the time of its
    /// last update is refreshed.
    pub open spec fn set_draft_flag(self, id: u128, flag: bool) -> (Db, ReplyView) {
        if !self.products.contains_key(id) {
            (self, ReplyView::Failed(Error::NotFound))
        } else {
            let row = ProductView { is_draft: flag, updated_at: self.clock, ..self.products[id] };
            (self.with_product(row), ReplyView::Done)
        }
    }

    /// Setting the verification status of a product that exists; the time
    /// of its last update is refreshed.
    pub open spec fn set_verification_status(self, id: u128, status: VerificationStatus) -> (
        Db,
        ReplyView,
    ) {
        if !self.products.contains_key(id) {
            (self, ReplyView::Failed(Error::NotFound))
        } else {
            let row = ProductView {
                verification: status,
                updated_at: self.clock,
                ..self.products[id]
            };
            (self.with_product(row), ReplyView::Done)
        }
    }

    /// The tables in which exactly `ids` are the categories of `product`;
    /// the links of other products stay.
    pub open spec fn with_categories(self, product: u128, ids: Seq<u128>) -> Db {
        Db {
            product_categories: Set::new(
                |l: ProductCategory|
                    if l.product_id == product {
                        ids.contains(l.category_id)
                    } else {
                        self.product_categories.contains(l)
                    },
            ),
            ..self
        }
    }

    /// The tables in which exactly `ids` are the tags of `product`; the
    /// links of other products stay.
    pub open spec fn with_tags(self, product: u128, ids: Seq<u128>) -> Db {
        Db {
            product_tags: Set::new(
                |l: ProductTag|
                    if l.product_id == product {
                        ids.contains(l.tag_id)
                    } else {
                        self.product_tags.contains(l)
                    },
            ),
            ..self
        }
    }

    /// Every one of `ids` is a category.
    pub open spec fn all_categories(self, ids: Seq<u128>) -> bool {
        forall|i: int| 0 <= i < ids.len() ==> self.has_category(#[trigger] ids[i])
    }

    /// Every one of `ids` is a tag.
    pub open spec fn all_tags(self, ids: Seq<u128>) -> bool {
        forall|i: int| 0 <= i < ids.len() ==> self.has_tag(#[trigger] ids[i])
    }

    /// Replacing the categories of a product: the links it had go, one
    /// link for each of `ids` comes, however often it is given. Nothing
    /// changes if the product or one of the categories does not exist.
    pub open spec fn replace_categories(self, product: u128, ids: Seq<u128>) -> (Db, ReplyView) {
        if !self.products.contains_key(product) || !self.all_categories(ids) {
            (self, ReplyView::Failed(Error::ConstraintViolation))
        } else {
            (self.with_categories(product, ids), ReplyView::Done)
        }
    }

    /// Replacing the tags of a product: the links it had go, one link for
    /// each of `ids` comes, however often it is given. Nothing changes if
    /// the product or one of the tags does not exist.
    pub open spec fn replace_tags(self, product: u128, ids: Seq<u128>) -> (Db, ReplyView) {
        if !self.products.contains_key(product) || !self.all_tags(ids) {
            (self, ReplyView::Failed(Error::ConstraintViolation))
        } else {
            (self.with_tags(product, ids), ReplyView::Done)
        }
    }

    /// The tables without the links of `product`.
    pub open spec fn without_links(self, product: u128) -> Db {
        Db {
            product_categories: self.product_categories.filter(
                |l: ProductCategory| l.product_id != product,
            ),
            product_tags: self.product_tags.filter(|l: ProductTag| l.product_id != product),
            ..self
        }
    }

    /// The tables without the notifications about `product`.
    pub open spec fn without_notifications(self, product: u128) -> Db {
        Db {
            notifications: self.notifications.remove_keys(
                Set::new(
                    |id: u128|
                        self.notifications.contains_key(id) && self.notifications[id].product_id
                            == product,
                ),
            ),
            ..self
        }
    }

    /// Recording a message to a vendor about a product that exists: one
    /// more notification, unread, with the next identifier and the time of
    /// the clock. The store fails when it has no identifier left.
    pub open spec fn notify(self, vendor: u128, product: u128, message: Seq<char>) -> (
        Db,
        ReplyView,
    ) {
        if !self.products.contains_key(product) {
            (self, ReplyView::Failed(Error::ConstraintViolation))
        } else if self.next_id == u128::MAX {
            (self, ReplyView::Failed(Error::StoreError))
        } else {
            let row = NotificationView {
                id: self.next_id,
                vendor_id: vendor,
                product_id: product,
                message,
                is_read: false,
                created_at: self.clock,
            };
            (
                Db {
                    notifications: self.notifications.insert(row.id, row),
                    next_id: (self.next_id + 1) as u128,
                    clock: tick(self.clock),
                    ..self
                },
                ReplyView::Done,
            )
        }
    }

    /// Some category has this name.
    pub open spec fn has_category_named(self, name: Seq<char>) -> bool {
        exists|i: int| 0 <= i < self.categories.len() && (#[trigger] self.categories[i]).name == name
    }

    /// Some tag has this name.
    pub open spec fn has_tag_named(self, name: Seq<char>) -> bool {
        exists|i: int| 0 <= i < self.tags.len() && (#[trigger] self.tags[i]).name == name
    }

    /// Adding a category: its identifier and its name must be new.
    pub open spec fn add_category(self, id: u128, name: Seq<char>) -> (Db, Option<Error>) {
        if self.has_category(id) || self.has_category_named(name) {
            (self, Some(Error::ConstraintViolation))
        } else {
            (
                Db {
                    categories: self.categories.push(
                        CategoryView { id, name, created_at: self.clock },
                    ),
                    clock: tick(self.clock),
                    ..self
                },
                None,
            )
        }
    }

    /// Adding a tag: its identifier and its name must be new.
    pub open spec fn add_tag(self, id: u128, name: Seq<char>) -> (Db, Option<Error>) {
        if self.has_tag(id) || self.has_tag_named(name) {
            (self, Some(Error::ConstraintViolation))
        } else {
            (
                Db {
                    tags: self.tags.push(TagView { id, name, created_at: self.clock }),
                    clock: tick(self.clock),
                    ..self
                },
                None,
            )
        }
    }

    /// Seeding a category: nothing happens if a category has the name
    /// already, else the category is added.
    pub open spec fn seed_category(self, id: u128, name: Seq<char>) -> (Db, Option<Error>) {
        if self.has_category_named(name) {
            (self, None)
        } else {
            self.add_category(id, name)
        }
    }

    /// Seeding a tag: nothing happens if a tag has the name already, else
    /// the tag is added.
    pub open spec fn seed_tag(self, id: u128, name: Seq<char>) -> (Db, Option<Error>) {
        if self.has_tag_named(name) {
            (self, None)
        } else {
            self.add_tag(id, name)
        }
    }

    /// Seeding categories one after the other, up to the first that cannot
    /// be added.
    pub open spec fn seed_categories(self, seeds: Seq<(u128, Seq<char>)>) -> (Db, Option<Error>)
        decreases seeds.len(),
    {
        if seeds.len() == 0 {
            (self, None)
        } else {
            let (before, failed) = self.seed_categories(seeds.drop_last());
            if failed is Some {
                (before, failed)
            } else {
                before.seed_category(seeds.last().0, seeds.last().1)
            }
        }
    }

    /// Seeding tags one after the other, up to the first that cannot be
    /// added.
    pub open spec fn seed_tags(self, seeds: Seq<(u128, Seq<char>)>) -> (Db, Option<Error>)
        decreases seeds.len(),
    {
        if seeds.len() == 0 {
            (self, None)
        } else {
            let (before, failed) = self.seed_tags(seeds.drop_last());
            if failed is Some {
                (before, failed)
            } else {
                before.seed_tag(seeds.last().0, seeds.last().1)
            }
        }
    }

    /// The notifications to a vendor.
    pub open spec fn notifications_of(self, vendor: u128) -> Set<u128> {
        Set::new(
            |id: u128|
                self.notifications.contains_key(id) && self.notifications[id].vendor_id == vendor,
        )
    }

    /// `rows` are the notifications to `vendor`, each once, the newest
    /// first.
    pub open spec fn lists_newest_first(self, vendor: u128, rows: Seq<NotificationView>) -> bool {
        &&& forall|i: int|
            0 <= i < rows.len() ==> self.notifications_of(vendor).contains(
                (#[trigger] rows[i]).id,
            ) && self.notifications[rows[i].id] == rows[i]
        &&& forall|id: u128| #[trigger]
            self.notifications_of(vendor).contains(id) ==> exists|i: int|
                0 <= i < rows.len() && (#[trigger] rows[i]).id == id
        &&& forall|i: int, j: int|
            0 <= i < j < rows.len() ==> (#[trigger] rows[i]).id > (#[trigger] rows[j]).id
                && rows[i].created_at >= rows[j].created_at
    }

    /// What a statement other than begin, commit and rollback does to the
    /// tables, and what is answered.
    pub open spec fn apply(self, cmd: CommandView) -> (Db, ReplyView) {
        match cmd {
            CommandView::Create(spec) => self.create(spec),
            CommandView::Update(id, spec) => self.update(id, spec),
            CommandView::Get(id) => self.get(id),
            CommandView::Delete(id) => self.delete(id),
            CommandView::SetDraftFlag(id, flag) => self.set_draft_flag(id, flag),
            CommandView::SetVerificationStatus(id, status) => self.set_verification_status(
                id,
                status,
            ),
            CommandView::ReplaceCategories(id, ids) => self.replace_categories(id, ids),
            CommandView::ReplaceTags(id, ids) => self.replace_tags(id, ids),
            CommandView::DeleteAllLinks(id) => (self.without_links(id), ReplyView::Done),
            CommandView::DeleteNotifications(id) => (
                self.without_notifications(id),
                ReplyView::Done,
            ),
            CommandView::CountCategories(id) => (
                self,
                ReplyView::Count(self.categories_of(id).len()),
            ),
            CommandView::CountTags(id) => (self, ReplyView::Count(self.tags_of(id).len())),
            CommandView::Notify(vendor, product, message) => self.notify(vendor, product, message),
            _ => (self, ReplyView::Done),
        }
    }
}

/// A store: the tables, the tables as they were when the open transaction
/// began, and the number of statements that succeed before one fails.
pub struct StoreState {
    pub db: Db,
    pub snapshot: Option<Db>,
    /// `Some(n)`: after `n` more statements one fails with
    /// [`Error::StoreError`], once. `None`: no failure is due.
    pub fuse: Option<nat>,
}

impl StoreState {
    /// The tables are consistent, and so are the ones that a rollback
    /// would go back to.
    pub open spec fn wf(self) -> bool {
        &&& self.db.wf()
        &&& self.snapshot matches Some(db) ==> db.wf()
    }

    /// A transaction is open.
    pub open spec fn in_transaction(self) -> bool {
        self.snapshot is Some
    }

    /// The next statement is the one that fails.
    pub open spec fn trips(self) -> bool {
        self.fuse == Some(0nat)
    }

    /// The fuse after a statement that it let through.
    pub open spec fn counted(self) -> StoreState {
        StoreState {
            fuse: match self.fuse {
                Some(n) => Some((n - 1) as nat),
                None => None,
            },
            ..self
        }
    }

    /// The tables as a rollback leaves them.
    pub open spec fn rolled_back(self) -> StoreState {
        match self.snapshot {
            Some(db) => StoreState { db, snapshot: None, ..self },
            None => self,
        }
    }

    /// What a statement does to the store, and what is answered.
    ///
    /// A rollback always succeeds and does not count. Of the others, the
    /// one at which the fuse ends fails and changes nothing, except that a
    /// failed commit gives up the transaction. A transaction cannot begin
    /// inside another one, and only an open one can be committed.
    pub open spec fn execute(self, cmd: CommandView) -> (StoreState, ReplyView) {
        match cmd {
            CommandView::Rollback => (self.rolled_back(), ReplyView::Done),
            _ => if self.trips() {
                let s = StoreState { fuse: None, ..self };
                (
                    if cmd is Commit {
                        s.rolled_back()
                    } else {
                        s
                    },
                    ReplyView::Failed(Error::StoreError),
                )
            } else {
                let s = self.counted();
                match cmd {
                    CommandView::Begin => if s.in_transaction() {
                        (s, ReplyView::Failed(Error::StoreError))
                    } else {
                        (StoreState { snapshot: Some(s.db), ..s }, ReplyView::Done)
                    },
                    CommandView::Commit => if s.in_transaction() {
                        (StoreState { snapshot: None, ..s }, ReplyView::Done)
                    } else {
                        (s, ReplyView::Failed(Error::StoreError))
                    },
                    _ => {
                        let (db, reply) = s.db.apply(cmd);
                        (StoreState { db, ..s }, reply)
                    },
                }
            },
        }
    }
}

impl Db {
    /// Category links stay in order in tables that have the same
    /// categories, none but links that were there, and the product of each.
    proof fn lemma_category_links_stay(self, after: Db)
        requires
            self.category_links_wf(),
            after.categories == self.categories,
            after.product_categories.subset_of(self.product_categories),
            forall|l: ProductCategory| #[trigger]
                after.product_categories.contains(l) ==> after.products.contains_key(l.product_id),
        ensures
            after.category_links_wf(),
    {
        vstd::set_lib::lemma_set_subset_finite(self.product_categories, after.product_categories);
        assert forall|l: ProductCategory| #[trigger]
            after.product_categories.contains(l) implies after.has_category(l.category_id) by {
            assert(self.product_categories.contains(l));
            assert(self.has_category(l.category_id));
        }
    }

    /// Tag links stay in order in tables that have the same tags, none but
    /// links that were there, and the product of each.
    proof fn lemma_tag_links_stay(self, after: Db)
        requires
            self.tag_links_wf(),
            after.tags == self.tags,
            after.product_tags.subset_of(self.product_tags),
            forall|l: ProductTag| #[trigger]
                after.product_tags.contains(l) ==> after.products.contains_key(l.product_id),
        ensures
            after.tag_links_wf(),
    {
        vstd::set_lib::lemma_set_subset_finite(self.product_tags, after.product_tags);
        assert forall|l: ProductTag| #[trigger] after.product_tags.contains(l) implies after.has_tag(
            l.tag_id,
        ) by {
            assert(self.product_tags.contains(l));
            assert(self.has_tag(l.tag_id));
        }
    }

    /// Links stay in order in tables that have the same reference data,
    /// none but links that were there, and the product of each.
    proof fn lemma_links_stay(self, after: Db)
        requires
            self.links_wf(),
            after.categories == self.categories,
            after.tags == self.tags,
            after.product_categories.subset_of(self.product_categories),
            after.product_tags.subset_of(self.product_tags),
            forall|l: ProductCategory| #[trigger]
                after.product_categories.contains(l) ==> after.products.contains_key(l.product_id),
            forall|l: ProductTag| #[trigger]
                after.product_tags.contains(l) ==> after.products.contains_key(l.product_id),
        ensures
            after.links_wf(),
    {
        self.lemma_category_links_stay(after);
        self.lemma_tag_links_stay(after);
    }

    proof fn lemma_with_product_wf(self, row: ProductView)
        requires
            self.wf(),
            row_is_valid(row),
            row.id < self.next_id,
            row.created_at <= row.updated_at <= self.clock,
        ensures
            self.with_product(row).wf(),
    {
        self.lemma_links_stay(self.with_product(row));
    }

    proof fn lemma_create_wf(self, spec: NewProductView)
        requires
            self.wf(),
        ensures
            self.create(spec).0.wf(),
    {
        if spec.defect() is None && self.next_id != u128::MAX {
            let row = new_row(spec, self.next_id, self.clock);
            let grown = Db { next_id: (self.next_id + 1) as u128, ..self };
            self.lemma_links_stay(grown);
            grown.lemma_with_product_wf(row);
            assert(self.create(spec).0 == grown.with_product(row));
        }
    }

    proof fn lemma_delete_wf(self, id: u128)
        requires
            self.wf(),
        ensures
            self.delete(id).0.wf(),
    {
        if self.products.contains_key(id) && !self.referenced(id) {
            let after = self.delete(id).0;
            self.lemma_links_stay(after);
            assert forall|n: u128| #[trigger] after.notifications.contains_key(n) implies {
                &&& after.notifications[n].id == n
                &&& n < after.next_id
                &&& after.products.contains_key(after.notifications[n].product_id)
                &&& after.notifications[n].created_at <= after.clock
            } by {
                assert(self.notifications.contains_key(n));
            }
        }
    }

    proof fn lemma_with_categories_wf(self, product: u128, ids: Seq<u128>)
        requires
            self.wf(),
            self.products.contains_key(product),
            self.all_categories(ids),
        ensures
            self.with_categories(product, ids).wf(),
    {
        let after = self.with_categories(product, ids);
        self.lemma_tag_links_stay(after);
        let made = ids.map_values(
            |c: u128| ProductCategory { product_id: product, category_id: c },
        );
        vstd::seq_lib::seq_to_set_is_finite(made);
        assert forall|l: ProductCategory| #[trigger]
            after.product_categories.contains(l) implies self.product_categories.union(
            made.to_set(),
        ).contains(l) && after.products.contains_key(l.product_id) && after.has_category(
            l.category_id,
        ) by {
            if l.product_id == product {
                let i = choose|i: int| 0 <= i < ids.len() && ids[i] == l.category_id;
                assert(made[i] == l);
                assert(made.contains(l));
                assert(self.has_category(ids[i]));
            } else {
                assert(self.has_category(l.category_id));
            }
            assert(after.categories == self.categories);
        }
        vstd::set_lib::lemma_set_subset_finite(
            self.product_categories.union(made.to_set()),
            after.product_categories,
        );
    }

    proof fn lemma_with_tags_wf(self, product: u128, ids: Seq<u128>)
        requires
            self.wf(),
            self.products.contains_key(product),
            self.all_tags(ids),
        ensures
            self.with_tags(product, ids).wf(),
    {
        let after = self.with_tags(product, ids);
        self.lemma_category_links_stay(after);
        let made = ids.map_values(|t: u128| ProductTag { product_id: product, tag_id: t });
        vstd::seq_lib::seq_to_set_is_finite(made);
        assert forall|l: ProductTag| #[trigger]
            after.product_tags.contains(l) implies self.product_tags.union(made.to_set()).contains(
            l,
        ) && after.products.contains_key(l.product_id) && after.has_tag(l.tag_id) by {
            if l.product_id == product {
                let i = choose|i: int| 0 <= i < ids.len() && ids[i] == l.tag_id;
                assert(made[i] == l);
                assert(made.contains(l));
                assert(self.has_tag(ids[i]));
            } else {
                assert(self.has_tag(l.tag_id));
            }
            assert(after.tags == self.tags);
        }
        vstd::set_lib::lemma_set_subset_finite(
            self.product_tags.union(made.to_set()),
            after.product_tags,
        );
    }

    proof fn lemma_without_links_wf(self, product: u128)
        requires
            self.wf(),
        ensures
            self.without_links(product).wf(),
    {
        self.lemma_links_stay(self.without_links(product));
    }

    proof fn lemma_without_notifications_wf(self, product: u128)
        requires
            self.wf(),
        ensures
            self.without_notifications(product).wf(),
    {
        let after = self.without_notifications(product);
        self.lemma_links_stay(after);
        vstd::set_lib::lemma_set_subset_finite(self.notifications.dom(), after.notifications.dom());
        assert forall|n: u128| #[trigger] after.notifications.contains_key(n) implies {
            &&& after.notifications[n].id == n
            &&& n < after.next_id
            &&& after.products.contains_key(after.notifications[n].product_id)
            &&& after.notifications[n].created_at <= after.clock
        } by {
            assert(self.notifications.contains_key(n));
        }
        assert forall|a: u128, b: u128|
            after.notifications.contains_key(a) && after.notifications.contains_key(b) && a
                < b implies (#[trigger] after.notifications[a]).created_at <= (
        #[trigger] after.notifications[b]).created_at by {
            assert(self.notifications.contains_key(a) && self.notifications.contains_key(b));
            assert(self.notifications[a].created_at <= self.notifications[b].created_at);
        }
    }

    proof fn lemma_notify_wf(self, vendor: u128, product: u128, message: Seq<char>)
        requires
            self.wf(),
        ensures
            self.notify(vendor, product, message).0.wf(),
    {
        if self.products.contains_key(product) && self.next_id != u128::MAX {
            let after = self.notify(vendor, product, message).0;
            self.lemma_links_stay(after);
            assert forall|n: u128| #[trigger] after.notifications.contains_key(n) implies {
                &&& after.notifications[n].id == n
                &&& n < after.next_id
                &&& after.products.contains_key(after.notifications[n].product_id)
                &&& after.notifications[n].created_at <= after.clock
            } by {
                if n != self.next_id {
                    assert(self.notifications.contains_key(n));
                }
            }
            assert forall|a: u128, b: u128|
                after.notifications.contains_key(a) && after.notifications.contains_key(b) && a
                    < b implies (#[trigger] after.notifications[a]).created_at <= (
            #[trigger] after.notifications[b]).created_at by {
                if b == self.next_id {
                    assert(self.notifications.contains_key(a));
                } else {
                    assert(self.notifications.contains_key(b));
                    assert(self.notifications.contains_key(a));
                    assert(self.notifications[a].created_at <= self.notifications[b].created_at);
                }
            }
        }
    }

    /// Adding a category leaves consistent tables consistent.
    pub proof fn lemma_add_category_wf(self, id: u128, name: Seq<char>)
        requires
            self.wf(),
        ensures
            self.add_category(id, name).0.wf(),
    {
        if !self.has_category(id) && !self.has_category_named(name) {
            let after = self.add_category(id, name).0;
            self.lemma_tag_links_stay(after);
            assert forall|l: ProductCategory| #[trigger]
                after.product_categories.contains(l) implies after.products.contains_key(
                l.product_id,
            ) && after.has_category(l.category_id) by {
                assert(self.has_category(l.category_id));
                let i = choose|i: int|
                    0 <= i < self.categories.len() && (#[trigger] self.categories[i]).id
                        == l.category_id;
                assert(after.categories[i].id == l.category_id);
            }
            assert forall|i: int, j: int| 0 <= i < j < after.categories.len() implies (
            #[trigger] after.categories[i]).id != (#[trigger] after.categories[j]).id
                && after.categories[i].name != after.categories[j].name by {
                if j < self.categories.len() {
                    assert(self.categories[i].id != self.categories[j].id);
                } else {
                    assert(self.categories[i].id != id);
                    assert(self.categories[i].name != name);
                }
            }
        }
    }

    /// Adding a tag leaves consistent tables consistent.
    pub proof fn lemma_add_tag_wf(self, id: u128, name: Seq<char>)
        requires
            self.wf(),
        ensures
            self.add_tag(id, name).0.wf(),
    {
        if !self.has_tag(id) && !self.has_tag_named(name) {
            let after = self.add_tag(id, name).0;
            self.lemma_category_links_stay(after);
            assert forall|l: ProductTag| #[trigger]
                after.product_tags.contains(l) implies after.products.contains_key(l.product_id)
                && after.has_tag(l.tag_id) by {
                assert(self.has_tag(l.tag_id));
                let i = choose|i: int|
                    0 <= i < self.tags.len() && (#[trigger] self.tags[i]).id == l.tag_id;
                assert(after.tags[i].id == l.tag_id);
            }
            assert forall|i: int, j: int| 0 <= i < j < after.tags.len() implies (
            #[trigger] after.tags[i]).id != (#[trigger] after.tags[j]).id && after.tags[i].name
                != after.tags[j].name by {
                if j < self.tags.len() {
                    assert(self.tags[i].id != self.tags[j].id);
                } else {
                    assert(self.tags[i].id != id);
                    assert(self.tags[i].name != name);
                }
            }
        }
    }

    /// A statement leaves consistent tables consistent.
    pub proof fn lemma_apply_wf(self, cmd: CommandView)
        requires
            self.wf(),
        ensures
            self.apply(cmd).0.wf(),
    {
        match cmd {
            CommandView::Create(spec) => self.lemma_create_wf(spec),
            CommandView::Update(id, spec) => {
                if spec.defect() is None && self.products.contains_key(id) {
                    self.lemma_with_product_wf(
                        overwritten_row(self.products[id], spec, self.clock),
                    );
                }
            },
            CommandView::Delete(id) => self.lemma_delete_wf(id),
            CommandView::SetDraftFlag(id, flag) => {
                if self.products.contains_key(id) {
                    self.lemma_with_product_wf(
                        ProductView { is_draft: flag, updated_at: self.clock, ..self.products[id] },
                    );
                }
            },
            CommandView::SetVerificationStatus(id, status) => {
                if self.products.contains_key(id) {
                    self.lemma_with_product_wf(
                        ProductView {
                            verification: status,
                            updated_at: self.clock,
                            ..self.products[id]
                        },
                    );
                }
            },
            CommandView::ReplaceCategories(id, ids) => {
                if self.products.contains_key(id) && self.all_categories(ids) {
                    self.lemma_with_categories_wf(id, ids);
                }
            },
            CommandView::ReplaceTags(id, ids) => {
                if self.products.contains_key(id) && self.all_tags(ids) {
                    self.lemma_with_tags_wf(id, ids);
                }
            },
            CommandView::DeleteAllLinks(id) => self.lemma_without_links_wf(id),
            CommandView::DeleteNotifications(id) => self.lemma_without_notifications_wf(id),
            CommandView::Notify(vendor, product, message) => self.lemma_notify_wf(
                vendor,
                product,
                message,
            ),
            _ => {},
        }
    }
}

impl StoreState {
    /// A statement leaves a consistent store consistent.
    pub proof fn lemma_execute_wf(self, cmd: CommandView)
        requires
            self.wf(),
        ensures
            self.execute(cmd).0.wf(),
    {
        self.counted().db.lemma_apply_wf(cmd);
    }
}

} // verus!
