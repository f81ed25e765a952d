//! A store in memory.
//!
//! It carries out the statements of the lifecycle on vectors of rows, with
//! one transaction at a time, and can be told to fail a statement so that
//! the paths taken after a failure can be exercised.

use crate::db::{new_row, overwritten_row, tick, Db, StoreState};
use crate::links;
use crate::model::{
    Category, CategoryView, Error, NewProduct, Notification, NotificationView, Product,
    ProductCategory, ProductTag, ProductView, Tag, TagView, VerificationStatus,
};
use crate::statement::{Command, CommandView, Reply, ReplyView};
use crate::table::{
    increasing, index_of, lemma_table_at, lemma_table_key, lemma_table_push, lemma_table_remove,
    lemma_table_update, table,
};
use vstd::prelude::*;

verus! {

/// The identifiers of the rows, in their order.
pub open spec fn product_ids(rows: Seq<Product>) -> Seq<u128> {
    rows.map_values(|p: Product| p.id)
}

/// The views of the rows, in their order.
pub open spec fn product_views(rows: Seq<Product>) -> Seq<ProductView> {
    rows.map_values(|p: Product| p@)
}

/// The identifiers of the rows, in their order.
pub open spec fn notification_ids(rows: Seq<Notification>) -> Seq<u128> {
    rows.map_values(|n: Notification| n.id)
}

/// The views of the rows, in their order.
pub open spec fn notification_views(rows: Seq<Notification>) -> Seq<NotificationView> {
    rows.map_values(|n: Notification| n@)
}

/// The views of the rows, in their order.
pub open spec fn category_views(rows: Seq<Category>) -> Seq<CategoryView> {
    rows.map_values(|c: Category| c@)
}

/// The views of the rows, in their order.
pub open spec fn tag_views(rows: Seq<Tag>) -> Seq<TagView> {
    rows.map_values(|t: Tag| t@)
}

/// The rows of a store. Products and notifications stand in the order of
/// their identifiers; no link occurs twice.
struct Tables {
    products: Vec<Product>,
    categories: Vec<Category>,
    tags: Vec<Tag>,
    category_links: Vec<(u128, u128)>,
    tag_links: Vec<(u128, u128)>,
    notifications: Vec<Notification>,
    next_id: u128,
    clock: u64,
}

impl Tables {
    spec fn view(&self) -> Db {
        Db {
            products: table(product_ids(self.products@), product_views(self.products@)),
            categories: category_views(self.categories@),
            tags: tag_views(self.tags@),
            product_categories: Set::new(
                |l: ProductCategory| self.category_links@.contains((l.product_id, l.category_id)),
            ),
            product_tags: Set::new(
                |l: ProductTag| self.tag_links@.contains((l.product_id, l.tag_id)),
            ),
            notifications: table(
                notification_ids(self.notifications@),
                notification_views(self.notifications@),
            ),
            next_id: self.next_id,
            clock: self.clock,
        }
    }

    /// The vectors are laid out as the functions on them expect.
    spec fn laid_out(&self) -> bool {
        &&& increasing(product_ids(self.products@))
        &&& increasing(notification_ids(self.notifications@))
        &&& self.category_links@.no_duplicates()
        &&& self.tag_links@.no_duplicates()
    }

    spec fn wf(&self) -> bool {
        &&& self.laid_out()
        &&& self@.wf()
    }

    fn new() -> (r: Tables)
        ensures
            r.wf(),
            r@ == Db::empty(),
    {
        let r = Tables {
            products: Vec::new(),
            categories: Vec::new(),
            tags: Vec::new(),
            category_links: Vec::new(),
            tag_links: Vec::new(),
            notifications: Vec::new(),
            next_id: 1,
            clock: 0,
        };
        proof {
            assert(r@.products =~= Map::empty());
            assert(r@.notifications =~= Map::empty());
            assert(r@.product_categories =~= Set::empty());
            assert(r@.product_tags =~= Set::empty());
            assert(r@.categories =~= Seq::empty());
            assert(r@.tags =~= Seq::empty());
        }
        r
    }

    /// The place of a product.
    fn find_product(&self, id: u128) -> (r: Option<usize>)
        requires
            self.laid_out(),
        ensures
            match r {
                Some(i) => {
                    &&& i < self.products.len()
                    &&& self.products[i as int].id == id
                    &&& self@.products.contains_key(id)
                    &&& self@.products[id] == self.products[i as int]@
                },
                None => !self@.products.contains_key(id),
            },
    {
        let ghost ids = product_ids(self.products@);
        let ghost views = product_views(self.products@);
        let mut i: usize = 0;
        while i < self.products.len()
            invariant
                i <= self.products.len(),
                self.laid_out(),
                ids == product_ids(self.products@),
                views == product_views(self.products@),
                forall|j: int| 0 <= j < i ==> self.products[j].id != id,
            decreases self.products.len() - i,
        {
            if self.products[i].id == id {
                proof {
                    lemma_table_at(ids, views, i as int);
                }
                return Some(i);
            }
            i += 1;
        }
        proof {
            if self@.products.contains_key(id) {
                lemma_table_key(ids, views, id);
                assert(self.products[index_of(ids, id)].id == id);
            }
        }
        None
    }

    fn now_and_tick(&mut self) -> (now: u64)
        ensures
            now == old(self).clock,
            *final(self) == (Tables { clock: tick(old(self).clock), ..*old(self) }),
    {
        let now = self.clock;
        if self.clock < u64::MAX {
            self.clock = self.clock + 1;
        }
        now
    }

    /// Writes `row` over the product at place `i`, which has the same
    /// identifier.
    fn put(&mut self, i: usize, row: Product)
        requires
            old(self).laid_out(),
            i < old(self).products.len(),
            old(self).products[i as int].id == row.id,
        ensures
            final(self).laid_out(),
            final(self)@ == old(self)@.with_product(row@),
    {
        let ghost ids = product_ids(self.products@);
        let ghost views = product_views(self.products@);
        self.products.set(i, row);
        self.now_and_tick();
        proof {
            assert(product_ids(self.products@) =~= ids);
            assert(product_views(self.products@) =~= views.update(i as int, row@));
            lemma_table_update(ids, views, i as int, row@);
        }
    }

    fn create(&mut self, spec: NewProduct) -> (r: Reply)
        requires
            old(self).laid_out(),
            old(self)@.products_wf(),
        ensures
            final(self).laid_out(),
            (final(self)@, r@) == old(self)@.create(spec@),
    {
        match spec.validate() {
            Err(d) => {
                return Reply::Failed(Error::ValidationError(d));
            },
            Ok(()) => {},
        }
        if self.next_id == u128::MAX {
            return Reply::Failed(Error::StoreError);
        }
        let row = Product {
            id: self.next_id,
            vendor_id: spec.vendor_id,
            name: spec.name,
            description: spec.description,
            price: spec.price,
            image_url: spec.image_url,
            is_draft: spec.is_draft,
            verification: VerificationStatus::Unverified,
            created_at: self.clock,
            updated_at: self.clock,
        };
        let answer = row.duplicate();
        let ghost ids = product_ids(self.products@);
        let ghost views = product_views(self.products@);
        proof {
            assert forall|i: int| 0 <= i < ids.len() implies ids[i] < row.id by {
                lemma_table_at(ids, views, i);
            }
            lemma_table_push(ids, views, row.id, row@);
        }
        self.products.push(row);
        self.next_id = self.next_id + 1;
        self.now_and_tick();
        proof {
            assert(product_ids(self.products@) =~= ids.push(row.id));
            assert(product_views(self.products@) =~= views.push(row@));
            assert(row@ == new_row(spec@, old(self).next_id, old(self).clock));
        }
        Reply::Product(answer)
    }

    fn update(&mut self, id: u128, spec: NewProduct) -> (r: Reply)
        requires
            old(self).laid_out(),
        ensures
            final(self).laid_out(),
            (final(self)@, r@) == old(self)@.update(id, spec@),
    {
        match spec.validate() {
            Err(d) => {
                return Reply::Failed(Error::ValidationError(d));
            },
            Ok(()) => {},
        }
        match self.find_product(id) {
            None => Reply::Failed(Error::NotFound),
            Some(i) => {
                let row = Product {
                    id,
                    vendor_id: spec.vendor_id,
                    name: spec.name,
                    description: spec.description,
                    price: spec.price,
                    image_url: spec.image_url,
                    is_draft: spec.is_draft,
                    verification: self.products[i].verification,
                    created_at: self.products[i].created_at,
                    updated_at: self.clock,
                };
                let answer = row.duplicate();
                proof {
                    assert(row@ == overwritten_row(old(self)@.products[id], spec@, self.clock));
                }
                self.put(i, row);
                Reply::Product(answer)
            },
        }
    }

    fn get(&self, id: u128) -> (r: Reply)
        requires
            self.laid_out(),
        ensures
            (self@, r@) == self@.get(id),
    {
        match self.find_product(id) {
            None => Reply::Failed(Error::NotFound),
            Some(i) => Reply::Product(self.products[i].duplicate()),
        }
    }

    fn set_draft_flag(&mut self, id: u128, flag: bool) -> (r: Reply)
        requires
            old(self).laid_out(),
        ensures
            final(self).laid_out(),
            (final(self)@, r@) == old(self)@.set_draft_flag(id, flag),
    {
        match self.find_product(id) {
            None => Reply::Failed(Error::NotFound),
            Some(i) => {
                let mut row = self.products[i].duplicate();
                row.is_draft = flag;
                row.updated_at = self.clock;
                self.put(i, row);
                Reply::Done
            },
        }
    }

    fn set_verification_status(&mut self, id: u128, status: VerificationStatus) -> (r: Reply)
        requires
            old(self).laid_out(),
        ensures
            final(self).laid_out(),
            (final(self)@, r@) == old(self)@.set_verification_status(id, status),
    {
        match self.find_product(id) {
            None => Reply::Failed(Error::NotFound),
            Some(i) => {
                let mut row = self.products[i].duplicate();
                row.verification = status;
                row.updated_at = self.clock;
                self.put(i, row);
                Reply::Done
            },
        }
    }

    fn has_category(&self, id: u128) -> (r: bool)
        ensures
            r == self@.has_category(id),
    {
        let mut i: usize = 0;
        while i < self.categories.len()
            invariant
                i <= self.categories.len(),
                forall|j: int| 0 <= j < i ==> self.categories[j].id != id,
            decreases self.categories.len() - i,
        {
            if self.categories[i].id == id {
                proof {
                    assert(self@.categories[i as int].id == id);
                }
                return true;
            }
            i += 1;
        }
        proof {
            assert forall|j: int| 0 <= j < self@.categories.len() implies (
            #[trigger] self@.categories[j]).id != id by {
                assert(self@.categories[j] == self.categories[j]@);
            }
        }
        false
    }

    fn has_tag(&self, id: u128) -> (r: bool)
        ensures
            r == self@.has_tag(id),
    {
        let mut i: usize = 0;
        while i < self.tags.len()
            invariant
                i <= self.tags.len(),
                forall|j: int| 0 <= j < i ==> self.tags[j].id != id,
            decreases self.tags.len() - i,
        {
            if self.tags[i].id == id {
                proof {
                    assert(self@.tags[i as int].id == id);
                }
                return true;
            }
            i += 1;
        }
        proof {
            assert forall|j: int| 0 <= j < self@.tags.len() implies (#[trigger] self@.tags[j]).id
                != id by {
                assert(self@.tags[j] == self.tags[j]@);
            }
        }
        false
    }

    fn all_categories(&self, ids: &Vec<u128>) -> (r: bool)
        ensures
            r == self@.all_categories(ids@),
    {
        let mut i: usize = 0;
        while i < ids.len()
            invariant
                i <= ids.len(),
                forall|j: int| 0 <= j < i ==> self@.has_category(#[trigger] ids@[j]),
            decreases ids.len() - i,
        {
            if !self.has_category(ids[i]) {
                return false;
            }
            i += 1;
        }
        true
    }

    fn all_tags(&self, ids: &Vec<u128>) -> (r: bool)
        ensures
            r == self@.all_tags(ids@),
    {
        let mut i: usize = 0;
        while i < ids.len()
            invariant
                i <= ids.len(),
                forall|j: int| 0 <= j < i ==> self@.has_tag(#[trigger] ids@[j]),
            decreases ids.len() - i,
        {
            if !self.has_tag(ids[i]) {
                return false;
            }
            i += 1;
        }
        true
    }

    fn replace_categories(&mut self, product: u128, ids: Vec<u128>) -> (r: Reply)
        requires
            old(self).laid_out(),
        ensures
            final(self).laid_out(),
            (final(self)@, r@) == old(self)@.replace_categories(product, ids@),
    {
        if self.find_product(product).is_none() || !self.all_categories(&ids) {
            return Reply::Failed(Error::ConstraintViolation);
        }
        let replaced = links::replaced(&self.category_links, product, &ids);
        self.category_links = replaced;
        proof {
            assert(self@.product_categories =~= old(self)@.with_categories(
                product,
                ids@,
            ).product_categories);
        }
        Reply::Done
    }

    fn replace_tags(&mut self, product: u128, ids: Vec<u128>) -> (r: Reply)
        requires
            old(self).laid_out(),
        ensures
            final(self).laid_out(),
            (final(self)@, r@) == old(self)@.replace_tags(product, ids@),
    {
        if self.find_product(product).is_none() || !self.all_tags(&ids) {
            return Reply::Failed(Error::ConstraintViolation);
        }
        let replaced = links::replaced(&self.tag_links, product, &ids);
        self.tag_links = replaced;
        proof {
            assert(self@.product_tags =~= old(self)@.with_tags(product, ids@).product_tags);
        }
        Reply::Done
    }

    fn delete_all_links(&mut self, product: u128)
        requires
            old(self).laid_out(),
        ensures
            final(self).laid_out(),
            final(self)@ == old(self)@.without_links(product),
    {
        let categories = links::without(&self.category_links, product);
        let tags = links::without(&self.tag_links, product);
        self.category_links = categories;
        self.tag_links = tags;
        proof {
            assert(self@.product_categories =~= old(self)@.without_links(
                product,
            ).product_categories);
            assert(self@.product_tags =~= old(self)@.without_links(product).product_tags);
        }
    }

    fn count_categories(&self, product: u128) -> (r: Reply)
        requires
            self.laid_out(),
        ensures
            r@ == ReplyView::Count(self@.categories_of(product).len()),
    {
        let n = links::count(&self.category_links, product);
        proof {
            assert(self@.categories_of(product) =~= links::linked_to(
                self.category_links@,
                product,
            ));
        }
        Reply::Count(n as u64)
    }

    fn count_tags(&self, product: u128) -> (r: Reply)
        requires
            self.laid_out(),
        ensures
            r@ == ReplyView::Count(self@.tags_of(product).len()),
    {
        let n = links::count(&self.tag_links, product);
        proof {
            assert(self@.tags_of(product) =~= links::linked_to(self.tag_links@, product));
        }
        Reply::Count(n as u64)
    }

    /// Whether a notification is about the product.
    fn notified_about(&self, product: u128) -> (r: bool)
        requires
            self.laid_out(),
        ensures
            r == exists|id: u128| #[trigger]
                self@.notifications.contains_key(id) && self@.notifications[id].product_id
                    == product,
    {
        let ghost ids = notification_ids(self.notifications@);
        let ghost views = notification_views(self.notifications@);
        let mut i: usize = 0;
        while i < self.notifications.len()
            invariant
                i <= self.notifications.len(),
                self.laid_out(),
                ids == notification_ids(self.notifications@),
                views == notification_views(self.notifications@),
                forall|j: int| 0 <= j < i ==> self.notifications[j].product_id != product,
            decreases self.notifications.len() - i,
        {
            if self.notifications[i].product_id == product {
                proof {
                    lemma_table_at(ids, views, i as int);
                    assert(self@.notifications.contains_key(ids[i as int]));
                }
                return true;
            }
            i += 1;
        }
        proof {
            assert forall|id: u128| #[trigger] self@.notifications.contains_key(id) implies self@.notifications[id].product_id
                != product by {
                lemma_table_key(ids, views, id);
                lemma_table_at(ids, views, index_of(ids, id));
            }
        }
        false
    }

    fn referenced(&self, product: u128) -> (r: bool)
        requires
            self.laid_out(),
        ensures
            r == self@.referenced(product),
    {
        if links::mentions(&self.category_links, product) {
            proof {
                let other = choose|other: u128| links::linked(self.category_links@, product, other);
                let l = ProductCategory { product_id: product, category_id: other };
                assert(self@.product_categories.contains(l) && l.product_id == product);
            }
            return true;
        }
        if links::mentions(&self.tag_links, product) {
            proof {
                let other = choose|other: u128| links::linked(self.tag_links@, product, other);
                let l = ProductTag { product_id: product, tag_id: other };
                assert(self@.product_tags.contains(l) && l.product_id == product);
            }
            return true;
        }
        let r = self.notified_about(product);
        proof {
            assert forall|l: ProductCategory| #[trigger]
                self@.product_categories.contains(l) implies l.product_id != product by {
                if l.product_id == product {
                    assert(links::linked(self.category_links@, product, l.category_id));
                }
            }
            assert forall|l: ProductTag| #[trigger]
                self@.product_tags.contains(l) implies l.product_id != product by {
                if l.product_id == product {
                    assert(links::linked(self.tag_links@, product, l.tag_id));
                }
            }
        }
        r
    }

    fn delete(&mut self, id: u128) -> (r: Reply)
        requires
            old(self).laid_out(),
        ensures
            final(self).laid_out(),
            (final(self)@, r@) == old(self)@.delete(id),
    {
        match self.find_product(id) {
            None => Reply::Failed(Error::NotFound),
            Some(i) => {
                if self.referenced(id) {
                    return Reply::Failed(Error::ConstraintViolation);
                }
                let ghost ids = product_ids(self.products@);
                let ghost views = product_views(self.products@);
                self.products.remove(i);
                proof {
                    lemma_table_remove(ids, views, i as int);
                    assert(product_ids(self.products@) =~= ids.remove(i as int));
                    assert(product_views(self.products@) =~= views.remove(i as int));
                }
                Reply::Done
            },
        }
    }

    fn notify(&mut self, vendor: u128, product: u128, message: String) -> (r: Reply)
        requires
            old(self).laid_out(),
            old(self)@.notifications_wf(),
        ensures
            final(self).laid_out(),
            (final(self)@, r@) == old(self)@.notify(vendor, product, message@),
    {
        if self.find_product(product).is_none() {
            return Reply::Failed(Error::ConstraintViolation);
        }
        if self.next_id == u128::MAX {
            return Reply::Failed(Error::StoreError);
        }
        let row = Notification {
            id: self.next_id,
            vendor_id: vendor,
            product_id: product,
            message,
            is_read: false,
            created_at: self.clock,
        };
        let ghost ids = notification_ids(self.notifications@);
        let ghost views = notification_views(self.notifications@);
        proof {
            assert forall|i: int| 0 <= i < ids.len() implies ids[i] < row.id by {
                lemma_table_at(ids, views, i);
            }
            lemma_table_push(ids, views, row.id, row@);
        }
        self.notifications.push(row);
        self.next_id = self.next_id + 1;
        self.now_and_tick();
        proof {
            assert(notification_ids(self.notifications@) =~= ids.push(row.id));
            assert(notification_views(self.notifications@) =~= views.push(row@));
        }
        Reply::Done
    }

    fn delete_notifications(&mut self, product: u128)
        requires
            old(self).laid_out(),
        ensures
            final(self).laid_out(),
            final(self)@ == old(self)@.without_notifications(product),
    {
        let ghost rows = self.notifications@;
        let ghost ids = notification_ids(rows);
        let ghost views = notification_views(rows);
        let mut kept: Vec<Notification> = Vec::new();
        let mut i: usize = 0;
        while i < self.notifications.len()
            invariant
                i <= self.notifications.len(),
                rows == self.notifications@,
                increasing(notification_ids(rows)),
                increasing(notification_ids(kept@)),
                forall|k: int| 0 <= k < kept.len() ==> stays(rows, i as int, product, #[trigger] kept@[k]),
                forall|j: int|
                    0 <= j < i && (#[trigger] rows[j]).product_id != product ==> kept@.contains(
                        rows[j],
                    ),
            decreases self.notifications.len() - i,
        {
            let ghost before = kept@;
            if self.notifications[i].product_id != product {
                let row = self.notifications[i].duplicate();
                kept.push(row);
                proof {
                    let all = notification_ids(rows);
                    assert forall|a: int, b: int|
                        0 <= a < b < kept.len() implies notification_ids(kept@)[a]
                        < notification_ids(kept@)[b] by {
                        if b < before.len() {
                            assert(notification_ids(before)[a] < notification_ids(before)[b]);
                        } else {
                            assert(stays(rows, i as int, product, before[a]));
                            let j = choose|j: int| 0 <= j < i && rows[j] == before[a];
                            assert(all[j] < all[i as int]);
                        }
                    }
                    assert forall|k: int| 0 <= k < kept.len() implies stays(
                        rows,
                        i + 1,
                        product,
                        #[trigger] kept@[k],
                    ) by {
                        if k < before.len() {
                            assert(stays(rows, i as int, product, before[k]));
                            let j = choose|j: int| 0 <= j < i && rows[j] == before[k];
                            assert(0 <= j < i + 1 && rows[j] == kept@[k]);
                        } else {
                            assert(0 <= i < i + 1 && rows[i as int] == kept@[k]);
                        }
                    }
                    assert forall|j: int|
                        0 <= j < i + 1 && (#[trigger] rows[j]).product_id
                            != product implies kept@.contains(rows[j]) by {
                        if j < i {
                            assert(before.contains(rows[j]));
                            let k = choose|k: int| 0 <= k < before.len() && before[k] == rows[j];
                            assert(kept@[k] == rows[j]);
                        } else {
                            assert(kept@[before.len() as int] == rows[j]);
                        }
                    }
                }
            } else {
                proof {
                    assert forall|k: int| 0 <= k < kept.len() implies stays(
                        rows,
                        i + 1,
                        product,
                        #[trigger] kept@[k],
                    ) by {
                        assert(stays(rows, i as int, product, kept@[k]));
                        let j = choose|j: int| 0 <= j < i && rows[j] == kept@[k];
                        assert(0 <= j < i + 1 && rows[j] == kept@[k]);
                    }
                }
            }
            i += 1;
        }
        proof {
            let kept_ids = notification_ids(kept@);
            let kept_views = notification_views(kept@);
            let before = table(ids, views);
            let gone = Set::new(
                |id: u128| before.contains_key(id) && before[id].product_id == product,
            );
            assert forall|id: u128| #[trigger]
                table(kept_ids, kept_views).contains_key(id) == before.remove_keys(
                    gone,
                ).contains_key(id) by {
                if table(kept_ids, kept_views).contains_key(id) {
                    lemma_table_key(kept_ids, kept_views, id);
                    let k = index_of(kept_ids, id);
                    assert(stays(rows, i as int, product, kept@[k]));
                    let j = choose|j: int| 0 <= j < i && rows[j] == kept@[k];
                    lemma_table_at(ids, views, j);
                }
                if before.remove_keys(gone).contains_key(id) {
                    lemma_table_key(ids, views, id);
                    let j = index_of(ids, id);
                    lemma_table_at(ids, views, j);
                    assert(kept@.contains(rows[j]));
                    let k = choose|k: int| 0 <= k < kept@.len() && kept@[k] == rows[j];
                    assert(kept_ids[k] == id);
                }
            }
            assert forall|id: u128| #[trigger]
                table(kept_ids, kept_views).contains_key(id) implies table(kept_ids, kept_views)[id]
                == before.remove_keys(gone)[id] by {
                lemma_table_key(kept_ids, kept_views, id);
                let k = index_of(kept_ids, id);
                lemma_table_at(kept_ids, kept_views, k);
                assert(stays(rows, i as int, product, kept@[k]));
                let j = choose|j: int| 0 <= j < i && rows[j] == kept@[k];
                lemma_table_at(ids, views, j);
            }
            assert(table(kept_ids, kept_views) =~= before.remove_keys(gone));
        }
        self.notifications = kept;
    }
}

fn duplicate_products(rows: &Vec<Product>) -> (r: Vec<Product>)
    ensures
        r@ == rows@,
{
    let mut out: Vec<Product> = Vec::new();
    let mut i: usize = 0;
    while i < rows.len()
        invariant
            i <= rows.len(),
            out@ == rows@.take(i as int),
        decreases rows.len() - i,
    {
        out.push(rows[i].duplicate());
        proof {
            assert(rows@.take(i + 1) =~= rows@.take(i as int).push(rows@[i as int]));
        }
        i += 1;
    }
    proof {
        assert(rows@.take(rows.len() as int) =~= rows@);
    }
    out
}

fn duplicate_categories(rows: &Vec<Category>) -> (r: Vec<Category>)
    ensures
        r@ == rows@,
{
    let mut out: Vec<Category> = Vec::new();
    let mut i: usize = 0;
    while i < rows.len()
        invariant
            i <= rows.len(),
            out@ == rows@.take(i as int),
        decreases rows.len() - i,
    {
        out.push(rows[i].duplicate());
        proof {
            assert(rows@.take(i + 1) =~= rows@.take(i as int).push(rows@[i as int]));
        }
        i += 1;
    }
    proof {
        assert(rows@.take(rows.len() as int) =~= rows@);
    }
    out
}

fn duplicate_tags(rows: &Vec<Tag>) -> (r: Vec<Tag>)
    ensures
        r@ == rows@,
{
    let mut out: Vec<Tag> = Vec::new();
    let mut i: usize = 0;
    while i < rows.len()
        invariant
            i <= rows.len(),
            out@ == rows@.take(i as int),
        decreases rows.len() - i,
    {
        out.push(rows[i].duplicate());
        proof {
            assert(rows@.take(i + 1) =~= rows@.take(i as int).push(rows@[i as int]));
        }
        i += 1;
    }
    proof {
        assert(rows@.take(rows.len() as int) =~= rows@);
    }
    out
}

fn duplicate_notifications(rows: &Vec<Notification>) -> (r: Vec<Notification>)
    ensures
        r@ == rows@,
{
    let mut out: Vec<Notification> = Vec::new();
    let mut i: usize = 0;
    while i < rows.len()
        invariant
            i <= rows.len(),
            out@ == rows@.take(i as int),
        decreases rows.len() - i,
    {
        out.push(rows[i].duplicate());
        proof {
            assert(rows@.take(i + 1) =~= rows@.take(i as int).push(rows@[i as int]));
        }
        i += 1;
    }
    proof {
        assert(rows@.take(rows.len() as int) =~= rows@);
    }
    out
}

fn duplicate_links(rows: &Vec<(u128, u128)>) -> (r: Vec<(u128, u128)>)
    ensures
        r@ == rows@,
{
    let mut out: Vec<(u128, u128)> = Vec::new();
    let mut i: usize = 0;
    while i < rows.len()
        invariant
            i <= rows.len(),
            out@ == rows@.take(i as int),
        decreases rows.len() - i,
    {
        out.push(rows[i]);
        proof {
            assert(rows@.take(i + 1) =~= rows@.take(i as int).push(rows@[i as int]));
        }
        i += 1;
    }
    proof {
        assert(rows@.take(rows.len() as int) =~= rows@);
    }
    out
}

impl Tables {
    fn duplicate(&self) -> (r: Tables)
        ensures
            r@ == self@,
            r.laid_out() == self.laid_out(),
    {
        Tables {
            products: duplicate_products(&self.products),
            categories: duplicate_categories(&self.categories),
            tags: duplicate_tags(&self.tags),
            category_links: duplicate_links(&self.category_links),
            tag_links: duplicate_links(&self.tag_links),
            notifications: duplicate_notifications(&self.notifications),
            next_id: self.next_id,
            clock: self.clock,
        }
    }

    /// Carries out a statement other than begin, commit and rollback.
    fn apply(&mut self, cmd: Command) -> (r: Reply)
        requires
            old(self).wf(),
        ensures
            final(self).wf(),
            (final(self)@, r@) == old(self)@.apply(cmd@),
    {
        proof {
            self@.lemma_apply_wf(cmd@);
        }
        match cmd {
            Command::Create(spec) => self.create(spec),
            Command::Update(id, spec) => self.update(id, spec),
            Command::Get(id) => self.get(id),
            Command::Delete(id) => self.delete(id),
            Command::SetDraftFlag(id, flag) => self.set_draft_flag(id, flag),
            Command::SetVerificationStatus(id, status) => self.set_verification_status(id, status),
            Command::ReplaceCategories(id, ids) => self.replace_categories(id, ids),
            Command::ReplaceTags(id, ids) => self.replace_tags(id, ids),
            Command::DeleteAllLinks(id) => {
                self.delete_all_links(id);
                Reply::Done
            },
            Command::DeleteNotifications(id) => {
                self.delete_notifications(id);
                Reply::Done
            },
            Command::CountCategories(id) => self.count_categories(id),
            Command::CountTags(id) => self.count_tags(id),
            Command::Notify(vendor, product, message) => self.notify(vendor, product, message),
            _ => Reply::Done,
        }
    }
}

/// A store in memory.
pub struct Store {
    tables: Tables,
    snapshot: Option<Tables>,
    fuse: Option<u64>,
}

impl View for Store {
    type V = StoreState;

    closed spec fn view(&self) -> StoreState {
        StoreState {
            db: self.tables@,
            snapshot: match self.snapshot {
                Some(tables) => Some(tables@),
                None => None,
            },
            fuse: match self.fuse {
                Some(n) => Some(n as nat),
                None => None,
            },
        }
    }
}

fn is_commit(cmd: &Command) -> (r: bool)
    ensures
        r == cmd@ is Commit,
{
    match cmd {
        Command::Commit => true,
        _ => false,
    }
}

impl Store {
    /// The rows are laid out as the store expects and the tables are
    /// consistent.
    pub closed spec fn wf(&self) -> bool {
        &&& self.tables.wf()
        &&& self.snapshot matches Some(tables) ==> tables.wf()
    }

    /// The tables of a store that is in order are consistent.
    pub proof fn lemma_consistent(&self)
        requires
            self.wf(),
        ensures
            self@.wf(),
    {
    }

    /// A store without rows, with no transaction open and no failure due.
    pub fn new() -> (s: Store)
        ensures
            s.wf(),
            s@ == (StoreState { db: Db::empty(), snapshot: None, fuse: None }),
    {
        Store { tables: Tables::new(), snapshot: None, fuse: None }
    }

    /// Makes the store fail one statement, after `statements` more have been
    /// let through.
    pub fn fail_after(&mut self, statements: u64)
        requires
            old(self).wf(),
        ensures
            final(self).wf(),
            final(self)@ == (StoreState { fuse: Some(statements as nat), ..old(self)@ }),
    {
        self.fuse = Some(statements);
    }

    /// Whether a transaction is open.
    pub fn in_transaction(&self) -> (r: bool)
        ensures
            r == self@.in_transaction(),
    {
        self.snapshot.is_some()
    }

    fn roll_back(&mut self)
        requires
            old(self).wf(),
        ensures
            final(self).wf(),
            final(self)@ == old(self)@.rolled_back(),
    {
        match self.snapshot.take() {
            Some(tables) => {
                self.tables = tables;
            },
            None => {},
        }
    }

    /// Carries out a statement and answers it.
    pub fn execute(&mut self, cmd: Command) -> (r: Reply)
        requires
            old(self).wf(),
        ensures
            final(self).wf(),
            (final(self)@, r@) == old(self)@.execute(cmd@),
    {
        match cmd {
            Command::Rollback => {
                self.roll_back();
                Reply::Done
            },
            cmd => {
                match self.fuse {
                    Some(n) => {
                        if n == 0 {
                            self.fuse = None;
                            if is_commit(&cmd) {
                                self.roll_back();
                            }
                            return Reply::Failed(Error::StoreError);
                        }
                        self.fuse = Some(n - 1);
                    },
                    None => {},
                }
                match cmd {
                    Command::Begin => {
                        if self.snapshot.is_some() {
                            Reply::Failed(Error::StoreError)
                        } else {
                            self.snapshot = Some(self.tables.duplicate());
                            Reply::Done
                        }
                    },
                    Command::Commit => {
                        if self.snapshot.is_some() {
                            self.snapshot = None;
                            Reply::Done
                        } else {
                            Reply::Failed(Error::StoreError)
                        }
                    },
                    cmd => self.tables.apply(cmd),
                }
            },
        }
    }
}

impl Tables {
    fn has_category_named(&self, name: &String) -> (r: bool)
        ensures
            r == self@.has_category_named(name@),
    {
        let mut i: usize = 0;
        while i < self.categories.len()
            invariant
                i <= self.categories.len(),
                forall|j: int| 0 <= j < i ==> self.categories[j].name@ != name@,
            decreases self.categories.len() - i,
        {
            if self.categories[i].name == *name {
                proof {
                    assert(self@.categories[i as int].name == name@);
                }
                return true;
            }
            i += 1;
        }
        proof {
            assert forall|j: int| 0 <= j < self@.categories.len() implies (
            #[trigger] self@.categories[j]).name != name@ by {
                assert(self@.categories[j] == self.categories[j]@);
            }
        }
        false
    }

    fn has_tag_named(&self, name: &String) -> (r: bool)
        ensures
            r == self@.has_tag_named(name@),
    {
        let mut i: usize = 0;
        while i < self.tags.len()
            invariant
                i <= self.tags.len(),
                forall|j: int| 0 <= j < i ==> self.tags[j].name@ != name@,
            decreases self.tags.len() - i,
        {
            if self.tags[i].name == *name {
                proof {
                    assert(self@.tags[i as int].name == name@);
                }
                return true;
            }
            i += 1;
        }
        proof {
            assert forall|j: int| 0 <= j < self@.tags.len() implies (#[trigger] self@.tags[j]).name
                != name@ by {
                assert(self@.tags[j] == self.tags[j]@);
            }
        }
        false
    }

    fn notifications_to(&self, vendor: u128) -> (r: Vec<Notification>)
        requires
            self.wf(),
        ensures
            self@.lists_newest_first(vendor, notification_views(r@)),
    {
        let ghost rows = self.notifications@;
        let ghost ids = notification_ids(rows);
        let ghost views = notification_views(rows);
        let mut out: Vec<Notification> = Vec::new();
        let mut i: usize = self.notifications.len();
        while i > 0
            invariant
                i <= self.notifications.len(),
                rows == self.notifications@,
                increasing(notification_ids(rows)),
                forall|k: int|
                    0 <= k < out.len() ==> sent_after(rows, i as int, vendor, #[trigger] out@[k]),
                forall|j: int|
                    i <= j < rows.len() && (#[trigger] rows[j]).vendor_id == vendor
                        ==> out@.contains(rows[j]),
                forall|a: int, b: int|
                    0 <= a < b < out.len() ==> (#[trigger] out@[a]).id > (#[trigger] out@[b]).id,
            decreases i,
        {
            i -= 1;
            let ghost before = out@;
            if self.notifications[i].vendor_id == vendor {
                out.push(self.notifications[i].duplicate());
                proof {
                    assert forall|k: int| 0 <= k < out.len() implies sent_after(
                        rows,
                        i as int,
                        vendor,
                        #[trigger] out@[k],
                    ) by {
                        if k < before.len() {
                            assert(sent_after(rows, i + 1, vendor, before[k]));
                            let j = choose|j: int| i + 1 <= j < rows.len() && rows[j] == before[k];
                            assert(i <= j < rows.len() && rows[j] == out@[k]);
                        } else {
                            assert(i <= i < rows.len() && rows[i as int] == out@[k]);
                        }
                    }
                    assert forall|j: int|
                        i <= j < rows.len() && (#[trigger] rows[j]).vendor_id
                            == vendor implies out@.contains(rows[j]) by {
                        if j > i {
                            assert(before.contains(rows[j]));
                            let k = choose|k: int| 0 <= k < before.len() && before[k] == rows[j];
                            assert(out@[k] == rows[j]);
                        } else {
                            assert(out@[before.len() as int] == rows[j]);
                        }
                    }
                    assert forall|a: int, b: int| 0 <= a < b < out.len() implies (
                    #[trigger] out@[a]).id > (#[trigger] out@[b]).id by {
                        if b < before.len() {
                            assert(before[a].id > before[b].id);
                        } else {
                            assert(sent_after(rows, i + 1, vendor, before[a]));
                            let j = choose|j: int| i + 1 <= j < rows.len() && rows[j] == before[a];
                            assert(notification_ids(rows)[i as int] < notification_ids(rows)[j]);
                        }
                    }
                }
            } else {
                proof {
                    assert forall|k: int| 0 <= k < out.len() implies sent_after(
                        rows,
                        i as int,
                        vendor,
                        #[trigger] out@[k],
                    ) by {
                        assert(sent_after(rows, i + 1, vendor, out@[k]));
                        let j = choose|j: int| i + 1 <= j < rows.len() && rows[j] == out@[k];
                        assert(i <= j < rows.len() && rows[j] == out@[k]);
                    }
                }
            }
        }
        proof {
            let listed = notification_views(out@);
            let db = self@;
            assert forall|k: int| 0 <= k < listed.len() implies db.notifications_of(
                vendor,
            ).contains((#[trigger] listed[k]).id) && db.notifications[listed[k].id]
                == listed[k] by {
                assert(sent_after(rows, 0, vendor, out@[k]));
                let j = choose|j: int| 0 <= j < rows.len() && rows[j] == out@[k];
                lemma_table_at(ids, views, j);
            }
            assert forall|id: u128| #[trigger]
                db.notifications_of(vendor).contains(id) implies exists|k: int|
                0 <= k < listed.len() && (#[trigger] listed[k]).id == id by {
                lemma_table_key(ids, views, id);
                let j = index_of(ids, id);
                lemma_table_at(ids, views, j);
                assert(out@.contains(rows[j]));
                let k = choose|k: int| 0 <= k < out@.len() && out@[k] == rows[j];
                assert(listed[k].id == id);
            }
            assert forall|a: int, b: int| 0 <= a < b < listed.len() implies (
            #[trigger] listed[a]).id > (#[trigger] listed[b]).id && listed[a].created_at
                >= listed[b].created_at by {
                assert(out@[a].id > out@[b].id);
                assert(db.notifications_of(vendor).contains(listed[a].id));
                assert(db.notifications_of(vendor).contains(listed[b].id));
                assert(db.notifications[listed[b].id].created_at
                    <= db.notifications[listed[a].id].created_at);
            }
        }
        out
    }
}

/// Identifiers and names as they are given to the store for seeding.
pub open spec fn seeds(given: Seq<(u128, String)>) -> Seq<(u128, Seq<char>)> {
    given.map_values(|seed: (u128, String)| (seed.0, seed.1@))
}

impl Store {
    /// Seeds categories: each of the given ones whose name no category has
    /// yet is added. If one of them cannot be added, because its identifier
    /// is taken, none is.
    pub fn seed_categories(&mut self, given: &Vec<(u128, String)>) -> (r: Result<(), Error>)
        requires
            old(self).wf(),
        ensures
            final(self).wf(),
            match old(self)@.db.seed_categories(seeds(given@)) {
                (_, Some(e)) => r == Err::<(), Error>(e) && final(self)@ == old(self)@,
                (db, None) => r == Ok::<(), Error>(()) && final(self)@ == (StoreState {
                    db,
                    ..old(self)@
                }),
            },
    {
        let ghost start = self@;
        let ghost all = seeds(given@);
        let backup = self.tables.duplicate();
        let mut i: usize = 0;
        while i < given.len()
            invariant
                i <= given.len(),
                self.wf(),
                all == seeds(given@),
                start.db.seed_categories(all.take(i as int)) == (self@.db, None::<Error>),
                self@ == (StoreState { db: self@.db, ..start }),
                backup.wf(),
                backup@ == start.db,
                start == old(self)@,
            decreases given.len() - i,
        {
            let id = given[i].0;
            let name = given[i].1.clone();
            proof {
                assert(all.take(i + 1).drop_last() =~= all.take(i as int));
                assert(all.take(i + 1).last() == (id, name@));
            }
            if !self.tables.has_category_named(&name) {
                match self.add_category(id, name) {
                    Ok(()) => {},
                    Err(e) => {
                        self.tables = backup;
                        proof {
                            lemma_seeding_stays_failed(start.db, all, i + 1, true);
                            assert(all.take(all.len() as int) =~= all);
                        }
                        return Err(e);
                    },
                }
            }
            i += 1;
        }
        proof {
            assert(all.take(given.len() as int) =~= all);
        }
        Ok(())
    }

    /// Seeds tags: each of the given ones whose name no tag has yet is
    /// added. If one of them cannot be added, because its identifier is
    /// taken, none is.
    pub fn seed_tags(&mut self, given: &Vec<(u128, String)>) -> (r: Result<(), Error>)
        requires
            old(self).wf(),
        ensures
            final(self).wf(),
            match old(self)@.db.seed_tags(seeds(given@)) {
                (_, Some(e)) => r == Err::<(), Error>(e) && final(self)@ == old(self)@,
                (db, None) => r == Ok::<(), Error>(()) && final(self)@ == (StoreState {
                    db,
                    ..old(self)@
                }),
            },
    {
        let ghost start = self@;
        let ghost all = seeds(given@);
        let backup = self.tables.duplicate();
        let mut i: usize = 0;
        while i < given.len()
            invariant
                i <= given.len(),
                self.wf(),
                all == seeds(given@),
                start.db.seed_tags(all.take(i as int)) == (self@.db, None::<Error>),
                self@ == (StoreState { db: self@.db, ..start }),
                backup.wf(),
                backup@ == start.db,
                start == old(self)@,
            decreases given.len() - i,
        {
            let id = given[i].0;
            let name = given[i].1.clone();
            proof {
                assert(all.take(i + 1).drop_last() =~= all.take(i as int));
                assert(all.take(i + 1).last() == (id, name@));
            }
            if !self.tables.has_tag_named(&name) {
                match self.add_tag(id, name) {
                    Ok(()) => {},
                    Err(e) => {
                        self.tables = backup;
                        proof {
                            lemma_seeding_stays_failed(start.db, all, i + 1, false);
                            assert(all.take(all.len() as int) =~= all);
                        }
                        return Err(e);
                    },
                }
            }
            i += 1;
        }
        proof {
            assert(all.take(given.len() as int) =~= all);
        }
        Ok(())
    }
}

/// Seeding that has failed after some of the seeds has failed in the same
/// way after all of them.
proof fn lemma_seeding_stays_failed(db: Db, all: Seq<(u128, Seq<char>)>, n: int, categories: bool)
    requires
        0 <= n <= all.len(),
        categories ==> db.seed_categories(all.take(n)).1 is Some,
        !categories ==> db.seed_tags(all.take(n)).1 is Some,
    ensures
        categories ==> db.seed_categories(all.take(all.len() as int)).1 == db.seed_categories(
            all.take(n),
        ).1,
        !categories ==> db.seed_tags(all.take(all.len() as int)).1 == db.seed_tags(all.take(n)).1,
    decreases all.len() - n,
{
    if n < all.len() {
        assert(all.take(n + 1).drop_last() =~= all.take(n));
        lemma_seeding_stays_failed(db, all, n + 1, categories);
    }
}

/// The answer that a result without a value stands for.
pub open spec fn done(r: Result<(), Error>) -> ReplyView {
    match r {
        Ok(()) => ReplyView::Done,
        Err(e) => ReplyView::Failed(e),
    }
}

/// The answer that a result with a row stands for.
pub open spec fn answered(r: Result<Product, Error>) -> ReplyView {
    match r {
        Ok(product) => ReplyView::Product(product@),
        Err(e) => ReplyView::Failed(e),
    }
}

/// The answer that a result with a count stands for.
pub open spec fn counted(r: Result<u64, Error>) -> ReplyView {
    match r {
        Ok(n) => ReplyView::Count(n as nat),
        Err(e) => ReplyView::Failed(e),
    }
}

impl Store {
    fn execute_done(&mut self, cmd: Command) -> (r: Result<(), Error>)
        requires
            old(self).wf(),
            !(old(self)@.execute(cmd@).1 is Product),
            !(old(self)@.execute(cmd@).1 is Count),
        ensures
            final(self).wf(),
            (final(self)@, done(r)) == old(self)@.execute(cmd@),
    {
        match self.execute(cmd) {
            Reply::Failed(e) => Err(e),
            _ => Ok(()),
        }
    }

    fn execute_row(&mut self, cmd: Command) -> (r: Result<Product, Error>)
        requires
            old(self).wf(),
            !(old(self)@.execute(cmd@).1 is Done),
            !(old(self)@.execute(cmd@).1 is Count),
        ensures
            final(self).wf(),
            (final(self)@, answered(r)) == old(self)@.execute(cmd@),
    {
        match self.execute(cmd) {
            Reply::Product(product) => Ok(product),
            Reply::Failed(e) => Err(e),
            _ => Err(Error::StoreError),
        }
    }

    fn execute_count(&mut self, cmd: Command) -> (r: Result<u64, Error>)
        requires
            old(self).wf(),
            !(old(self)@.execute(cmd@).1 is Done),
            !(old(self)@.execute(cmd@).1 is Product),
        ensures
            final(self).wf(),
            (final(self)@, counted(r)) == old(self)@.execute(cmd@),
    {
        match self.execute(cmd) {
            Reply::Count(n) => Ok(n),
            Reply::Failed(e) => Err(e),
            _ => Err(Error::StoreError),
        }
    }

    /// Opens a transaction. Fails inside another one.
    pub fn begin(&mut self) -> (r: Result<(), Error>)
        requires
            old(self).wf(),
        ensures
            final(self).wf(),
            (final(self)@, done(r)) == old(self)@.execute(CommandView::Begin),
    {
        self.execute_done(Command::Begin)
    }

    /// Makes the changes of the open transaction durable. Fails, and gives
    /// the changes up, if the store fails; fails if none is open.
    pub fn commit(&mut self) -> (r: Result<(), Error>)
        requires
            old(self).wf(),
        ensures
            final(self).wf(),
            (final(self)@, done(r)) == old(self)@.execute(CommandView::Commit),
    {
        self.execute_done(Command::Commit)
    }

    /// Undoes the changes of the open transaction, if one is open.
    pub fn rollback(&mut self)
        requires
            old(self).wf(),
        ensures
            final(self).wf(),
            final(self)@ == old(self)@.rolled_back(),
    {
        self.roll_back()
    }

    /// Inserts a product with no verification status and answers with its
    /// row.
    pub fn create(&mut self, spec: NewProduct) -> (r: Result<Product, Error>)
        requires
            old(self).wf(),
        ensures
            final(self).wf(),
            (final(self)@, answered(r)) == old(self)@.execute(CommandView::Create(spec@)),
    {
        self.execute_row(Command::Create(spec))
    }

    /// Overwrites the fields of a product that a specification sets and
    /// answers with its row.
    pub fn update(&mut self, id: u128, spec: NewProduct) -> (r: Result<Product, Error>)
        requires
            old(self).wf(),
        ensures
            final(self).wf(),
            (final(self)@, answered(r)) == old(self)@.execute(CommandView::Update(id, spec@)),
    {
        self.execute_row(Command::Update(id, spec))
    }

    /// Reads a product.
    pub fn get(&mut self, id: u128) -> (r: Result<Product, Error>)
        requires
            old(self).wf(),
        ensures
            final(self).wf(),
            (final(self)@, answered(r)) == old(self)@.execute(CommandView::Get(id)),
    {
        self.execute_row(Command::Get(id))
    }

    /// Removes a product that nothing refers to.
    pub fn delete(&mut self, id: u128) -> (r: Result<(), Error>)
        requires
            old(self).wf(),
        ensures
            final(self).wf(),
            (final(self)@, done(r)) == old(self)@.execute(CommandView::Delete(id)),
    {
        self.execute_done(Command::Delete(id))
    }

    /// Sets the draft flag of a product.
    pub fn set_draft_flag(&mut self, id: u128, is_draft: bool) -> (r: Result<(), Error>)
        requires
            old(self).wf(),
        ensures
            final(self).wf(),
            (final(self)@, done(r)) == old(self)@.execute(CommandView::SetDraftFlag(id, is_draft)),
    {
        self.execute_done(Command::SetDraftFlag(id, is_draft))
    }

    /// Sets the verification status of a product.
    pub fn set_verification_status(&mut self, id: u128, status: VerificationStatus) -> (r: Result<
        (),
        Error,
    >)
        requires
            old(self).wf(),
        ensures
            final(self).wf(),
            (final(self)@, done(r)) == old(self)@.execute(
                CommandView::SetVerificationStatus(id, status),
            ),
    {
        self.execute_done(Command::SetVerificationStatus(id, status))
    }

    /// Makes `ids` the categories of a product: the links it had go, one
    /// link for each of `ids` comes.
    pub fn replace_categories(&mut self, product: u128, ids: Vec<u128>) -> (r: Result<(), Error>)
        requires
            old(self).wf(),
        ensures
            final(self).wf(),
            (final(self)@, done(r)) == old(self)@.execute(
                CommandView::ReplaceCategories(product, ids@),
            ),
    {
        self.execute_done(Command::ReplaceCategories(product, ids))
    }

    /// Makes `ids` the tags of a product: the links it had go, one link for
    /// each of `ids` comes.
    pub fn replace_tags(&mut self, product: u128, ids: Vec<u128>) -> (r: Result<(), Error>)
        requires
            old(self).wf(),
        ensures
            final(self).wf(),
            (final(self)@, done(r)) == old(self)@.execute(CommandView::ReplaceTags(product, ids@)),
    {
        self.execute_done(Command::ReplaceTags(product, ids))
    }

    /// Removes every category and tag link of a product. A product without
    /// links is no error.
    pub fn delete_all_links(&mut self, product: u128) -> (r: Result<(), Error>)
        requires
            old(self).wf(),
        ensures
            final(self).wf(),
            (final(self)@, done(r)) == old(self)@.execute(CommandView::DeleteAllLinks(product)),
    {
        self.execute_done(Command::DeleteAllLinks(product))
    }

    /// Removes every notification about a product.
    pub fn delete_notifications(&mut self, product: u128) -> (r: Result<(), Error>)
        requires
            old(self).wf(),
        ensures
            final(self).wf(),
            (final(self)@, done(r)) == old(self)@.execute(
                CommandView::DeleteNotifications(product),
            ),
    {
        self.execute_done(Command::DeleteNotifications(product))
    }

    /// The number of categories of a product.
    pub fn count_categories(&mut self, product: u128) -> (r: Result<u64, Error>)
        requires
            old(self).wf(),
        ensures
            final(self).wf(),
            (final(self)@, counted(r)) == old(self)@.execute(CommandView::CountCategories(product)),
    {
        self.execute_count(Command::CountCategories(product))
    }

    /// The number of tags of a product.
    pub fn count_tags(&mut self, product: u128) -> (r: Result<u64, Error>)
        requires
            old(self).wf(),
        ensures
            final(self).wf(),
            (final(self)@, counted(r)) == old(self)@.execute(CommandView::CountTags(product)),
    {
        self.execute_count(Command::CountTags(product))
    }

    /// Records a message to a vendor about a product.
    pub fn notify(&mut self, vendor: u128, product: u128, message: String) -> (r: Result<
        (),
        Error,
    >)
        requires
            old(self).wf(),
        ensures
            final(self).wf(),
            (final(self)@, done(r)) == old(self)@.execute(
                CommandView::Notify(vendor, product, message@),
            ),
    {
        self.execute_done(Command::Notify(vendor, product, message))
    }
}

/// `row` is one of `rows` from place `i` on and is addressed to `vendor`.
spec fn sent_after(rows: Seq<Notification>, i: int, vendor: u128, row: Notification) -> bool {
    row.vendor_id == vendor && exists|j: int| i <= j < rows.len() && rows[j] == row
}

impl Store {
    /// The product with this identifier, if there is one. Looking at the
    /// rows in this way, and listing them, is no statement: it is not
    /// counted and does not fail.
    pub fn get_product(&self, id: u128) -> (r: Option<Product>)
        requires
            self.wf(),
        ensures
            match r {
                Some(p) => self@.db.products.contains_key(id) && self@.db.products[id] == p@,
                None => !self@.db.products.contains_key(id),
            },
    {
        match self.tables.find_product(id) {
            Some(i) => Some(self.tables.products[i].duplicate()),
            None => None,
        }
    }

    /// All products, in the order of their identifiers.
    pub fn list_products(&self) -> (r: Vec<Product>)
        requires
            self.wf(),
        ensures
            increasing(product_ids(r@)),
            table(product_ids(r@), product_views(r@)) == self@.db.products,
    {
        duplicate_products(&self.tables.products)
    }

    /// All categories, in the order in which they were added.
    pub fn list_categories(&self) -> (r: Vec<Category>)
        ensures
            category_views(r@) == self@.db.categories,
    {
        duplicate_categories(&self.tables.categories)
    }

    /// All tags, in the order in which they were added.
    pub fn list_tags(&self) -> (r: Vec<Tag>)
        ensures
            tag_views(r@) == self@.db.tags,
    {
        duplicate_tags(&self.tables.tags)
    }

    /// The notifications to a vendor, the newest first.
    pub fn list_notifications(&self, vendor: u128) -> (r: Vec<Notification>)
        requires
            self.wf(),
        ensures
            self@.db.lists_newest_first(vendor, notification_views(r@)),
    {
        self.tables.notifications_to(vendor)
    }

    /// The categories of a product, each once.
    pub fn categories_of(&self, product: u128) -> (r: Vec<u128>)
        requires
            self.wf(),
        ensures
            r@.no_duplicates(),
            r@.to_set() == self@.db.categories_of(product),
    {
        let r = links::others_of(&self.tables.category_links, product);
        proof {
            assert(self@.db.categories_of(product) =~= links::linked_to(
                self.tables.category_links@,
                product,
            ));
        }
        r
    }

    /// The tags of a product, each once.
    pub fn tags_of(&self, product: u128) -> (r: Vec<u128>)
        requires
            self.wf(),
        ensures
            r@.no_duplicates(),
            r@.to_set() == self@.db.tags_of(product),
    {
        let r = links::others_of(&self.tables.tag_links, product);
        proof {
            assert(self@.db.tags_of(product) =~= links::linked_to(self.tables.tag_links@, product));
        }
        r
    }

    /// Adds a category. Its identifier and its name must be new.
    pub fn add_category(&mut self, id: u128, name: String) -> (r: Result<(), Error>)
        requires
            old(self).wf(),
        ensures
            final(self).wf(),
            final(self)@ == (StoreState {
                db: old(self)@.db.add_category(id, name@).0,
                ..old(self)@
            }),
            r == (match old(self)@.db.add_category(id, name@).1 {
                Some(e) => Err::<(), Error>(e),
                None => Ok(()),
            }),
    {
        proof {
            self@.db.lemma_add_category_wf(id, name@);
        }
        if self.tables.has_category(id) || self.tables.has_category_named(&name) {
            return Err(Error::ConstraintViolation);
        }
        let ghost before = category_views(self.tables.categories@);
        let row = Category { id, name, created_at: self.tables.clock };
        self.tables.categories.push(row);
        self.tables.now_and_tick();
        proof {
            assert(category_views(self.tables.categories@) =~= before.push(row@));
        }
        Ok(())
    }

    /// Adds a tag. Its identifier and its name must be new.
    pub fn add_tag(&mut self, id: u128, name: String) -> (r: Result<(), Error>)
        requires
            old(self).wf(),
        ensures
            final(self).wf(),
            final(self)@ == (StoreState { db: old(self)@.db.add_tag(id, name@).0, ..old(self)@ }),
            r == (match old(self)@.db.add_tag(id, name@).1 {
                Some(e) => Err::<(), Error>(e),
                None => Ok(()),
            }),
    {
        proof {
            self@.db.lemma_add_tag_wf(id, name@);
        }
        if self.tables.has_tag(id) || self.tables.has_tag_named(&name) {
            return Err(Error::ConstraintViolation);
        }
        let ghost before = tag_views(self.tables.tags@);
        let row = Tag { id, name, created_at: self.tables.clock };
        self.tables.tags.push(row);
        self.tables.now_and_tick();
        proof {
            assert(tag_views(self.tables.tags@) =~= before.push(row@));
        }
        Ok(())
    }
}

/// `row` is one of the first `i` of `rows` and is not about `product`.
spec fn stays(rows: Seq<Notification>, i: int, product: u128, row: Notification) -> bool {
    row.product_id != product && exists|j: int| 0 <= j < i && rows[j] == row
}

} // verus!
