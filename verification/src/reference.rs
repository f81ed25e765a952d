//! The reference data of the marketplace: the categories and tags that
//! every store starts with.

use crate::db::{Db, StoreState};
use crate::model::{Category, Error, Tag};
use crate::store::{category_views, seeds, tag_views, Store};
use vstd::prelude::*;
use vstd::string::*;

verus! {

/// The categories that every store starts with.
pub open spec fn default_categories() -> Seq<(u128, Seq<char>)> {
    seq![
        (0x11111111_1111_1111_1111_111111111111u128, "Handcrafts"@),
        (0x22222222_2222_2222_2222_222222222222u128, "Food & Drinks"@),
        (0x33333333_3333_3333_3333_333333333333u128, "Clothing & Fashion"@),
        (0x44444444_4444_4444_4444_444444444444u128, "Home & Decor"@),
        (0x55555555_5555_5555_5555_555555555555u128, "Art & Collectibles"@),
        (0x66666666_6666_6666_6666_666666666666u128, "Agriculture"@),
    ]
}

/// The tags that every store starts with.
pub open spec fn default_tags() -> Seq<(u128, Seq<char>)> {
    seq![
        (0x77777777_7777_7777_7777_777777777777u128, "Handmade"@),
        (0x88888888_8888_8888_8888_888888888888u128, "Organic"@),
        (0x99999999_9999_9999_9999_999999999999u128, "Fair Trade"@),
        (0xaaaaaaaa_aaaa_aaaa_aaaa_aaaaaaaaaaaau128, "Traditional"@),
        (0xbbbbbbbb_bbbb_bbbb_bbbb_bbbbbbbbbbbbu128, "Sustainable"@),
        (0xcccccccc_cccc_cccc_cccc_ccccccccccccu128, "Eco-friendly"@),
        (0xdddddddd_dddd_dddd_dddd_ddddddddddddu128, "Vegan"@),
        (0xeeeeeeee_eeee_eeee_eeee_eeeeeeeeeeeeu128, "Natural"@),
    ]
}

/// The categories that every store starts with, by identifier and name.
pub fn categories_to_seed() -> (r: Vec<(u128, String)>)
    ensures
        seeds(r@) == default_categories(),
{
    let mut r: Vec<(u128, String)> = Vec::new();
    r.push((0x11111111_1111_1111_1111_111111111111u128, String::from_str("Handcrafts")));
    r.push((0x22222222_2222_2222_2222_222222222222u128, String::from_str("Food & Drinks")));
    r.push((0x33333333_3333_3333_3333_333333333333u128, String::from_str("Clothing & Fashion")));
    r.push((0x44444444_4444_4444_4444_444444444444u128, String::from_str("Home & Decor")));
    r.push((0x55555555_5555_5555_5555_555555555555u128, String::from_str("Art & Collectibles")));
    r.push((0x66666666_6666_6666_6666_666666666666u128, String::from_str("Agriculture")));
    proof {
        assert(seeds(r@) =~= default_categories());
    }
    r
}

/// The tags that every store starts with, by identifier and name.
pub fn tags_to_seed() -> (r: Vec<(u128, String)>)
    ensures
        seeds(r@) == default_tags(),
{
    let mut r: Vec<(u128, String)> = Vec::new();
    r.push((0x77777777_7777_7777_7777_777777777777u128, String::from_str("Handmade")));
    r.push((0x88888888_8888_8888_8888_888888888888u128, String::from_str("Organic")));
    r.push((0x99999999_9999_9999_9999_999999999999u128, String::from_str("Fair Trade")));
    r.push((0xaaaaaaaa_aaaa_aaaa_aaaa_aaaaaaaaaaaau128, String::from_str("Traditional")));
    r.push((0xbbbbbbbb_bbbb_bbbb_bbbb_bbbbbbbbbbbbu128, String::from_str("Sustainable")));
    r.push((0xcccccccc_cccc_cccc_cccc_ccccccccccccu128, String::from_str("Eco-friendly")));
    r.push((0xdddddddd_dddd_dddd_dddd_ddddddddddddu128, String::from_str("Vegan")));
    r.push((0xeeeeeeee_eeee_eeee_eeee_eeeeeeeeeeeeu128, String::from_str("Natural")));
    proof {
        assert(seeds(r@) =~= default_tags());
    }
    r
}

/// What initializing comes to: the default categories are seeded, then the
/// default tags. Each of the two steps takes place as a whole or not at
/// all, and the tags are not tried after the categories have failed.
pub open spec fn init_db_spec(db: Db) -> (Db, Option<Error>) {
    let (with_categories, failed) = db.seed_categories(default_categories());
    if failed is Some {
        (db, failed)
    } else {
        let (with_tags, failed) = with_categories.seed_tags(default_tags());
        if failed is Some {
            (with_categories, failed)
        } else {
            (with_tags, None)
        }
    }
}

/// Gives a store its reference data. Categories and tags that are there
/// already, by name, are left alone, so that a store can be initialized
/// again.
pub fn init_db(store: &mut Store) -> (r: Result<(), Error>)
    requires
        old(store).wf(),
    ensures
        final(store).wf(),
        final(store)@ == (StoreState { db: init_db_spec(old(store)@.db).0, ..old(store)@ }),
        r == (match init_db_spec(old(store)@.db).1 {
            Some(e) => Err::<(), Error>(e),
            None => Ok(()),
        }),
{
    let categories = categories_to_seed();
    match store.seed_categories(&categories) {
        Err(e) => {
            return Err(e);
        },
        Ok(()) => {},
    }
    let tags = tags_to_seed();
    store.seed_tags(&tags)
}

/// All categories, in the order in which they were added.
pub fn get_categories(store: &Store) -> (r: Vec<Category>)
    ensures
        category_views(r@) == store@.db.categories,
{
    store.list_categories()
}

/// All tags, in the order in which they were added.
pub fn get_tags(store: &Store) -> (r: Vec<Tag>)
    ensures
        tag_views(r@) == store@.db.tags,
{
    store.list_tags()
}

/// Seeding keeps the categories that are there and ends with every seed's
/// name among the categories.
pub proof fn lemma_seeded_categories_are_there(db: Db, given: Seq<(u128, Seq<char>)>)
    requires
        db.seed_categories(given).1 is None,
    ensures
        forall|name: Seq<char>|
            db.has_category_named(name) ==> #[trigger] db.seed_categories(
                given,
            ).0.has_category_named(name),
        forall|i: int|
            0 <= i < given.len() ==> db.seed_categories(given).0.has_category_named(
                (#[trigger] given[i]).1,
            ),
    decreases given.len(),
{
    if given.len() > 0 {
        let before = db.seed_categories(given.drop_last()).0;
        let after = db.seed_categories(given).0;
        lemma_seeded_categories_are_there(db, given.drop_last());
        let last = given.last();
        assert forall|name: Seq<char>| before.has_category_named(name) implies #[trigger]
            after.has_category_named(name) by {
            let j = choose|j: int|
                0 <= j < before.categories.len() && (#[trigger] before.categories[j]).name == name;
            if !before.has_category_named(last.1) {
                assert(after.categories[j].name == name);
            }
        }
        assert(after.has_category_named(last.1)) by {
            if !before.has_category_named(last.1) {
                assert(after.categories[before.categories.len() as int].name == last.1);
            }
        }
        assert forall|i: int| 0 <= i < given.len() implies after.has_category_named(
            (#[trigger] given[i]).1,
        ) by {
            if i < given.len() - 1 {
                assert(given.drop_last()[i] == given[i]);
                assert(before.has_category_named(given.drop_last()[i].1));
            }
        }
    }
}

/// Seeding categories whose names are all there changes nothing.
pub proof fn lemma_seeding_known_categories(db: Db, given: Seq<(u128, Seq<char>)>)
    requires
        forall|i: int| 0 <= i < given.len() ==> db.has_category_named((#[trigger] given[i]).1),
    ensures
        db.seed_categories(given) == (db, None::<Error>),
    decreases given.len(),
{
    if given.len() > 0 {
        assert forall|i: int| 0 <= i < given.drop_last().len() implies db.has_category_named(
            (#[trigger] given.drop_last()[i]).1,
        ) by {
            assert(given.drop_last()[i] == given[i]);
        }
        lemma_seeding_known_categories(db, given.drop_last());
        assert(given.last() == given[given.len() - 1]);
    }
}

/// Seeding keeps the tags that are there and ends with every seed's name
/// among the tags.
pub proof fn lemma_seeded_tags_are_there(db: Db, given: Seq<(u128, Seq<char>)>)
    requires
        db.seed_tags(given).1 is None,
    ensures
        forall|name: Seq<char>|
            db.has_tag_named(name) ==> #[trigger] db.seed_tags(given).0.has_tag_named(name),
        forall|i: int|
            0 <= i < given.len() ==> db.seed_tags(given).0.has_tag_named((#[trigger] given[i]).1),
        db.seed_tags(given).0.categories == db.categories,
    decreases given.len(),
{
    if given.len() > 0 {
        let before = db.seed_tags(given.drop_last()).0;
        let after = db.seed_tags(given).0;
        lemma_seeded_tags_are_there(db, given.drop_last());
        let last = given.last();
        assert forall|name: Seq<char>| before.has_tag_named(name) implies #[trigger]
            after.has_tag_named(name) by {
            let j = choose|j: int|
                0 <= j < before.tags.len() && (#[trigger] before.tags[j]).name == name;
            if !before.has_tag_named(last.1) {
                assert(after.tags[j].name == name);
            }
        }
        assert(after.has_tag_named(last.1)) by {
            if !before.has_tag_named(last.1) {
                assert(after.tags[before.tags.len() as int].name == last.1);
            }
        }
        assert forall|i: int| 0 <= i < given.len() implies after.has_tag_named(
            (#[trigger] given[i]).1,
        ) by {
            if i < given.len() - 1 {
                assert(given.drop_last()[i] == given[i]);
                assert(before.has_tag_named(given.drop_last()[i].1));
            }
        }
    }
}

/// Seeding tags whose names are all there changes nothing.
pub proof fn lemma_seeding_known_tags(db: Db, given: Seq<(u128, Seq<char>)>)
    requires
        forall|i: int| 0 <= i < given.len() ==> db.has_tag_named((#[trigger] given[i]).1),
    ensures
        db.seed_tags(given) == (db, None::<Error>),
    decreases given.len(),
{
    if given.len() > 0 {
        assert forall|i: int| 0 <= i < given.drop_last().len() implies db.has_tag_named(
            (#[trigger] given.drop_last()[i]).1,
        ) by {
            assert(given.drop_last()[i] == given[i]);
        }
        lemma_seeding_known_tags(db, given.drop_last());
        assert(given.last() == given[given.len() - 1]);
    }
}

/// A store that was initialized can be initialized again, and nothing
/// changes.
pub proof fn lemma_init_db_is_idempotent(db: Db)
    requires
        init_db_spec(db).1 is None,
    ensures
        init_db_spec(init_db_spec(db).0) == (init_db_spec(db).0, None::<Error>),
{
    let with_categories = db.seed_categories(default_categories()).0;
    let after = with_categories.seed_tags(default_tags()).0;
    lemma_seeded_categories_are_there(db, default_categories());
    lemma_seeded_tags_are_there(with_categories, default_tags());
    assert forall|i: int| 0 <= i < default_categories().len() implies after.has_category_named(
        (#[trigger] default_categories()[i]).1,
    ) by {
        assert(with_categories.has_category_named(default_categories()[i].1));
        assert(after.categories == with_categories.categories);
    }
    lemma_seeding_known_categories(after, default_categories());
    lemma_seeding_known_tags(after, default_tags());
}

} // verus!
