use product_lifecycle::model::Error;
use product_lifecycle::reference::{
    categories_to_seed, get_categories, get_tags, init_db, tags_to_seed,
};
use product_lifecycle::store::Store;

const HANDCRAFTS: u128 = 0x11111111_1111_1111_1111_111111111111;
const NATURAL: u128 = 0xeeeeeeee_eeee_eeee_eeee_eeeeeeeeeeee;

fn names_of_categories(store: &Store) -> Vec<(u128, String)> {
    get_categories(store).into_iter().map(|c| (c.id, c.name)).collect()
}

fn names_of_tags(store: &Store) -> Vec<(u128, String)> {
    get_tags(store).into_iter().map(|t| (t.id, t.name)).collect()
}

#[test]
fn default_categories_are_the_six_of_the_marketplace() {
    let expected: Vec<(u128, String)> = [
        (0x11111111_1111_1111_1111_111111111111u128, "Handcrafts"),
        (0x22222222_2222_2222_2222_222222222222, "Food & Drinks"),
        (0x33333333_3333_3333_3333_333333333333, "Clothing & Fashion"),
        (0x44444444_4444_4444_4444_444444444444, "Home & Decor"),
        (0x55555555_5555_5555_5555_555555555555, "Art & Collectibles"),
        (0x66666666_6666_6666_6666_666666666666, "Agriculture"),
    ]
    .into_iter()
    .map(|(id, name)| (id, name.to_string()))
    .collect();
    assert_eq!(categories_to_seed(), expected);
}

#[test]
fn default_tags_are_the_eight_of_the_marketplace() {
    let expected: Vec<(u128, String)> = [
        (0x77777777_7777_7777_7777_777777777777u128, "Handmade"),
        (0x88888888_8888_8888_8888_888888888888, "Organic"),
        (0x99999999_9999_9999_9999_999999999999, "Fair Trade"),
        (0xaaaaaaaa_aaaa_aaaa_aaaa_aaaaaaaaaaaa, "Traditional"),
        (0xbbbbbbbb_bbbb_bbbb_bbbb_bbbbbbbbbbbb, "Sustainable"),
        (0xcccccccc_cccc_cccc_cccc_cccccccccccc, "Eco-friendly"),
        (0xdddddddd_dddd_dddd_dddd_dddddddddddd, "Vegan"),
        (0xeeeeeeee_eeee_eeee_eeee_eeeeeeeeeeee, "Natural"),
    ]
    .into_iter()
    .map(|(id, name)| (id, name.to_string()))
    .collect();
    assert_eq!(tags_to_seed(), expected);
}

#[test]
fn init_db_seeds_an_empty_store() {
    let mut store = Store::new();
    assert_eq!(init_db(&mut store), Ok(()));
    assert_eq!(names_of_categories(&store), categories_to_seed());
    assert_eq!(names_of_tags(&store), tags_to_seed());
    assert!(store.list_products().is_empty());
}

#[test]
fn init_db_can_be_repeated() {
    let mut store = Store::new();
    init_db(&mut store).unwrap();
    let categories = get_categories(&store);
    let tags = get_tags(&store);
    assert_eq!(init_db(&mut store), Ok(()));
    assert_eq!(get_categories(&store), categories);
    assert_eq!(get_tags(&store), tags);
}

#[test]
fn init_db_leaves_known_names_alone() {
    let mut store = Store::new();
    store.add_category(1, "Agriculture".to_string()).unwrap();
    store.add_tag(2, "Vegan".to_string()).unwrap();
    assert_eq!(init_db(&mut store), Ok(()));
    let categories = names_of_categories(&store);
    assert_eq!(categories.len(), 6);
    assert_eq!(categories[0], (1, "Agriculture".to_string()));
    assert_eq!(categories[1], (HANDCRAFTS, "Handcrafts".to_string()));
    let tags = names_of_tags(&store);
    assert_eq!(tags.len(), 8);
    assert_eq!(tags[0], (2, "Vegan".to_string()));
    assert_eq!(tags[7], (NATURAL, "Natural".to_string()));
}

#[test]
fn init_db_fails_as_a_whole_when_an_identifier_is_taken() {
    let mut store = Store::new();
    store.add_category(0x33333333_3333_3333_3333_333333333333, "Toys".to_string()).unwrap();
    let before = get_categories(&store);
    assert_eq!(init_db(&mut store), Err(Error::ConstraintViolation));
    assert_eq!(get_categories(&store), before);
    assert!(get_tags(&store).is_empty());
}

#[test]
fn init_db_keeps_the_categories_when_the_tags_fail() {
    let mut store = Store::new();
    store.add_tag(NATURAL, "Raw".to_string()).unwrap();
    let before = get_tags(&store);
    assert_eq!(init_db(&mut store), Err(Error::ConstraintViolation));
    assert_eq!(names_of_categories(&store), categories_to_seed());
    assert_eq!(get_tags(&store), before);
}

#[test]
fn seeding_is_all_or_nothing() {
    let mut store = Store::new();
    store.add_category(3, "Taken".to_string()).unwrap();
    let given = vec![(1, "One".to_string()), (2, "Two".to_string()), (3, "Three".to_string())];
    assert_eq!(store.seed_categories(&given), Err(Error::ConstraintViolation));
    assert_eq!(names_of_categories(&store), vec![(3, "Taken".to_string())]);
    let given = vec![(1, "One".to_string()), (9, "Taken".to_string()), (2, "Two".to_string())];
    assert_eq!(store.seed_categories(&given), Ok(()));
    assert_eq!(
        names_of_categories(&store),
        vec![(3, "Taken".to_string()), (1, "One".to_string()), (2, "Two".to_string())]
    );
    assert_eq!(store.seed_tags(&given), Ok(()));
    assert_eq!(names_of_tags(&store), given);
    let clash = vec![(4, "Four".to_string()), (1, "Uno".to_string())];
    assert_eq!(store.seed_tags(&clash), Err(Error::ConstraintViolation));
    assert_eq!(names_of_tags(&store), given);
}
