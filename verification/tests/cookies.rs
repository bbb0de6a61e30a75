use cch23_challenge::cookies::bake;
use cch23_challenge::cookies::cookies_for;
use cch23_challenge::cookies::Stock;

fn stock(items: &[(&str, usize)]) -> Stock {
    let mut stock = Stock::new();
    for (name, amount) in items {
        stock.insert(name.to_string(), *amount);
    }
    stock
}

fn amounts(stock: &Stock) -> Vec<(String, usize)> {
    let mut all = Vec::new();
    for i in 0..stock.len() {
        let item = stock.entry(i);
        all.push((item.name.clone(), item.amount));
    }
    all
}

#[test]
fn pantry_yields_four_cookies() {
    let recipe = stock(&[
        ("flour", 95),
        ("sugar", 50),
        ("butter", 30),
        ("baking powder", 10),
        ("chocolate chips", 50),
    ]);
    let mut pantry = stock(&[
        ("flour", 385),
        ("sugar", 507),
        ("butter", 2122),
        ("baking powder", 865),
        ("chocolate chips", 457),
    ]);
    assert_eq!(bake(&recipe, &mut pantry), 4);
    assert_eq!(pantry.get("flour"), Some(5));
    assert_eq!(pantry.get("sugar"), Some(307));
    assert_eq!(pantry.get("butter"), Some(2002));
    assert_eq!(pantry.get("baking powder"), Some(825));
    assert_eq!(pantry.get("chocolate chips"), Some(257));
    assert_eq!(pantry.len(), 5);
}

#[test]
fn missing_ingredient_means_no_cookies() {
    let recipe = stock(&[("flour", 10), ("cocoa", 1)]);
    let mut pantry = stock(&[("flour", 100), ("salt", 3)]);
    assert_eq!(bake(&recipe, &mut pantry), 0);
    assert_eq!(amounts(&pantry), vec![("flour".to_string(), 100), ("salt".to_string(), 3)]);
}

#[test]
fn ingredient_asked_for_in_no_amount_sets_no_limit() {
    let recipe = stock(&[("slime", 0), ("cocoa bean", 1)]);
    let mut pantry = stock(&[("cocoa bean", 5), ("corn", 5), ("cucumber", 0)]);
    assert_eq!(bake(&recipe, &mut pantry), 5);
    assert_eq!(pantry.get("cocoa bean"), Some(0));
    assert_eq!(pantry.get("corn"), Some(5));
    assert_eq!(pantry.get("cucumber"), Some(0));
    assert_eq!(pantry.get("slime"), None);
}

#[test]
fn recipe_that_asks_for_nothing_at_all() {
    let recipe = stock(&[("air", 0)]);
    let mut pantry = stock(&[("air", 7)]);
    assert_eq!(cookies_for(&recipe, &pantry), usize::MAX);
    assert_eq!(bake(&recipe, &mut pantry), usize::MAX);
    assert_eq!(pantry.get("air"), Some(7));
}

#[test]
fn empty_recipe_bakes_nothing() {
    let recipe = Stock::new();
    let mut pantry = stock(&[("flour", 7)]);
    assert_eq!(bake(&recipe, &mut pantry), 0);
    assert_eq!(pantry.get("flour"), Some(7));
}

#[test]
fn stock_keeps_each_name_once() {
    let mut pantry = stock(&[("flour", 7), ("sugar", 1)]);
    pantry.insert("flour".to_string(), 9);
    assert_eq!(pantry.len(), 2);
    assert_eq!(pantry.get("flour"), Some(9));
    assert_eq!(amounts(&pantry), vec![("flour".to_string(), 9), ("sugar".to_string(), 1)]);
}
