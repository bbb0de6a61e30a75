//! Baking: how many cookies a pantry yields for a recipe, and what is left
//! in the pantry afterwards.

use vstd::prelude::*;
use crate::text::same_text;

verus! {

/// One ingredient with an amount: what a recipe asks for, or what a pantry
/// holds.
#[derive(Debug)]
pub struct Ingredient {
    pub name: String,
    pub amount: usize,
}

/// Where `name` stands in a row of ingredients.
pub open spec fn stands_at(items: Seq<Ingredient>, name: Seq<char>, i: int) -> bool {
    0 <= i < items.len() && items[i].name@ == name
}

/// Whether no name stands twice in a row of ingredients.
pub open spec fn distinct_names(items: Seq<Ingredient>) -> bool {
    forall|i: int, j: int|
        0 <= i < j < items.len() ==> (#[trigger] items[i]).name@ != (#[trigger] items[j]).name@
}

/// The amounts of a row of ingredients, by name.
pub open spec fn amounts_of(items: Seq<Ingredient>) -> Map<Seq<char>, usize> {
    Map::new(
        |name: Seq<char>| exists|i: int| stands_at(items, name, i),
        |name: Seq<char>| items[choose|i: int| stands_at(items, name, i)].amount,
    )
}

/// Ingredients with their amounts, each name once: a recipe, or a pantry.
pub struct Stock {
    items: Vec<Ingredient>,
}

impl View for Stock {
    type V = Map<Seq<char>, usize>;

    closed spec fn view(&self) -> Map<Seq<char>, usize> {
        amounts_of(self.items@)
    }
}

impl Stock {
    #[verifier::type_invariant]
    closed spec fn names_once(self) -> bool {
        distinct_names(self.items@)
    }

    /// The ingredients in the order in which they were first put in.
    pub closed spec fn row(self) -> Seq<Ingredient> {
        self.items@
    }

    /// The view of a stock goes by its row, and no name stands twice in
    /// the row.
    pub proof fn row_is_view(&self)
        ensures
            self@ == amounts_of(self.row()),
    {
    }

    /// A stock without ingredients.
    pub fn new() -> (stock: Self)
        ensures
            stock@ == Map::<Seq<char>, usize>::empty(),
            stock.row().len() == 0,
    {
        let stock = Stock { items: Vec::new() };
        assert(stock@ =~= Map::empty());
        stock
    }

    fn find(&self, name: &str) -> (place: Option<usize>)
        ensures
            distinct_names(self.items@),
            match place {
                Some(i) => stands_at(self.items@, name@, i as int) && self@.contains_key(name@)
                    && self@[name@] == self.items@[i as int].amount,
                None => !self@.contains_key(name@),
            },
    {
        proof {
            use_type_invariant(self);
        }
        let n = self.items.len();
        let mut i: usize = 0;
        while i < n
            invariant
                i <= n,
                n == self.items@.len(),
                distinct_names(self.items@),
                forall|j: int| 0 <= j < i ==> !stands_at(self.items@, name@, j),
            decreases n - i,
        {
            if same_text(self.items[i].name.as_str(), name) {
                proof {
                    let chosen = choose|j: int| stands_at(self.items@, name@, j);
                    assert(stands_at(self.items@, name@, i as int));
                    assert(stands_at(self.items@, name@, chosen));
                    if chosen != i {
                        if chosen < i {
                            assert(self.items@[chosen].name@ != self.items@[i as int].name@);
                        } else {
                            assert(self.items@[i as int].name@ != self.items@[chosen].name@);
                        }
                    }
                }
                return Some(i);
            }
            i += 1;
        }
        None
    }

    /// The amount of `name`, if the stock has the ingredient.
    pub fn get(&self, name: &str) -> (amount: Option<usize>)
        ensures
            match amount {
                Some(value) => self@.contains_key(name@) && self@[name@] == value,
                None => !self@.contains_key(name@),
            },
    {
        match self.find(name) {
            Some(i) => Some(self.items[i].amount),
            None => None,
        }
    }

    /// Sets the amount of `name`, which is put in if the stock does not
    /// have it.
    pub fn insert(&mut self, name: String, amount: usize)
        ensures
            final(self)@ == old(self)@.insert(name@, amount),
    {
        let place = self.find(name.as_str());
        let ghost before = self.items@;
        match place {
            Some(i) => {
                let mut items: Vec<Ingredient> = Vec::new();
                core::mem::swap(&mut items, &mut self.items);
                items[i].amount = amount;
                proof {
                    assert(items@[i as int].name@ == name@);
                    assert forall|a: int, b: int| 0 <= a < b < items@.len() implies (
                    #[trigger] items@[a]).name@ != (#[trigger] items@[b]).name@ by {
                        assert(items@[a].name == before[a].name);
                        assert(items@[b].name == before[b].name);
                        assert(before[a].name@ != before[b].name@);
                    }
                }
                self.items = items;
                proof {
                    let after = self.items@;
                    assert forall|n: Seq<char>| amounts_of(after).contains_key(n) <==> amounts_of(
                        before,
                    ).insert(name@, amount).contains_key(n) by {
                        if amounts_of(after).contains_key(n) {
                            let k = choose|k: int| stands_at(after, n, k);
                            assert(stands_at(before, n, k));
                        }
                        if amounts_of(before).insert(name@, amount).contains_key(n) {
                            if n == name@ {
                                assert(stands_at(after, n, i as int));
                            } else {
                                let k = choose|k: int| stands_at(before, n, k);
                                assert(stands_at(after, n, k));
                            }
                        }
                    }
                    assert forall|n: Seq<char>| amounts_of(after).contains_key(n) implies amounts_of(
                        after,
                    )[n] == amounts_of(before).insert(name@, amount)[n] by {
                        let k = choose|k: int| stands_at(after, n, k);
                        assert(stands_at(before, n, k));
                        let old_k = choose|k: int| stands_at(before, n, k);
                        if old_k != k {
                            if old_k < k {
                                assert(before[old_k].name@ != before[k].name@);
                            } else {
                                assert(before[k].name@ != before[old_k].name@);
                            }
                        }
                        if n == name@ {
                            if k != i {
                                if k < i {
                                    assert(before[k].name@ != before[i as int].name@);
                                } else {
                                    assert(before[i as int].name@ != before[k].name@);
                                }
                            }
                        }
                    }
                    assert(amounts_of(after) =~= amounts_of(before).insert(name@, amount));
                }
            },
            None => {
                let mut items: Vec<Ingredient> = Vec::new();
                core::mem::swap(&mut items, &mut self.items);
                items.push(Ingredient { name, amount });
                proof {
                    assert forall|a: int, b: int| 0 <= a < b < items@.len() implies (
                    #[trigger] items@[a]).name@ != (#[trigger] items@[b]).name@ by {
                        if b == before.len() {
                            assert(!stands_at(before, name@, a));
                        } else {
                            assert(before[a].name@ != before[b].name@);
                        }
                    }
                }
                self.items = items;
                proof {
                    let after = self.items@;
                    let last = before.len() as int;
                    assert forall|n: Seq<char>| amounts_of(after).contains_key(n) <==> amounts_of(
                        before,
                    ).insert(name@, amount).contains_key(n) by {
                        if amounts_of(after).contains_key(n) {
                            let k = choose|k: int| stands_at(after, n, k);
                            if k < last {
                                assert(stands_at(before, n, k));
                            }
                        }
                        if amounts_of(before).insert(name@, amount).contains_key(n) {
                            if n == name@ {
                                assert(stands_at(after, n, last));
                            } else {
                                let k = choose|k: int| stands_at(before, n, k);
                                assert(stands_at(after, n, k));
                            }
                        }
                    }
                    assert forall|n: Seq<char>| amounts_of(after).contains_key(n) implies amounts_of(
                        after,
                    )[n] == amounts_of(before).insert(name@, amount)[n] by {
                        let k = choose|k: int| stands_at(after, n, k);
                        if n == name@ {
                            if k != last {
                                assert(stands_at(before, n, k));
                            }
                        } else {
                            assert(stands_at(before, n, k));
                            let old_k = choose|k: int| stands_at(before, n, k);
                            if old_k != k {
                                if old_k < k {
                                    assert(before[old_k].name@ != before[k].name@);
                                } else {
                                    assert(before[k].name@ != before[old_k].name@);
                                }
                            }
                        }
                    }
                    assert(amounts_of(after) =~= amounts_of(before).insert(name@, amount));
                }
            },
        }
    }

    /// The number of ingredients.
    pub fn len(&self) -> (n: usize)
        ensures
            n == self.row().len(),
    {
        self.items.len()
    }

    /// The ingredient at `i` of the row.
    pub fn entry(&self, i: usize) -> (item: &Ingredient)
        requires
            i < self.row().len(),
        ensures
            *item == self.row()[i as int],
            self@.contains_key(item.name@),
            self@[item.name@] == item.amount,
    {
        proof {
            use_type_invariant(self);
            let name = self.items@[i as int].name@;
            assert(stands_at(self.items@, name, i as int));
            let chosen = choose|j: int| stands_at(self.items@, name, j);
            if chosen != i {
                if chosen < i {
                    assert(self.items@[chosen].name@ != self.items@[i as int].name@);
                } else {
                    assert(self.items@[i as int].name@ != self.items@[chosen].name@);
                }
            }
        }
        &self.items[i]
    }
}

/// How many cookies one ingredient of the recipe allows: as many as one
/// likes where the recipe asks for none of it, none where the pantry lacks
/// it, and else as often as the amount asked for goes into the amount at
/// hand.
pub open spec fn quota(pantry: Map<Seq<char>, usize>, name: Seq<char>, needed: usize) -> nat {
    if needed == 0 {
        usize::MAX as nat
    } else if pantry.contains_key(name) {
        (pantry[name] / needed) as nat
    } else {
        0
    }
}

/// Whether `cookies` is the number of cookies that the pantry yields: the
/// least of what the ingredients of the recipe allow, and none for a recipe
/// without ingredients.
pub open spec fn is_yield(
    recipe: Map<Seq<char>, usize>,
    pantry: Map<Seq<char>, usize>,
    cookies: nat,
) -> bool {
    if recipe.dom() =~= Set::empty() {
        cookies == 0
    } else {
        &&& forall|name: Seq<char>| #[trigger]
            recipe.contains_key(name) ==> cookies <= quota(pantry, name, recipe[name])
        &&& exists|name: Seq<char>| #[trigger]
            recipe.contains_key(name) && cookies == quota(pantry, name, recipe[name])
    }
}

/// What is left of an ingredient after `cookies` cookies were baked.
pub open spec fn left_of(recipe: Map<Seq<char>, usize>, name: Seq<char>, at_hand: usize, cookies: nat) -> int {
    if recipe.contains_key(name) {
        at_hand - cookies * recipe[name]
    } else {
        at_hand as int
    }
}

/// Whether `after` is the pantry `before` once `cookies` cookies were baked
/// by the recipe: the same ingredients, each less by what the cookies took.
pub open spec fn is_pantry_after(
    recipe: Map<Seq<char>, usize>,
    before: Map<Seq<char>, usize>,
    after: Map<Seq<char>, usize>,
    cookies: nat,
) -> bool {
    &&& after.dom() =~= before.dom()
    &&& forall|name: Seq<char>| #[trigger]
        before.contains_key(name) ==> after[name] == left_of(recipe, name, before[name], cookies)
}

/// How many cookies the pantry yields for the recipe.
pub fn cookies_for(recipe: &Stock, pantry: &Stock) -> (cookies: usize)
    ensures
        is_yield(recipe@, pantry@, cookies as nat),
{
    let n = recipe.len();
    if n == 0 {
        proof {
            recipe.row_is_view();
            assert forall|name: Seq<char>| !recipe@.contains_key(name) by {
                if recipe@.contains_key(name) {
                    let i = choose|i: int| stands_at(recipe.row(), name, i);
                    assert(stands_at(recipe.row(), name, i));
                }
            }
            assert(recipe@.dom() =~= Set::empty());
        }
        return 0;
    }
    let mut least: usize = usize::MAX;
    let ghost mut witness: Seq<char> = recipe.row()[0].name@;
    let mut i: usize = 0;
    while i < n
        invariant
            i <= n,
            n == recipe.row().len(),
            n > 0,
            forall|j: int|
                0 <= j < i ==> least <= quota(
                    pantry@,
                    (#[trigger] recipe.row()[j]).name@,
                    recipe.row()[j].amount,
                ),
            i > 0 ==> recipe@.contains_key(witness) && least == quota(
                pantry@,
                witness,
                recipe@[witness],
            ),
        decreases n - i,
    {
        let item = recipe.entry(i);
        let allowed = if item.amount == 0 {
            usize::MAX
        } else {
            match pantry.get(item.name.as_str()) {
                Some(at_hand) => at_hand / item.amount,
                None => 0,
            }
        };
        assert(allowed == quota(pantry@, item.name@, item.amount));
        if i == 0 || allowed < least {
            least = allowed;
            proof {
                witness = item.name@;
            }
        }
        i += 1;
    }
    proof {
        recipe.row_is_view();
        assert(recipe@.contains_key(witness));
        assert forall|name: Seq<char>| #[trigger] recipe@.contains_key(name) implies least
            <= quota(pantry@, name, recipe@[name]) by {
            let k = choose|k: int| stands_at(recipe.row(), name, k);
            assert(stands_at(recipe.row(), name, k));
            assert(least <= quota(pantry@, recipe.row()[k].name@, recipe.row()[k].amount));
        }
    }
    least
}

/// Bakes as many cookies as the pantry yields for the recipe, and takes
/// what they need out of the pantry. Returns the number of cookies.
pub fn bake(recipe: &Stock, pantry: &mut Stock) -> (cookies: usize)
    ensures
        is_yield(recipe@, old(pantry)@, cookies as nat),
        is_pantry_after(recipe@, old(pantry)@, final(pantry)@, cookies as nat),
{
    let cookies = cookies_for(recipe, pantry);
    let n = recipe.len();
    let mut i: usize = 0;
    proof {
        recipe.row_is_view();
        use_type_invariant(recipe);
    }
    while i < n
        invariant
            i <= n,
            n == recipe.row().len(),
            recipe@ == amounts_of(recipe.row()),
            distinct_names(recipe.row()),
            is_yield(recipe@, old(pantry)@, cookies as nat),
            pantry@.dom() =~= old(pantry)@.dom(),
            forall|name: Seq<char>| #[trigger]
                old(pantry)@.contains_key(name) ==> pantry@[name] == if exists|j: int|
                    0 <= j < i && stands_at(recipe.row(), name, j) {
                    left_of(recipe@, name, old(pantry)@[name], cookies as nat)
                } else {
                    old(pantry)@[name] as int
                },
        decreases n - i,
    {
        let item = recipe.entry(i);
        let ghost name = item.name@;
        let ghost so_far = pantry@;
        assert(stands_at(recipe.row(), name, i as int));
        match pantry.get(item.name.as_str()) {
            Some(at_hand) => {
                proof {
                    assert(recipe@.contains_key(name));
                    assert(cookies <= quota(old(pantry)@, name, item.amount));
                    assert forall|j: int| 0 <= j < i implies !stands_at(recipe.row(), name, j) by {
                        if stands_at(recipe.row(), name, j) {
                            assert(recipe.row()[j].name@ != recipe.row()[i as int].name@);
                        }
                    }
                    assert(at_hand == old(pantry)@[name]);
                    if item.amount > 0 {
                        assert(cookies * item.amount <= at_hand) by (nonlinear_arith)
                            requires
                                cookies <= at_hand / item.amount,
                                item.amount > 0,
                        ;
                    } else {
                        assert(cookies * item.amount == 0) by (nonlinear_arith)
                            requires
                                item.amount == 0,
                        ;
                    }
                    assert(0 <= cookies * item.amount) by (nonlinear_arith)
                        requires
                            cookies >= 0,
                            item.amount >= 0,
                    ;
                }
                let taken = cookies * item.amount;
                pantry.insert(item.name.clone(), at_hand - taken);
                proof {
                    assert forall|other: Seq<char>| #[trigger]
                        old(pantry)@.contains_key(other) implies pantry@[other] == if exists|j: int|
                        0 <= j < i + 1 && stands_at(recipe.row(), other, j) {
                        left_of(recipe@, other, old(pantry)@[other], cookies as nat)
                    } else {
                        old(pantry)@[other] as int
                    } by {
                        if other == name {
                        } else {
                            assert(pantry@[other] == so_far[other]);
                            if exists|j: int| 0 <= j < i + 1 && stands_at(recipe.row(), other, j) {
                                let j = choose|j: int|
                                    0 <= j < i + 1 && stands_at(recipe.row(), other, j);
                                assert(j < i);
                            }
                        }
                    }
                }
            },
            None => {
                proof {
                    assert forall|other: Seq<char>| #[trigger]
                        old(pantry)@.contains_key(other) implies pantry@[other] == if exists|j: int|
                        0 <= j < i + 1 && stands_at(recipe.row(), other, j) {
                        left_of(recipe@, other, old(pantry)@[other], cookies as nat)
                    } else {
                        old(pantry)@[other] as int
                    } by {
                        assert(other != name);
                        if exists|j: int| 0 <= j < i + 1 && stands_at(recipe.row(), other, j) {
                            let j = choose|j: int|
                                0 <= j < i + 1 && stands_at(recipe.row(), other, j);
                            assert(j < i);
                        }
                    }
                }
            },
        }
        i += 1;
    }
    proof {
        assert forall|name: Seq<char>| #[trigger] old(pantry)@.contains_key(name) implies pantry@[name]
            == left_of(recipe@, name, old(pantry)@[name], cookies as nat) by {
            if recipe@.contains_key(name) {
                let k = choose|k: int| stands_at(recipe.row(), name, k);
                assert(stands_at(recipe.row(), name, k));
            } else {
                if exists|j: int| 0 <= j < n && stands_at(recipe.row(), name, j) {
                    let j = choose|j: int| 0 <= j < n && stands_at(recipe.row(), name, j);
                    assert(stands_at(recipe.row(), name, j));
                }
            }
        }
    }
    cookies
}

} // verus!
