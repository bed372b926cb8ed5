//! The planned-meals panel: scheduled meals grouped into days of three.
use vstd::prelude::*;
use crate::text::append_decimal;

verus! {

/// One ingredient of a recipe.
#[derive(Clone, Debug, PartialEq, Eq)]
pub struct Ingredient {
    pub name: String,
    pub amount: String,
}

/// One meal of the plan, in the order breakfast, lunch, dinner of each day.
#[derive(Clone, Debug, PartialEq, Eq)]
pub struct ScheduledMeal {
    pub recipie_name: String,
    pub ingredients: Ingredient,
}

/// Breakfast, lunch and dinner of one day.
pub type DayMeals = (ScheduledMeal, ScheduledMeal, ScheduledMeal);

/// The days of the plan, each with its label.
pub type PlannedMealsData = Vec<(String, Vec<DayMeals>)>;

/// The label of the day at `index` (counting from today).
pub open spec fn day_label(index: nat) -> Seq<char> {
    if index == 0 {
        "Today"@
    } else if index == 1 {
        "Tomorrow"@
    } else {
        "Day "@ + crate::text::decimal(index + 1)
    }
}

/// Only the first day is labelled "Today" and only the second "Tomorrow";
/// every later day at `index` is "Day " and its number counted from 1.
pub proof fn law_day_labels(index: nat)
    ensures
        day_label(index) == "Today"@ <==> index == 0,
        day_label(index) == "Tomorrow"@ <==> index == 1,
        index >= 2 ==> day_label(index) == "Day "@ + crate::text::decimal(index + 1),
{
    reveal_strlit("Today");
    reveal_strlit("Tomorrow");
    reveal_strlit("Day ");
    assert("Today"@.len() != "Tomorrow"@.len());
    if index >= 2 {
        let l = day_label(index);
        assert(l[1] == 'a');
        assert("Today"@[1] == 'o' && "Tomorrow"@[1] == 'o');
    }
}

/// The meals of day `k`: the `k`-th run of three consecutive meals.
pub open spec fn day_of(meals: Seq<ScheduledMeal>, k: int) -> DayMeals {
    (meals[3 * k], meals[3 * k + 1], meals[3 * k + 2])
}

/// The label of the day at `index`: "Today", "Tomorrow", then "Day 3", "Day 4", ...
pub fn day_label_text(index: usize) -> (r: String)
    requires
        index < usize::MAX,
    ensures
        r@ == day_label(index as nat),
{
    if index == 0 {
        String::from_str("Today")
    } else if index == 1 {
        String::from_str("Tomorrow")
    } else {
        let mut s = String::from_str("Day ");
        let n: u64 = index as u64;
        append_decimal(&mut s, n + 1);
        s
    }
}

/// Groups the meals into days of three (breakfast, lunch, dinner); a last run
/// of fewer than three meals is left out.
pub fn group_meals(scheduled_meals: Vec<ScheduledMeal>) -> (r: PlannedMealsData)
    ensures
        r.len() == scheduled_meals.len() / 3,
        forall|k: int|
            0 <= k < r.len() ==> {
                &&& (#[trigger] r[k]).0@ == day_label(k as nat)
                &&& r[k].1@ == seq![day_of(scheduled_meals@, k)]
            },
{
    let ghost meals = scheduled_meals@;
    let _total: usize = scheduled_meals.len();
    let mut rest = scheduled_meals;
    let mut result: PlannedMealsData = Vec::new();
    let mut k: usize = 0;
    while rest.len() >= 3
        invariant
            3 * k <= meals.len(),
            meals.len() <= usize::MAX,
            rest@ == meals.subrange(3 * k as int, meals.len() as int),
            result.len() == k,
            forall|j: int|
                0 <= j < k ==> {
                    &&& (#[trigger] result[j]).0@ == day_label(j as nat)
                    &&& result[j].1@ == seq![day_of(meals, j)]
                },
        decreases rest.len(),
    {
        let breakfast = rest.remove(0);
        let lunch = rest.remove(0);
        let dinner = rest.remove(0);
        let label = day_label_text(k);
        let mut day: Vec<DayMeals> = Vec::new();
        day.push((breakfast, lunch, dinner));
        proof {
            assert(day@ =~= seq![day_of(meals, k as int)]);
            assert(rest@ =~= meals.subrange(3 * (k + 1) as int, meals.len() as int));
        }
        result.push((label, day));
        k = k + 1;
    }
    result
}

/// A meal with a single ingredient.
fn meal(recipe: &str, ingredient: &str, amount: &str) -> (r: ScheduledMeal)
    ensures
        r.recipie_name@ == recipe@,
        r.ingredients.name@ == ingredient@,
        r.ingredients.amount@ == amount@,
{
    ScheduledMeal {
        recipie_name: String::from_str(recipe),
        ingredients: Ingredient { name: String::from_str(ingredient), amount: String::from_str(amount) },
    }
}

/// The recipes of the meal plan the dashboard shows.
pub open spec fn planned_recipes() -> Seq<Seq<char>> {
    seq![
        "Pancakes & Eggs"@,
        "Grilled Chicken Salad"@,
        "Spaghetti Bolognese"@,
        "French Toast & Sausage"@,
        "Turkey Club Sandwich"@,
        "Grilled Salmon with Quinoa"@,
    ]
}

/// The meal plan the dashboard shows: six meals, two days of breakfast,
/// lunch and dinner, each with one pound of dough as its ingredient.
pub fn planned_meals() -> (r: Vec<ScheduledMeal>)
    ensures
        r.len() == 6,
        forall|i: int|
            0 <= i < 6 ==> {
                &&& (#[trigger] r@[i]).recipie_name@ == planned_recipes()[i]
                &&& r@[i].ingredients.name@ == "Doh"@
                &&& r@[i].ingredients.amount@ == "1 lb"@
            },
{
    let mut meals: Vec<ScheduledMeal> = Vec::new();
    meals.push(meal("Pancakes & Eggs", "Doh", "1 lb"));
    meals.push(meal("Grilled Chicken Salad", "Doh", "1 lb"));
    meals.push(meal("Spaghetti Bolognese", "Doh", "1 lb"));
    meals.push(meal("French Toast & Sausage", "Doh", "1 lb"));
    meals.push(meal("Turkey Club Sandwich", "Doh", "1 lb"));
    meals.push(meal("Grilled Salmon with Quinoa", "Doh", "1 lb"));
    meals
}

} // verus!
