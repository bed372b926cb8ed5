use iron_nest::meals::{day_label_text, group_meals, planned_meals, Ingredient, ScheduledMeal};

fn meal(name: &str) -> ScheduledMeal {
    ScheduledMeal {
        recipie_name: name.to_string(),
        ingredients: Ingredient { name: "Doh".to_string(), amount: "1 lb".to_string() },
    }
}

#[test]
fn planned_meals_group_into_today_and_tomorrow() {
    let grouped = group_meals(planned_meals());
    assert_eq!(grouped.len(), 2);
    assert_eq!(grouped[0].0, "Today");
    assert_eq!(grouped[1].0, "Tomorrow");
    assert_eq!(grouped[0].1.len(), 1);
    assert_eq!(grouped[0].1[0].0.recipie_name, "Pancakes & Eggs");
    assert_eq!(grouped[0].1[0].1.recipie_name, "Grilled Chicken Salad");
    assert_eq!(grouped[0].1[0].2.recipie_name, "Spaghetti Bolognese");
    assert_eq!(grouped[1].1[0].0.recipie_name, "French Toast & Sausage");
    assert_eq!(grouped[1].1[0].1.recipie_name, "Turkey Club Sandwich");
    assert_eq!(grouped[1].1[0].2.recipie_name, "Grilled Salmon with Quinoa");
}

#[test]
fn incomplete_last_day_is_left_out() {
    let meals: Vec<ScheduledMeal> = (0..8).map(|i| meal(&format!("m{i}"))).collect();
    let grouped = group_meals(meals);
    assert_eq!(grouped.len(), 2);
    assert_eq!(grouped[1].1[0].2.recipie_name, "m5");
}

#[test]
fn third_day_and_later_are_numbered() {
    let meals: Vec<ScheduledMeal> = (0..12).map(|i| meal(&format!("m{i}"))).collect();
    let grouped = group_meals(meals);
    let labels: Vec<&str> = grouped.iter().map(|d| d.0.as_str()).collect();
    assert_eq!(labels, vec!["Today", "Tomorrow", "Day 3", "Day 4"]);
    assert_eq!(grouped[3].1[0].0.recipie_name, "m9");
}

#[test]
fn fewer_than_three_meals_give_no_day() {
    assert!(group_meals(vec![]).is_empty());
    assert!(group_meals(vec![meal("a"), meal("b")]).is_empty());
}

#[test]
fn day_labels() {
    assert_eq!(day_label_text(0), "Today");
    assert_eq!(day_label_text(1), "Tomorrow");
    assert_eq!(day_label_text(2), "Day 3");
    assert_eq!(day_label_text(9), "Day 10");
    assert_eq!(day_label_text(98), "Day 99");
}

#[test]
fn planned_meals_have_one_pound_of_dough() {
    let meals = planned_meals();
    assert_eq!(meals.len(), 6);
    assert!(meals.iter().all(|m| m.ingredients.name == "Doh" && m.ingredients.amount == "1 lb"));
}
