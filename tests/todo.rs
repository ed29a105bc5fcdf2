use infoapp::todo::{
    filter_items, format_items, get_item_by_id, matches_filter, parse_items, Todo, TodoItem,
};

fn sample() -> Vec<TodoItem> {
    vec![
        TodoItem::new(0, "Buy Milk".to_string(), false),
        TodoItem::new(1, "walk the dog".to_string(), true),
        TodoItem::new(2, "MILKSHAKE".to_string(), false),
    ]
}

#[test]
fn empty_item_has_no_text() {
    let item = TodoItem::empty(4);
    assert_eq!(item.id, 4);
    assert!(item.text.is_empty());
    assert!(!item.done);
}

#[test]
fn new_list_counts_ids_from_length() {
    let todo = Todo::new(sample());
    assert_eq!(todo.next_id, 3);
    assert_eq!(todo.items.len(), 3);
    assert!(todo.filter_value.is_empty());
}

#[test]
fn add_item_appends_empty_with_next_id() {
    let mut todo = Todo::new(sample());
    todo.add_item();
    assert_eq!(todo.next_id, 4);
    assert_eq!(todo.items.len(), 4);
    assert_eq!(todo.items[3].id, 3);
    assert!(todo.items[3].text.is_empty());
}

#[test]
fn filter_ignores_case() {
    let items = sample();
    assert_eq!(filter_items(&items, "milk"), vec![0, 2]);
    assert_eq!(filter_items(&items, "DOG"), vec![1]);
    assert_eq!(filter_items(&items, ""), vec![0, 1, 2]);
    assert_eq!(filter_items(&items, "cat"), Vec::<usize>::new());
    assert!(matches_filter("abc", "b"));
    assert!(!matches_filter("abc", "B"));
}

#[test]
fn delete_removes_listed_ids() {
    let mut todo = Todo::new(sample());
    todo.delete(vec![2, 0, 9]);
    let ids: Vec<usize> = todo.items.iter().map(|i| i.id).collect();
    assert_eq!(ids, vec![1]);
    assert_eq!(todo.next_id, 3);
    todo.delete(vec![]);
    assert_eq!(todo.items.len(), 1);
}

#[test]
fn lookup_by_id_edits_in_place() {
    let mut items = sample();
    {
        let item = get_item_by_id(&mut items, &1).expect("present");
        item.done = false;
        item.text = "walk the cat".to_string();
    }
    assert_eq!(items[1].text, "walk the cat");
    assert!(!items[1].done);
    assert!(get_item_by_id(&mut items, &7).is_none());
}

#[test]
fn stored_lines_are_read_with_line_ids() {
    let items = parse_items("7::true::Buy milk\n3::false::\r\n9::false\n").expect("well formed");
    assert_eq!(items.len(), 3);
    assert_eq!(items[0].id, 0);
    assert!(items[0].done);
    assert_eq!(items[0].text, "Buy milk");
    assert_eq!(items[1].id, 1);
    assert!(!items[1].done);
    assert!(items[1].text.is_empty());
    assert_eq!(items[2].id, 2);
    assert!(items[2].text.is_empty());
    assert_eq!(parse_items("").map(|v| v.len()), Some(0));
}

#[test]
fn corrupt_stored_lines_are_refused() {
    assert!(parse_items("0::yes::text").is_none());
    assert!(parse_items("0::true::ok\nlonely").is_none());
}

#[test]
fn items_are_stored_one_line_each() {
    let mut items = sample();
    items.push(TodoItem::empty(12));
    items.push(TodoItem::new(345, "a::b".to_string(), true));
    assert_eq!(
        format_items(&items),
        "0::false::Buy Milk\n1::true::walk the dog\n2::false::MILKSHAKE\n345::true::a::b\n"
    );
    assert_eq!(format_items(&[]), "");
}
