use photothing::pagination::{paginate, Page, Pagination, DEFAULT_PER_PAGE};
use photothing::album::Album;

fn items(form: &[(&str, &str)]) -> Vec<(String, String)> {
    form.iter().map(|(k, v)| (String::from(*k), String::from(*v))).collect()
}

fn album_rows(ids: &[i32]) -> Vec<Album> {
    ids.iter().map(|id| Album { id: *id, user_id: 1, name: None, created_at: 0 }).collect()
}

#[test]
fn pagination_from_request() {
    let form = items(&[("key", "3"), ("page_size", "21")]);
    let parsed = Pagination::from_form(&form);
    assert_eq!(parsed.key, Some(3), "got key");
    assert_eq!(parsed.per_page, 21, "got page size");
}

#[test]
fn pagination_defaults() {
    let form = items(&[("wrong", "foo"), ("args", "only")]);
    let parsed = Pagination::from_form(&form);
    assert_eq!(parsed.key, None, "got default key");
    assert_eq!(parsed.per_page, DEFAULT_PER_PAGE, "got default page size");
}

#[test]
fn pagination_wrong_types() {
    let form = items(&[("key", "beep"), ("page_size", "bop")]);
    let parsed = Pagination::from_form(&form);
    assert_eq!(parsed.key, None, "got key");
    assert_eq!(parsed.per_page, DEFAULT_PER_PAGE, "got page size");
}

#[test]
fn page_map_items() {
    let pg: Page<i32> = Page { items: vec![1, 2, 3], key: Some(11), next_key: Some(55), remaining: 1 };
    let mapped = Page { items: vec![1, 2, 3], key: Some(11), next_key: Some(55), remaining: 1 }
        .map_items(|items: Vec<i32>| items.into_iter().map(|i: i32| i.to_string()).collect());
    assert_eq!(mapped.items, vec!["1", "2", "3"]);
    assert_eq!(pg.key, mapped.key);
    assert_eq!(pg.next_key, mapped.next_key);
    assert_eq!(pg.remaining, mapped.remaining);
}

#[test]
fn page_map_each_item() {
    let pg: Page<i32> = Page { items: vec![1, 2, 3], key: None, next_key: Some(3), remaining: 0 };
    let doubled = pg.map(|i: i32| i * 2);
    assert_eq!(doubled.items, vec![2, 4, 6]);
    assert_eq!(doubled.next_key, Some(3));
    assert_eq!(doubled.remaining, 0);
}

#[test]
fn pagination_signed_values() {
    let form = items(&[("key", "-3"), ("page_size", "+21")]);
    let parsed = Pagination::from_form(&form);
    assert_eq!(parsed.key, Some(-3), "negative key accepted");
    assert_eq!(parsed.per_page, 21, "plus-signed page size accepted");

    let form = items(&[("page_size", "-5")]);
    let parsed = Pagination::from_form(&form);
    assert_eq!(parsed.per_page, DEFAULT_PER_PAGE, "negative page size defaults");
}

#[test]
fn first_page_counts() {
    // seven rows, page of five: five back, two remaining, cursor = max id
    let rows = album_rows(&[2, 3, 5, 8, 13, 21, 34]);
    let page: Page<Album> = paginate(&rows, Pagination::new(None, Some(5)));
    assert_eq!(page.items.len(), 5);
    assert_eq!(page.items.iter().map(|a| a.id).collect::<Vec<i32>>(), vec![2, 3, 5, 8, 13]);
    assert_eq!(page.remaining, 2);
    assert_eq!(page.next_key, Some(34), "cursor is the greatest id of the whole set");
}

#[test]
fn keyed_page_resumes_after_cursor() {
    let rows = album_rows(&[2, 3, 5, 8, 13, 21, 34]);
    let page: Page<Album> = paginate(&rows, Pagination::new(Some(5), Some(3)));
    assert_eq!(page.items.iter().map(|a| a.id).collect::<Vec<i32>>(), vec![8, 13, 21]);
    assert_eq!(page.remaining, 4, "remaining counts against the whole result set");
    assert_eq!(page.next_key, Some(34));
}

#[test]
fn page_past_the_end_is_empty() {
    let rows = album_rows(&[2, 3, 5]);
    let page: Page<Album> = paginate(&rows, Pagination::new(Some(5), None));
    assert!(page.is_empty());
    assert_eq!(page.remaining, 0, "an empty page reports nothing remaining");
    assert_eq!(page.next_key, None);
}

#[test]
fn empty_table_pages_empty() {
    let rows = album_rows(&[]);
    let page: Page<Album> = paginate(&rows, Pagination::first());
    assert!(page.is_empty());
    assert_eq!(page.remaining, 0);
    assert_eq!(page.next_key, None);
    let empty: Page<Album> = Page::empty();
    assert_eq!(empty.remaining, 0);
    assert!(empty.is_empty());
}
