use deep_print::deep_print_schema::{Element, ElementData, LineProps};
use deep_print::graph::sort_links;
use deep_print::layout::{find_id, links_of, place, LayoutCache, LayoutError};
use deep_print::renderer::DeepPrintRenderer;

fn element(id: &str, linked_to: Option<&str>) -> Element {
    Element {
        id: id.to_string(),
        x: 0,
        y: 0,
        w: 10_000,
        h: 10_000,
        linked_to: linked_to.map(|s| s.to_string()),
        data: ElementData::Line(LineProps { stroke_width: None, stroke_color: None, dash_array: None }),
    }
}

fn position(order: &Vec<usize>, node: usize) -> usize {
    order.iter().position(|&n| n == node).unwrap()
}

#[test]
fn unlinked_elements_keep_their_order() {
    let elements = vec![element("a", None), element("b", None), element("c", None)];
    let order = DeepPrintRenderer::new().topological_sort(&elements);
    assert_eq!(order, Ok(vec![0, 1, 2]));
}

#[test]
fn an_anchor_is_drawn_before_what_is_linked_to_it() {
    let elements = vec![
        element("footer", Some("body")),
        element("body", Some("header")),
        element("header", None),
        element("side", None),
    ];
    let order = DeepPrintRenderer::new().topological_sort(&elements).unwrap();
    assert_eq!(order, vec![2, 1, 0, 3]);
    assert!(position(&order, 2) < position(&order, 1));
    assert!(position(&order, 1) < position(&order, 0));
}

#[test]
fn every_linked_element_follows_its_anchor() {
    let elements = vec![
        element("e0", Some("e3")),
        element("e1", Some("e0")),
        element("e2", None),
        element("e3", Some("e2")),
        element("e4", Some("e3")),
        element("e5", Some("e1")),
        element("e6", Some("nowhere")),
    ];
    let order = DeepPrintRenderer::new().topological_sort(&elements).unwrap();
    assert_eq!(order, vec![2, 3, 0, 1, 4, 5, 6]);
    let links = links_of(&elements);
    for (node, link) in links.iter().enumerate() {
        if let Some(anchor) = link {
            assert!(position(&order, *anchor) < position(&order, node));
        }
    }
    let mut seen = order.clone();
    seen.sort();
    assert_eq!(seen, vec![0, 1, 2, 3, 4, 5, 6]);
}

#[test]
fn a_cycle_of_two_is_an_error() {
    let elements = vec![element("A", Some("B")), element("B", Some("A"))];
    let r = DeepPrintRenderer::new().topological_sort(&elements);
    assert_eq!(r, Err(LayoutError::Cycle("A".to_string())));
}

#[test]
fn an_element_linked_to_itself_is_a_cycle() {
    let elements = vec![element("first", None), element("self", Some("self"))];
    let r = DeepPrintRenderer::new().topological_sort(&elements);
    assert_eq!(r, Err(LayoutError::Cycle("self".to_string())));
}

#[test]
fn a_chain_into_a_cycle_names_an_element_on_the_cycle() {
    let elements = vec![
        element("tail", Some("x")),
        element("x", Some("y")),
        element("y", Some("z")),
        element("z", Some("x")),
    ];
    let r = DeepPrintRenderer::new().topological_sort(&elements);
    assert_eq!(r, Err(LayoutError::Cycle("x".to_string())));
}

#[test]
fn a_link_to_an_unknown_id_is_no_link() {
    let elements = vec![element("A", Some("ghost"))];
    assert_eq!(links_of(&elements), vec![None]);
    assert_eq!(DeepPrintRenderer::new().topological_sort(&elements), Ok(vec![0]));
}

#[test]
fn no_elements_sort_to_nothing() {
    let elements: Vec<Element> = Vec::new();
    assert_eq!(DeepPrintRenderer::new().topological_sort(&elements), Ok(vec![]));
}

#[test]
fn links_lead_to_the_first_element_of_an_id() {
    let elements = vec![
        element("a", Some("b")),
        element("b", None),
        element("b", Some("a")),
        element("c", Some("c")),
    ];
    assert_eq!(links_of(&elements), vec![Some(1), None, Some(0), Some(3)]);
    assert_eq!(find_id(&elements, "b"), Some(1));
    assert_eq!(find_id(&elements, "c"), Some(3));
    assert_eq!(find_id(&elements, "d"), None);
}

#[test]
fn sort_links_orders_a_graph() {
    assert_eq!(sort_links(&vec![Some(1), Some(2), None]), Ok(vec![2, 1, 0]));
    assert_eq!(sort_links(&vec![None, Some(0), Some(0)]), Ok(vec![0, 1, 2]));
    assert_eq!(sort_links(&vec![Some(2), None, Some(1)]), Ok(vec![1, 2, 0]));
    assert_eq!(sort_links(&vec![]), Ok(vec![]));
    assert_eq!(sort_links(&vec![Some(0)]), Err(0));
    assert_eq!(sort_links(&vec![None, Some(2), Some(3), Some(1)]), Err(1));
    assert_eq!(sort_links(&vec![Some(1), Some(2), Some(1)]), Err(1));
}

#[test]
fn sort_links_handles_a_long_chain() {
    let n = 2000;
    let mut links: Vec<Option<usize>> = Vec::new();
    for i in 0..n {
        links.push(if i + 1 < n { Some(i + 1) } else { None });
    }
    let order = sort_links(&links).unwrap();
    let expected: Vec<usize> = (0..n).rev().collect();
    assert_eq!(order, expected);
}

#[test]
fn cache_keeps_the_latest_placement_of_an_id() {
    let mut cache = LayoutCache::new();
    assert_eq!(cache.get("a"), None);
    cache.insert("a".to_string(), 10, 20);
    cache.insert("b".to_string(), 30, 40);
    assert_eq!(cache.get("a"), Some((10, 20)));
    assert_eq!(cache.get("b"), Some((30, 40)));
    cache.insert("a".to_string(), 50, 60);
    assert_eq!(cache.get("a"), Some((50, 60)));
    assert_eq!(cache.get("c"), None);
}

#[test]
fn place_adds_the_gap_to_the_bottom_of_the_anchor() {
    let mut cache = LayoutCache::new();
    cache.insert("H".to_string(), 20_000, 30_000);
    assert_eq!(place(5_000, &Some("H".to_string()), &cache), (55_000, 50_000));
    assert_eq!(place(-5_000, &Some("H".to_string()), &cache), (45_000, 50_000));
}

#[test]
fn place_is_absolute_without_a_placed_anchor() {
    let mut cache = LayoutCache::new();
    cache.insert("H".to_string(), 20_000, 30_000);
    assert_eq!(place(7_000, &None, &cache), (7_000, 0));
    assert_eq!(place(7_000, &Some("ghost".to_string()), &cache), (7_000, 0));
}

#[test]
fn place_holds_at_the_ends_of_the_range() {
    let mut cache = LayoutCache::new();
    cache.insert("H".to_string(), i64::MAX, 1);
    assert_eq!(place(-1, &Some("H".to_string()), &cache), (i64::MAX - 1, i64::MAX));
    assert_eq!(place(1, &Some("H".to_string()), &cache), (i64::MAX, i64::MAX));
}
