use cinema_scrape::page::Page;

fn text(v: &Vec<char>) -> String {
    v.iter().collect()
}

const HTML: &str = r#"<html><head><title>T</title></head><body><div id="a"><p class="x">one <b>two</b></p><p>three</p></div><p class="x" data-k="v">four</p><!-- note --></body></html>"#;

#[test]
fn page_nodes_stand_in_document_order_with_their_depths() {
    let page = Page::parse(HTML, &vec!["p", "p.x", "#a", "b", "p[", "html"], &vec!["class", "data-k", "id"]);
    assert_eq!(page.select(5), vec![0]);
    assert_eq!(page.nodes[0].depth + 1, page.nodes[1].depth);
    let div = page.first(2).unwrap();
    let ps = page.select(0);
    assert_eq!(ps.len(), 3);
    assert_eq!(page.select_in(div, 0), vec![ps[0], ps[1]]);
    assert_eq!(page.select(1), vec![ps[0], ps[2]]);
    assert_eq!(page.select(4).len(), 0);
    assert_eq!(page.select(9).len(), 0);
    assert_eq!(page.first_in(div, 3), page.first(3));
    assert_eq!(page.first_in(ps[1], 3), None);
    assert_eq!(page.parent(ps[0]), Some(div));
    assert_eq!(page.parent(page.first(3).unwrap()), Some(ps[0]));
    assert_eq!(page.parent(0), None);
    assert_eq!(page.end_of(0), page.len());
    assert!(page.end_of(div) <= ps[2]);
    assert_eq!(text(&page.line(ps[0])), "one two");
    assert_eq!(text(&page.run(ps[0])), "one two");
    assert_eq!(text(&page.line(div)), "one two three");
    assert_eq!(text(&page.run(div)), "one twothree");
    let all: Vec<String> = page.all_texts().iter().map(text).collect();
    assert_eq!(all, vec!["T", "one ", "two", "three", "four"]);
    assert_eq!(page.attr(ps[2], 0).map(|v| text(&v)), Some("x".to_string()));
    assert_eq!(page.attr(ps[2], 1).map(|v| text(&v)), Some("v".to_string()));
    assert_eq!(page.attr(ps[1], 0), None);
    assert_eq!(page.attr(div, 2).map(|v| text(&v)), Some("a".to_string()));
    assert_eq!(page.attr(div, 7), None);
    let classes: Vec<String> = page.attr_values(0, 0).iter().map(text).collect();
    assert_eq!(classes, vec!["x", "x"]);
    let paragraphs: Vec<String> = page.paragraphs_of(0).iter().map(text).collect();
    assert_eq!(paragraphs, vec!["one two", "three", "four"]);
}

#[test]
fn page_queries_beyond_the_page_find_nothing() {
    let page = Page::parse("<p>x</p>", &vec!["p"], &vec!["id"]);
    let n = page.len();
    assert_eq!(page.end_of(n + 5), n);
    assert_eq!(page.select_in(n, 0).len(), 0);
    assert_eq!(page.first_in(usize::MAX, 0), None);
    assert_eq!(page.parent(n), None);
    assert_eq!(page.texts(n + 1).len(), 0);
    assert_eq!(page.line(n).len(), 0);
    assert_eq!(page.run(usize::MAX).len(), 0);
    assert_eq!(page.texts_range(0, n + 1).len(), 0);
    assert_eq!(page.lines(&vec![n, 0]).len(), 2);
    assert_eq!(page.attr(n, 0), None);
    assert!(!page.is_hit(n, 0));
    let empty = Page::parse("", &vec![], &vec![]);
    assert!(empty.len() >= 1);
    assert_eq!(empty.all_texts().len(), 0);
}
