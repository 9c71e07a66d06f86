use cargo_device::deploy::LocalEntry;
use cargo_device::listing::order_listing;

fn entry(rel: &[&str], is_dir: bool) -> LocalEntry {
    LocalEntry {
        path: format!("data/{}", rel.join("/")),
        rel: rel.iter().map(|s| (*s).to_owned()).collect(),
        is_dir,
    }
}

fn rels(es: &[LocalEntry]) -> Vec<String> {
    es.iter().map(|e| e.rel.join("/")).collect()
}

#[test]
fn listing_is_ordered_depth_first_by_name() {
    let raw = vec![
        entry(&["nested", "a.txt"], false),
        entry(&["b.txt"], false),
        entry(&["nested"], true),
        entry(&["a"], true),
        entry(&["a", "z"], false),
        entry(&["nested", "deep"], true),
        entry(&["nested", "deep", "x"], false),
    ];
    let ordered = order_listing(raw);
    assert_eq!(
        rels(&ordered),
        ["a", "a/z", "b.txt", "nested", "nested/a.txt", "nested/deep", "nested/deep/x"]
    );
}

#[test]
fn names_compare_by_code_point_and_prefix_first() {
    let raw = vec![entry(&["ab"], false), entry(&["B"], false), entry(&["a"], false), entry(&["é"], false)];
    assert_eq!(rels(&order_listing(raw)), ["B", "a", "ab", "é"]);
}

#[test]
fn empty_listing_stays_empty() {
    assert!(order_listing(Vec::new()).is_empty());
}
