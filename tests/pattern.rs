use booru::errors::Error;
use booru::models::tag::Tag;
use booru::pattern::{check_multiple, compile_query, Pattern, Tagged};
use booru::requests::search::{image_search_query, tag_search_query, PatternTag};

fn stored(id: &str) -> Tag {
    let mut t = Tag::new(format!("name-{}", id), "artist".to_string(), String::new());
    t.id = Some(id.to_string());
    t
}

fn item(id: &str) -> Pattern<Tag> {
    Pattern::Item(stored(id))
}

fn tag_ref(category: &str, name: &str) -> Pattern<PatternTag> {
    Pattern::Item(PatternTag { name: name.to_string(), category: category.to_string() })
}

#[test]
fn and_or_need_two_operands() {
    for n in 0..5usize {
        let ops: Vec<Pattern<Tag>> = (0..n).map(|i| item(&format!("tag:{}", i))).collect();
        let ops2: Vec<Pattern<Tag>> = (0..n).map(|i| item(&format!("tag:{}", i))).collect();
        let and = Tagged::and(ops);
        let or = Tagged::or(ops2);
        if n >= 2 {
            assert!(matches!(and, Ok(Tagged::AND(ref v)) if v.len() == n));
            assert!(matches!(or, Ok(Tagged::OR(ref v)) if v.len() == n));
        } else {
            assert_eq!(and, Err(Error::InvalidPattern));
            assert_eq!(or, Err(Error::InvalidPattern));
        }
    }
}

#[test]
fn check_multiple_keeps_order() {
    assert_eq!(check_multiple(vec![3, 1, 2]), Ok(vec![3, 1, 2]));
    assert_eq!(check_multiple(vec![1]), Err(Error::InvalidPattern));
    assert_eq!(check_multiple::<u8>(vec![]), Err(Error::InvalidPattern));
}

#[test]
fn not_wraps_one_pattern() {
    assert_eq!(Tagged::not(item("tag:1")), Tagged::NOT(Box::new(item("tag:1"))));
}

#[test]
fn resolve_single_item() {
    let p = tag_ref("artist", "x");
    let items = p.items();
    assert_eq!(items.len(), 1);
    assert_eq!(items[0].category, "artist");
    assert_eq!(items[0].name, "x");
    let r = p.convert(vec![Ok(Some(stored("tag:T1")))]);
    assert_eq!(r, Ok(item("tag:T1")));
}

#[test]
fn resolve_not_found_fails() {
    let p = tag_ref("artist", "x");
    assert_eq!(p.convert::<Tag>(vec![Ok(None)]), Err(Error::TagNotFound));
}

#[test]
fn resolve_not_found_regardless_of_siblings() {
    let p = Pattern::Tagged(Tagged::and(vec![tag_ref("a", "1"), tag_ref("a", "2"), tag_ref("a", "3")]).unwrap());
    let r = p.convert(vec![Ok(Some(stored("tag:1"))), Ok(None), Ok(Some(stored("tag:3")))]);
    assert_eq!(r, Err(Error::TagNotFound));
    let r = p.convert(vec![Err(()), Ok(Some(stored("tag:2"))), Ok(None)]);
    assert_eq!(r, Err(Error::TagNotFound));
}

#[test]
fn resolve_lookup_failure() {
    let p = Pattern::Tagged(Tagged::or(vec![tag_ref("a", "1"), tag_ref("a", "2")]).unwrap());
    assert_eq!(p.convert(vec![Ok(Some(stored("tag:1"))), Err(())]), Err(Error::ResolutionFailed));
    assert_eq!(p.convert(vec![Ok(Some(stored("tag:1")))]), Err(Error::ResolutionFailed));
    assert_eq!(
        p.convert(vec![Ok(Some(stored("tag:1"))), Ok(Some(stored("tag:2"))), Ok(Some(stored("tag:3")))]),
        Err(Error::ResolutionFailed)
    );
}

#[test]
fn resolve_keeps_shape_and_order() {
    let p = Pattern::Tagged(
        Tagged::and(vec![
            tag_ref("a", "1"),
            Pattern::Tagged(Tagged::not(tag_ref("a", "2"))),
            Pattern::Tagged(Tagged::or(vec![tag_ref("a", "3"), tag_ref("a", "4")]).unwrap()),
        ])
        .unwrap(),
    );
    let names: Vec<&str> = p.items().iter().map(|t| t.name.as_str()).collect();
    assert_eq!(names, vec!["1", "2", "3", "4"]);
    let found = vec![
        Ok(Some(stored("tag:1"))),
        Ok(Some(stored("tag:2"))),
        Ok(Some(stored("tag:3"))),
        Ok(Some(stored("tag:4"))),
    ];
    let expected = Pattern::Tagged(Tagged::AND(vec![
        item("tag:1"),
        Pattern::Tagged(Tagged::NOT(Box::new(item("tag:2")))),
        Pattern::Tagged(Tagged::OR(vec![item("tag:3"), item("tag:4")])),
    ]));
    assert_eq!(p.convert(found), Ok(expected));
}

#[test]
fn compile_item() {
    assert_eq!(item("tag:1").serialize("tag"), "tag:1 inside tag");
}

#[test]
fn compile_negated_item_uses_negated_membership() {
    let p = Pattern::Tagged(Tagged::not(item("tag:T1")));
    let s = p.serialize("tag");
    assert_eq!(s, "tag:T1 notinside tag");
    assert_ne!(s, "((tag:T1 inside tag) == false)");
}

#[test]
fn compile_negated_group_compares_with_false() {
    let inner = Pattern::Tagged(Tagged::or(vec![item("tag:1"), item("tag:2")]).unwrap());
    let p = Pattern::Tagged(Tagged::not(inner));
    assert_eq!(p.serialize("tag"), "(((tag:1 inside tag || tag:2 inside tag)) == false)");
}

#[test]
fn compile_nested_keeps_order() {
    let p = Pattern::Tagged(
        Tagged::and(vec![
            item("tag:T1"),
            Pattern::Tagged(Tagged::or(vec![item("tag:T2"), item("tag:T3")]).unwrap()),
        ])
        .unwrap(),
    );
    assert_eq!(p.serialize("tag"), "(tag:T1 inside tag && (tag:T2 inside tag || tag:T3 inside tag))");
}

#[test]
fn compile_is_deterministic() {
    let build = || {
        Pattern::Tagged(Tagged::and(vec![item("tag:b"), item("tag:a"), item("tag:c")]).unwrap())
    };
    assert_eq!(build().serialize("tag"), build().serialize("tag"));
    assert_eq!(build().serialize("tag"), "(tag:b inside tag && tag:a inside tag && tag:c inside tag)");
}

#[test]
fn join_spaces_the_separator() {
    let v = vec![item("tag:1"), item("tag:2")];
    assert_eq!(Tagged::join(&v, "||", "s"), "(tag:1 inside s || tag:2 inside s)");
}

#[test]
fn compile_query_end_to_end() {
    let p = Pattern::Tagged(Tagged::and(vec![tag_ref("artist", "x"), tag_ref("series", "y")]).unwrap());
    let found = vec![Ok(Some(stored("tag:1"))), Ok(Some(stored("tag:2")))];
    assert_eq!(compile_query(&p, found, "tag"), Ok("(tag:1 inside tag && tag:2 inside tag)".to_string()));
}

#[test]
fn compile_query_errors() {
    let malformed = Pattern::Tagged(Tagged::AND(vec![tag_ref("a", "1")]));
    assert_eq!(compile_query(&malformed, vec![Ok(Some(stored("tag:1")))], "tag"), Err(Error::InvalidPattern));
    assert!(!malformed.is_well_formed());
    let p = tag_ref("a", "1");
    assert!(p.is_well_formed());
    assert_eq!(compile_query(&p, vec![Ok(None)], "tag"), Err(Error::TagNotFound));
    assert_eq!(compile_query(&p, vec![Err(())], "tag"), Err(Error::ResolutionFailed));
    let unstored = Tag::new("n".to_string(), "c".to_string(), String::new());
    assert_eq!(compile_query(&p, vec![Ok(Some(unstored))], "tag"), Err(Error::InvalidId));
}

#[test]
fn image_queries() {
    assert_eq!(image_search_query(None), "select * from (select *, ->tagged->tag.*.id as tag from image)");
    assert_eq!(
        image_search_query(Some("tag:1 inside tag".to_string())),
        "select * from (select *, ->tagged->tag.*.id as tag from image) where tag:1 inside tag"
    );
    assert_eq!(
        tag_search_query("art", "x"),
        "select * from tag where category = /^art/ and name = /^x/;"
    );
}

#[test]
fn join_single_operand() {
    assert_eq!(Tagged::join(&vec![item("tag:1")], "&&", "s"), "(tag:1 inside s)");
}
