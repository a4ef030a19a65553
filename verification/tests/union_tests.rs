use apollo_graphql::ast::{Definition, Directive};
use apollo_graphql::union::{build_union, union_type_def_from_parts, DocumentBuilder, UnionTypeDef};
use arbitrary::Unstructured;
use indexmap::{IndexMap, IndexSet};

fn union_def(name: &str, extend: bool) -> UnionTypeDef {
    UnionTypeDef {
        name: name.to_string(),
        description: None,
        members: IndexSet::new(),
        directives: IndexMap::new(),
        extend,
    }
}

fn strings(xs: &[&str]) -> Vec<String> {
    xs.iter().map(|x| x.to_string()).collect()
}

#[test]
fn build_union_keeps_first_occurrences_in_order() {
    let existing = vec![union_def("Pet", false)];
    let drawn = strings(&["Cat", "Dog", "Cat", "Bird", "Dog"]);
    let d = build_union(&existing, true, Some(0), "Fresh".to_string(), None, drawn, IndexMap::new());
    assert_eq!(d.name, "Pet");
    assert!(d.extend);
    assert_eq!(d.members.iter().cloned().collect::<Vec<_>>(), strings(&["Cat", "Dog", "Bird"]));

    let d = build_union(&existing, false, None, "Fresh".to_string(), Some("doc".to_string()), strings(&["A"]), IndexMap::new());
    assert_eq!(d.name, "Fresh");
    assert_eq!(d.description.as_deref(), Some("doc"));
}

#[test]
fn generated_unions_draw_distinct_members_from_the_candidates() {
    let object_types = strings(&["Cat", "Dog", "Bird"]);
    for seed in 0u8..40 {
        let data: Vec<u8> = (0..64u32).map(|i| (i as u8).wrapping_mul(31).wrapping_add(seed)).collect();
        let mut builder = DocumentBuilder { u: Unstructured::new(&data), union_type_defs: vec![union_def("Pet", false)] };
        let mut directives = IndexMap::new();
        directives.insert("tag".to_string(), Directive { name: "tag".to_string(), arguments: vec![] });
        if let Ok(d) = builder.union_type_definition("Fresh".to_string(), Some("about".to_string()), directives, &object_types) {
            let members: Vec<&String> = d.members.iter().collect();
            assert!(!members.is_empty() && members.len() <= 10);
            assert!(members.iter().all(|m| object_types.contains(m) || *m == "Pet"));
            assert_eq!(d.members.len(), members.iter().collect::<std::collections::HashSet<_>>().len());
            if d.extend {
                assert_eq!(d.name, "Pet");
            } else {
                assert_eq!(d.name, "Fresh");
            }
            assert!(d.description.is_none() || d.description.as_deref() == Some("about"));
            assert_eq!(d.directives.len(), 1);
        }
        assert_eq!(builder.union_type_defs.len(), 1);
    }
}

#[test]
fn first_union_is_never_an_extension() {
    let data = [255u8; 32];
    let mut builder = DocumentBuilder { u: Unstructured::new(&data), union_type_defs: vec![] };
    let d = builder
        .union_type_definition("U".to_string(), None, IndexMap::new(), &strings(&["A", "B"]))
        .expect("enough data");
    assert!(!d.extend);
    assert_eq!(d.name, "U");
}

#[test]
fn extension_with_only_extensions_defined_fails() {
    let data = [1u8; 32];
    let mut builder = DocumentBuilder { u: Unstructured::new(&data), union_type_defs: vec![union_def("Pet", true)] };
    let r = builder.union_type_definition("U".to_string(), None, IndexMap::new(), &strings(&["A"]));
    assert!(matches!(r, Err(arbitrary::Error::EmptyChoose)));
}

#[test]
fn union_into_definition() {
    let mut members = IndexSet::new();
    members.insert("B".to_string());
    members.insert("A".to_string());
    let mut directives = IndexMap::new();
    directives.insert("x".to_string(), Directive { name: "x".to_string(), arguments: vec![] });
    let def = UnionTypeDef { name: "U".to_string(), description: Some("d".to_string()), members, directives, extend: false };
    match def.into_definition() {
        Definition::UnionTypeDefinition(u) => {
            assert_eq!(u.name, "U");
            assert_eq!(u.description.as_deref(), Some("d"));
            assert_eq!(u.members, strings(&["B", "A"]));
            assert_eq!(u.directives.len(), 1);
            assert_eq!(u.directives[0].name, "x");
        }
        other => panic!("unexpected {other:?}"),
    }
    let ext = UnionTypeDef { extend: true, ..union_def("V", true) };
    assert!(matches!(ext.into_definition(), Definition::UnionTypeExtension(e) if e.name == "V" && e.members.is_empty()));
}

#[test]
fn drawn_union_follows_the_bytes_exactly() {
    let object_types = strings(&["Cat", "Dog", "Bird"]);
    let data = [1u8, 0, 1, 5, 0, 1, 2, 3, 3, 7, 9, 9];
    let mut builder = DocumentBuilder { u: Unstructured::new(&data), union_type_defs: vec![union_def("Pet", false)] };
    let d = builder
        .union_type_definition("New".to_string(), Some("doc".to_string()), IndexMap::new(), &object_types)
        .expect("drawn");
    assert!(d.extend);
    assert_eq!(d.name, "Pet");
    assert_eq!(d.description, None);
    assert_eq!(d.members.iter().cloned().collect::<Vec<_>>(), strings(&["Dog", "Cat"]));
    assert_eq!(builder.u.len(), 6);

    let data = [0u8, 1, 8, 255, 254, 3, 2, 0, 0, 1, 3];
    let mut builder = DocumentBuilder { u: Unstructured::new(&data), union_type_defs: vec![union_def("Pet", false)] };
    let d = builder
        .union_type_definition("New".to_string(), Some("doc".to_string()), IndexMap::new(), &object_types)
        .expect("drawn");
    assert!(!d.extend);
    assert_eq!(d.name, "New");
    assert_eq!(d.description.as_deref(), Some("doc"));
    assert_eq!(d.members.iter().cloned().collect::<Vec<_>>(), strings(&["Pet", "Bird", "Cat", "Dog"]));
    assert_eq!(builder.u.len(), 0);
}

#[test]
fn equal_bytes_draw_equal_unions() {
    let object_types = strings(&["A", "B", "C"]);
    let data: Vec<u8> = (0..40u8).map(|i| i.wrapping_mul(37)).collect();
    let draw = || {
        let mut b = DocumentBuilder { u: Unstructured::new(&data), union_type_defs: vec![union_def("U", false)] };
        let d = b.union_type_definition("V".to_string(), None, IndexMap::new(), &object_types).unwrap();
        (d.name, d.extend, d.members.into_iter().collect::<Vec<_>>(), b.u.len())
    };
    assert_eq!(draw(), draw());
}

#[test]
fn no_candidate_members_fails() {
    let data = [0u8; 8];
    let mut builder = DocumentBuilder { u: Unstructured::new(&data), union_type_defs: vec![] };
    let r = builder.union_type_definition("U".to_string(), None, IndexMap::new(), &vec![]);
    assert!(matches!(r, Err(arbitrary::Error::EmptyChoose)));
}

#[test]
fn union_from_parsed_parts() {
    let d = union_type_def_from_parts(
        "U".to_string(),
        Some("d".to_string()),
        IndexMap::new(),
        strings(&["A", "B", "A"]),
        false,
    );
    assert_eq!(d.description.as_deref(), Some("d"));
    assert_eq!(d.members.iter().cloned().collect::<Vec<_>>(), strings(&["A", "B"]));
    let e = union_type_def_from_parts("U".to_string(), Some("d".to_string()), IndexMap::new(), strings(&["C"]), true);
    assert!(e.extend && e.description.is_none());
}
