use classfile::type_annotation::{ParseTypePathError, ParseTypePathErrorKind};
use classfile::{Label, LabelCreator, TypePath, TypePathElement, TypePathError, TypeReference};
use std::cmp::Ordering;

fn path(text: &str) -> TypePath {
    TypePath::parse(text).unwrap()
}

#[test]
fn type_path_is_parsed() {
    let parsed = path("[.*12;0;");
    assert_eq!(5, parsed.len());
    assert!(!parsed.is_empty());
    assert_eq!(Ok(TypePathElement::ArrayElement), parsed.get(0));
    assert_eq!(Ok(TypePathElement::InnerType), parsed.get(1));
    assert_eq!(Ok(TypePathElement::WildcardBound), parsed.get(2));
    assert_eq!(Ok(TypePathElement::TypeArgument(12)), parsed.get(3));
    assert_eq!(Ok(TypePathElement::TypeArgument(0)), parsed.get(4));
    assert_eq!(Ok(None), parsed.try_get(5));
    assert_eq!(Ok(Some(TypePathElement::InnerType)), parsed.try_get(1));
    assert!(path("").is_empty());
    assert_eq!(TypePath::default(), path(""));
    assert_eq!(path("255;"), TypePath::from_bytes(&[3, 255]));
    assert_eq!(path("007;"), TypePath::from_bytes(&[3, 7]));
}

#[test]
fn type_path_is_parsed_from_a_string() {
    assert_eq!(Ok(path("[.*12;0;")), "[.*12;0;".parse::<TypePath>());
    assert_eq!(TypePath::parse("[x"), "[x".parse::<TypePath>());
    assert_eq!(TypePath::parse("300;"), "300;".parse::<TypePath>());
}

#[test]
fn type_path_is_read_back_from_its_text() {
    let mut paths = vec![TypePath::new()];
    for first in [[0u8, 0], [1, 0], [2, 0], [3, 0], [3, 9], [3, 10], [3, 99], [3, 100], [3, 255]] {
        for second in [[0u8, 0], [2, 0], [3, 7], [3, 200]] {
            paths.push(TypePath::from_bytes(&first));
            paths.push(TypePath::from_bytes(&[first[0], first[1], second[0], second[1]]));
            paths.push(TypePath::from_bytes(&[second[0], second[1], first[0], first[1], 1, 0]));
        }
    }
    for path in paths {
        let text = path.to_string();
        assert_eq!(Ok(path), TypePath::parse(&text), "{}", text);
    }
    assert_eq!("[.*12;0;", path("[.*12;0;").to_string());
}

#[test]
fn type_path_text_is_refused() {
    let error = |text: &str| TypePath::parse(text).err().unwrap();
    assert_eq!(
        ParseTypePathError { index: 1, kind: ParseTypePathErrorKind::UnexpectedChar('x') },
        error("[x")
    );
    assert_eq!(
        ParseTypePathError { index: 0, kind: ParseTypePathErrorKind::UnexpectedChar(';') },
        error(";")
    );
    assert_eq!(
        ParseTypePathError { index: 2, kind: ParseTypePathErrorKind::UnexpectedChar('é') },
        error("[.é")
    );
    assert_eq!(
        ParseTypePathError { index: 2, kind: ParseTypePathErrorKind::ExpectedNumberTerminator },
        error("12")
    );
    assert_eq!(
        ParseTypePathError { index: 2, kind: ParseTypePathErrorKind::ExpectedNumberTerminator },
        error("[1.")
    );
    let too_large = error(".256;");
    assert_eq!(1, too_large.index);
    assert_eq!(
        ParseTypePathErrorKind::IntParseError("256".parse::<u8>().unwrap_err()),
        too_large.kind
    );
}

#[test]
fn type_path_is_written() {
    for text in ["", "[", "[.*", "0;", "12;*255;", "[[100;."] {
        assert_eq!(text, path(text).to_string());
    }
    assert_eq!("7;", TypePathElement::TypeArgument(7).to_string());
    assert_eq!("[?.", TypePath::from_bytes(&[0, 9, 4, 0, 1, 0]).to_string());
}

#[test]
fn type_path_is_changed() {
    let mut changed = path("[.");
    changed.push(TypePathElement::TypeArgument(3));
    assert_eq!(path("[.3;"), changed);
    changed.set(0, TypePathElement::WildcardBound);
    assert_eq!(path("*.3;"), changed);
    changed.set(2, TypePathElement::InnerType);
    assert_eq!(path("*.."), changed);
    let mut steps = changed.iter();
    assert_eq!(3, steps.remaining());
    assert_eq!(Some(Ok(TypePathElement::WildcardBound)), steps.next());
    assert_eq!(Some(Ok(TypePathElement::InnerType)), steps.next());
    assert_eq!(Some(Ok(TypePathElement::InnerType)), steps.next());
    assert_eq!(None, steps.next());
    assert_eq!(0, steps.remaining());
    assert_eq!(changed, changed.clone());
}

#[test]
fn type_path_with_a_step_of_no_kind() {
    let odd = TypePath::from_bytes(&[0, 0, 7, 1]);
    assert_eq!(2, odd.len());
    assert_eq!(Err(TypePathError { invalid_kind: 7 }), odd.get(1));
    assert_eq!(Err(TypePathError { invalid_kind: 7 }), odd.try_get(1));
    assert_eq!(odd, TypePath::from_bytes(&[0, 5, 7, 2]));
    assert_ne!(odd, TypePath::from_bytes(&[0, 0, 8, 1]));
}

#[test]
fn type_paths_are_equal_by_their_steps() {
    assert_eq!(TypePath::from_bytes(&[1, 9, 3, 2]), TypePath::from_bytes(&[1, 0, 3, 2]));
    assert_ne!(TypePath::from_bytes(&[3, 1]), TypePath::from_bytes(&[3, 2]));
    assert_ne!(path("["), path("[["));
    assert_ne!(path("["), path("."));
}

#[test]
fn type_paths_are_ordered() {
    let ordered = [path(""), path("["), path("[["), path("[0;"), path("."), path("0;"), path("0;["), path("1;")];
    for (i, a) in ordered.iter().enumerate() {
        for (j, b) in ordered.iter().enumerate() {
            assert_eq!(i.cmp(&j), a.cmp(b), "{:?} against {:?}", a, b);
            assert_eq!(i.cmp(&j), Ord::cmp(a, b), "{:?} against {:?}", a, b);
            assert_eq!(Some(i.cmp(&j)), a.partial_cmp(b));
        }
    }
    assert_eq!(Ordering::Equal, TypePath::from_bytes(&[1, 9]).cmp(&TypePath::from_bytes(&[1, 0])));
    assert_eq!(Ordering::Equal, Ord::cmp(&TypePath::from_bytes(&[1, 9]), &TypePath::from_bytes(&[1, 0])));
}

#[test]
fn type_references_have_their_target_types() {
    assert_eq!(0x00, TypeReference::ClassTypeParameter { param_index: 1 }.target_type());
    assert_eq!(0x10, TypeReference::ClassExtends { interface_index: None }.target_type());
    assert_eq!(0x13, TypeReference::Field.target_type());
    assert_eq!(0x42, TypeReference::ExceptionParameter.target_type());
    assert_eq!(0x4B, TypeReference::MethodReferenceTypeArgument { arg_index: 0 }.target_type());
}

#[test]
fn labels_are_made_one_after_the_other() {
    let mut creator = LabelCreator::new();
    assert_eq!(Label { method: 0, number: 0 }, creator.create_label());
    assert_eq!(Label { method: 0, number: 1 }, creator.create_label());
    let mut made = vec![Label { method: 0, number: 0 }, Label { method: 0, number: 1 }];
    for _ in 0..100 {
        let label = creator.create_label();
        assert!(made.iter().all(|earlier| *earlier != label && *earlier < label));
        made.push(label);
    }
    let mut fresh = LabelCreator::default();
    assert_eq!(Label { method: 0, number: 0 }, fresh.create_label());
}
