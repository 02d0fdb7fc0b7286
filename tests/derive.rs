use palette::derive::{
    is_allowed_repr, ArrayCastImpl, Attribute, Declaration, Diagnostic, Field, FieldId,
    Shape, ShapeKind,
};

fn repr(items: &[&str]) -> Attribute {
    Attribute {
        name: Some("repr".to_string()),
        arguments: Ok(items.iter().map(|s| s.to_string()).collect()),
    }
}

fn named(name: &str, ty: &str) -> Field {
    Field {
        id: FieldId::Named(name.to_string()),
        ty: ty.to_string(),
    }
}

fn color(name: &str, attributes: Vec<Attribute>, fields: Vec<Field>) -> Declaration {
    Declaration {
        name: name.to_string(),
        attributes,
        shape: Shape::Struct(fields),
        excluded: Vec::new(),
        type_overrides: Vec::new(),
        internal: false,
    }
}

fn implemented(r: Result<ArrayCastImpl, Vec<Diagnostic>>) -> ArrayCastImpl {
    match r {
        Ok(imp) => imp,
        Err(e) => panic!("rejected: {:?}", e),
    }
}

#[test]
fn enum_is_rejected() {
    let mut d = color("Tagged", vec![repr(&["C"])], Vec::new());
    d.shape = Shape::Enum;
    assert_eq!(
        palette::derive::derive(&d),
        Err(vec![Diagnostic::UnsupportedShape(ShapeKind::Enum)])
    );
}

#[test]
fn union_is_rejected() {
    let mut d = color("Overlap", vec![repr(&["C"])], Vec::new());
    d.shape = Shape::Union;
    assert_eq!(
        palette::derive::derive(&d),
        Err(vec![Diagnostic::UnsupportedShape(ShapeKind::Union)])
    );
}

#[test]
fn struct_without_channels_is_rejected() {
    let d = color("Empty", vec![repr(&["C"])], Vec::new());
    assert_eq!(palette::derive::derive(&d), Err(vec![Diagnostic::NoChannelFields]));
}

#[test]
fn struct_with_only_excluded_fields_is_rejected() {
    let mut d = color("Marker", vec![repr(&["C"])], vec![named("tag", "PhantomData<S>")]);
    d.excluded.push(FieldId::Named("tag".to_string()));
    assert_eq!(palette::derive::derive(&d), Err(vec![Diagnostic::NoChannelFields]));
}

#[test]
fn empty_struct_without_repr_reports_both() {
    let d = color("Empty", Vec::new(), Vec::new());
    assert_eq!(
        palette::derive::derive(&d),
        Err(vec![
            Diagnostic::MissingLayoutGuarantee("Empty".to_string()),
            Diagnostic::NoChannelFields
        ])
    );
}

#[test]
fn missing_repr_is_reported_beside_the_implementation() {
    let d = color(
        "Rgb",
        Vec::new(),
        vec![named("red", "f32"), named("green", "f32"), named("blue", "f32")],
    );
    let imp = implemented(palette::derive::derive(&d));
    assert_eq!(imp.channel_type, "f32");
    assert_eq!(imp.channel_count, 3);
    assert_eq!(
        imp.diagnostics,
        vec![Diagnostic::MissingLayoutGuarantee("Rgb".to_string())]
    );
    assert!(!imp.is_sound());
}

#[test]
fn one_mismatched_field_gives_one_diagnostic() {
    let d = color(
        "Mixed",
        vec![repr(&["C"])],
        vec![named("a", "f32"), named("b", "f32"), named("c", "i32")],
    );
    let imp = implemented(palette::derive::derive(&d));
    assert_eq!(
        imp.diagnostics,
        vec![Diagnostic::MismatchedChannelType {
            field: FieldId::Named("c".to_string()),
            expected: "f32".to_string(),
        }]
    );
    assert!(!imp.is_sound());
}

#[test]
fn every_mismatched_field_is_reported() {
    let d = color(
        "Mixed",
        vec![repr(&["C"])],
        vec![named("a", "u8"), named("b", "u16"), named("c", "u8"), named("d", "u32")],
    );
    let imp = implemented(palette::derive::derive(&d));
    assert_eq!(imp.channel_count, 4);
    assert_eq!(
        imp.diagnostics,
        vec![
            Diagnostic::MismatchedChannelType {
                field: FieldId::Named("b".to_string()),
                expected: "u8".to_string(),
            },
            Diagnostic::MismatchedChannelType {
                field: FieldId::Named("d".to_string()),
                expected: "u8".to_string(),
            },
        ]
    );
}

#[test]
fn three_f32_fields_give_an_array_of_three() {
    let d = color(
        "Rgb",
        vec![repr(&["C"])],
        vec![named("red", "f32"), named("green", "f32"), named("blue", "f32")],
    );
    let imp = implemented(palette::derive::derive(&d));
    assert_eq!(imp.trait_path, "::palette::cast::ArrayCast");
    assert_eq!(imp.color_type, "Rgb");
    assert_eq!(imp.channel_type, "f32");
    assert_eq!(imp.channel_count, 3);
    assert!(imp.diagnostics.is_empty());
    assert!(imp.is_sound());
}

#[test]
fn excluded_field_is_not_counted() {
    let mut d = color(
        "Lab",
        vec![repr(&["C"])],
        vec![
            named("white_point", "PhantomData<Wp>"),
            named("l", "T"),
            named("a", "T"),
            named("b", "T"),
        ],
    );
    d.excluded.push(FieldId::Named("white_point".to_string()));
    let imp = implemented(palette::derive::derive(&d));
    assert_eq!(imp.channel_type, "T");
    assert_eq!(imp.channel_count, 3);
    assert!(imp.is_sound());
}

#[test]
fn type_override_makes_fields_agree() {
    let mut d = color(
        "Lch",
        vec![repr(&["C"])],
        vec![named("l", "T"), named("chroma", "T"), named("hue", "LabHue<T>")],
    );
    d.type_overrides
        .push((FieldId::Named("hue".to_string()), "T".to_string()));
    let imp = implemented(palette::derive::derive(&d));
    assert_eq!(imp.channel_type, "T");
    assert_eq!(imp.channel_count, 3);
    assert!(imp.is_sound());
}

#[test]
fn first_type_override_counts() {
    let mut d = color("Alpha", vec![repr(&["transparent"])], vec![named("a", "Wrapped")]);
    d.type_overrides
        .push((FieldId::Named("a".to_string()), "u8".to_string()));
    d.type_overrides
        .push((FieldId::Named("a".to_string()), "u16".to_string()));
    let imp = implemented(palette::derive::derive(&d));
    assert_eq!(imp.channel_type, "u8");
}

#[test]
fn tuple_fields_are_addressed_by_index() {
    let mut d = color(
        "Pair",
        vec![repr(&["C"])],
        vec![
            Field { id: FieldId::Index(0), ty: "u8".to_string() },
            Field { id: FieldId::Index(1), ty: "()".to_string() },
            Field { id: FieldId::Index(2), ty: "u16".to_string() },
        ],
    );
    d.excluded.push(FieldId::Index(1));
    let imp = implemented(palette::derive::derive(&d));
    assert_eq!(imp.channel_count, 2);
    assert_eq!(
        imp.diagnostics,
        vec![Diagnostic::MismatchedChannelType {
            field: FieldId::Index(2),
            expected: "u8".to_string(),
        }]
    );
}

#[test]
fn internal_path_names_this_crate() {
    let mut d = color("Rgb", vec![repr(&["C"])], vec![named("red", "u8")]);
    d.internal = true;
    let imp = implemented(palette::derive::derive(&d));
    assert_eq!(imp.trait_path, "crate::cast::ArrayCast");
}

#[test]
fn unreadable_repr_rejects_without_fixed_layout() {
    let d = color(
        "Rgb",
        vec![Attribute {
            name: Some("repr".to_string()),
            arguments: Err("expected identifier".to_string()),
        }],
        vec![named("red", "u8")],
    );
    assert_eq!(
        palette::derive::derive(&d),
        Err(vec![Diagnostic::InvalidAttribute("expected identifier".to_string())])
    );
}

#[test]
fn repr_recognition() {
    let doc = Attribute { name: Some("doc".to_string()), arguments: Ok(vec!["C".to_string()]) };
    let broken = Attribute { name: Some("repr".to_string()), arguments: Err("bad".to_string()) };
    let unnamed = Attribute { name: None, arguments: Ok(vec!["C".to_string()]) };
    assert_eq!(is_allowed_repr(&vec![]), Ok(false));
    assert_eq!(is_allowed_repr(&vec![Attribute { name: Some("doc".to_string()), arguments: Ok(vec!["C".to_string()]) }]), Ok(false));
    assert_eq!(is_allowed_repr(&vec![unnamed]), Ok(false));
    assert_eq!(is_allowed_repr(&vec![repr(&["packed"])]), Ok(false));
    assert_eq!(is_allowed_repr(&vec![repr(&["align", "C"])]), Ok(true));
    assert_eq!(is_allowed_repr(&vec![repr(&["transparent"])]), Ok(true));
    assert_eq!(
        is_allowed_repr(&vec![broken, repr(&["C"])]),
        Ok(true)
    );
    let broken2 = Attribute { name: Some("repr".to_string()), arguments: Err("bad".to_string()) };
    assert_eq!(
        is_allowed_repr(&vec![broken2, doc]),
        Err(vec![Diagnostic::InvalidAttribute("bad".to_string())])
    );
}
