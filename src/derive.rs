//! Layout analysis of a color type's declaration: decides whether the type
//! can implement `ArrayCast`, with which array, and what is wrong with it.
use vstd::prelude::*;

verus! {

/// How a field is addressed: by name, or by its position in a tuple struct.
#[derive(Clone, Debug, PartialEq, Eq, Hash)]
pub enum FieldId {
    Named(String),
    Index(usize),
}

/// The identity of a field, as contracts speak of it.
pub enum FieldKey {
    Named(Seq<char>),
    Index(nat),
}

impl View for FieldId {
    type V = FieldKey;

    open spec fn view(&self) -> FieldKey {
        match self {
            FieldId::Named(name) => FieldKey::Named(name@),
            FieldId::Index(index) => FieldKey::Index(*index as nat),
        }
    }
}

impl FieldId {
    /// A copy of this identifier.
    pub fn copied(&self) -> (r: FieldId)
        ensures
            r@ == self@,
    {
        match self {
            FieldId::Named(name) => FieldId::Named(name.clone()),
            FieldId::Index(index) => FieldId::Index(*index),
        }
    }

    /// Whether two identifiers address the same field.
    pub fn same_as(&self, other: &FieldId) -> (r: bool)
        ensures
            r == (self@ == other@),
    {
        match (self, other) {
            (FieldId::Named(a), FieldId::Named(b)) => *a == *b,
            (FieldId::Index(a), FieldId::Index(b)) => *a == *b,
            _ => false,
        }
    }
}

/// One field of a declaration: its identifier and its type, written out as
/// source text.
#[derive(Clone, Debug, PartialEq, Eq)]
pub struct Field {
    pub id: FieldId,
    pub ty: String,
}

/// The kinds of declaration that cannot be laid out as an array.
#[derive(Clone, Copy, Debug, PartialEq, Eq, Structural)]
pub enum ShapeKind {
    Enum,
    Union,
}

/// The shape of a declaration: a struct with its fields in declaration
/// order (none for a unit struct), an enum or a union.
#[derive(Clone, Debug, PartialEq, Eq)]
pub enum Shape {
    Struct(Vec<Field>),
    Enum,
    Union,
}

/// An outer attribute of a declaration: its name, when its path is a single
/// identifier, and its parenthesised list of identifiers, or the message of
/// the error met while reading that list.
#[derive(Debug, PartialEq, Eq)]
pub struct Attribute {
    pub name: Option<String>,
    pub arguments: Result<Vec<String>, String>,
}

/// A color type's declaration together with the configuration its author
/// supplied.
#[derive(Debug, PartialEq, Eq)]
pub struct Declaration {
    /// The type's name.
    pub name: String,
    /// Its outer attributes, in order.
    pub attributes: Vec<Attribute>,
    pub shape: Shape,
    /// Fields that carry no channel data and are left out of the array.
    pub excluded: Vec<FieldId>,
    /// Fields whose type is to be read as another, layout-compatible type.
    /// Where a field is listed more than once, its first entry counts.
    pub type_overrides: Vec<(FieldId, String)>,
    /// Whether the generated code addresses `ArrayCast` from inside this
    /// crate rather than from a crate that depends on it.
    pub internal: bool,
}

/// A problem found in a declaration.
#[derive(Clone, Debug, PartialEq, Eq)]
pub enum Diagnostic {
    /// The declaration is an enum or a union.
    UnsupportedShape(ShapeKind),
    /// A `repr` attribute whose arguments could not be read.
    InvalidAttribute(String),
    /// The named type has no `repr(C)` or `repr(transparent)`.
    MissingLayoutGuarantee(String),
    /// A channel whose type differs from the first channel's type.
    MismatchedChannelType { field: FieldId, expected: String },
    /// No field is left once the excluded ones are dropped.
    NoChannelFields,
}

/// A diagnostic, as contracts speak of it.
pub enum DiagnosticView {
    UnsupportedShape(ShapeKind),
    InvalidAttribute(Seq<char>),
    MissingLayoutGuarantee(Seq<char>),
    MismatchedChannelType { field: FieldKey, expected: Seq<char> },
    NoChannelFields,
}

impl View for Diagnostic {
    type V = DiagnosticView;

    open spec fn view(&self) -> DiagnosticView {
        match self {
            Diagnostic::UnsupportedShape(kind) => DiagnosticView::UnsupportedShape(*kind),
            Diagnostic::InvalidAttribute(message) => DiagnosticView::InvalidAttribute(message@),
            Diagnostic::MissingLayoutGuarantee(name) => DiagnosticView::MissingLayoutGuarantee(
                name@,
            ),
            Diagnostic::MismatchedChannelType { field, expected } =>
                DiagnosticView::MismatchedChannelType { field: field@, expected: expected@ },
            Diagnostic::NoChannelFields => DiagnosticView::NoChannelFields,
        }
    }
}

/// The views of a list of diagnostics.
pub open spec fn diagnostics_view(d: Seq<Diagnostic>) -> Seq<DiagnosticView> {
    d.map_values(|x: Diagnostic| x@)
}

/// Whether `item` is a `repr` argument that fixes the memory layout.
pub open spec fn is_layout_repr_item(item: Seq<char>) -> bool {
    item == "C"@ || item == "transparent"@
}

/// Whether `a` is named `repr`.
pub open spec fn is_repr(a: Attribute) -> bool {
    a.name matches Some(name) && name@ == "repr"@
}

/// Whether `a` is a `repr` attribute that lists `C` or `transparent`.
pub open spec fn grants_fixed_layout(a: Attribute) -> bool {
    &&& is_repr(a)
    &&& a.arguments matches Ok(items)
    &&& exists|j: int| 0 <= j < items@.len() && is_layout_repr_item(#[trigger] items@[j]@)
}

/// Whether some attribute of `attrs` fixes the memory layout.
pub open spec fn has_fixed_layout(attrs: Seq<Attribute>) -> bool {
    exists|i: int| 0 <= i < attrs.len() && grants_fixed_layout(#[trigger] attrs[i])
}

/// One diagnostic for each `repr` attribute of `attrs` whose arguments could
/// not be read, in order.
pub open spec fn repr_errors(attrs: Seq<Attribute>) -> Seq<DiagnosticView>
    decreases attrs.len(),
{
    if attrs.len() == 0 {
        seq![]
    } else {
        let before = repr_errors(attrs.drop_last());
        let a = attrs.last();
        if is_repr(a) && a.arguments is Err {
            before.push(DiagnosticView::InvalidAttribute(a.arguments->Err_0@))
        } else {
            before
        }
    }
}

/// Whether `item` is `C` or `transparent`.
fn is_layout_repr_name(item: &String) -> (r: bool)
    ensures
        r == is_layout_repr_item(item@),
{
    let c = String::from_str("C");
    let transparent = String::from_str("transparent");
    *item == c || *item == transparent
}

/// Whether `a` is named `repr`.
fn is_repr_attribute(a: &Attribute) -> (r: bool)
    ensures
        r == is_repr(*a),
{
    match &a.name {
        Some(name) => *name == String::from_str("repr"),
        None => false,
    }
}

/// Whether the attributes fix the type's memory layout with `repr(C)` or
/// `repr(transparent)`.
///
/// A `repr` attribute whose arguments could not be read matters only when
/// no attribute fixes the layout: the result is then an error for each such
/// attribute, in order.
pub fn is_allowed_repr(attributes: &Vec<Attribute>) -> (r: Result<bool, Vec<Diagnostic>>)
    ensures
        has_fixed_layout(attributes@) ==> r == Ok::<bool, Vec<Diagnostic>>(true),
        !has_fixed_layout(attributes@) && repr_errors(attributes@).len() == 0 ==> r == Ok::<
            bool,
            Vec<Diagnostic>,
        >(false),
        !has_fixed_layout(attributes@) && repr_errors(attributes@).len() > 0 ==> (r matches Err(
            e,
        ) && diagnostics_view(e@) == repr_errors(attributes@)),
{
    let mut errors: Vec<Diagnostic> = Vec::new();
    let mut i: usize = 0;
    while i < attributes.len()
        invariant
            i <= attributes@.len(),
            forall|k: int| 0 <= k < i ==> !grants_fixed_layout(#[trigger] attributes@[k]),
            diagnostics_view(errors@) == repr_errors(attributes@.take(i as int)),
        decreases attributes@.len() - i,
    {
        let a = &attributes[i];
        assert(attributes@.take(i + 1).drop_last() == attributes@.take(i as int));
        if is_repr_attribute(a) {
            match &a.arguments {
                Ok(items) => {
                    let mut j: usize = 0;
                    while j < items.len()
                        invariant
                            j <= items@.len(),
                            forall|k: int| 0 <= k < j ==> !is_layout_repr_item(#[trigger] items@[k]@),
                            i < attributes@.len(),
                            a == attributes@[i as int],
                            is_repr(*a),
                            a.arguments == Ok::<Vec<String>, String>(*items),
                        decreases items@.len() - j,
                    {
                        if is_layout_repr_name(&items[j]) {
                            let ghost listed = attributes@[i as int].arguments->Ok_0;
                            assert(is_layout_repr_item(listed@[j as int]@));
                            assert(grants_fixed_layout(attributes@[i as int]));
                            return Ok(true);
                        }
                        j += 1;
                    }
                },
                Err(message) => {
                    errors.push(Diagnostic::InvalidAttribute(message.clone()));
                },
            }
        }
        i += 1;
        assert(diagnostics_view(errors@) == repr_errors(attributes@.take(i as int)));
    }
    assert(attributes@.take(i as int) == attributes@);
    if errors.len() == 0 {
        Ok(false)
    } else {
        Err(errors)
    }
}

/// Whether the field `key` is listed in `excluded`.
pub open spec fn is_excluded(excluded: Seq<FieldId>, key: FieldKey) -> bool {
    exists|j: int| 0 <= j < excluded.len() && #[trigger] excluded[j]@ == key
}

/// The type that the first entry of `overrides` for the field `key` gives,
/// if there is one.
pub open spec fn override_of(overrides: Seq<(FieldId, String)>, key: FieldKey) -> Option<
    Seq<char>,
>
    decreases overrides.len(),
{
    if overrides.len() == 0 {
        None
    } else if overrides[0].0@ == key {
        Some(overrides[0].1@)
    } else {
        override_of(overrides.drop_first(), key)
    }
}

/// The type that `f` counts with: its override if it has one, else its
/// declared type.
pub open spec fn resolved_type(overrides: Seq<(FieldId, String)>, f: Field) -> Seq<char> {
    match override_of(overrides, f.id@) {
        Some(ty) => ty,
        None => f.ty@,
    }
}

/// The channels of a struct: each field that is not excluded, with the type
/// it counts with, in declaration order.
pub open spec fn channels(
    fields: Seq<Field>,
    excluded: Seq<FieldId>,
    overrides: Seq<(FieldId, String)>,
) -> Seq<(FieldKey, Seq<char>)>
    decreases fields.len(),
{
    if fields.len() == 0 {
        seq![]
    } else {
        let before = channels(fields.drop_last(), excluded, overrides);
        let f = fields.last();
        if is_excluded(excluded, f.id@) {
            before
        } else {
            before.push((f.id@, resolved_type(overrides, f)))
        }
    }
}

/// One diagnostic for each channel after the first whose type differs from
/// the first channel's type, in order.
pub open spec fn mismatches(chs: Seq<(FieldKey, Seq<char>)>) -> Seq<DiagnosticView>
    decreases chs.len(),
{
    if chs.len() <= 1 {
        seq![]
    } else {
        let before = mismatches(chs.drop_last());
        if chs.last().1 != chs[0].1 {
            before.push(
                DiagnosticView::MismatchedChannelType { field: chs.last().0, expected: chs[0].1 },
            )
        } else {
            before
        }
    }
}

/// The path by which generated code names `ArrayCast`.
pub open spec fn array_cast_path(internal: bool) -> Seq<char> {
    if internal {
        "crate::cast::ArrayCast"@
    } else {
        "::palette::cast::ArrayCast"@
    }
}

/// An `ArrayCast` implementation, to be written as
/// `impl <trait_path> for <color_type> { type Array = [<channel_type>; <channel_count>]; }`,
/// together with the problems found beside it.
#[derive(Clone, Debug, PartialEq, Eq)]
pub struct ArrayCastImpl {
    pub trait_path: String,
    pub color_type: String,
    pub channel_type: String,
    pub channel_count: usize,
    /// Problems found in the declaration. Where there are any, the
    /// implementation does not make a sound promise.
    pub diagnostics: Vec<Diagnostic>,
}

impl ArrayCastImpl {
    /// Whether the implementation can be relied on: no problem was found
    /// beside it.
    pub fn is_sound(&self) -> (r: bool)
        ensures
            r == (self.diagnostics@.len() == 0),
    {
        self.diagnostics.len() == 0
    }
}

/// What the analysis of a declaration yields, as contracts speak of it.
pub enum Outcome {
    Implemented {
        trait_path: Seq<char>,
        color_type: Seq<char>,
        channel_type: Seq<char>,
        channel_count: nat,
        diagnostics: Seq<DiagnosticView>,
    },
    Rejected(Seq<DiagnosticView>),
}

/// The outcome that a result of `derive` stands for.
pub open spec fn outcome_of(r: Result<ArrayCastImpl, Vec<Diagnostic>>) -> Outcome {
    match r {
        Ok(imp) => Outcome::Implemented {
            trait_path: imp.trait_path@,
            color_type: imp.color_type@,
            channel_type: imp.channel_type@,
            channel_count: imp.channel_count as nat,
            diagnostics: diagnostics_view(imp.diagnostics@),
        },
        Err(e) => Outcome::Rejected(diagnostics_view(e@)),
    }
}

/// The diagnostic for a declaration without a fixed layout, if it has none.
pub open spec fn layout_diagnostics(d: Declaration) -> Seq<DiagnosticView> {
    if has_fixed_layout(d.attributes@) {
        seq![]
    } else {
        seq![DiagnosticView::MissingLayoutGuarantee(d.name@)]
    }
}

/// The analysis of a declaration.
///
/// An enum or a union is rejected at once. So is a struct with `repr`
/// attributes that could not be read, where none fixes the layout. Otherwise
/// the problems found are a missing fixed layout, then each channel whose type
/// differs from the first one's. With no channel at all the struct is
/// rejected with these and a last diagnostic; else the implementation has the
/// first channel's type and the number of channels, and carries the problems
/// found.
pub open spec fn derive_outcome(d: Declaration) -> Outcome {
    match d.shape {
        Shape::Enum => Outcome::Rejected(seq![DiagnosticView::UnsupportedShape(ShapeKind::Enum)]),
        Shape::Union => Outcome::Rejected(seq![DiagnosticView::UnsupportedShape(ShapeKind::Union)]),
        Shape::Struct(fields) => {
            if !has_fixed_layout(d.attributes@) && repr_errors(d.attributes@).len() > 0 {
                Outcome::Rejected(repr_errors(d.attributes@))
            } else {
                let chs = channels(fields@, d.excluded@, d.type_overrides@);
                let found = layout_diagnostics(d) + mismatches(chs);
                if chs.len() == 0 {
                    Outcome::Rejected(found.push(DiagnosticView::NoChannelFields))
                } else {
                    Outcome::Implemented {
                        trait_path: array_cast_path(d.internal),
                        color_type: d.name@,
                        channel_type: chs[0].1,
                        channel_count: chs.len(),
                        diagnostics: found,
                    }
                }
            }
        },
    }
}

/// A struct has no more channels than fields.
proof fn lemma_channels_len(
    fields: Seq<Field>,
    excluded: Seq<FieldId>,
    overrides: Seq<(FieldId, String)>,
)
    ensures
        channels(fields, excluded, overrides).len() <= fields.len(),
    decreases fields.len(),
{
    if fields.len() > 0 {
        lemma_channels_len(fields.drop_last(), excluded, overrides);
    }
}

/// An implementation always describes an array of at least one channel, and
/// of no more channels than the struct has fields.
pub proof fn lemma_implemented_array_is_nonempty(d: Declaration)
    ensures
        derive_outcome(d) matches Outcome::Implemented { channel_count, .. } ==> {
            &&& 1 <= channel_count
            &&& d.shape matches Shape::Struct(fields)
            &&& channel_count <= fields@.len()
        },
{
    if let Shape::Struct(fields) = d.shape {
        lemma_channels_len(fields@, d.excluded@, d.type_overrides@);
    }
}

/// Whether the field `id` is listed in `excluded`.
fn is_excluded_field(excluded: &Vec<FieldId>, id: &FieldId) -> (r: bool)
    ensures
        r == is_excluded(excluded@, id@),
{
    let mut i: usize = 0;
    while i < excluded.len()
        invariant
            i <= excluded@.len(),
            forall|k: int| 0 <= k < i ==> #[trigger] excluded@[k]@ != id@,
        decreases excluded@.len() - i,
    {
        if excluded[i].same_as(id) {
            return true;
        }
        i += 1;
    }
    false
}

/// The type that `f` counts with.
fn resolve_type(overrides: &Vec<(FieldId, String)>, f: &Field) -> (r: String)
    ensures
        r@ == resolved_type(overrides@, *f),
{
    let mut i: usize = 0;
    assert(overrides@.subrange(0, overrides@.len() as int) == overrides@);
    while i < overrides.len()
        invariant
            i <= overrides@.len(),
            override_of(overrides@, f.id@) == override_of(
                overrides@.subrange(i as int, overrides@.len() as int),
                f.id@,
            ),
        decreases overrides@.len() - i,
    {
        let ghost rest = overrides@.subrange(i as int, overrides@.len() as int);
        assert(rest[0] == overrides@[i as int]);
        if overrides[i].0.same_as(&f.id) {
            return overrides[i].1.clone();
        }
        assert(rest.drop_first() == overrides@.subrange(i + 1, overrides@.len() as int));
        i += 1;
    }
    f.ty.clone()
}

/// The path by which generated code names `ArrayCast`.
fn array_cast_trait_path(internal: bool) -> (r: String)
    ensures
        r@ == array_cast_path(internal),
{
    if internal {
        String::from_str("crate::cast::ArrayCast")
    } else {
        String::from_str("::palette::cast::ArrayCast")
    }
}

/// Analyses a declaration: the `ArrayCast` implementation it can have,
/// with the problems found beside it, or the diagnostics that reject it.
pub fn derive(decl: &Declaration) -> (r: Result<ArrayCastImpl, Vec<Diagnostic>>)
    ensures
        outcome_of(r) == derive_outcome(*decl),
{
    let fields = match &decl.shape {
        Shape::Struct(fields) => fields,
        Shape::Enum => {
            let mut e: Vec<Diagnostic> = Vec::new();
            e.push(Diagnostic::UnsupportedShape(ShapeKind::Enum));
            assert(diagnostics_view(e@) =~= seq![DiagnosticView::UnsupportedShape(ShapeKind::Enum)]);
            return Err(e);
        },
        Shape::Union => {
            let mut e: Vec<Diagnostic> = Vec::new();
            e.push(Diagnostic::UnsupportedShape(ShapeKind::Union));
            assert(diagnostics_view(e@) =~= seq![DiagnosticView::UnsupportedShape(ShapeKind::Union)]);
            return Err(e);
        },
    };
    let allowed = match is_allowed_repr(&decl.attributes) {
        Ok(allowed) => allowed,
        Err(e) => return Err(e),
    };
    let mut diagnostics: Vec<Diagnostic> = Vec::new();
    if !allowed {
        diagnostics.push(Diagnostic::MissingLayoutGuarantee(decl.name.clone()));
    }
    assert(diagnostics_view(diagnostics@) =~= layout_diagnostics(*decl));
    let ghost found = layout_diagnostics(*decl);
    let ghost excluded = decl.excluded@;
    let ghost overrides = decl.type_overrides@;
    let mut count: usize = 0;
    let mut channel_type: Option<String> = None;
    let mut i: usize = 0;
    while i < fields.len()
        invariant
            i <= fields@.len(),
            excluded == decl.excluded@,
            overrides == decl.type_overrides@,
            found == layout_diagnostics(*decl),
            count == channels(fields@.take(i as int), excluded, overrides).len(),
            count <= i,
            (count == 0) == (channel_type is None),
            channel_type matches Some(t) ==> t@ == channels(
                fields@.take(i as int),
                excluded,
                overrides,
            )[0].1,
            diagnostics_view(diagnostics@) == found + mismatches(
                channels(fields@.take(i as int), excluded, overrides),
            ),
        decreases fields@.len() - i,
    {
        let f = &fields[i];
        let ghost before = channels(fields@.take(i as int), excluded, overrides);
        assert(fields@.take(i + 1).drop_last() == fields@.take(i as int));
        assert(fields@.take(i + 1).last() == fields@[i as int]);
        if !is_excluded_field(&decl.excluded, &f.id) {
            let ty = resolve_type(&decl.type_overrides, f);
            let ghost after = before.push((f.id@, ty@));
            assert(channels(fields@.take(i + 1), excluded, overrides) == after);
            assert(after.drop_last() == before);
            count += 1;
            match &channel_type {
                Some(t) => {
                    assert(after[0] == before[0]);
                    if !(*t == ty) {
                        let d = Diagnostic::MismatchedChannelType {
                            field: f.id.copied(),
                            expected: t.clone(),
                        };
                        assert(d@ == DiagnosticView::MismatchedChannelType {
                            field: after.last().0,
                            expected: after[0].1,
                        });
                        assert(mismatches(after) == mismatches(before).push(d@));
                        let ghost earlier = diagnostics@;
                        diagnostics.push(d);
                        assert(diagnostics_view(diagnostics@) =~= diagnostics_view(earlier).push(
                            d@,
                        ));
                        assert(diagnostics_view(diagnostics@) =~= found + mismatches(after));
                    } else {
                        assert(diagnostics_view(diagnostics@) =~= found + mismatches(after));
                    }
                },
                None => {
                    assert(diagnostics_view(diagnostics@) =~= found + mismatches(after));
                    channel_type = Some(ty);
                },
            }
        }
        i += 1;
    }
    assert(fields@.take(i as int) == fields@);
    match channel_type {
        Some(t) => Ok(
            ArrayCastImpl {
                trait_path: array_cast_trait_path(decl.internal),
                color_type: decl.name.clone(),
                channel_type: t,
                channel_count: count,
                diagnostics,
            },
        ),
        None => {
            let ghost chs = channels(fields@, excluded, overrides);
            diagnostics.push(Diagnostic::NoChannelFields);
            assert(diagnostics_view(diagnostics@) =~= (found + mismatches(chs)).push(
                DiagnosticView::NoChannelFields,
            ));
            Err(diagnostics)
        },
    }
}

} // verus!
