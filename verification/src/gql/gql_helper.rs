//! The type-schema compiler.
//!
//! A handler describes its input and output by a type descriptor, a JSON
//! value of one of three shapes: a string naming a scalar, an object whose
//! `_name_` member names an object type and whose other members describe its
//! fields, or a container `{container, content}` wrapping another descriptor
//! in a list (`Vec`), in a nullable (`Option`) or in a named object (`Obj`).
//!
//! Compiling a descriptor under a field name yields the name of the type it
//! denotes, the fields it contributes, the object types it declares on the
//! way, and a tag saying how the type is wrapped. Input and output
//! descriptors compile alike; they differ in what the results stand for.

use vstd::prelude::*;
use crate::json::lookup;
use crate::json::Json;
use crate::json::JsonView;
use crate::text::copy_str;
use crate::text::str_eq;

verus! {

/// How a named type is wrapped: plain or list, and where null is excluded.
/// `NN` before `List` speaks of the list's items, `NN` at the end (or alone)
/// of the outermost value.
#[derive(Debug, Clone, Copy, PartialEq, Eq, Structural)]
pub enum TypeRefKind {
    Named,
    NamedNN,
    NamedList,
    NamedNNList,
    NamedListNN,
    NamedNNListNN,
}

impl TypeRefKind {
    /// The tag of a list whose items have tag `self`. The list itself is
    /// never null; its items are non-null where the outermost layer of `self`
    /// was, or where `self` was a list of non-null items.
    pub open spec fn spec_in_list(self) -> TypeRefKind {
        match self {
            TypeRefKind::Named => TypeRefKind::NamedListNN,
            TypeRefKind::NamedNN => TypeRefKind::NamedNNListNN,
            TypeRefKind::NamedList => TypeRefKind::NamedListNN,
            TypeRefKind::NamedNNList => TypeRefKind::NamedNNListNN,
            TypeRefKind::NamedListNN => TypeRefKind::NamedNNListNN,
            TypeRefKind::NamedNNListNN => TypeRefKind::NamedNNListNN,
        }
    }

    /// The tag of a nullable value of tag `self`: the outermost non-null is
    /// dropped, what is said of a list's items stays.
    pub open spec fn spec_optional(self) -> TypeRefKind {
        match self {
            TypeRefKind::Named => TypeRefKind::Named,
            TypeRefKind::NamedNN => TypeRefKind::Named,
            TypeRefKind::NamedList => TypeRefKind::NamedList,
            TypeRefKind::NamedNNList => TypeRefKind::NamedNNList,
            TypeRefKind::NamedListNN => TypeRefKind::NamedList,
            TypeRefKind::NamedNNListNN => TypeRefKind::NamedNNList,
        }
    }

    /// Whether the tag denotes a list.
    pub open spec fn is_list(self) -> bool {
        !(self is Named || self is NamedNN)
    }

    /// Whether the outermost value may not be null.
    pub open spec fn outer_non_null(self) -> bool {
        self is NamedNN || self is NamedListNN || self is NamedNNListNN
    }

    /// Whether the tag denotes a list whose items may not be null.
    pub open spec fn items_non_null(self) -> bool {
        self is NamedNNList || self is NamedNNListNN
    }

    /// Wraps the tag in a list.
    pub fn in_list(self) -> (r: TypeRefKind)
        ensures
            r == self.spec_in_list(),
    {
        match self {
            TypeRefKind::Named => TypeRefKind::NamedListNN,
            TypeRefKind::NamedNN => TypeRefKind::NamedNNListNN,
            TypeRefKind::NamedList => TypeRefKind::NamedListNN,
            TypeRefKind::NamedNNList => TypeRefKind::NamedNNListNN,
            TypeRefKind::NamedListNN => TypeRefKind::NamedNNListNN,
            TypeRefKind::NamedNNListNN => TypeRefKind::NamedNNListNN,
        }
    }

    /// Makes the tag nullable.
    pub fn optional(self) -> (r: TypeRefKind)
        ensures
            r == self.spec_optional(),
    {
        match self {
            TypeRefKind::Named => TypeRefKind::Named,
            TypeRefKind::NamedNN => TypeRefKind::Named,
            TypeRefKind::NamedList => TypeRefKind::NamedList,
            TypeRefKind::NamedNNList => TypeRefKind::NamedNNList,
            TypeRefKind::NamedListNN => TypeRefKind::NamedList,
            TypeRefKind::NamedNNListNN => TypeRefKind::NamedNNList,
        }
    }
}

/// A list is a list that is not null; its items are non-null exactly where
/// the wrapped tag excluded null at its outermost layer or, being a list
/// itself, in its items.
pub proof fn lemma_in_list(k: TypeRefKind)
    ensures
        k.spec_in_list().is_list(),
        k.spec_in_list().outer_non_null(),
        k.spec_in_list().items_non_null() == (k.outer_non_null() || k.items_non_null()),
{
}

/// A nullable value admits null at its outermost layer and is otherwise
/// wrapped as before. Making a value nullable twice is making it nullable
/// once.
pub proof fn lemma_optional(k: TypeRefKind)
    ensures
        !k.spec_optional().outer_non_null(),
        k.spec_optional().is_list() == k.is_list(),
        k.spec_optional().items_non_null() == k.items_non_null(),
        k.spec_optional().spec_optional() == k.spec_optional(),
{
}

/// A reference to a named type under a wrapping tag.
#[derive(Debug, PartialEq, Eq)]
pub struct TypeRef {
    pub kind: TypeRefKind,
    pub name: String,
}

/// The mathematical value of a `TypeRef`.
pub struct TypeRefView {
    pub kind: TypeRefKind,
    pub name: Seq<char>,
}

impl View for TypeRef {
    type V = TypeRefView;

    open spec fn view(&self) -> TypeRefView {
        TypeRefView { kind: self.kind, name: self.name@ }
    }
}

/// The mathematical value of a field: of an argument of a handler, of a
/// field of an input object, or of a field of an output object.
pub struct FieldView {
    pub name: Seq<char>,
    pub ty: TypeRefView,
}

/// The mathematical value of an object type, input or output.
pub struct ObjectView {
    pub name: Seq<char>,
    pub fields: Seq<FieldView>,
}

/// An argument definition: a named value of an input type.
#[derive(Debug, PartialEq, Eq)]
pub struct InputValue {
    pub name: String,
    pub ty: TypeRef,
}

/// An input object type with its fields.
#[derive(Debug, PartialEq, Eq)]
pub struct InputObject {
    pub name: String,
    pub fields: Vec<InputValue>,
}

/// An output field definition. Its value is found in the parent value's
/// member of the same name, as `resolve_field` says.
#[derive(Debug, PartialEq, Eq)]
pub struct Field {
    pub name: String,
    pub ty: TypeRef,
}

/// An output object type with its fields.
#[derive(Debug, PartialEq, Eq)]
pub struct Object {
    pub name: String,
    pub fields: Vec<Field>,
}

impl View for InputValue {
    type V = FieldView;

    open spec fn view(&self) -> FieldView {
        FieldView { name: self.name@, ty: self.ty@ }
    }
}

impl View for Field {
    type V = FieldView;

    open spec fn view(&self) -> FieldView {
        FieldView { name: self.name@, ty: self.ty@ }
    }
}

/// The values of a list of argument definitions.
pub open spec fn input_values_view(s: Seq<InputValue>) -> Seq<FieldView> {
    Seq::new(s.len(), |i: int| s[i]@)
}

/// The values of a list of output fields.
pub open spec fn fields_view(s: Seq<Field>) -> Seq<FieldView> {
    Seq::new(s.len(), |i: int| s[i]@)
}

impl View for InputObject {
    type V = ObjectView;

    open spec fn view(&self) -> ObjectView {
        ObjectView { name: self.name@, fields: input_values_view(self.fields@) }
    }
}

impl View for Object {
    type V = ObjectView;

    open spec fn view(&self) -> ObjectView {
        ObjectView { name: self.name@, fields: fields_view(self.fields@) }
    }
}

/// The values of a list of input object types.
pub open spec fn input_objects_view(s: Seq<InputObject>) -> Seq<ObjectView> {
    Seq::new(s.len(), |i: int| s[i]@)
}

/// The values of a list of output object types.
pub open spec fn objects_view(s: Seq<Object>) -> Seq<ObjectView> {
    Seq::new(s.len(), |i: int| s[i]@)
}

/// What compiling an input descriptor yields: the type's name, the
/// arguments, the input object types declared on the way, and the tag.
pub type InputType = (String, Vec<InputValue>, Vec<InputObject>, TypeRefKind);

/// What compiling an output descriptor yields: the type's name, the fields,
/// the output object types declared on the way, and the tag.
pub type OutputType = (String, Vec<Field>, Vec<Object>, TypeRefKind);

/// The mathematical value of a compilation, input or output.
pub struct Compiled {
    pub ty_name: Seq<char>,
    pub fields: Seq<FieldView>,
    pub objects: Seq<ObjectView>,
    pub kind: TypeRefKind,
}

/// The value of an input compilation.
pub open spec fn input_type_view(t: InputType) -> Compiled {
    Compiled {
        ty_name: t.0@,
        fields: input_values_view(t.1@),
        objects: input_objects_view(t.2@),
        kind: t.3,
    }
}

/// The value of an output compilation.
pub open spec fn output_type_view(t: OutputType) -> Compiled {
    Compiled {
        ty_name: t.0@,
        fields: fields_view(t.1@),
        objects: objects_view(t.2@),
        kind: t.3,
    }
}

/// Why a descriptor does not compile.
#[derive(Debug, PartialEq, Eq)]
pub enum MetadataError {
    /// The descriptor, given here, names no known scalar or container, or is
    /// neither a string nor an object.
    InvalidType(Json),
    /// The descriptor is an object that is neither an object type nor a
    /// container, or a container without content.
    InvalidContent,
}

/// The mathematical value of a `MetadataError`.
pub enum MetadataErrorView {
    InvalidType(JsonView),
    InvalidContent,
}

impl View for MetadataError {
    type V = MetadataErrorView;

    open spec fn view(&self) -> MetadataErrorView {
        match self {
            MetadataError::InvalidType(j) => MetadataErrorView::InvalidType(j@),
            MetadataError::InvalidContent => MetadataErrorView::InvalidContent,
        }
    }
}

/// The primitive type that a scalar's name stands for.
pub open spec fn scalar_type(t: Seq<char>) -> Option<Seq<char>> {
    if t == "bool"@ {
        Some("Boolean"@)
    } else if t == "i8"@ || t == "i16"@ || t == "i32"@ || t == "i64"@ || t == "i128"@ || t
        == "isize"@ || t == "u8"@ || t == "u16"@ || t == "u32"@ || t == "u64"@ || t == "u128"@
        || t == "usize"@ {
        Some("Int"@)
    } else if t == "f32"@ || t == "f64"@ {
        Some("Float"@)
    } else if t == "char"@ || t == "String"@ {
        Some("String"@)
    } else {
        None
    }
}

/// The one field that a scalar or a container contributes.
pub open spec fn single_field(name: Seq<char>, ty_name: Seq<char>, kind: TypeRefKind) -> Seq<
    FieldView,
> {
    seq![FieldView { name, ty: TypeRefView { kind, name: ty_name } }]
}

/// Whether `c` names a container.
pub open spec fn is_container(c: Seq<char>) -> bool {
    c == "Vec"@ || c == "Option"@ || c == "Obj"@
}

/// What the container `c` makes of its compiled content, under the field
/// name `name`.
///
/// A list and a nullable keep the content's type name and its declared
/// objects, and contribute one field of the content's type under the
/// transformed tag. A named object declares the content as an object type,
/// ahead of the objects the content declared, and contributes one non-null
/// field that refers to it.
pub open spec fn wrap(c: Seq<char>, name: Seq<char>, inner: Compiled) -> Compiled
    recommends
        is_container(c),
{
    if c == "Vec"@ {
        Compiled {
            ty_name: inner.ty_name,
            fields: single_field(name, inner.ty_name, inner.kind.spec_in_list()),
            objects: inner.objects,
            kind: inner.kind.spec_in_list(),
        }
    } else if c == "Option"@ {
        Compiled {
            ty_name: inner.ty_name,
            fields: single_field(name, inner.ty_name, inner.kind.spec_optional()),
            objects: inner.objects,
            kind: inner.kind.spec_optional(),
        }
    } else {
        Compiled {
            ty_name: inner.ty_name,
            fields: single_field(name, inner.ty_name, TypeRefKind::NamedNN),
            objects: seq![ObjectView { name: inner.ty_name, fields: inner.fields }]
                + inner.objects,
            kind: TypeRefKind::NamedNN,
        }
    }
}

/// The compilation of the descriptor `d` under the field name `name`.
///
/// - A string compiles where it names a scalar: to one non-null field of
///   the scalar's primitive type.
/// - An object with a string member `_name_` is an object type of that
///   name: its other members compile under their keys, in order, and their
///   fields and objects are put together. It does not declare itself.
/// - Another object with a string member `container` is a container; a
///   known one with a `content` member wraps the compiled content.
/// - Everything else is an error, and so is a descriptor with an error
///   inside.
pub open spec fn compile(name: Seq<char>, d: JsonView) -> Result<Compiled, MetadataErrorView>
    decreases d, 0nat,
{
    match d {
        JsonView::String(t) => match scalar_type(t) {
            Some(p) => Ok(
                Compiled {
                    ty_name: p,
                    fields: single_field(name, p, TypeRefKind::NamedNN),
                    objects: Seq::empty(),
                    kind: TypeRefKind::NamedNN,
                },
            ),
            None => Err(MetadataErrorView::InvalidType(d)),
        },
        JsonView::Object(entries) => match lookup(entries, "_name_"@) {
            Some(JsonView::String(object_name)) => match compile_members(entries, entries.len()) {
                Ok((fields, objects)) => Ok(
                    Compiled {
                        ty_name: object_name,
                        fields,
                        objects,
                        kind: TypeRefKind::NamedNN,
                    },
                ),
                Err(e) => Err(e),
            },
            _ => match lookup(entries, "container"@) {
                Some(JsonView::String(c)) => if is_container(c) {
                    match lookup(entries, "content"@) {
                        Some(content) => match compile(name, content) {
                            Ok(inner) => Ok(wrap(c, name, inner)),
                            Err(e) => Err(e),
                        },
                        None => Err(MetadataErrorView::InvalidContent),
                    }
                } else {
                    Err(MetadataErrorView::InvalidType(d))
                },
                _ => Err(MetadataErrorView::InvalidContent),
            },
        },
        _ => Err(MetadataErrorView::InvalidType(d)),
    }
}

/// The fields and objects that the first `n` members of an object type
/// contribute: each member but `_name_` compiles under its key. The first
/// member that does not compile decides the error.
pub open spec fn compile_members(entries: Seq<(Seq<char>, JsonView)>, n: nat) -> Result<
    (Seq<FieldView>, Seq<ObjectView>),
    MetadataErrorView,
>
    decreases entries, n,
{
    if n == 0 || n > entries.len() {
        Ok((Seq::empty(), Seq::empty()))
    } else {
        match compile_members(entries, (n - 1) as nat) {
            Err(e) => Err(e),
            Ok((fields, objects)) => {
                if entries[n - 1].0 == "_name_"@ {
                    Ok((fields, objects))
                } else {
                    match compile(entries[n - 1].0, entries[n - 1].1) {
                        Err(e) => Err(e),
                        Ok(c) => Ok((fields + c.fields, objects + c.objects)),
                    }
                }
            },
        }
    }
}

/// The value of what the input compiler returns.
pub open spec fn input_result_view(r: Result<InputType, MetadataError>) -> Result<
    Compiled,
    MetadataErrorView,
> {
    match r {
        Ok(t) => Ok(input_type_view(t)),
        Err(e) => Err(e@),
    }
}

/// The value of what the output compiler returns.
pub open spec fn output_result_view(r: Result<OutputType, MetadataError>) -> Result<
    Compiled,
    MetadataErrorView,
> {
    match r {
        Ok(t) => Ok(output_type_view(t)),
        Err(e) => Err(e@),
    }
}

/// Once a member has failed to compile, the error stays whatever follows.
pub proof fn lemma_members_error_stays(entries: Seq<(Seq<char>, JsonView)>, k: nat, n: nat)
    requires
        k <= n <= entries.len(),
        compile_members(entries, k) is Err,
    ensures
        compile_members(entries, n) == compile_members(entries, k),
    decreases n,
{
    if k < n {
        lemma_members_error_stays(entries, k, (n - 1) as nat);
    }
}

/// The primitive type that a scalar's name stands for, if it names one.
fn scalar_name(t: &str) -> (r: Option<String>)
    ensures
        match r {
            Some(p) => scalar_type(t@) == Some(p@),
            None => scalar_type(t@) is None,
        },
{
    if str_eq(t, "bool") {
        Some(copy_str("Boolean"))
    } else if str_eq(t, "i8") || str_eq(t, "i16") || str_eq(t, "i32") || str_eq(t, "i64")
        || str_eq(t, "i128") || str_eq(t, "isize") || str_eq(t, "u8") || str_eq(t, "u16")
        || str_eq(t, "u32") || str_eq(t, "u64") || str_eq(t, "u128") || str_eq(t, "usize") {
        Some(copy_str("Int"))
    } else if str_eq(t, "f32") || str_eq(t, "f64") {
        Some(copy_str("Float"))
    } else if str_eq(t, "char") || str_eq(t, "String") {
        Some(copy_str("String"))
    } else {
        None
    }
}

/// The list of the one field `name` of type `ty_name` under `kind`.
fn one_field(name: &str, ty_name: &str, kind: TypeRefKind) -> (r: Vec<Field>)
    ensures
        fields_view(r@) == single_field(name@, ty_name@, kind),
{
    let mut r: Vec<Field> = Vec::new();
    r.push(Field { name: copy_str(name), ty: TypeRef { kind, name: copy_str(ty_name) } });
    proof {
        assert(fields_view(r@) =~= single_field(name@, ty_name@, kind));
    }
    r
}

/// Applies the container `c` to its compiled content.
fn wrap_content(c: &str, name: &str, inner: OutputType) -> (r: OutputType)
    requires
        is_container(c@),
    ensures
        output_type_view(r) == wrap(c@, name@, output_type_view(inner)),
{
    let (ty_name, fields, mut objects, kind) = inner;
    if str_eq(c, "Vec") {
        let kind = kind.in_list();
        let one = one_field(name, ty_name.as_str(), kind);
        (ty_name, one, objects, kind)
    } else if str_eq(c, "Option") {
        let kind = kind.optional();
        let one = one_field(name, ty_name.as_str(), kind);
        (ty_name, one, objects, kind)
    } else {
        let one = one_field(name, ty_name.as_str(), TypeRefKind::NamedNN);
        let ghost declared = objects_view(objects@);
        let ghost content = fields_view(fields@);
        let mut all: Vec<Object> = Vec::new();
        all.push(Object { name: copy_str(ty_name.as_str()), fields });
        all.append(&mut objects);
        proof {
            assert(objects_view(all@) =~= seq![ObjectView { name: ty_name@, fields: content }]
                + declared);
        }
        (ty_name, one, all, TypeRefKind::NamedNN)
    }
}

/// Compiles a descriptor; the results stand for output types.
#[verifier::loop_isolation(false)]
fn compile_descriptor(name: &str, d: &Json) -> (r: Result<OutputType, MetadataError>)
    ensures
        output_result_view(r) == compile(name@, d@),
    decreases d@,
{
    match d {
        Json::String(t) => match scalar_name(t.as_str()) {
            Some(p) => {
                let one = one_field(name, p.as_str(), TypeRefKind::NamedNN);
                let none: Vec<Object> = Vec::new();
                proof {
                    assert(objects_view(none@) =~= Seq::empty());
                }
                Ok((p, one, none, TypeRefKind::NamedNN))
            },
            None => Err(MetadataError::InvalidType(d.copy())),
        },
        Json::Object(entries) => {
            let ghost es = d@->Object_0;
            match d.get("_name_") {
                Some(Json::String(object_name)) => {
                    let mut fields: Vec<Field> = Vec::new();
                    let mut objects: Vec<Object> = Vec::new();
                    let mut i: usize = 0;
                    proof {
                        assert(fields_view(fields@) =~= Seq::empty());
                        assert(objects_view(objects@) =~= Seq::empty());
                    }
                    while i < entries.len()
                        invariant
                            i <= entries@.len(),
                            d@ == JsonView::Object(es),
                            es.len() == entries@.len(),
                            compile_members(es, i as nat) == Ok::<
                                (Seq<FieldView>, Seq<ObjectView>),
                                MetadataErrorView,
                            >((fields_view(fields@), objects_view(objects@))),
                        decreases entries@.len() - i,
                    {
                        let ghost before_fields = fields_view(fields@);
                        let ghost before_objects = objects_view(objects@);
                        assert(es[i as int] == (entries@[i as int].0@, entries@[i as int].1@));
                        assert(decreases_to!(d@ => es[i as int].1));
                        if !str_eq(entries[i].0.as_str(), "_name_") {
                            match compile_descriptor(entries[i].0.as_str(), &entries[i].1) {
                                Ok(c) => {
                                    let (_, mut more_fields, mut more_objects, _) = c;
                                    let ghost added_fields = fields_view(more_fields@);
                                    let ghost added_objects = objects_view(more_objects@);
                                    fields.append(&mut more_fields);
                                    objects.append(&mut more_objects);
                                    proof {
                                        assert(fields_view(fields@) =~= before_fields
                                            + added_fields);
                                        assert(objects_view(objects@) =~= before_objects
                                            + added_objects);
                                    }
                                },
                                Err(e) => {
                                    proof {
                                        lemma_members_error_stays(
                                            es,
                                            (i + 1) as nat,
                                            es.len(),
                                        );
                                    }
                                    return Err(e);
                                },
                            }
                        }
                        i += 1;
                    }
                    Ok((copy_str(object_name.as_str()), fields, objects, TypeRefKind::NamedNN))
                },
                _ => match d.get("container") {
                    Some(Json::String(c)) => {
                        if str_eq(c.as_str(), "Vec") || str_eq(c.as_str(), "Option") || str_eq(
                            c.as_str(),
                            "Obj",
                        ) {
                            match d.get("content") {
                                Some(content) => match compile_descriptor(name, content) {
                                    Ok(inner) => Ok(wrap_content(c.as_str(), name, inner)),
                                    Err(e) => Err(e),
                                },
                                None => Err(MetadataError::InvalidContent),
                            }
                        } else {
                            Err(MetadataError::InvalidType(d.copy()))
                        }
                    },
                    _ => Err(MetadataError::InvalidContent),
                },
            }
        },
        _ => Err(MetadataError::InvalidType(d.copy())),
    }
}

/// Reads output fields as argument definitions.
fn input_values_of(fields: Vec<Field>) -> (r: Vec<InputValue>)
    ensures
        input_values_view(r@) == fields_view(fields@),
{
    let mut out: Vec<InputValue> = Vec::new();
    for f in it: fields
        invariant
            it.seq() == fields@,
            out@.len() == it.index(),
            forall|k: int| 0 <= k < out@.len() ==> (#[trigger] out@[k])@ == fields@[k]@,
    {
        out.push(InputValue { name: f.name, ty: f.ty });
    }
    proof {
        assert(input_values_view(out@) =~= fields_view(fields@));
    }
    out
}

/// Reads output object types as input object types.
fn input_objects_of(objects: Vec<Object>) -> (r: Vec<InputObject>)
    ensures
        input_objects_view(r@) == objects_view(objects@),
{
    let mut out: Vec<InputObject> = Vec::new();
    for o in it: objects
        invariant
            it.seq() == objects@,
            out@.len() == it.index(),
            forall|k: int| 0 <= k < out@.len() ==> (#[trigger] out@[k])@ == objects@[k]@,
    {
        out.push(InputObject { name: o.name, fields: input_values_of(o.fields) });
    }
    proof {
        assert(input_objects_view(out@) =~= objects_view(objects@));
    }
    out
}

/// Compiles the input descriptor `metadata` under the field name `name`:
/// to the input type's name, the arguments, the input object types declared
/// on the way and the tag, or to the reason why the descriptor is invalid.
pub fn value_to_gql_input_type(name: String, metadata: Json) -> (r: Result<
    InputType,
    MetadataError,
>)
    ensures
        input_result_view(r) == compile(name@, metadata@),
{
    match compile_descriptor(name.as_str(), &metadata) {
        Ok(c) => {
            let (ty_name, fields, objects, kind) = c;
            Ok((ty_name, input_values_of(fields), input_objects_of(objects), kind))
        },
        Err(e) => Err(e),
    }
}

/// Compiles the output descriptor `metadata` under the field name `name`:
/// to the output type's name, the fields, the output object types declared
/// on the way and the tag, or to the reason why the descriptor is invalid.
pub fn value_to_gql_output_type(name: String, metadata: Json) -> (r: Result<
    OutputType,
    MetadataError,
>)
    ensures
        output_result_view(r) == compile(name@, metadata@),
{
    compile_descriptor(name.as_str(), &metadata)
}

/// The value of an output field of the parent value `parent`: the member
/// of that name. It is absent where the parent is no object, where it has
/// no such member, and where the member is null.
pub open spec fn resolved(parent: JsonView, name: Seq<char>) -> Option<JsonView> {
    match parent.get(name) {
        Some(v) => if v is Null {
            None
        } else {
            Some(v)
        },
        None => None,
    }
}

/// Resolves the output field `name` against its parent value. The value
/// found is handed on as it is.
pub fn resolve_field<'a>(parent: &'a Json, name: &str) -> (r: Option<&'a Json>)
    ensures
        match r {
            Some(j) => resolved(parent@, name@) == Some(j@),
            None => resolved(parent@, name@) is None,
        },
{
    match parent.get(name) {
        Some(Json::Null) => None,
        Some(v) => Some(v),
        None => None,
    }
}

/// The descriptor of the container `c` around `content`.
pub open spec fn container(c: Seq<char>, content: JsonView) -> JsonView {
    JsonView::Object(seq![("container"@, JsonView::String(c)), ("content"@, content)])
}

/// Whether `d` has the shape of an object type: an object with a string
/// member `_name_`.
pub open spec fn is_object_type(d: JsonView) -> bool {
    match d.get("_name_"@) {
        Some(JsonView::String(_)) => true,
        _ => false,
    }
}

/// The compilation `c` with the tag `kind` in place of its own and of that
/// of each of its fields.
pub open spec fn with_kind(c: Compiled, kind: TypeRefKind) -> Compiled {
    Compiled {
        ty_name: c.ty_name,
        fields: Seq::new(
            c.fields.len(),
            |i: int|
                FieldView {
                    name: c.fields[i].name,
                    ty: TypeRefView { kind, name: c.fields[i].ty.name },
                },
        ),
        objects: c.objects,
        kind,
    }
}

/// Each supported scalar stands for its primitive: `bool` for `Boolean`,
/// the twelve integer types for `Int`, the two floating-point types for
/// `Float`, `char` and `String` for `String`.
pub proof fn lemma_scalar_table()
    ensures
        scalar_type("bool"@) == Some("Boolean"@),
        scalar_type("i8"@) == Some("Int"@),
        scalar_type("i16"@) == Some("Int"@),
        scalar_type("i32"@) == Some("Int"@),
        scalar_type("i64"@) == Some("Int"@),
        scalar_type("i128"@) == Some("Int"@),
        scalar_type("isize"@) == Some("Int"@),
        scalar_type("u8"@) == Some("Int"@),
        scalar_type("u16"@) == Some("Int"@),
        scalar_type("u32"@) == Some("Int"@),
        scalar_type("u64"@) == Some("Int"@),
        scalar_type("u128"@) == Some("Int"@),
        scalar_type("usize"@) == Some("Int"@),
        scalar_type("f32"@) == Some("Float"@),
        scalar_type("f64"@) == Some("Float"@),
        scalar_type("char"@) == Some("String"@),
        scalar_type("String"@) == Some("String"@),
{
    reveal_strlit("bool");
    reveal_strlit("i8");
    reveal_strlit("i16");
    reveal_strlit("i32");
    reveal_strlit("i64");
    reveal_strlit("i128");
    reveal_strlit("isize");
    reveal_strlit("u8");
    reveal_strlit("u16");
    reveal_strlit("u32");
    reveal_strlit("u64");
    reveal_strlit("u128");
    reveal_strlit("usize");
    reveal_strlit("f32");
    reveal_strlit("f64");
    reveal_strlit("char");
    reveal_strlit("String");
    assert("bool"@.len() == 4 && "bool"@[0] == 'b' && "bool"@[1] == 'o' && "bool"@[2] == 'o' && "bool"@[3] == 'l');
    assert("i8"@.len() == 2 && "i8"@[0] == 'i' && "i8"@[1] == '8');
    assert("i16"@.len() == 3 && "i16"@[0] == 'i' && "i16"@[1] == '1' && "i16"@[2] == '6');
    assert("i32"@.len() == 3 && "i32"@[0] == 'i' && "i32"@[1] == '3' && "i32"@[2] == '2');
    assert("i64"@.len() == 3 && "i64"@[0] == 'i' && "i64"@[1] == '6' && "i64"@[2] == '4');
    assert("i128"@.len() == 4 && "i128"@[0] == 'i' && "i128"@[1] == '1' && "i128"@[2] == '2' && "i128"@[3] == '8');
    assert("isize"@.len() == 5 && "isize"@[0] == 'i' && "isize"@[1] == 's' && "isize"@[2] == 'i' && "isize"@[3] == 'z' && "isize"@[4] == 'e');
    assert("u8"@.len() == 2 && "u8"@[0] == 'u' && "u8"@[1] == '8');
    assert("u16"@.len() == 3 && "u16"@[0] == 'u' && "u16"@[1] == '1' && "u16"@[2] == '6');
    assert("u32"@.len() == 3 && "u32"@[0] == 'u' && "u32"@[1] == '3' && "u32"@[2] == '2');
    assert("u64"@.len() == 3 && "u64"@[0] == 'u' && "u64"@[1] == '6' && "u64"@[2] == '4');
    assert("u128"@.len() == 4 && "u128"@[0] == 'u' && "u128"@[1] == '1' && "u128"@[2] == '2' && "u128"@[3] == '8');
    assert("usize"@.len() == 5 && "usize"@[0] == 'u' && "usize"@[1] == 's' && "usize"@[2] == 'i' && "usize"@[3] == 'z' && "usize"@[4] == 'e');
    assert("f32"@.len() == 3 && "f32"@[0] == 'f' && "f32"@[1] == '3' && "f32"@[2] == '2');
    assert("f64"@.len() == 3 && "f64"@[0] == 'f' && "f64"@[1] == '6' && "f64"@[2] == '4');
    assert("char"@.len() == 4 && "char"@[0] == 'c' && "char"@[1] == 'h' && "char"@[2] == 'a' && "char"@[3] == 'r');
    assert("String"@.len() == 6 && "String"@[0] == 'S' && "String"@[1] == 't' && "String"@[2] == 'r' && "String"@[3] == 'i' && "String"@[4] == 'n' && "String"@[5] == 'g');
}

/// A descriptor that names a supported scalar compiles, under any field
/// name, to a single non-null field of the scalar's primitive type, and
/// declares no object.
pub proof fn lemma_scalar_compiles(name: Seq<char>, s: Seq<char>)
    requires
        scalar_type(s) is Some,
    ensures
        compile(name, JsonView::String(s)) == Ok::<Compiled, MetadataErrorView>(
            Compiled {
                ty_name: scalar_type(s)->0,
                fields: seq![
                    FieldView {
                        name,
                        ty: TypeRefView { kind: TypeRefKind::NamedNN, name: scalar_type(s)->0 },
                    },
                ],
                objects: Seq::empty(),
                kind: TypeRefKind::NamedNN,
            },
        ),
{
}

/// A string that names no supported scalar does not compile.
pub proof fn lemma_unknown_scalar(name: Seq<char>, s: Seq<char>)
    requires
        scalar_type(s) is None,
    ensures
        compile(name, JsonView::String(s)) == Err::<Compiled, MetadataErrorView>(
            MetadataErrorView::InvalidType(JsonView::String(s)),
        ),
{
}

/// An object with neither a string member `_name_` nor a string member
/// `container` does not compile.
pub proof fn lemma_shapeless_object(name: Seq<char>, d: JsonView)
    requires
        d is Object,
        !is_object_type(d),
        !(d.get("container"@) matches Some(JsonView::String(_))),
    ensures
        compile(name, d) == Err::<Compiled, MetadataErrorView>(MetadataErrorView::InvalidContent),
{
}

/// A container compiles exactly where its content does, to the content's
/// compilation wrapped as the container says.
pub proof fn lemma_container_compiles(name: Seq<char>, c: Seq<char>, content: JsonView)
    requires
        is_container(c),
    ensures
        compile(name, container(c, content)) == match compile(name, content) {
            Ok(inner) => Ok::<Compiled, MetadataErrorView>(wrap(c, name, inner)),
            Err(e) => Err(e),
        },
{
    reveal_strlit("_name_");
    reveal_strlit("container");
    reveal_strlit("content");
    assert("_name_"@.len() == 6 && "container"@.len() == 9 && "content"@.len() == 7);
    let entries = seq![("container"@, JsonView::String(c)), ("content"@, content)];
    reveal_with_fuel(crate::json::find_key, 3);
    assert(lookup(entries, "_name_"@) is None);
    assert(lookup(entries, "container"@) == Some(JsonView::String(c)));
    assert(lookup(entries, "content"@) == Some(content));
}

/// A descriptor that is no object type contributes, where it compiles, the
/// one field of its own name, type and tag.
pub proof fn lemma_single_field(name: Seq<char>, d: JsonView)
    requires
        !is_object_type(d),
        compile(name, d) is Ok,
    ensures
        compile(name, d)->Ok_0.fields == single_field(
            name,
            compile(name, d)->Ok_0.ty_name,
            compile(name, d)->Ok_0.kind,
        ),
{
}

/// Compiling a nullable is compiling its content and dropping the
/// outermost non-null. This holds of every content that is no object type;
/// an object type contributes its members' fields where the nullable
/// contributes one field referring to it.
pub proof fn lemma_option_strips_non_null(name: Seq<char>, content: JsonView)
    requires
        !is_object_type(content),
    ensures
        compile(name, container("Option"@, content)) == match compile(name, content) {
            Ok(inner) => Ok::<Compiled, MetadataErrorView>(
                with_kind(inner, inner.kind.spec_optional()),
            ),
            Err(e) => Err(e),
        },
{
    reveal_strlit("Option");
    reveal_strlit("Vec");
    assert("Option"@.len() == 6 && "Vec"@.len() == 3);
    lemma_container_compiles(name, "Option"@, content);
    if compile(name, content) is Ok {
        lemma_single_field(name, content);
        let inner = compile(name, content)->Ok_0;
        assert(with_kind(inner, inner.kind.spec_optional()).fields =~= single_field(
            name,
            inner.ty_name,
            inner.kind.spec_optional(),
        ));
    }
}

/// Compiling a list is compiling its content and wrapping the tag in a
/// list. This holds of every content that is no object type.
pub proof fn lemma_vec_wraps_in_list(name: Seq<char>, content: JsonView)
    requires
        !is_object_type(content),
    ensures
        compile(name, container("Vec"@, content)) == match compile(name, content) {
            Ok(inner) => Ok::<Compiled, MetadataErrorView>(
                with_kind(inner, inner.kind.spec_in_list()),
            ),
            Err(e) => Err(e),
        },
{
    lemma_container_compiles(name, "Vec"@, content);
    if compile(name, content) is Ok {
        lemma_single_field(name, content);
        let inner = compile(name, content)->Ok_0;
        assert(with_kind(inner, inner.kind.spec_in_list()).fields =~= single_field(
            name,
            inner.ty_name,
            inner.kind.spec_in_list(),
        ));
    }
}

} // verus!
