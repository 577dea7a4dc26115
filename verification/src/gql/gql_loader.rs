//! The handler linker and the schema of a tenant.
//!
//! Each export `handler_metadata_<name>` of a module describes one handler:
//! it returns JSON text `{input, output}` holding two type descriptors, of
//! which the second must describe a named object: a handler returns one. The
//! linker compiles both, pairs the handler with its dispatch function
//! `handler_<name>`, and adds it as a field of the tenant's query type. When
//! all modules are linked, the schema is built: it must hold a handler, and
//! no type name twice.

use vstd::prelude::*;
use crate::gql::gql_helper::compile;
use crate::gql::gql_helper::container;
use crate::gql::gql_helper::input_objects_view;
use crate::gql::gql_helper::input_values_view;
use crate::gql::gql_helper::is_object_type;
use crate::gql::gql_helper::objects_view;
use crate::gql::gql_helper::value_to_gql_input_type;
use crate::gql::gql_helper::value_to_gql_output_type;
use crate::gql::gql_helper::FieldView;
use crate::gql::gql_helper::InputObject;
use crate::gql::gql_helper::InputValue;
use crate::gql::gql_helper::MetadataError;
use crate::gql::gql_helper::MetadataErrorView;
use crate::gql::gql_helper::Object;
use crate::gql::gql_helper::ObjectView;
use crate::json::json_parse;
use crate::json::Json;
use crate::json::JsonView;
use crate::text::copy_str;
use crate::text::str_eq;
use crate::text::strip_prefix;
use crate::wasm::wasm_loader::exports_kind;
use crate::wasm::wasm_loader::ExportView;
use crate::wasm::wasm_loader::ExternKind;
use crate::wasm::wasm_loader::Exports;

verus! {

/// A handler: a field of the query type, resolved by calling the guest.
#[derive(Debug, PartialEq, Eq)]
pub struct Handler {
    /// Which of the tenant's modules holds the handler, counted from zero
    /// in the order in which they were loaded.
    pub module: usize,
    /// The field's name.
    pub name: String,
    /// The field's arguments.
    pub args: Vec<InputValue>,
    /// The name of the handler's input type.
    pub input_type: String,
    /// The name of the object type that the field returns, never null.
    pub output_type: String,
    /// The guest function that handles a call of the field.
    pub symbol: String,
}

/// The mathematical value of a `Handler`.
pub struct HandlerView {
    pub module: nat,
    pub name: Seq<char>,
    pub args: Seq<FieldView>,
    pub input_type: Seq<char>,
    pub output_type: Seq<char>,
    pub symbol: Seq<char>,
}

impl View for Handler {
    type V = HandlerView;

    open spec fn view(&self) -> HandlerView {
        HandlerView {
            module: self.module as nat,
            name: self.name@,
            args: input_values_view(self.args@),
            input_type: self.input_type@,
            output_type: self.output_type@,
            symbol: self.symbol@,
        }
    }
}

/// The values of a list of handlers.
pub open spec fn handlers_view(s: Seq<Handler>) -> Seq<HandlerView> {
    Seq::new(s.len(), |i: int| s[i]@)
}

/// The mathematical value of a schema, built or under construction: the
/// handlers of the query type and the declared object types.
pub struct SchemaView {
    pub query: Seq<HandlerView>,
    pub input_objects: Seq<ObjectView>,
    pub output_objects: Seq<ObjectView>,
}

/// Why a module's handlers cannot be linked.
#[derive(Debug, PartialEq, Eq)]
pub enum LoaderError {
    /// A type descriptor is invalid, or the metadata lacks `input` or
    /// `output`.
    InvalidMetadata(MetadataError),
    /// The module lacks the named export.
    MissingExport(String),
    /// The named export could not be called, or did not return JSON.
    Invocation(String),
}

/// The mathematical value of a `LoaderError`.
pub enum LoaderErrorView {
    InvalidMetadata(MetadataErrorView),
    MissingExport(Seq<char>),
    Invocation(Seq<char>),
}

impl View for LoaderError {
    type V = LoaderErrorView;

    open spec fn view(&self) -> LoaderErrorView {
        match self {
            LoaderError::InvalidMetadata(e) => LoaderErrorView::InvalidMetadata(e@),
            LoaderError::MissingExport(n) => LoaderErrorView::MissingExport(n@),
            LoaderError::Invocation(n) => LoaderErrorView::Invocation(n@),
        }
    }
}

/// Why a schema cannot be built.
#[derive(Debug, PartialEq, Eq)]
pub enum SchemaError {
    /// The query type has no field: no module brought a handler.
    NoFields,
    /// Two types have the name given.
    DuplicateType(String),
    /// A field or an argument is of the type named, which the schema does
    /// not declare for it.
    UnknownType(String),
}

/// The mathematical value of a `SchemaError`.
pub enum SchemaErrorView {
    NoFields,
    DuplicateType(Seq<char>),
    UnknownType(Seq<char>),
}

impl View for SchemaError {
    type V = SchemaErrorView;

    open spec fn view(&self) -> SchemaErrorView {
        match self {
            SchemaError::NoFields => SchemaErrorView::NoFields,
            SchemaError::DuplicateType(n) => SchemaErrorView::DuplicateType(n@),
            SchemaError::UnknownType(n) => SchemaErrorView::UnknownType(n@),
        }
    }
}

/// Whether an export describes a handler.
pub open spec fn is_handler_metadata(e: ExportView) -> bool {
    e.kind is Function && "handler_metadata_"@.is_prefix_of(e.name)
}

/// What one handler's metadata export contributes, in the module number
/// `module`: the handler, the input object types and the output object types.
///
/// The export must have returned JSON text with members `input` and
/// `output`, and the output must be an object type: a handler returns a
/// named object, so an output descriptor without a name is malformed. The
/// input descriptor compiles under the name `input`; the output descriptor,
/// wrapped in a named object, under the name `output`. The handler is named
/// by what follows the prefix in the export's name, and its dispatch
/// function must be among the module's exports.
pub open spec fn link(module: nat, exports: Seq<ExportView>, e: ExportView) -> Result<
    (HandlerView, Seq<ObjectView>, Seq<ObjectView>),
    LoaderErrorView,
>
    recommends
        is_handler_metadata(e),
{
    match e.returned {
        None => Err(LoaderErrorView::Invocation(e.name)),
        Some(text) => match json_parse(text) {
            None => Err(LoaderErrorView::Invocation(e.name)),
            Some(metadata) => match (metadata.get("input"@), metadata.get("output"@)) {
                (Some(input), Some(output)) => if is_object_type(output) {
                    link_described(module, exports, e.name, input, output)
                } else {
                    Err(LoaderErrorView::InvalidMetadata(MetadataErrorView::InvalidContent))
                },
                _ => Err(
                    LoaderErrorView::InvalidMetadata(MetadataErrorView::InvalidContent),
                ),
            },
        },
    }
}

/// What the metadata export `export` contributes, once its input
/// descriptor and its output descriptor, an object type, are read.
pub open spec fn link_described(
    module: nat,
    exports: Seq<ExportView>,
    export: Seq<char>,
    input: JsonView,
    output: JsonView,
) -> Result<(HandlerView, Seq<ObjectView>, Seq<ObjectView>), LoaderErrorView> {
    let name = export.skip("handler_metadata_"@.len() as int);
    let symbol = "handler_"@ + name;
    match compile("input"@, input) {
        Err(err) => Err(LoaderErrorView::InvalidMetadata(err)),
        Ok(compiled_in) => match compile("output"@, container("Obj"@, output)) {
            Err(err) => Err(LoaderErrorView::InvalidMetadata(err)),
            Ok(compiled_out) => if exports_kind(exports, symbol, ExternKind::Function) {
                Ok(
                    (
                        HandlerView {
                            module,
                            name,
                            args: compiled_in.fields,
                            input_type: compiled_in.ty_name,
                            output_type: compiled_out.ty_name,
                            symbol,
                        },
                        compiled_in.objects,
                        compiled_out.objects,
                    ),
                )
            } else {
                Err(LoaderErrorView::MissingExport(symbol))
            },
        },
    }
}

/// A handler whose output descriptor is no object type does not link,
/// whatever else its metadata holds: a scalar, a container and an object
/// without a name are all refused.
pub proof fn lemma_output_needs_a_name(module: nat, exports: Seq<ExportView>, e: ExportView)
    requires
        e.returned matches Some(text) && json_parse(text) matches Some(metadata) && (
        metadata.get("output"@) matches Some(output) ==> !is_object_type(output)),
    ensures
        link(module, exports, e) == Err::<
            (HandlerView, Seq<ObjectView>, Seq<ObjectView>),
            LoaderErrorView,
        >(LoaderErrorView::InvalidMetadata(MetadataErrorView::InvalidContent)),
{
}

/// The schema `g` after linking the handlers among the first `n` exports of
/// the module number `module`, in order. The first handler that does not
/// link decides the error.
pub open spec fn load(g: SchemaView, module: nat, exports: Seq<ExportView>, n: nat) -> Result<
    SchemaView,
    LoaderErrorView,
>
    decreases n,
{
    if n == 0 || n > exports.len() {
        Ok(g)
    } else {
        match load(g, module, exports, (n - 1) as nat) {
            Err(e) => Err(e),
            Ok(before) => if is_handler_metadata(exports[n - 1]) {
                match link(module, exports, exports[n - 1]) {
                    Err(e) => Err(e),
                    Ok((handler, inputs, outputs)) => Ok(
                        SchemaView {
                            query: before.query.push(handler),
                            input_objects: before.input_objects + inputs,
                            output_objects: before.output_objects + outputs,
                        },
                    ),
                }
            } else {
                Ok(before)
            },
        }
    }
}

/// Once a handler has failed to link, the error stays whatever follows.
pub proof fn lemma_load_error_stays(
    g: SchemaView,
    module: nat,
    exports: Seq<ExportView>,
    k: nat,
    n: nat,
)
    requires
        k <= n <= exports.len(),
        load(g, module, exports, k) is Err,
    ensures
        load(g, module, exports, n) == load(g, module, exports, k),
    decreases n,
{
    if k < n {
        lemma_load_error_stays(g, module, exports, k, (n - 1) as nat);
    }
}

/// The names of a list of object types.
pub open spec fn object_names(objects: Seq<ObjectView>) -> Seq<Seq<char>> {
    Seq::new(objects.len(), |i: int| objects[i].name)
}

/// The names of all types of a schema: the query type, then the input
/// object types, then the output object types.
pub open spec fn type_names(g: SchemaView) -> Seq<Seq<char>> {
    seq!["Query"@] + object_names(g.input_objects) + object_names(g.output_objects)
}

/// Whether the name at position `j` also stands at an earlier position.
pub open spec fn repeats(names: Seq<Seq<char>>, j: int) -> bool {
    exists|i: int| 0 <= i < j && #[trigger] names[i] == names[j]
}

/// The first position at or after `from` whose name also stands earlier.
pub open spec fn first_repeat(names: Seq<Seq<char>>, from: int) -> Option<int>
    decreases names.len() - from,
{
    if from < 0 || from >= names.len() {
        None
    } else if repeats(names, from) {
        Some(from)
    } else {
        first_repeat(names, from + 1)
    }
}

/// Where no position repeats an earlier name, all names differ.
pub proof fn lemma_no_repeat(names: Seq<Seq<char>>, from: int)
    requires
        0 <= from <= names.len(),
        first_repeat(names, from) is None,
    ensures
        forall|j: int| from <= j < names.len() ==> !repeats(names, j),
    decreases names.len() - from,
{
    if from < names.len() {
        lemma_no_repeat(names, from + 1);
    }
}

/// A use of a type: by a handler's result or a field of an output object
/// where `output` is set, by an argument or a field of an input object
/// where it is not.
pub struct TypeUse {
    pub name: Seq<char>,
    pub output: bool,
}

/// The uses of types by `fields`.
pub open spec fn field_uses(fields: Seq<FieldView>, output: bool) -> Seq<TypeUse> {
    Seq::new(fields.len(), |i: int| TypeUse { name: fields[i].ty.name, output })
}

/// The uses of types by a handler: its result, then its arguments.
pub open spec fn handler_uses(h: HandlerView) -> Seq<TypeUse> {
    seq![TypeUse { name: h.output_type, output: true }] + field_uses(h.args, false)
}

/// The uses of types by the first `n` handlers.
pub open spec fn handlers_uses(handlers: Seq<HandlerView>, n: nat) -> Seq<TypeUse>
    decreases n,
{
    if n == 0 || n > handlers.len() {
        Seq::empty()
    } else {
        handlers_uses(handlers, (n - 1) as nat) + handler_uses(handlers[n - 1])
    }
}

/// The uses of types by the fields of the first `n` object types.
pub open spec fn objects_uses(objects: Seq<ObjectView>, output: bool, n: nat) -> Seq<TypeUse>
    decreases n,
{
    if n == 0 || n > objects.len() {
        Seq::empty()
    } else {
        objects_uses(objects, output, (n - 1) as nat) + field_uses(objects[n - 1].fields, output)
    }
}

/// All uses of types in a schema: by the handlers, then by the input
/// object types, then by the output object types.
pub open spec fn type_uses(g: SchemaView) -> Seq<TypeUse> {
    handlers_uses(g.query, g.query.len()) + objects_uses(
        g.input_objects,
        false,
        g.input_objects.len(),
    ) + objects_uses(g.output_objects, true, g.output_objects.len())
}

/// Whether `name` names a primitive type.
pub open spec fn is_primitive(name: Seq<char>) -> bool {
    name == "Int"@ || name == "Float"@ || name == "String"@ || name == "Boolean"@
}

/// Whether the schema has the type that `u` uses: a primitive, or an object
/// type declared for output where the use is one of output, for input where
/// it is one of input.
pub open spec fn known(g: SchemaView, u: TypeUse) -> bool {
    is_primitive(u.name) || object_names(
        if u.output {
            g.output_objects
        } else {
            g.input_objects
        },
    ).contains(u.name)
}

/// The first position at or after `from` of a use of a type that the
/// schema lacks.
pub open spec fn first_unknown(g: SchemaView, uses: Seq<TypeUse>, from: int) -> Option<int>
    decreases uses.len() - from,
{
    if from < 0 || from >= uses.len() {
        None
    } else if !known(g, uses[from]) {
        Some(from)
    } else {
        first_unknown(g, uses, from + 1)
    }
}

/// Where no use is of an unknown type, every use is of a known one.
pub proof fn lemma_all_known(g: SchemaView, uses: Seq<TypeUse>, from: int)
    requires
        0 <= from <= uses.len(),
    ensures
        first_unknown(g, uses, from) is None <==> forall|i: int|
            from <= i < uses.len() ==> known(g, #[trigger] uses[i]),
        first_unknown(g, uses, from) matches Some(i) ==> from <= i < uses.len(),
    decreases uses.len() - from,
{
    if from < uses.len() {
        lemma_all_known(g, uses, from + 1);
        if known(g, uses[from]) && first_unknown(g, uses, from) is None {
            assert forall|i: int| from <= i < uses.len() implies known(g, #[trigger] uses[i]) by {
                if i > from {
                }
            }
        }
    }
}

/// Whether a schema is complete: its query type has a field, no two of its
/// types have the same name, and each type that a handler, an argument or a
/// field is of is a primitive or declared.
pub open spec fn complete(g: SchemaView) -> bool {
    &&& g.query.len() > 0
    &&& type_names(g).no_duplicates()
    &&& forall|i: int| 0 <= i < type_uses(g).len() ==> known(g, #[trigger] type_uses(g)[i])
}

/// What building the schema `g` yields: `g` itself where it is complete,
/// else the reason. An empty query type is reported first, then the first
/// type name that repeats an earlier one, then the first use of a type that
/// the schema lacks.
pub open spec fn build(g: SchemaView) -> Result<SchemaView, SchemaErrorView> {
    if g.query.len() == 0 {
        Err(SchemaErrorView::NoFields)
    } else {
        match first_repeat(type_names(g), 0) {
            Some(j) => Err(SchemaErrorView::DuplicateType(type_names(g)[j])),
            None => match first_unknown(g, type_uses(g), 0) {
                Some(i) => Err(SchemaErrorView::UnknownType(type_uses(g)[i].name)),
                None => Ok(g),
            },
        }
    }
}

/// A schema builds exactly where it is complete.
pub proof fn lemma_build_complete(g: SchemaView)
    ensures
        build(g) is Ok <==> complete(g),
        build(g) is Ok ==> build(g) == Ok::<SchemaView, SchemaErrorView>(g),
{
    let names = type_names(g);
    lemma_first_repeat(names, 0);
    lemma_all_known(g, type_uses(g), 0);
    if first_repeat(names, 0) is None {
        lemma_no_repeat(names, 0);
        assert forall|i: int, j: int| 0 <= i < names.len() && 0 <= j < names.len() && i != j
            && names[i] == names[j] implies false by {
            if i < j {
                assert(repeats(names, j));
            } else {
                assert(repeats(names, i));
            }
        }
    }
}

/// A position found by `first_repeat` repeats an earlier name.
pub proof fn lemma_first_repeat(names: Seq<Seq<char>>, from: int)
    requires
        0 <= from <= names.len(),
    ensures
        first_repeat(names, from) matches Some(j) ==> from <= j < names.len() && repeats(
            names,
            j,
        ),
    decreases names.len() - from,
{
    if from < names.len() && !repeats(names, from) {
        lemma_first_repeat(names, from + 1);
    }
}

/// The schema of a tenant under construction.
#[derive(Debug, PartialEq, Eq)]
pub struct Gql {
    input_objects: Vec<InputObject>,
    output_objects: Vec<Object>,
    query: Vec<Handler>,
}

impl View for Gql {
    type V = SchemaView;

    closed spec fn view(&self) -> SchemaView {
        SchemaView {
            query: handlers_view(self.query@),
            input_objects: input_objects_view(self.input_objects@),
            output_objects: objects_view(self.output_objects@),
        }
    }
}

/// A built schema: complete, and no longer changed.
#[derive(Debug, PartialEq, Eq)]
pub struct Schema {
    input_objects: Vec<InputObject>,
    output_objects: Vec<Object>,
    query: Vec<Handler>,
}

impl View for Schema {
    type V = SchemaView;

    closed spec fn view(&self) -> SchemaView {
        SchemaView {
            query: handlers_view(self.query@),
            input_objects: input_objects_view(self.input_objects@),
            output_objects: objects_view(self.output_objects@),
        }
    }
}

impl Schema {
    #[verifier::type_invariant]
    closed spec fn inv(self) -> bool {
        complete(self@)
    }

    /// The handlers: the fields of the query type. A built schema is
    /// complete.
    pub fn handlers(&self) -> (r: &Vec<Handler>)
        ensures
            handlers_view(r@) == self@.query,
            complete(self@),
    {
        proof {
            use_type_invariant(self);
        }
        &self.query
    }

    /// The input object types.
    pub fn input_objects(&self) -> (r: &Vec<InputObject>)
        ensures
            input_objects_view(r@) == self@.input_objects,
    {
        &self.input_objects
    }

    /// The output object types.
    pub fn output_objects(&self) -> (r: &Vec<Object>)
        ensures
            objects_view(r@) == self@.output_objects,
    {
        &self.output_objects
    }
}

/// The type names of a schema under construction, in the order of
/// `type_names`.
fn collect_type_names(g: &Gql) -> (r: Vec<String>)
    ensures
        r@.len() == type_names(g@).len(),
        forall|i: int| 0 <= i < r@.len() ==> (#[trigger] r@[i])@ == type_names(g@)[i],
{
    let mut names: Vec<String> = Vec::new();
    names.push(copy_str("Query"));
    let mut i: usize = 0;
    while i < g.input_objects.len()
        invariant
            i <= g.input_objects@.len(),
            names@.len() == 1 + i,
            forall|k: int| 0 <= k < names@.len() ==> (#[trigger] names@[k])@ == type_names(g@)[k],
        decreases g.input_objects@.len() - i,
    {
        names.push(copy_str(g.input_objects[i].name.as_str()));
        i += 1;
    }
    let mut j: usize = 0;
    while j < g.output_objects.len()
        invariant
            j <= g.output_objects@.len(),
            names@.len() == 1 + g.input_objects@.len() + j,
            forall|k: int| 0 <= k < names@.len() ==> (#[trigger] names@[k])@ == type_names(g@)[k],
        decreases g.output_objects@.len() - j,
    {
        names.push(copy_str(g.output_objects[j].name.as_str()));
        j += 1;
    }
    names
}

/// The first position of `names` whose name also stands earlier.
fn find_repeat(names: &Vec<String>, Ghost(model): Ghost<Seq<Seq<char>>>) -> (r: Option<usize>)
    requires
        model.len() == names@.len(),
        forall|i: int| 0 <= i < names@.len() ==> (#[trigger] names@[i])@ == model[i],
    ensures
        match r {
            Some(j) => j < names@.len() && first_repeat(model, 0) == Some(j as int),
            None => first_repeat(model, 0) is None,
        },
{
    let mut j: usize = 0;
    while j < names.len()
        invariant
            j <= names@.len(),
            model.len() == names@.len(),
            forall|i: int| 0 <= i < names@.len() ==> (#[trigger] names@[i])@ == model[i],
            first_repeat(model, 0) == first_repeat(model, j as int),
        decreases names@.len() - j,
    {
        let mut i: usize = 0;
        while i < j
            invariant
                i <= j < names@.len(),
                model.len() == names@.len(),
                forall|k: int| 0 <= k < names@.len() ==> (#[trigger] names@[k])@ == model[k],
                forall|k: int| 0 <= k < i ==> #[trigger] model[k] != model[j as int],
                first_repeat(model, 0) == first_repeat(model, j as int),
            decreases j - i,
        {
            if str_eq(names[i].as_str(), names[j].as_str()) {
                assert(model[i as int] == model[j as int]);
                assert(repeats(model, j as int));
                return Some(j);
            }
            i += 1;
        }
        assert(!repeats(model, j as int));
        j += 1;
    }
    None
}

/// The values of a list of uses.
pub open spec fn uses_view(uses: Seq<(String, bool)>) -> Seq<TypeUse> {
    Seq::new(uses.len(), |i: int| TypeUse { name: uses[i].0@, output: uses[i].1 })
}

/// Appends the uses of types by arguments or input fields.
fn push_input_uses(uses: &mut Vec<(String, bool)>, fields: &Vec<InputValue>)
    ensures
        uses_view(final(uses)@) == uses_view(old(uses)@) + field_uses(
            input_values_view(fields@),
            false,
        ),
{
    let ghost before = uses_view(uses@);
    let ghost all = field_uses(input_values_view(fields@), false);
    let mut i: usize = 0;
    proof {
        assert(uses_view(uses@) =~= before + all.take(0));
    }
    while i < fields.len()
        invariant
            i <= fields@.len(),
            all == field_uses(input_values_view(fields@), false),
            uses_view(uses@) == before + all.take(i as int),
        decreases fields@.len() - i,
    {
        assert(all[i as int] == TypeUse { name: fields@[i as int].ty.name@, output: false });
        uses.push((copy_str(fields[i].ty.name.as_str()), false));
        i += 1;
        proof {
            assert(all.take(i as int) =~= all.take(i - 1).push(all[i - 1]));
            assert(uses_view(uses@) =~= (before + all.take(i - 1)).push(all[i - 1]));
            assert(uses_view(uses@) =~= before + all.take(i as int));
        }
    }
    proof {
        assert(all.take(fields@.len() as int) =~= all);
    }
}

/// Appends the uses of types by output fields.
fn push_output_uses(uses: &mut Vec<(String, bool)>, fields: &Vec<crate::gql::gql_helper::Field>)
    ensures
        uses_view(final(uses)@) == uses_view(old(uses)@) + field_uses(
            crate::gql::gql_helper::fields_view(fields@),
            true,
        ),
{
    let ghost before = uses_view(uses@);
    let ghost all = field_uses(crate::gql::gql_helper::fields_view(fields@), true);
    let mut i: usize = 0;
    proof {
        assert(uses_view(uses@) =~= before + all.take(0));
    }
    while i < fields.len()
        invariant
            i <= fields@.len(),
            all == field_uses(crate::gql::gql_helper::fields_view(fields@), true),
            uses_view(uses@) == before + all.take(i as int),
        decreases fields@.len() - i,
    {
        assert(all[i as int] == TypeUse { name: fields@[i as int].ty.name@, output: true });
        uses.push((copy_str(fields[i].ty.name.as_str()), true));
        i += 1;
        proof {
            assert(all.take(i as int) =~= all.take(i - 1).push(all[i - 1]));
            assert(uses_view(uses@) =~= (before + all.take(i - 1)).push(all[i - 1]));
            assert(uses_view(uses@) =~= before + all.take(i as int));
        }
    }
    proof {
        assert(all.take(fields@.len() as int) =~= all);
    }
}

/// All uses of types in a schema under construction, in the order of
/// `type_uses`.
fn collect_type_uses(g: &Gql) -> (r: Vec<(String, bool)>)
    ensures
        uses_view(r@) == type_uses(g@),
{
    let mut uses: Vec<(String, bool)> = Vec::new();
    let mut i: usize = 0;
    proof {
        assert(uses_view(uses@) =~= handlers_uses(g@.query, 0));
    }
    while i < g.query.len()
        invariant
            i <= g.query@.len(),
            g@.query.len() == g.query@.len(),
            uses_view(uses@) == handlers_uses(g@.query, i as nat),
        decreases g.query@.len() - i,
    {
        let ghost before = uses_view(uses@);
        let handler = &g.query[i];
        assert(g@.query[i as int] == handler@);
        uses.push((copy_str(handler.output_type.as_str()), true));
        proof {
            assert(uses_view(uses@) =~= before + seq![
                TypeUse { name: handler@.output_type, output: true },
            ]);
        }
        push_input_uses(&mut uses, &handler.args);
        i += 1;
        proof {
            assert(uses_view(uses@) =~= before + handler_uses(handler@));
        }
    }
    let ghost first = uses_view(uses@);
    let mut j: usize = 0;
    proof {
        assert(uses_view(uses@) =~= first + objects_uses(g@.input_objects, false, 0));
    }
    while j < g.input_objects.len()
        invariant
            j <= g.input_objects@.len(),
            g@.input_objects.len() == g.input_objects@.len(),
            uses_view(uses@) == first + objects_uses(g@.input_objects, false, j as nat),
        decreases g.input_objects@.len() - j,
    {
        let ghost before = objects_uses(g@.input_objects, false, j as nat);
        let object = &g.input_objects[j];
        assert(g@.input_objects[j as int] == object@);
        push_input_uses(&mut uses, &object.fields);
        j += 1;
        proof {
            assert(uses_view(uses@) =~= first + (before + field_uses(object@.fields, false)));
        }
    }
    let ghost second = uses_view(uses@);
    let mut k: usize = 0;
    proof {
        assert(uses_view(uses@) =~= second + objects_uses(g@.output_objects, true, 0));
    }
    while k < g.output_objects.len()
        invariant
            k <= g.output_objects@.len(),
            g@.output_objects.len() == g.output_objects@.len(),
            uses_view(uses@) == second + objects_uses(g@.output_objects, true, k as nat),
        decreases g.output_objects@.len() - k,
    {
        let ghost before = objects_uses(g@.output_objects, true, k as nat);
        let object = &g.output_objects[k];
        assert(g@.output_objects[k as int] == object@);
        push_output_uses(&mut uses, &object.fields);
        k += 1;
        proof {
            assert(uses_view(uses@) =~= second + (before + field_uses(object@.fields, true)));
        }
    }
    uses
}

/// Whether the schema under construction has the type `name` for a use of
/// output or of input.
fn is_known(g: &Gql, name: &str, output: bool) -> (r: bool)
    ensures
        r == known(g@, TypeUse { name: name@, output }),
{
    if str_eq(name, "Int") || str_eq(name, "Float") || str_eq(name, "String") || str_eq(
        name,
        "Boolean",
    ) {
        return true;
    }
    if output {
        let ghost names = object_names(g@.output_objects);
        let mut i: usize = 0;
        while i < g.output_objects.len()
            invariant
                i <= g.output_objects@.len(),
                output,
                names == object_names(g@.output_objects),
                names.len() == g.output_objects@.len(),
                forall|k: int| 0 <= k < i ==> names[k] != name@,
            decreases g.output_objects@.len() - i,
        {
            assert(names[i as int] == g.output_objects@[i as int].name@);
            if str_eq(g.output_objects[i].name.as_str(), name) {
                assert(names[i as int] == name@);
                assert(names.contains(name@));
                return true;
            }
            i += 1;
        }
        false
    } else {
        let ghost names = object_names(g@.input_objects);
        let mut i: usize = 0;
        while i < g.input_objects.len()
            invariant
                i <= g.input_objects@.len(),
                !output,
                names == object_names(g@.input_objects),
                names.len() == g.input_objects@.len(),
                forall|k: int| 0 <= k < i ==> names[k] != name@,
            decreases g.input_objects@.len() - i,
        {
            assert(names[i as int] == g.input_objects@[i as int].name@);
            if str_eq(g.input_objects[i].name.as_str(), name) {
                assert(names[i as int] == name@);
                assert(names.contains(name@));
                return true;
            }
            i += 1;
        }
        false
    }
}

/// The first use of a type that the schema under construction lacks.
fn find_unknown(g: &Gql, uses: &Vec<(String, bool)>) -> (r: Option<usize>)
    ensures
        match r {
            Some(i) => i < uses@.len() && first_unknown(g@, uses_view(uses@), 0) == Some(i as int),
            None => first_unknown(g@, uses_view(uses@), 0) is None,
        },
{
    let mut i: usize = 0;
    while i < uses.len()
        invariant
            i <= uses@.len(),
            uses_view(uses@).len() == uses@.len(),
            first_unknown(g@, uses_view(uses@), 0) == first_unknown(g@, uses_view(uses@), i as int),
        decreases uses@.len() - i,
    {
        assert(uses_view(uses@)[i as int] == TypeUse {
            name: uses@[i as int].0@,
            output: uses@[i as int].1,
        });
        if !is_known(g, uses[i].0.as_str(), uses[i].1) {
            return Some(i);
        }
        i += 1;
    }
    None
}

impl Gql {
    /// A schema without handlers and types.
    pub fn new() -> (r: Gql)
        ensures
            r@ == (SchemaView {
                query: Seq::empty(),
                input_objects: Seq::empty(),
                output_objects: Seq::empty(),
            }),
    {
        let r = Gql { input_objects: Vec::new(), output_objects: Vec::new(), query: Vec::new() };
        proof {
            assert(r@.query =~= Seq::empty());
            assert(r@.input_objects =~= Seq::empty());
            assert(r@.output_objects =~= Seq::empty());
        }
        r
    }

    /// Links the handler that the metadata export at position `at`
    /// describes.
    fn link_handler(self, module: usize, instance: &Exports, at: usize, name: String) -> (r:
        Result<Gql, LoaderError>)
        requires
            at < instance@.len(),
            is_handler_metadata(instance@[at as int]),
            name@ == instance@[at as int].name.skip("handler_metadata_"@.len() as int),
        ensures
            match r {
                Ok(g) => link(module as nat, instance@, instance@[at as int]) matches Ok(
                    (h, ins, outs),
                ) && g@
                    == (SchemaView {
                    query: self@.query.push(h),
                    input_objects: self@.input_objects + ins,
                    output_objects: self@.output_objects + outs,
                }),
                Err(e) => link(module as nat, instance@, instance@[at as int]) == Err::<
                    (HandlerView, Seq<ObjectView>, Seq<ObjectView>),
                    LoaderErrorView,
                >(e@),
            },
    {
        let export = &instance.items[at];
        assert(instance@[at as int] == export@);
        let text = match &export.returned {
            Some(text) => text,
            None => {
                return Err(LoaderError::Invocation(copy_str(export.name.as_str())));
            },
        };
        let metadata = match Json::parse(text.as_str()) {
            Some(metadata) => metadata,
            None => {
                return Err(LoaderError::Invocation(copy_str(export.name.as_str())));
            },
        };
        let (input, output) = match (metadata.get("input"), metadata.get("output")) {
            (Some(input), Some(output)) => (input, output),
            _ => {
                return Err(LoaderError::InvalidMetadata(MetadataError::InvalidContent));
            },
        };
        match output.get("_name_") {
            Some(Json::String(_)) => {},
            _ => {
                return Err(LoaderError::InvalidMetadata(MetadataError::InvalidContent));
            },
        }
        let compiled_in = match value_to_gql_input_type(copy_str("input"), input.copy()) {
            Ok(c) => c,
            Err(e) => {
                return Err(LoaderError::InvalidMetadata(e));
            },
        };
        let kind = Json::String(copy_str("Obj"));
        assert(kind@ == JsonView::String("Obj"@));
        let mut entries: Vec<(String, Json)> = Vec::new();
        entries.push((copy_str("container"), kind));
        entries.push((copy_str("content"), output.copy()));
        let wrapped = Json::Object(entries);
        proof {
            let built = wrapped@->Object_0;
            assert(built.len() == 2);
            assert(built[0] == ("container"@, JsonView::String("Obj"@)));
            assert(built[1] == ("content"@, output@));
            assert(built =~= container("Obj"@, output@)->Object_0);
        }
        let compiled_out = match value_to_gql_output_type(copy_str("output"), wrapped) {
            Ok(c) => c,
            Err(e) => {
                return Err(LoaderError::InvalidMetadata(e));
            },
        };
        let mut symbol = copy_str("handler_");
        symbol.append(name.as_str());
        if !instance.has_export(symbol.as_str(), ExternKind::Function) {
            return Err(LoaderError::MissingExport(symbol));
        }
        let (input_type, args, mut inputs, _) = compiled_in;
        let (output_type, _, mut outputs, _) = compiled_out;
        let handler = Handler { module, name, args, input_type, output_type, symbol };
        let ghost before = self@;
        let ghost h = handler@;
        let ghost ins = input_objects_view(inputs@);
        let ghost outs = objects_view(outputs@);
        let mut g = self;
        g.query.push(handler);
        g.input_objects.append(&mut inputs);
        g.output_objects.append(&mut outputs);
        proof {
            assert(g@.query =~= before.query.push(h));
            assert(g@.input_objects =~= before.input_objects + ins);
            assert(g@.output_objects =~= before.output_objects + outs);
        }
        Ok(g)
    }

    /// Links every handler of the module number `module`, in the order of
    /// its exports, and adds them to the schema. The first handler that does
    /// not link decides the error.
    pub fn load_handlers(self, module: usize, instance: &Exports) -> (r: Result<Gql, LoaderError>)
        ensures
            match r {
                Ok(g) => load(self@, module as nat, instance@, instance@.len()) == Ok::<
                    SchemaView,
                    LoaderErrorView,
                >(g@),
                Err(e) => load(self@, module as nat, instance@, instance@.len()) == Err::<
                    SchemaView,
                    LoaderErrorView,
                >(e@),
            },
    {
        let ghost start = self@;
        let mut g = self;
        let mut i: usize = 0;
        while i < instance.items.len()
            invariant
                i <= instance@.len(),
                instance@.len() == instance.items@.len(),
                start == self@,
                load(start, module as nat, instance@, i as nat) == Ok::<SchemaView, LoaderErrorView>(
                    g@,
                ),
            decreases instance@.len() - i,
        {
            let export = &instance.items[i];
            assert(instance@[i as int] == export@);
            let name = match export.kind {
                ExternKind::Function => strip_prefix(export.name.as_str(), "handler_metadata_"),
                _ => None,
            };
            if let Some(name) = name {
                match g.link_handler(module, instance, i, name) {
                    Ok(next) => {
                        g = next;
                    },
                    Err(e) => {
                        proof {
                            assert(is_handler_metadata(instance@[i as int]));
                            assert(load(start, module as nat, instance@, (i + 1) as nat) == Err::<
                                SchemaView,
                                LoaderErrorView,
                            >(e@));
                            lemma_load_error_stays(
                                start,
                                module as nat,
                                instance@,
                                (i + 1) as nat,
                                instance@.len(),
                            );
                        }
                        return Err(e);
                    },
                }
            }
            i += 1;
        }
        Ok(g)
    }

    /// Builds the schema: it is the schema under construction where that is
    /// complete. Where the query type has no field the build fails with
    /// `NoFields`; else where a type name repeats an earlier one, with the
    /// first such name; else where a type is used that the schema lacks, with
    /// the first such type.
    pub fn build_schema(self) -> (r: Result<Schema, SchemaError>)
        ensures
            match r {
                Ok(s) => build(self@) == Ok::<SchemaView, SchemaErrorView>(s@),
                Err(e) => build(self@) == Err::<SchemaView, SchemaErrorView>(e@),
            },
    {
        if self.query.len() == 0 {
            return Err(SchemaError::NoFields);
        }
        let mut names = collect_type_names(&self);
        match find_repeat(&names, Ghost(type_names(self@))) {
            Some(j) => {
                return Err(SchemaError::DuplicateType(names.swap_remove(j)));
            },
            None => {},
        }
        let mut uses = collect_type_uses(&self);
        match find_unknown(&self, &uses) {
            Some(i) => {
                assert(type_uses(self@)[i as int].name == uses@[i as int].0@);
                Err(SchemaError::UnknownType(uses.swap_remove(i).0))
            },
            None => {
                proof {
                    lemma_build_complete(self@);
                }
                let ghost before = self@;
                let s = Schema {
                    input_objects: self.input_objects,
                    output_objects: self.output_objects,
                    query: self.query,
                };
                assert(s@ == before);
                Ok(s)
            },
        }
    }
}

} // verus!
