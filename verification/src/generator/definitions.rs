//! From a document to the definitions that its codec runs on: the structs
//! of the document, and for each function of a service its argument
//! struct and its result enum.

use vstd::prelude::*;
use vstd::string::*;

use crate::generator::code_gen::basic::{field_name, field_name_text};
use crate::generator::code_gen::field::{annotation_id, field_id};
use crate::generator::code_gen::functions::{anonymous_name, anonymous_name_text, thrown};
use crate::generator::code_gen::types::{descriptor, descriptor_model};
use crate::schema::{
    Definition, DefinitionModel, EnumModel, EnumSchema, FieldSchema, Registry, RegistryModel,
    Required, StructModel, StructSchema, VariantModel, VariantSchema,
};
use crate::thrift_parser::definition::{RecordModel, Service, ServiceModel, Struct};
use crate::thrift_parser::document::{Document, DocumentModel};
use crate::thrift_parser::field::{Field, FieldModel};
use crate::thrift_parser::functions::{Function, FunctionModel};
use crate::types::{FieldType, TypeModel};

verus! {

/// What the document says of the requirement of a field.
pub open spec fn required_of(r: Option<bool>) -> Required {
    match r {
        Some(true) => Required::True,
        Some(false) => Required::False,
        None => Required::Unspecified,
    }
}

/// The definition of a field: its name in snake case, its id cut to 16
/// bits, its requirement, and the descriptor of its type.
pub open spec fn field_definition(f: FieldModel) -> crate::schema::FieldModel {
    crate::schema::FieldModel {
        name: field_name_text(f.name),
        id: annotation_id(f.id),
        required: required_of(f.required),
        field_type: descriptor_model(f.type_),
    }
}

/// The definitions of fields.
pub open spec fn field_definitions(fields: Seq<FieldModel>) -> Seq<crate::schema::FieldModel> {
    Seq::new(fields.len(), |i: int| field_definition(fields[i]))
}

/// The definition of a struct: its name and its fields.
pub open spec fn struct_definition(s: RecordModel) -> StructModel {
    StructModel { name: s.name, fields: field_definitions(s.fields) }
}

/// The definition of the argument struct of a function.
pub open spec fn args_definition(service: Seq<char>, f: FunctionModel) -> StructModel {
    StructModel {
        name: anonymous_name_text(service, f.name, "Args"@),
        fields: field_definitions(f.parameters),
    }
}

/// The descriptor of what a function returns: void for nothing.
pub open spec fn return_descriptor(f: FunctionModel) -> TypeModel {
    match f.returns {
        Some(t) => descriptor_model(t),
        None => TypeModel::Void,
    }
}

/// The variant of a result enum for an exception.
pub open spec fn exception_variant(f: FieldModel) -> VariantModel {
    VariantModel { name: f.name, id: annotation_id(f.id), inner: descriptor_model(f.type_) }
}

/// The definition of the result enum of a function: `Success` under
/// field id 1 with what the function returns, and one variant for each
/// exception.
pub open spec fn result_definition(service: Seq<char>, f: FunctionModel) -> EnumModel {
    EnumModel {
        name: anonymous_name_text(service, f.name, "Result"@),
        variants: seq![VariantModel { name: "Success"@, id: 1, inner: return_descriptor(f) }]
            + Seq::new(thrown(f).len(), |i: int| exception_variant(thrown(f)[i])),
        dispatch_only: false,
    }
}

/// The variant of the request enum for a function.
pub open spec fn request_variant(service: Seq<char>, f: FunctionModel) -> VariantModel {
    VariantModel {
        name: f.name,
        id: 0,
        inner: TypeModel::Ident(anonymous_name_text(service, f.name, "Args"@)),
    }
}

/// The variant of the response enum for a function: void for a one-way
/// function.
pub open spec fn response_variant(service: Seq<char>, f: FunctionModel) -> VariantModel {
    VariantModel {
        name: f.name,
        id: 0,
        inner: if f.oneway {
            TypeModel::Void
        } else {
            TypeModel::Ident(anonymous_name_text(service, f.name, "Result"@))
        },
    }
}

/// The dispatch enum of the requests of a service.
pub open spec fn request_definition(s: ServiceModel) -> EnumModel {
    EnumModel {
        name: anonymous_name_text(s.name, ""@, "Request"@),
        variants: Seq::new(s.functions.len(), |i: int| request_variant(s.name, s.functions[i])),
        dispatch_only: true,
    }
}

/// The dispatch enum of the responses of a service.
pub open spec fn response_definition(s: ServiceModel) -> EnumModel {
    EnumModel {
        name: anonymous_name_text(s.name, ""@, "Response"@),
        variants: Seq::new(s.functions.len(), |i: int| response_variant(s.name, s.functions[i])),
        dispatch_only: true,
    }
}

/// The named types that a function contributes: its argument struct,
/// and its result enum unless it is one-way.
pub open spec fn function_definitions(service: Seq<char>, f: FunctionModel) -> Seq<
    DefinitionModel,
> {
    if f.oneway {
        seq![DefinitionModel::Struct(args_definition(service, f))]
    } else {
        seq![
            DefinitionModel::Struct(args_definition(service, f)),
            DefinitionModel::Enum(result_definition(service, f)),
        ]
    }
}

/// The named types that the first `n` functions of a service contribute.
pub open spec fn service_definitions(s: ServiceModel, n: int) -> Seq<DefinitionModel>
    decreases n,
{
    if n <= 0 || n > s.functions.len() {
        Seq::empty()
    } else {
        service_definitions(s, n - 1) + function_definitions(s.name, s.functions[n - 1])
    }
}

/// The named types that the first `n` services contribute.
pub open spec fn services_definitions(services: Seq<ServiceModel>, n: int) -> Seq<DefinitionModel>
    decreases n,
{
    if n <= 0 || n > services.len() {
        Seq::empty()
    } else {
        services_definitions(services, n - 1) + service_definitions(
            services[n - 1],
            services[n - 1].functions.len() as int,
        )
    }
}

/// The named types of the first `n` structs.
pub open spec fn structs_definitions(structs: Seq<RecordModel>, n: int) -> Seq<DefinitionModel>
    decreases n,
{
    if n <= 0 || n > structs.len() {
        Seq::empty()
    } else {
        structs_definitions(structs, n - 1).push(
            DefinitionModel::Struct(struct_definition(structs[n - 1])),
        )
    }
}

/// The named types of a document: its structs, then what the functions
/// of its services contribute.
pub open spec fn registry_of(d: DocumentModel) -> RegistryModel {
    RegistryModel {
        definitions: structs_definitions(d.structs, d.structs.len() as int)
            + services_definitions(d.services, d.services.len() as int),
    }
}

/// The views of the definitions of a vector.
pub open spec fn definition_views(v: Vec<Definition>) -> Seq<DefinitionModel> {
    Seq::new(v@.len(), |i: int| v@[i]@)
}

/// A vector with one more definition has the views of the old one and
/// the view of the new definition.
pub proof fn lemma_definition_push(before: Vec<Definition>, after: Vec<Definition>, d: Definition)
    requires
        after@ == before@.push(d),
    ensures
        definition_views(after) == definition_views(before).push(d@),
{
    assert(definition_views(after) =~= definition_views(before).push(d@));
}

/// What the document says of the requirement of a field.
pub fn required(f: &Field) -> (r: Required)
    ensures
        r == required_of(f.required),
{
    match f.required {
        Some(true) => Required::True,
        Some(false) => Required::False,
        None => Required::Unspecified,
    }
}

/// The definitions of fields.
pub fn fields_schema(fields: &Vec<Field>) -> (r: Vec<FieldSchema>)
    ensures
        r@.len() == fields@.len(),
        forall|i: int| 0 <= i < r@.len() ==> (#[trigger] r@[i])@ == field_definition(
            fields.deep_view()[i],
        ),
{
    let mut out: Vec<FieldSchema> = Vec::new();
    let mut i: usize = 0;
    while i < fields.len()
        invariant
            i <= fields.len(),
            out@.len() == i,
            forall|j: int| 0 <= j < i ==> (#[trigger] out@[j])@ == field_definition(
                fields.deep_view()[j],
            ),
        decreases fields.len() - i,
    {
        let f = &fields[i];
        out.push(
            FieldSchema {
                name: field_name(&f.name),
                id: field_id(f),
                required: required(f),
                field_type: descriptor(&f.type_),
            },
        );
        i = i + 1;
    }
    out
}

impl Struct {
    /// The definition of the struct.
    pub fn definition(&self) -> (r: StructSchema)
        ensures
            r@ == struct_definition(self.deep_view()),
    {
        let fields = fields_schema(&self.fields);
        let r = StructSchema { name: self.name.0.clone(), fields };
        proof {
            assert(r@.fields =~= field_definitions(self.fields.deep_view()));
        }
        r
    }
}

impl Function {
    /// The definition of the argument struct of the function.
    pub fn args_definition(&self, service: &str) -> (r: StructSchema)
        ensures
            r@ == args_definition(service@, self.deep_view()),
    {
        let fields = fields_schema(&self.parameters);
        let r = StructSchema { name: anonymous_name(service, self.name.as_str(), "Args"), fields };
        proof {
            assert(r@.fields =~= field_definitions(self.parameters.deep_view()));
        }
        r
    }

    /// The definition of the result enum of the function.
    pub fn result_definition(&self, service: &str) -> (r: EnumSchema)
        ensures
            r@ == result_definition(service@, self.deep_view()),
    {
        let mut variants: Vec<VariantSchema> = Vec::new();
        let inner = match &self.returns {
            Some(t) => descriptor(t),
            None => FieldType::Void,
        };
        variants.push(VariantSchema { name: String::from_str("Success"), id: 1, inner });
        let ghost exps = thrown(self.deep_view());
        match &self.exceptions {
            Some(exceptions) => {
                let mut i: usize = 0;
                while i < exceptions.len()
                    invariant
                        i <= exceptions.len(),
                        exps == exceptions.deep_view(),
                        variants@.len() == i + 1,
                        variants@[0]@ == (VariantModel {
                            name: "Success"@,
                            id: 1,
                            inner: return_descriptor(self.deep_view()),
                        }),
                        forall|j: int|
                            0 <= j < i ==> (#[trigger] variants@[j + 1])@ == exception_variant(
                                exps[j],
                            ),
                    decreases exceptions.len() - i,
                {
                    let e = &exceptions[i];
                    variants.push(
                        VariantSchema {
                            name: e.name.0.clone(),
                            id: field_id(e),
                            inner: descriptor(&e.type_),
                        },
                    );
                    i = i + 1;
                }
            },
            None => {},
        }
        let r = EnumSchema {
            name: anonymous_name(service, self.name.as_str(), "Result"),
            variants,
            dispatch_only: false,
        };
        proof {
            let expected = result_definition(service@, self.deep_view()).variants;
            assert(r@.variants.len() == expected.len());
            assert forall|j: int| 0 <= j < expected.len() implies r@.variants[j]
                == expected[j] by {
                if j > 0 {
                    assert(variants@[(j - 1) + 1]@ == exception_variant(exps[j - 1]));
                }
            }
            assert(r@.variants =~= expected);
        }
        r
    }
}

impl Service {
    /// The dispatch enum of the requests of the service.
    pub fn request_definition(&self) -> (r: EnumSchema)
        ensures
            r@ == request_definition(self.deep_view()),
    {
        let service = self.name.as_str();
        let mut variants: Vec<VariantSchema> = Vec::new();
        let mut i: usize = 0;
        while i < self.functions.len()
            invariant
                i <= self.functions.len(),
                service@ == self.name@,
                variants@.len() == i,
                forall|j: int|
                    0 <= j < i ==> (#[trigger] variants@[j])@ == request_variant(
                        self.name@,
                        self.functions.deep_view()[j],
                    ),
            decreases self.functions.len() - i,
        {
            let f = &self.functions[i];
            variants.push(
                VariantSchema {
                    name: f.name.0.clone(),
                    id: 0,
                    inner: FieldType::Ident(anonymous_name(service, f.name.as_str(), "Args")),
                },
            );
            i = i + 1;
        }
        let r = EnumSchema {
            name: anonymous_name(service, "", "Request"),
            variants,
            dispatch_only: true,
        };
        proof {
            assert(r@.variants =~= request_definition(self.deep_view()).variants);
        }
        r
    }

    /// The dispatch enum of the responses of the service.
    pub fn response_definition(&self) -> (r: EnumSchema)
        ensures
            r@ == response_definition(self.deep_view()),
    {
        let service = self.name.as_str();
        let mut variants: Vec<VariantSchema> = Vec::new();
        let mut i: usize = 0;
        while i < self.functions.len()
            invariant
                i <= self.functions.len(),
                service@ == self.name@,
                variants@.len() == i,
                forall|j: int|
                    0 <= j < i ==> (#[trigger] variants@[j])@ == response_variant(
                        self.name@,
                        self.functions.deep_view()[j],
                    ),
            decreases self.functions.len() - i,
        {
            let f = &self.functions[i];
            let inner = if f.oneway {
                FieldType::Void
            } else {
                FieldType::Ident(anonymous_name(service, f.name.as_str(), "Result"))
            };
            variants.push(VariantSchema { name: f.name.0.clone(), id: 0, inner });
            i = i + 1;
        }
        let r = EnumSchema {
            name: anonymous_name(service, "", "Response"),
            variants,
            dispatch_only: true,
        };
        proof {
            assert(r@.variants =~= response_definition(self.deep_view()).variants);
        }
        r
    }

    /// Puts the named types that the functions of the service contribute
    /// behind those in `out`.
    pub fn add_definitions(&self, out: &mut Vec<Definition>)
        ensures
            definition_views(*final(out)) == definition_views(*old(out)) + service_definitions(
                self.deep_view(),
                self.functions.len() as int,
            ),
    {
        let service = self.name.as_str();
        let ghost start = definition_views(*out);
        let mut i: usize = 0;
        assert(start + Seq::<DefinitionModel>::empty() =~= start);
        while i < self.functions.len()
            invariant
                i <= self.functions.len(),
                service@ == self.name@,
                definition_views(*out) == start + service_definitions(self.deep_view(), i as int),
            decreases self.functions.len() - i,
        {
            let f = &self.functions[i];
            let ghost before = *out;
            let args = Definition::Struct(f.args_definition(service));
            out.push(args);
            proof {
                lemma_definition_push(before, *out, args);
            }
            if !f.oneway {
                let ghost middle = *out;
                let result = Definition::Enum(f.result_definition(service));
                out.push(result);
                proof {
                    lemma_definition_push(middle, *out, result);
                }
            }
            proof {
                let prefix = service_definitions(self.deep_view(), i as int);
                let own = function_definitions(self.name@, self.functions.deep_view()[i as int]);
                assert(definition_views(*out) =~= start + (prefix + own));
            }
            i = i + 1;
        }
    }
}

impl Document {
    /// The named types of the document, for the codec to run on.
    pub fn registry(&self) -> (r: Registry)
        ensures
            r@ == registry_of(self.deep_view()),
    {
        let mut definitions: Vec<Definition> = Vec::new();
        let mut i: usize = 0;
        assert(definition_views(definitions) =~= Seq::<DefinitionModel>::empty());
        while i < self.structs.len()
            invariant
                i <= self.structs.len(),
                definition_views(definitions) == structs_definitions(
                    self.structs.deep_view(),
                    i as int,
                ),
            decreases self.structs.len() - i,
        {
            let ghost before = definitions;
            let d = Definition::Struct(self.structs[i].definition());
            definitions.push(d);
            proof {
                lemma_definition_push(before, definitions, d);
            }
            i = i + 1;
        }
        let ghost structs = definition_views(definitions);
        let mut k: usize = 0;
        assert(structs + Seq::<DefinitionModel>::empty() =~= structs);
        while k < self.services.len()
            invariant
                k <= self.services.len(),
                structs == structs_definitions(
                    self.structs.deep_view(),
                    self.structs.len() as int,
                ),
                definition_views(definitions) == structs + services_definitions(
                    self.services.deep_view(),
                    k as int,
                ),
            decreases self.services.len() - k,
        {
            let ghost before = definition_views(definitions);
            self.services[k].add_definitions(&mut definitions);
            proof {
                let prefix = services_definitions(self.services.deep_view(), k as int);
                let own = service_definitions(
                    self.services.deep_view()[k as int],
                    self.services.deep_view()[k as int].functions.len() as int,
                );
                assert(definition_views(definitions) =~= structs + (prefix + own));
            }
            k = k + 1;
        }
        let r = Registry { definitions };
        proof {
            assert(r@.definitions =~= definition_views(definitions));
        }
        r
    }
}

} // verus!
