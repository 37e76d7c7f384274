//! Operation descriptors: what one handler contributes to the document.

use crate::collect::{collected, HasReferences};
use crate::registry::{with_entries, ReferenceRegistry};
use crate::schema::{
    node_model, parameter_models, text_model, ParameterDescriptor, ParameterModel, SchemaModel,
    SchemaNode,
};
use crate::types::{parameters_of, schema_ref_of, NamedType, TypeCatalog, TypeDesc};
use vstd::prelude::*;

verus! {

/// The class of a response status.
#[derive(Clone, Copy, Debug, PartialEq, Eq, Structural)]
pub enum StatusClass {
    Informational,
    Success,
    Redirection,
    ClientError,
    ServerError,
}

/// One response of an operation: its status class, and the schema of its
/// body where it has one.
#[derive(Debug, PartialEq, Eq)]
pub struct ResponseDescriptor {
    pub status: StatusClass,
    pub schema: Option<SchemaNode>,
}

/// What a [`ResponseDescriptor`] stands for.
pub struct ResponseModel {
    pub status: StatusClass,
    pub schema: Option<SchemaModel>,
}

impl View for ResponseDescriptor {
    type V = ResponseModel;

    open spec fn view(&self) -> ResponseModel {
        ResponseModel { status: self.status, schema: node_model(self.schema) }
    }
}

/// The models of a sequence of responses.
pub open spec fn response_models(responses: Seq<ResponseDescriptor>) -> Seq<ResponseModel> {
    Seq::new(responses.len(), |i: int| responses[i]@)
}

/// The declared types of a handler: its arguments in order, and what it returns.
#[derive(Debug, PartialEq, Eq)]
pub struct Signature {
    pub arguments: Vec<TypeDesc>,
    pub output: TypeDesc,
}

/// One operation: an HTTP-method handler with the parameters, the request
/// body and the responses derived from its signature, and the named types
/// that these reach.
pub struct OperationDescriptor {
    pub operation_id: Option<String>,
    pub parameters: Vec<ParameterDescriptor>,
    pub request_body: Option<SchemaNode>,
    pub responses: Vec<ResponseDescriptor>,
    pub references: ReferenceRegistry,
}

/// What an [`OperationDescriptor`] stands for.
pub struct OperationModel {
    pub operation_id: Option<Seq<char>>,
    pub parameters: Seq<ParameterModel>,
    pub request_body: Option<SchemaModel>,
    pub responses: Seq<ResponseModel>,
    pub references: Seq<(Seq<char>, SchemaModel)>,
}

impl View for OperationDescriptor {
    type V = OperationModel;

    open spec fn view(&self) -> OperationModel {
        OperationModel {
            operation_id: text_model(self.operation_id),
            parameters: parameter_models(self.parameters@),
            request_body: node_model(self.request_body),
            responses: response_models(self.responses@),
            references: self.references@,
        }
    }
}

/// The parameters that `arguments` contribute, in the order of the arguments.
pub open spec fn argument_parameters(types: Seq<NamedType>, arguments: Seq<TypeDesc>) -> Seq<
    ParameterModel,
>
    decreases arguments.len(),
{
    if arguments.len() == 0 {
        Seq::empty()
    } else {
        let rest = argument_parameters(types, arguments.drop_last());
        match parameters_of(types, arguments.last()) {
            Some(list) => rest + list,
            None => rest,
        }
    }
}

/// The request body that `argument` contributes: how it is referred to, where
/// it carries no parameters.
pub open spec fn argument_body(types: Seq<NamedType>, argument: TypeDesc) -> Option<SchemaModel> {
    if parameters_of(types, argument) is Some {
        None
    } else {
        schema_ref_of(types, argument)
    }
}

/// The request body of an operation: what the first argument that contributes
/// a body contributes.
pub open spec fn request_body_of(types: Seq<NamedType>, arguments: Seq<TypeDesc>) -> Option<
    SchemaModel,
>
    decreases arguments.len(),
{
    if arguments.len() == 0 {
        None
    } else {
        match request_body_of(types, arguments.drop_last()) {
            Some(body) => Some(body),
            None => argument_body(types, arguments.last()),
        }
    }
}

/// The registries of the named types that each of `reflected` reaches by
/// itself, merged in order: of two entries under one name the first stays.
pub open spec fn reference_union(types: Seq<NamedType>, reflected: Seq<TypeDesc>) -> Seq<
    (Seq<char>, SchemaModel),
>
    decreases reflected.len(),
{
    if reflected.len() == 0 {
        Seq::empty()
    } else {
        with_entries(
            reference_union(types, reflected.drop_last()),
            collected(types, seq![reflected.last()]),
        )
    }
}

/// The operation that a handler with the given arguments and output gives
/// rise to. Its identifier is left unset.
pub open spec fn operation_of(
    types: Seq<NamedType>,
    arguments: Seq<TypeDesc>,
    output: TypeDesc,
) -> OperationModel {
    OperationModel {
        operation_id: None,
        parameters: argument_parameters(types, arguments),
        request_body: request_body_of(types, arguments),
        responses: seq![
            ResponseModel { status: StatusClass::Success, schema: schema_ref_of(types, output) },
        ],
        references: reference_union(types, arguments.push(output)),
    }
}

impl OperationDescriptor {
    /// Derives the operation of a handler from its signature.
    pub fn build(catalog: &TypeCatalog, signature: &Signature) -> (operation: OperationDescriptor)
        ensures
            operation@ == operation_of(catalog.types@, signature.arguments@, signature.output),
    {
        let ghost types = catalog.types@;
        let arguments = &signature.arguments;
        let mut parameters: Vec<ParameterDescriptor> = Vec::new();
        let mut request_body: Option<SchemaNode> = None;
        let mut references = ReferenceRegistry::new();
        let mut i: usize = 0;
        assert(parameter_models(parameters@) =~= Seq::<ParameterModel>::empty());
        while i < arguments.len()
            invariant
                i <= arguments.len(),
                types == catalog.types@,
                parameter_models(parameters@) == argument_parameters(
                    types,
                    arguments@.take(i as int),
                ),
                node_model(request_body) == request_body_of(types, arguments@.take(i as int)),
                references@ == reference_union(types, arguments@.take(i as int)),
            decreases arguments.len() - i,
        {
            let argument = &arguments[i];
            assert(arguments@.take(i + 1).drop_last() =~= arguments@.take(i as int));
            assert(arguments@.take(i + 1).last() == arguments@[i as int]);
            match argument.reflect_parameters(catalog) {
                Some(list) => {
                    let ghost before = parameters@;
                    let mut list = list;
                    let ghost added = list@;
                    parameters.append(&mut list);
                    assert(parameter_models(parameters@) =~= parameter_models(before)
                        + parameter_models(added));
                },
                None => {
                    if request_body.is_none() {
                        request_body = argument.reflect_ref(catalog);
                    }
                },
            }
            let reached = argument.all_references(catalog);
            references.merge(&reached);
            i += 1;
        }
        assert(arguments@.take(arguments.len() as int) =~= arguments@);
        let responses = vec![
            ResponseDescriptor {
                status: StatusClass::Success,
                schema: signature.output.reflect_ref(catalog),
            },
        ];
        let reached = signature.output.all_references(catalog);
        references.merge(&reached);
        proof {
            let all = arguments@.push(signature.output);
            assert(all.drop_last() =~= arguments@);
            assert(all.last() == signature.output);
        }
        let operation = OperationDescriptor {
            operation_id: None,
            parameters,
            request_body,
            responses,
            references,
        };
        assert(operation@.responses =~= operation_of(
            types,
            signature.arguments@,
            signature.output,
        ).responses);
        operation
    }

    /// This operation under the identifier `operation_id`.
    pub fn with_operation_id(self, operation_id: &str) -> (operation: OperationDescriptor)
        ensures
            operation@ == (OperationModel { operation_id: Some(operation_id@), ..self@ }),
    {
        OperationDescriptor {
            operation_id: Some(operation_id.to_owned()),
            parameters: self.parameters,
            request_body: self.request_body,
            responses: self.responses,
            references: self.references,
        }
    }
}

} // verus!
