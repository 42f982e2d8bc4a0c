use vstd::prelude::*;
use crate::shader::{GpuRole, Stage, role_allowed, role_is_unique, role_named, unique_role, parse_role, validate_role};
use crate::text::str_eq;
use crate::art::count_where;
use crate::playback::{first_position, lemma_first_position, lemma_first_position_found};

verus! {

/// A parameter of a shader entry point, as the pass macro reads it.
pub struct StageArgument {
    /// The parameter is `self`.
    pub receiver: bool,
    /// The positions of the parameter's `#[gpu(..)]` attributes.
    pub gpu_attributes: Vec<usize>,
    /// The role written in the first `#[gpu(..)]` attribute and whether it
    /// names an index (`= expr`); `None` when the attribute does not parse.
    pub role: Option<(String, bool)>,
    /// The parameter's type is `u32`.
    pub is_u32: bool,
    /// The parameter's name, when its pattern is an identifier.
    pub name: Option<String>,
    /// The parameter's type, as tokens.
    pub ty: String,
    /// The host type that would bind the parameter as a resource.
    pub resource_type: ResourceHost,
}

/// The host type that binds a parameter's type as a GPU resource.
pub enum ResourceHost {
    /// The type is not a reference.
    NotReference,
    /// A reference to a type that no host object binds.
    Unsupported,
    /// The host type, as tokens.
    Host(String),
}

/// A resource host, as values.
pub enum ResourceHostView {
    NotReference,
    Unsupported,
    Host(Seq<char>),
}

/// The view of a resource host.
pub open spec fn host_view(host: ResourceHost) -> ResourceHostView {
    match host {
        ResourceHost::NotReference => ResourceHostView::NotReference,
        ResourceHost::Unsupported => ResourceHostView::Unsupported,
        ResourceHost::Host(t) => ResourceHostView::Host(t@),
    }
}

fn clone_host(host: &ResourceHost) -> (copy: ResourceHost)
    ensures
        host_view(copy) == host_view(*host),
{
    match host {
        ResourceHost::NotReference => ResourceHost::NotReference,
        ResourceHost::Unsupported => ResourceHost::Unsupported,
        ResourceHost::Host(t) => ResourceHost::Host(t.clone()),
    }
}

/// A parameter of a shader stage with its GPU role and binding.
pub struct StageParameter {
    pub argument: usize,
    pub attribute: usize,
    pub binding: Option<u32>,
    pub name: String,
    pub ty: String,
    pub role: GpuRole,
    pub has_index: bool,
    pub resource_type: ResourceHost,
}

/// Why a shader entry point or a pass was refused.
#[derive(Clone, Copy, PartialEq, Eq, Structural, Debug)]
pub enum ContractError {
    /// Shader functions cannot have `self`.
    Receiver,
    /// Only one GPU role may be specified.
    DuplicateAttribute,
    /// The fragment varying parameter does not take a GPU role.
    VaryingsWithRole,
    /// Shader parameters require a `#[gpu(...)]` role.
    MissingRole,
    /// The `#[gpu(...)]` attribute does not parse.
    MalformedRole,
    /// Unknown GPU parameter role.
    UnknownRole,
    /// Only instance parameters can specify an index.
    IndexOnNonInstance,
    /// The GPU role is not valid for this shader stage.
    NotAllowedInStage,
    /// GPU index parameters must use `u32`.
    IndexNotU32,
    /// GPU parameters require an identifier.
    NotIdentifier,
    /// A shader stage can only declare this GPU role once.
    DuplicateRole,
    /// The fragment instance needs an explicit index when the vertex stage
    /// remaps instances.
    InstanceRemapped,
    /// All shader stages must use the same shared type.
    SharedTypeMismatch,
    /// All shader stages must use the same instance type.
    InstanceTypeMismatch,
    /// GPU resources must be references.
    ResourceNotReference,
    /// Unsupported GPU resource type.
    UnsupportedResource,
    /// Resource names must be unique within a shader stage.
    DuplicateResource,
    /// Shader stages must declare shared resources in the same order.
    ResourceOrder,
    /// A pass must declare instance data in at least one stage.
    MissingInstance,
}

/// The text of a contract error, as the pass macro reports it. A malformed
/// `#[gpu(...)]` attribute is reported with the attribute parser's own
/// message, which has no text here.
pub open spec fn contract_error_text(error: ContractError) -> Option<Seq<char>> {
    match error {
            ContractError::Receiver => Some("shader functions cannot have self"@),
            ContractError::DuplicateAttribute => Some("only one GPU role may be specified"@),
            ContractError::VaryingsWithRole => Some("the fragment varying parameter does not take a GPU role"@),
            ContractError::MissingRole => Some("shader parameters require a `#[gpu(...)]` role"@),
            ContractError::UnknownRole => Some("unknown GPU parameter role"@),
            ContractError::IndexOnNonInstance => Some("only instance parameters can specify an index"@),
            ContractError::NotAllowedInStage => Some("this GPU role is not valid for this shader stage"@),
            ContractError::IndexNotU32 => Some("GPU index parameters must use `u32`"@),
            ContractError::NotIdentifier => Some("GPU parameters require an identifier"@),
            ContractError::DuplicateRole => Some("a shader stage can only declare this GPU role once"@),
            ContractError::InstanceRemapped => Some("fragment instance needs an explicit index when the vertex remaps instances"@),
            ContractError::SharedTypeMismatch => Some("all shader stages must use the same shared type"@),
            ContractError::InstanceTypeMismatch => Some("all shader stages must use the same instance type"@),
            ContractError::ResourceNotReference => Some("GPU resources must be references"@),
            ContractError::UnsupportedResource => Some("unsupported GPU resource type"@),
            ContractError::DuplicateResource => Some("resource names must be unique within a shader stage"@),
            ContractError::ResourceOrder => Some("shader stages must declare shared resources in the same order"@),
            ContractError::MissingInstance => Some("a pass must declare `#[gpu(instance)]` data in at least one stage"@),
            ContractError::MalformedRole => None,
    }
}

impl ContractError {
    /// The error's message; `None` for a malformed role attribute, whose
    /// message is the attribute parser's.
    pub fn message(self) -> (message: Option<&'static str>)
        ensures
            match message {
                Some(m) => contract_error_text(self) == Some(m@),
                None => contract_error_text(self) is None,
            },
    {
        match self {
            ContractError::Receiver => Some("shader functions cannot have self"),
            ContractError::DuplicateAttribute => Some("only one GPU role may be specified"),
            ContractError::VaryingsWithRole => Some("the fragment varying parameter does not take a GPU role"),
            ContractError::MissingRole => Some("shader parameters require a `#[gpu(...)]` role"),
            ContractError::UnknownRole => Some("unknown GPU parameter role"),
            ContractError::IndexOnNonInstance => Some("only instance parameters can specify an index"),
            ContractError::NotAllowedInStage => Some("this GPU role is not valid for this shader stage"),
            ContractError::IndexNotU32 => Some("GPU index parameters must use `u32`"),
            ContractError::NotIdentifier => Some("GPU parameters require an identifier"),
            ContractError::DuplicateRole => Some("a shader stage can only declare this GPU role once"),
            ContractError::InstanceRemapped => Some("fragment instance needs an explicit index when the vertex remaps instances"),
            ContractError::SharedTypeMismatch => Some("all shader stages must use the same shared type"),
            ContractError::InstanceTypeMismatch => Some("all shader stages must use the same instance type"),
            ContractError::ResourceNotReference => Some("GPU resources must be references"),
            ContractError::UnsupportedResource => Some("unsupported GPU resource type"),
            ContractError::DuplicateResource => Some("resource names must be unique within a shader stage"),
            ContractError::ResourceOrder => Some("shader stages must declare shared resources in the same order"),
            ContractError::MissingInstance => Some("a pass must declare `#[gpu(instance)]` data in at least one stage"),
            ContractError::MalformedRole => None,
        }
    }
}

/// A stage parameter as values: argument, attribute, binding, name, type,
/// role, index, resource type.
pub type ParameterView = (usize, usize, Option<u32>, Seq<char>, Seq<char>, GpuRole, bool, ResourceHostView);

/// The text of an optional string.
pub open spec fn text_of(text: Option<String>) -> Option<Seq<char>> {
    match text {
        Some(t) => Some(t@),
        None => None,
    }
}

impl StageParameter {
    pub open spec fn view_parameter(&self) -> ParameterView {
        (
            self.argument,
            self.attribute,
            self.binding,
            self.name@,
            self.ty@,
            self.role,
            self.has_index,
            host_view(self.resource_type),
        )
    }
}

/// The views of a list of parameters.
pub open spec fn parameter_views(params: Seq<StageParameter>) -> Seq<ParameterView> {
    params.map_values(|p: StageParameter| p.view_parameter())
}

/// How many of the parameters are resources.
pub open spec fn resource_count(params: Seq<ParameterView>) -> nat
    decreases params.len(),
{
    if params.len() == 0 {
        0
    } else {
        resource_count(params.drop_last()) + if params.last().5 == GpuRole::Resource { 1nat } else { 0nat }
    }
}

/// What the parameter at position `index` adds to a stage whose earlier
/// parameters are `params`: nothing (the fragment varyings), a parameter,
/// or an error.
pub open spec fn stage_step(
    arg: StageArgument,
    index: int,
    stage: Stage,
    params: Seq<ParameterView>,
) -> Result<Option<ParameterView>, ContractError> {
    if arg.receiver {
        Err(ContractError::Receiver)
    } else if arg.gpu_attributes.len() > 1 {
        Err(ContractError::DuplicateAttribute)
    } else if stage == Stage::Fragment && index == 0 {
        if arg.gpu_attributes.len() == 1 {
            Err(ContractError::VaryingsWithRole)
        } else {
            Ok(None)
        }
    } else if arg.gpu_attributes.len() == 0 {
        Err(ContractError::MissingRole)
    } else {
        match arg.role {
            None => Err(ContractError::MalformedRole),
            Some((name, has_index)) => match role_named(name@) {
                None => Err(ContractError::UnknownRole),
                Some(role) => if has_index && role != GpuRole::Instance {
                    Err(ContractError::IndexOnNonInstance)
                } else if !role_allowed(role, stage) {
                    Err(ContractError::NotAllowedInStage)
                } else if (role == GpuRole::VertexIndex || role == GpuRole::InstanceIndex) && !arg.is_u32 {
                    Err(ContractError::IndexNotU32)
                } else if arg.name is None {
                    Err(ContractError::NotIdentifier)
                } else if unique_role(role) && exists|k: int| 0 <= k < params.len() && #[trigger] params[k].5 == role {
                    Err(ContractError::DuplicateRole)
                } else {
                    let binding = match role {
                        GpuRole::Shared => Some(0u32),
                        GpuRole::Instance => Some(1u32),
                        GpuRole::Resource => Some((2 + resource_count(params)) as u32),
                        _ => None,
                    };
                    Ok(
                        Some(
                            (
                                index as usize,
                                arg.gpu_attributes[0],
                                binding,
                                arg.name->0@,
                                arg.ty@,
                                role,
                                has_index,
                                host_view(arg.resource_type),
                            ),
                        ),
                    )
                },
            },
        }
    }
}

/// The parameters of a stage whose arguments are `args`, in order; the
/// first refused argument decides the error.
pub open spec fn parsed_stage(args: Seq<StageArgument>, stage: Stage) -> Result<Seq<ParameterView>, ContractError>
    decreases args.len(),
{
    if args.len() == 0 {
        Ok(Seq::empty())
    } else {
        match parsed_stage(args.drop_last(), stage) {
            Err(e) => Err(e),
            Ok(params) => match stage_step(args.last(), args.len() - 1, stage, params) {
                Err(e) => Err(e),
                Ok(None) => Ok(params),
                Ok(Some(p)) => Ok(params.push(p)),
            },
        }
    }
}

/// Once a prefix of the arguments is refused, so is the stage.
proof fn lemma_parsed_stage_err(args: Seq<StageArgument>, stage: Stage, n: int)
    requires
        0 <= n <= args.len(),
        parsed_stage(args.take(n), stage) is Err,
    ensures
        parsed_stage(args, stage) == parsed_stage(args.take(n), stage),
    decreases args.len() - n,
{
    if n < args.len() {
        assert(args.take(n + 1).drop_last() =~= args.take(n));
        lemma_parsed_stage_err(args, stage, n + 1);
    } else {
        assert(args.take(n) =~= args);
    }
}

/// The bindings of a stage's parameters follow their roles: the shared
/// buffer at 0, the instance buffer at 1, resources from 2 up to the number
/// of resources, nothing for the others; the shared and instance roles
/// appear once at most.
pub open spec fn bindings_follow_roles(params: Seq<ParameterView>) -> bool {
    &&& forall|i: int|
        0 <= i < params.len() ==> match (#[trigger] params[i]).5 {
            GpuRole::Shared => params[i].2 == Some(0u32),
            GpuRole::Instance => params[i].2 == Some(1u32),
            GpuRole::Resource => params[i].2 matches Some(b) && 2 <= b < 2 + resource_count(params),
            _ => params[i].2 is None,
        }
    &&& forall|i: int, j: int|
        0 <= i < j < params.len() && unique_role(params[i].5) ==> #[trigger] params[i].5 != #[trigger] params[j].5
    &&& forall|i: int, j: int|
        0 <= i < j < params.len() && params[i].5 == GpuRole::Resource && params[j].5 == GpuRole::Resource ==> (
        #[trigger] params[i].2) != (#[trigger] params[j].2)
}

/// No two parameters of a parsed stage share a binding.
pub proof fn stage_bindings_are_distinct(args: Seq<StageArgument>, stage: Stage)
    requires
        args.len() < u32::MAX - 2,
    ensures
        parsed_stage(args, stage) matches Ok(params) ==> {
            &&& bindings_follow_roles(params)
            &&& forall|i: int, j: int|
                0 <= i < j < params.len() && params[i].2 is Some && params[j].2 is Some ==> (#[trigger] params[i].2)
                    != (#[trigger] params[j].2)
        },
    decreases args.len(),
{
    if args.len() > 0 {
        stage_bindings_are_distinct(args.drop_last(), stage);
        if let Ok(params) = parsed_stage(args.drop_last(), stage) {
            lemma_stage_len(args.drop_last(), stage);
            let step = stage_step(args.last(), args.len() - 1, stage, params);
            if let Ok(Some(p)) = step {
                let next = params.push(p);
                assert(next.drop_last() =~= params);
                let count = resource_count(params);
                assert(resource_count(next) == count + if p.5 == GpuRole::Resource { 1nat } else { 0nat });
                assert forall|i: int| 0 <= i < next.len() implies match (#[trigger] next[i]).5 {
                    GpuRole::Shared => next[i].2 == Some(0u32),
                    GpuRole::Instance => next[i].2 == Some(1u32),
                    GpuRole::Resource => next[i].2 matches Some(b) && 2 <= b < 2 + resource_count(next),
                    _ => next[i].2 is None,
                } by {
                    if i < params.len() {
                        assert(next[i] == params[i]);
                    }
                }
            }
        }
    }
    if let Ok(params) = parsed_stage(args, stage) {
        assert forall|i: int, j: int|
            0 <= i < j < params.len() && params[i].2 is Some && params[j].2 is Some implies (#[trigger] params[i].2)
                != (#[trigger] params[j].2) by {
            if params[i].5 == params[j].5 && params[i].5 != GpuRole::Resource {
                assert(unique_role(params[i].5));
            }
        }
    }
}

/// A parsed stage has no more parameters, and so no more resources, than
/// arguments.
proof fn lemma_stage_len(args: Seq<StageArgument>, stage: Stage)
    ensures
        parsed_stage(args, stage) matches Ok(params) ==> params.len() <= args.len() && resource_count(params)
            <= params.len(),
    decreases args.len(),
{
    if args.len() > 0 {
        lemma_stage_len(args.drop_last(), stage);
        if let Ok(params) = parsed_stage(args.drop_last(), stage) {
            if let Ok(Some(p)) = stage_step(args.last(), args.len() - 1, stage, params) {
                assert(params.push(p).drop_last() =~= params);
            }
        }
    }
}

/// The parameters of a shader stage with their GPU roles and bindings: the
/// shared buffer binds at 0, the instance buffer at 1 and resources from 2
/// on, in order.
pub fn parse_stage(args: &Vec<StageArgument>, stage: Stage) -> (parsed: Result<Vec<StageParameter>, ContractError>)
    requires
        args@.len() < u32::MAX - 2,
    ensures
        match parsed_stage(args@, stage) {
            Ok(params) => parsed is Ok && parameter_views(parsed->Ok_0@) == params,
            Err(e) => parsed is Err && parsed->Err_0 == e,
        },
{
    let mut params: Vec<StageParameter> = Vec::new();
    let mut resource_binding: u32 = 2;
    let mut i: usize = 0;
    assert(args@.take(0) =~= Seq::<StageArgument>::empty());
    assert(parameter_views(params@) =~= Seq::<ParameterView>::empty());
    while i < args.len()
        invariant
            0 <= i <= args@.len(),
            args@.len() < u32::MAX - 2,
            parsed_stage(args@.take(i as int), stage) == Ok::<Seq<ParameterView>, ContractError>(
                parameter_views(params@),
            ),
            resource_binding == 2 + resource_count(parameter_views(params@)),
            resource_count(parameter_views(params@)) <= i,
        decreases args@.len() - i,
    {
        let ghost views = parameter_views(params@);
        let ghost prefix = args@.take(i as int + 1);
        proof {
            assert(prefix.drop_last() =~= args@.take(i as int));
            assert(prefix.last() == args@[i as int]);
        }
        let arg = &args[i];
        let step: Result<Option<StageParameter>, ContractError> = if arg.receiver {
            Err(ContractError::Receiver)
        } else if arg.gpu_attributes.len() > 1 {
            Err(ContractError::DuplicateAttribute)
        } else if matches!(stage, Stage::Fragment) && i == 0 {
            if arg.gpu_attributes.len() == 1 {
                Err(ContractError::VaryingsWithRole)
            } else {
                Ok(None)
            }
        } else if arg.gpu_attributes.len() == 0 {
            Err(ContractError::MissingRole)
        } else {
            match &arg.role {
                None => Err(ContractError::MalformedRole),
                Some((name, has_index)) => match parse_role(name.as_str()) {
                    None => Err(ContractError::UnknownRole),
                    Some(role) => match validate_role(role, *has_index, stage) {
                        Err(crate::shader::RoleError::IndexOnNonInstance) => Err(ContractError::IndexOnNonInstance),
                        Err(crate::shader::RoleError::NotAllowedInStage) => Err(ContractError::NotAllowedInStage),
                        Ok(()) => {
                            if matches!(role, GpuRole::VertexIndex | GpuRole::InstanceIndex) && !arg.is_u32 {
                                Err(ContractError::IndexNotU32)
                            } else {
                                match &arg.name {
                                    None => Err(ContractError::NotIdentifier),
                                    Some(name) => {
                                        let mut repeated = false;
                                        if role_is_unique(role) {
                                            let mut k: usize = 0;
                                            while k < params.len()
                                                invariant
                                                    0 <= k <= params@.len(),
                                                    views == parameter_views(params@),
                                                    repeated == exists|j: int| 0 <= j < k && #[trigger] views[j].5 == role,
                                                decreases params@.len() - k,
                                            {
                                                if params[k].role == role {
                                                    assert(views[k as int].5 == role);
                                                    repeated = true;
                                                }
                                                k += 1;
                                            }
                                        }
                                        if repeated {
                                            Err(ContractError::DuplicateRole)
                                        } else {
                                            let binding = match role {
                                                GpuRole::Shared => Some(0u32),
                                                GpuRole::Instance => Some(1u32),
                                                GpuRole::Resource => Some(resource_binding),
                                                _ => None,
                                            };
                                            Ok(
                                                Some(
                                                    StageParameter {
                                                        argument: i,
                                                        attribute: arg.gpu_attributes[0],
                                                        binding,
                                                        name: name.clone(),
                                                        ty: arg.ty.clone(),
                                                        role,
                                                        has_index: *has_index,
                                                        resource_type: clone_host(&arg.resource_type),
                                                    },
                                                ),
                                            )
                                        }
                                    },
                                }
                            }
                        },
                    },
                },
            }
        };
        assert(match step {
            Err(e) => stage_step(args@[i as int], i as int, stage, views) == Err::<Option<ParameterView>, ContractError>(e),
            Ok(None) => stage_step(args@[i as int], i as int, stage, views) == Ok::<Option<ParameterView>, ContractError>(None),
            Ok(Some(p)) => stage_step(args@[i as int], i as int, stage, views) == Ok::<Option<ParameterView>, ContractError>(Some(p.view_parameter())),
        });
        match step {
            Err(e) => {
                proof {
                    lemma_parsed_stage_err(args@, stage, i as int + 1);
                }
                return Err(e);
            },
            Ok(None) => {},
            Ok(Some(p)) => {
                let is_resource = matches!(p.role, GpuRole::Resource);
                params.push(p);
                proof {
                    assert(parameter_views(params@) =~= views.push(p.view_parameter()));
                    assert(parameter_views(params@).drop_last() =~= views);
                }
                if is_resource {
                    resource_binding = resource_binding + 1;
                }
            },
        }
        i += 1;
    }
    assert(args@.take(i as int) =~= args@);
    Ok(params)
}

/// Whether some parameter of the stage takes `role` without an explicit
/// index.
pub open spec fn implicit_role(params: Seq<ParameterView>, role: GpuRole) -> bool {
    exists|k: int| 0 <= k < params.len() && #[trigger] params[k].5 == role && !params[k].6
}

/// Whether some parameter of the stage takes `role` with an explicit index.
pub open spec fn indexed_role(params: Seq<ParameterView>, role: GpuRole) -> bool {
    exists|k: int| 0 <= k < params.len() && #[trigger] params[k].5 == role && params[k].6
}

/// What the pass learns from its stages: the shared type, the instance type
/// and the resources by name and host type.
pub type MergeView = (Option<Seq<char>>, Option<Seq<char>>, Seq<(Seq<char>, Seq<char>)>);

/// Records `ty` as the type of a slot: the first stage sets it, later ones
/// must agree.
pub open spec fn merged_type(slot: Option<Seq<char>>, ty: Seq<char>) -> Option<Option<Seq<char>>> {
    match slot {
        Some(previous) => if previous == ty {
            Some(slot)
        } else {
            None
        },
        None => Some(Some(ty)),
    }
}

/// What one parameter adds to the pass, given the stage's earlier
/// parameters `earlier` (which fix the parameter's position among the
/// stage's resources).
pub open spec fn merge_step(p: ParameterView, earlier: Seq<ParameterView>, state: MergeView) -> Result<MergeView, ContractError> {
    let resource_index = resource_count(earlier);
    if p.5 == GpuRole::Shared {
        match merged_type(state.0, p.4) {
            Some(shared) => Ok((shared, state.1, state.2)),
            None => Err(ContractError::SharedTypeMismatch),
        }
    } else if p.5 == GpuRole::Instance {
        match merged_type(state.1, p.4) {
            Some(instance) => Ok((state.0, instance, state.2)),
            None => Err(ContractError::InstanceTypeMismatch),
        }
    } else if p.5 == GpuRole::Resource {
        match p.7 {
            ResourceHostView::NotReference => Err(ContractError::ResourceNotReference),
            ResourceHostView::Unsupported => Err(ContractError::UnsupportedResource),
            ResourceHostView::Host(host) => if exists|k: int| 0 <= k < resource_index && #[trigger] state.2[k].0 == p.3 {
                Err(ContractError::DuplicateResource)
            } else if resource_index < state.2.len() {
                if state.2[resource_index as int] != (p.3, host) {
                    Err(ContractError::ResourceOrder)
                } else {
                    Ok(state)
                }
            } else {
                Ok((state.0, state.1, state.2.push((p.3, host))))
            },
        }
    } else {
        Ok(state)
    }
}

/// What a stage's parameters add to the pass, in order.
pub open spec fn merged_stage(params: Seq<ParameterView>, state: MergeView) -> Result<MergeView, ContractError>
    decreases params.len(),
{
    if params.len() == 0 {
        Ok(state)
    } else {
        match merged_stage(params.drop_last(), state) {
            Err(e) => Err(e),
            Ok(merged) => merge_step(params.last(), params.drop_last(), merged),
        }
    }
}

proof fn lemma_merged_stage_err(params: Seq<ParameterView>, state: MergeView, n: int)
    requires
        0 <= n <= params.len(),
        merged_stage(params.take(n), state) is Err,
    ensures
        merged_stage(params, state) == merged_stage(params.take(n), state),
    decreases params.len() - n,
{
    if n < params.len() {
        assert(params.take(n + 1).drop_last() =~= params.take(n));
        lemma_merged_stage_err(params, state, n + 1);
    } else {
        assert(params.take(n) =~= params);
    }
}

/// The model of a render pass, built from its vertex and fragment stages.
pub struct PassModel {
    pub vertex: Vec<StageParameter>,
    pub fragment: Vec<StageParameter>,
    pub shared: Option<String>,
    pub instance: String,
    pub resources: Vec<(String, String)>,
    /// The fragment stage reads the instance without an index, so the vertex
    /// stage hands it on.
    pub carry_instance: bool,
}

/// The pass a vertex and a fragment stage make: `(vertex, fragment,
/// shared, instance, resources, carry_instance)`.
pub type PassView = (Seq<ParameterView>, Seq<ParameterView>, Option<Seq<char>>, Seq<char>, Seq<(Seq<char>, Seq<char>)>, bool);

/// The pass that the stages make, or the first error.
pub open spec fn parsed_pass(vertex: Seq<StageArgument>, fragment: Seq<StageArgument>) -> Result<PassView, ContractError> {
    match parsed_stage(vertex, Stage::Vertex) {
        Err(e) => Err(e),
        Ok(v) => match parsed_stage(fragment, Stage::Fragment) {
            Err(e) => Err(e),
            Ok(f) => {
                let carry = implicit_role(f, GpuRole::Instance);
                if carry && indexed_role(v, GpuRole::Instance) {
                    Err(ContractError::InstanceRemapped)
                } else {
                    match merged_stage(v, (None, None, Seq::empty())) {
                        Err(e) => Err(e),
                        Ok(after_vertex) => match merged_stage(f, after_vertex) {
                            Err(e) => Err(e),
                            Ok(merged) => match merged.1 {
                                None => Err(ContractError::MissingInstance),
                                Some(instance) => Ok((v, f, merged.0, instance, merged.2, carry)),
                            },
                        },
                    }
                }
            },
        },
    }
}

/// The resources as values.
pub open spec fn resource_views(resources: Seq<(String, String)>) -> Seq<(Seq<char>, Seq<char>)> {
    resources.map_values(|r: (String, String)| (r.0@, r.1@))
}

impl PassModel {
    pub open spec fn view_pass(&self) -> PassView {
        (
            parameter_views(self.vertex@),
            parameter_views(self.fragment@),
            text_of(self.shared),
            self.instance@,
            resource_views(self.resources@),
            self.carry_instance,
        )
    }
}

/// Whether some parameter takes `role`, with or without an index as
/// `indexed` says.
fn has_role(params: &Vec<StageParameter>, role: GpuRole, indexed: bool) -> (found: bool)
    ensures
        found == exists|k: int| 0 <= k < params@.len() && #[trigger] parameter_views(params@)[k].5 == role
            && parameter_views(params@)[k].6 == indexed,
{
    let ghost views = parameter_views(params@);
    let mut k: usize = 0;
    while k < params.len()
        invariant
            0 <= k <= params@.len(),
            views == parameter_views(params@),
            forall|j: int| 0 <= j < k ==> !(#[trigger] views[j].5 == role && views[j].6 == indexed),
        decreases params@.len() - k,
    {
        if params[k].role == role && params[k].has_index == indexed {
            assert(views[k as int].5 == role && views[k as int].6 == indexed);
            return true;
        }
        k += 1;
    }
    false
}

/// Records `ty` as the type of `slot`; `false` when the slot already holds
/// another type.
fn merge_type(slot: &mut Option<String>, ty: &String) -> (merged: bool)
    ensures
        match merged_type(text_of(*old(slot)), ty@) {
            Some(next) => merged && text_of(*final(slot)) == next,
            None => !merged,
        },
{
    match slot {
        Some(previous) => str_eq(previous.as_str(), ty.as_str()),
        None => {
            *slot = Some(ty.clone());
            true
        },
    }
}

/// Adds the parameters of one stage to the pass being built.
fn merge_stage(
    params: &Vec<StageParameter>,
    shared: &mut Option<String>,
    instance: &mut Option<String>,
    resources: &mut Vec<(String, String)>,
) -> (merged: Result<(), ContractError>)
    ensures
        match merged_stage(
            parameter_views(params@),
            (text_of(*old(shared)), text_of(*old(instance)), resource_views(old(resources)@)),
        ) {
            Ok(state) => merged is Ok && state == (
                text_of(*final(shared)),
                text_of(*final(instance)),
                resource_views(final(resources)@),
            ),
            Err(e) => merged == Err::<(), ContractError>(e),
        },
{
    let ghost views = parameter_views(params@);
    let ghost start = (text_of(*shared), text_of(*instance), resource_views(resources@));
    let mut resource_index: usize = 0;
    let mut i: usize = 0;
    assert(views.take(0) =~= Seq::<ParameterView>::empty());
    while i < params.len()
        invariant
            0 <= i <= params@.len(),
            views == parameter_views(params@),
            start == (text_of(*old(shared)), text_of(*old(instance)), resource_views(old(resources)@)),
            merged_stage(views.take(i as int), start) == Ok::<MergeView, ContractError>(
                (text_of(*shared), text_of(*instance), resource_views(resources@)),
            ),
            resource_index == resource_count(views.take(i as int)),
            resource_index <= resources@.len(),
            resource_index <= i,
        decreases params@.len() - i,
    {
        let ghost before = (text_of(*shared), text_of(*instance), resource_views(resources@));
        let ghost prefix = views.take(i as int + 1);
        proof {
            assert(prefix.drop_last() =~= views.take(i as int));
            assert(prefix.last() == views[i as int]);
        }
        let p = &params[i];
        let step: Result<(), ContractError> = match p.role {
            GpuRole::Shared => if merge_type(shared, &p.ty) {
                Ok(())
            } else {
                Err(ContractError::SharedTypeMismatch)
            },
            GpuRole::Instance => if merge_type(instance, &p.ty) {
                Ok(())
            } else {
                Err(ContractError::InstanceTypeMismatch)
            },
            GpuRole::Resource => match &p.resource_type {
                ResourceHost::NotReference => Err(ContractError::ResourceNotReference),
                ResourceHost::Unsupported => Err(ContractError::UnsupportedResource),
                ResourceHost::Host(host) => {
                    let mut duplicate = false;
                    let mut k: usize = 0;
                    while k < resource_index
                        invariant
                            0 <= k <= resource_index <= resources@.len(),
                            duplicate == exists|j: int| 0 <= j < k && #[trigger] resource_views(resources@)[j].0 == p.name@,
                        decreases resource_index - k,
                    {
                        if str_eq(resources[k].0.as_str(), p.name.as_str()) {
                            assert(resource_views(resources@)[k as int].0 == p.name@);
                            duplicate = true;
                        }
                        k += 1;
                    }
                    if duplicate {
                        Err(ContractError::DuplicateResource)
                    } else if resource_index < resources.len() {
                        let same = str_eq(resources[resource_index].0.as_str(), p.name.as_str()) && str_eq(
                            resources[resource_index].1.as_str(),
                            host.as_str(),
                        );
                        if !same {
                            Err(ContractError::ResourceOrder)
                        } else {
                            resource_index += 1;
                            Ok(())
                        }
                    } else {
                        resources.push((p.name.clone(), host.clone()));
                        proof {
                            assert(resource_views(resources@) =~= before.2.push((p.name@, host@)));
                        }
                        resource_index += 1;
                        Ok(())
                    }
                },
            },
            _ => Ok(()),
        };
        match step {
            Err(e) => {
                proof {
                    lemma_merged_stage_err(views, start, i as int + 1);
                }
                return Err(e);
            },
            Ok(()) => {},
        }
        i += 1;
    }
    assert(views.take(i as int) =~= views);
    Ok(())
}

impl PassModel {
    /// Builds the pass from its vertex and fragment entry points: both stages
    /// must parse, a fragment stage that reads the instance without an index
    /// needs a vertex stage that does not remap instances, both stages must
    /// agree on the shared and instance types and declare their common
    /// resources in the same order, and some stage must read instance data.
    pub fn parse(vertex: &Vec<StageArgument>, fragment: &Vec<StageArgument>) -> (parsed: Result<PassModel, ContractError>)
        requires
            vertex@.len() < u32::MAX - 2,
            fragment@.len() < u32::MAX - 2,
        ensures
            match parsed_pass(vertex@, fragment@) {
                Ok(pass) => parsed is Ok && parsed->Ok_0.view_pass() == pass,
                Err(e) => parsed is Err && parsed->Err_0 == e,
            },
    {
        let vertex = match parse_stage(vertex, Stage::Vertex) {
            Ok(v) => v,
            Err(e) => return Err(e),
        };
        let fragment = match parse_stage(fragment, Stage::Fragment) {
            Ok(f) => f,
            Err(e) => return Err(e),
        };
        let carry_instance = has_role(&fragment, GpuRole::Instance, false);
        if carry_instance && has_role(&vertex, GpuRole::Instance, true) {
            return Err(ContractError::InstanceRemapped);
        }
        let mut shared: Option<String> = None;
        let mut instance: Option<String> = None;
        let mut resources: Vec<(String, String)> = Vec::new();
        assert(resource_views(resources@) =~= Seq::<(Seq<char>, Seq<char>)>::empty());
        match merge_stage(&vertex, &mut shared, &mut instance, &mut resources) {
            Ok(()) => {},
            Err(e) => return Err(e),
        }
        match merge_stage(&fragment, &mut shared, &mut instance, &mut resources) {
            Ok(()) => {},
            Err(e) => return Err(e),
        }
        match instance {
            None => Err(ContractError::MissingInstance),
            Some(instance) => Ok(PassModel { vertex, fragment, shared, instance, resources, carry_instance }),
        }
    }
}

/// A method of a pass implementation, as the pass macro sees it.
#[derive(Clone, Copy, PartialEq, Eq, Structural, Debug)]
pub struct PassMethod {
    /// It is named `fragment`.
    pub fragment: bool,
    /// It carries a `#[gpu]` marker.
    pub gpu: bool,
    /// Its first parameter is a typed parameter whose type is a path: the
    /// named varying type.
    pub named_varying: bool,
}

/// The item that the pass macro is applied to.
pub enum PassItem {
    /// A struct: whether it is generic, whether its fields are named, and
    /// for each field whether its type is an instance container
    /// (`Instances<T>` or `Instance<T>` with one type argument).
    Struct { generic: bool, named: bool, instance_fields: Vec<bool> },
    /// An impl block: whether it is generic, and its methods in order.
    Impl { generic: bool, methods: Vec<PassMethod> },
    /// Anything else.
    Other,
}

/// Why the pass macro refused its item.
#[derive(Clone, Copy, PartialEq, Eq, Structural, Debug)]
pub enum PassItemError {
    StructOptions,
    GenericStruct,
    SeveralInstanceContainers,
    NotStructOrImpl,
    GenericImpl,
    MissingFragment,
    UnnamedVarying,
}

impl PassItemError {
    /// The error's message.
    pub fn message(self) -> (message: &'static str)
        ensures
            message@ == match self {
                PassItemError::StructOptions => "pass structs do not take pipeline options"@,
                PassItemError::GenericStruct => "render pass types cannot be generic"@,
                PassItemError::SeveralInstanceContainers =>
                    "a shader pass can own at most one instance container; use a system to coordinate multiple passes"@,
                PassItemError::NotStructOrImpl => "pass requires a struct or impl block"@,
                PassItemError::GenericImpl => "render pass implementations cannot be generic"@,
                PassItemError::MissingFragment => "missing `fragment` function"@,
                PassItemError::UnnamedVarying => "fragment must accept a named varying type"@,
            },
    {
        match self {
            PassItemError::StructOptions => "pass structs do not take pipeline options",
            PassItemError::GenericStruct => "render pass types cannot be generic",
            PassItemError::SeveralInstanceContainers =>
                "a shader pass can own at most one instance container; use a system to coordinate multiple passes",
            PassItemError::NotStructOrImpl => "pass requires a struct or impl block",
            PassItemError::GenericImpl => "render pass implementations cannot be generic",
            PassItemError::MissingFragment => "missing `fragment` function",
            PassItemError::UnnamedVarying => "fragment must accept a named varying type",
        }
    }
}

/// What the pass macro expands an accepted item into.
#[derive(Clone, Copy, PartialEq, Eq, Structural, Debug)]
pub enum PassExpansion {
    /// A pass struct, with the position of its instance container when it
    /// owns one (it then gets a runtime implementation).
    Struct { instance_field: Option<usize> },
    /// A pass implementation, bridged through its fragment's varying type;
    /// the position of the `fragment` method.
    Impl { fragment: usize },
}

/// Whether a flag is set.
pub open spec fn is_set() -> spec_fn(bool) -> bool {
    |flag: bool| flag
}

/// Whether a method is the marked `fragment` shader.
pub open spec fn is_fragment() -> spec_fn(PassMethod) -> bool {
    |method: PassMethod| method.fragment && method.gpu
}

/// What the pass macro decides of an item, given whether it was invoked with
/// pipeline options; the checks in the order the macro makes them.
pub open spec fn pass_item_outcome(item: PassItem, has_options: bool) -> Result<PassExpansion, PassItemError> {
    match item {
        PassItem::Struct { generic, named, instance_fields } => {
            let fields = if named { instance_fields@ } else { Seq::<bool>::empty() };
            if has_options {
                Err(PassItemError::StructOptions)
            } else if generic {
                Err(PassItemError::GenericStruct)
            } else if count_where(fields, is_set()) > 1 {
                Err(PassItemError::SeveralInstanceContainers)
            } else {
                Ok(PassExpansion::Struct {
                    instance_field: match first_position(fields, is_set()) {
                        Some(i) => Some(i as usize),
                        None => None,
                    },
                })
            }
        },
        PassItem::Impl { generic, methods } => {
            if generic {
                Err(PassItemError::GenericImpl)
            } else {
                match first_position(methods@, is_fragment()) {
                    None => Err(PassItemError::MissingFragment),
                    Some(i) => if methods@[i].named_varying {
                        Ok(PassExpansion::Impl { fragment: i as usize })
                    } else {
                        Err(PassItemError::UnnamedVarying)
                    },
                }
            }
        },
        PassItem::Other => Err(PassItemError::NotStructOrImpl),
    }
}

/// Checks the item that the pass macro is applied to, and says what it
/// expands into: a struct without options, not generic and owning at most
/// one instance container; or an impl block, not generic, with a marked
/// `fragment` method whose first parameter names the varying type.
pub fn check_pass_item(item: &PassItem, has_options: bool) -> (outcome: Result<PassExpansion, PassItemError>)
    ensures
        outcome == pass_item_outcome(*item, has_options),
{
    match item {
        PassItem::Struct { generic, named, instance_fields } => {
            if has_options {
                return Err(PassItemError::StructOptions);
            }
            if *generic {
                return Err(PassItemError::GenericStruct);
            }
            if !*named {
                assert(first_position(Seq::<bool>::empty(), is_set()) is None);
                return Ok(PassExpansion::Struct { instance_field: None });
            }
            let ghost fields = instance_fields@;
            let mut count: usize = 0;
            let mut first: Option<usize> = None;
            let mut i: usize = 0;
            while i < instance_fields.len()
                invariant
                    0 <= i <= fields.len(),
                    fields == instance_fields@,
                    count == count_where(fields.take(i as int), is_set()),
                    count <= i,
                    match first {
                        Some(f) => f < i && fields[f as int] && forall|k: int| 0 <= k < f ==> !fields[k],
                        None => forall|k: int| 0 <= k < i ==> !fields[k],
                    },
                decreases fields.len() - i,
            {
                assert(fields.take(i as int + 1).drop_last() =~= fields.take(i as int));
                if instance_fields[i] {
                    count += 1;
                    if first.is_none() {
                        first = Some(i);
                    }
                }
                i += 1;
            }
            assert(fields.take(i as int) =~= fields);
            if count > 1 {
                return Err(PassItemError::SeveralInstanceContainers);
            }
            match first {
                Some(f) => {
                    proof {
                        lemma_first_position(fields, is_set(), f as int);
                    }
                },
                None => {
                    proof {
                        lemma_first_position_found(fields, is_set());
                    }
                },
            }
            Ok(PassExpansion::Struct { instance_field: first })
        },
        PassItem::Impl { generic, methods } => {
            if *generic {
                return Err(PassItemError::GenericImpl);
            }
            let mut i: usize = 0;
            while i < methods.len()
                invariant
                    0 <= i <= methods@.len(),
                    *item == (PassItem::Impl { generic: false, methods: *methods }),
                    forall|k: int| 0 <= k < i ==> !is_fragment()(#[trigger] methods@[k]),
                decreases methods@.len() - i,
            {
                if methods[i].fragment && methods[i].gpu {
                    let method = methods[i];
                    proof {
                        assert(is_fragment()(methods@[i as int]));
                        lemma_first_position(methods@, is_fragment(), i as int);
                        assert(method == methods@[i as int]);
                    }
                    if method.named_varying {
                        return Ok(PassExpansion::Impl { fragment: i });
                    }
                    return Err(PassItemError::UnnamedVarying);
                }
                i += 1;
            }
            proof {
                lemma_first_position_found(methods@, is_fragment());
            }
            Err(PassItemError::MissingFragment)
        },
        PassItem::Other => Err(PassItemError::NotStructOrImpl),
    }
}

/// A field of a pass's varying struct: how many `#[gpu(..)]` attributes it
/// carries, and the role written in the first with whether it gives a value
/// (`None` when the attribute does not parse).
pub struct VaryingField {
    pub gpu_attributes: usize,
    pub role: Option<(String, bool)>,
}

/// What the pass bridge finds in a pass's shader module: whether the pass
/// type is a named path; for each struct marked `#[gpu]`, its fields when
/// they are named; whether marked `vertex` and `fragment` functions exist;
/// and whether the fragment's first parameter is typed.
pub struct PassBridge {
    pub named_type: bool,
    pub varying_structs: Vec<Option<Vec<VaryingField>>>,
    pub vertex: bool,
    pub fragment: bool,
    pub fragment_takes_varying: bool,
}

/// Why the pass bridge refused a shader module.
#[derive(Clone, Copy, PartialEq, Eq, Structural, Debug)]
pub enum BridgeError {
    UnnamedPass,
    VaryingCount,
    UnnamedVaryingFields,
    DuplicateFieldRole,
    MalformedFieldRole,
    UnknownFieldRole,
    FieldRoleValue,
    FieldNotFlat,
    MissingVertex,
    MissingFragment,
    FragmentVarying,
}

/// The text of a bridge error, as the macro reports it; a malformed field
/// attribute is reported with the attribute parser's own message.
pub open spec fn bridge_error_text(error: BridgeError) -> Option<Seq<char>> {
    match error {
        BridgeError::UnnamedPass => Some("pass requires a named type"@),
        BridgeError::VaryingCount => Some("shader requires exactly one `#[gpu]` varying struct"@),
        BridgeError::UnnamedVaryingFields => Some("Varyings requires named fields"@),
        BridgeError::DuplicateFieldRole => Some("only one GPU role may be specified"@),
        BridgeError::MalformedFieldRole => None,
        BridgeError::UnknownFieldRole => Some("unknown GPU parameter role"@),
        BridgeError::FieldRoleValue => Some("varying fields do not take a value"@),
        BridgeError::FieldNotFlat => Some("varying fields only support `#[gpu(flat)]`"@),
        BridgeError::MissingVertex => Some("missing `vertex` function"@),
        BridgeError::MissingFragment => Some("missing `fragment` function"@),
        BridgeError::FragmentVarying => Some("fragment must accept a named varying type"@),
    }
}

impl BridgeError {
    /// The error's message; `None` for a malformed field attribute.
    pub fn message(self) -> (message: Option<&'static str>)
        ensures
            match message {
                Some(m) => bridge_error_text(self) == Some(m@),
                None => bridge_error_text(self) is None,
            },
    {
        match self {
            BridgeError::UnnamedPass => Some("pass requires a named type"),
            BridgeError::VaryingCount => Some("shader requires exactly one `#[gpu]` varying struct"),
            BridgeError::UnnamedVaryingFields => Some("Varyings requires named fields"),
            BridgeError::DuplicateFieldRole => Some("only one GPU role may be specified"),
            BridgeError::MalformedFieldRole => None,
            BridgeError::UnknownFieldRole => Some("unknown GPU parameter role"),
            BridgeError::FieldRoleValue => Some("varying fields do not take a value"),
            BridgeError::FieldNotFlat => Some("varying fields only support `#[gpu(flat)]`"),
            BridgeError::MissingVertex => Some("missing `vertex` function"),
            BridgeError::MissingFragment => Some("missing `fragment` function"),
            BridgeError::FragmentVarying => Some("fragment must accept a named varying type"),
        }
    }
}

/// Whether a varying field is flat, or why its attribute is refused: a
/// second attribute, then an attribute that does not parse or names no
/// role, then a value, then any role but `flat`.
pub open spec fn field_flat(field: VaryingField) -> Result<bool, BridgeError> {
    if field.gpu_attributes > 1 {
        Err(BridgeError::DuplicateFieldRole)
    } else if field.gpu_attributes == 0 {
        Ok(false)
    } else {
        match field.role {
            None => Err(BridgeError::MalformedFieldRole),
            Some((name, has_value)) => match role_named(name@) {
                None => Err(BridgeError::UnknownFieldRole),
                Some(role) => if has_value {
                    Err(BridgeError::FieldRoleValue)
                } else if role != GpuRole::Flat {
                    Err(BridgeError::FieldNotFlat)
                } else {
                    Ok(true)
                },
            },
        }
    }
}

/// The flat flags of the first `n` fields, or the first refusal among them.
pub open spec fn fields_flat(fields: Seq<VaryingField>, n: int) -> Result<Seq<bool>, BridgeError>
    decreases n,
{
    if n <= 0 {
        Ok(Seq::empty())
    } else {
        match fields_flat(fields, n - 1) {
            Err(e) => Err(e),
            Ok(flags) => match field_flat(fields[n - 1]) {
                Err(e) => Err(e),
                Ok(flat) => Ok(flags.push(flat)),
            },
        }
    }
}

/// What the pass bridge gives: the flat flags of the varying struct's
/// fields, or the first check that fails, the checks taken in order.
pub open spec fn bridge_outcome(bridge: PassBridge) -> Result<Seq<bool>, BridgeError> {
    if !bridge.named_type {
        Err(BridgeError::UnnamedPass)
    } else if bridge.varying_structs@.len() != 1 {
        Err(BridgeError::VaryingCount)
    } else {
        match bridge.varying_structs@[0] {
            None => Err(BridgeError::UnnamedVaryingFields),
            Some(fields) => match fields_flat(fields@, fields@.len() as int) {
                Err(e) => Err(e),
                Ok(flags) => if !bridge.vertex {
                    Err(BridgeError::MissingVertex)
                } else if !bridge.fragment {
                    Err(BridgeError::MissingFragment)
                } else if !bridge.fragment_takes_varying {
                    Err(BridgeError::FragmentVarying)
                } else {
                    Ok(flags)
                },
            },
        }
    }
}

fn check_field(field: &VaryingField) -> (flat: Result<bool, BridgeError>)
    ensures
        flat == field_flat(*field),
{
    if field.gpu_attributes > 1 {
        return Err(BridgeError::DuplicateFieldRole);
    }
    if field.gpu_attributes == 0 {
        return Ok(false);
    }
    match &field.role {
        None => Err(BridgeError::MalformedFieldRole),
        Some((name, has_value)) => match parse_role(name.as_str()) {
            None => Err(BridgeError::UnknownFieldRole),
            Some(role) => if *has_value {
                Err(BridgeError::FieldRoleValue)
            } else if role != GpuRole::Flat {
                Err(BridgeError::FieldNotFlat)
            } else {
                Ok(true)
            },
        },
    }
}

/// Checks a pass's shader module before it is bridged: a named pass type,
/// exactly one varying struct with named fields that take at most
/// `#[gpu(flat)]`, marked `vertex` and `fragment` functions, and a fragment
/// that accepts the varying type. Gives whether each varying field is flat.
pub fn check_pass_bridge(bridge: &PassBridge) -> (flags: Result<Vec<bool>, BridgeError>)
    ensures
        match bridge_outcome(*bridge) {
            Ok(f) => flags is Ok && flags->Ok_0@ == f,
            Err(e) => flags == Err::<Vec<bool>, BridgeError>(e),
        },
{
    if !bridge.named_type {
        return Err(BridgeError::UnnamedPass);
    }
    if bridge.varying_structs.len() != 1 {
        return Err(BridgeError::VaryingCount);
    }
    let fields = match &bridge.varying_structs[0] {
        None => return Err(BridgeError::UnnamedVaryingFields),
        Some(fields) => fields,
    };
    let mut flags: Vec<bool> = Vec::new();
    let mut i: usize = 0;
    while i < fields.len()
        invariant
            0 <= i <= fields@.len(),
            bridge.named_type,
            bridge.varying_structs@.len() == 1,
            bridge.varying_structs@[0] == Some(*fields),
            fields_flat(fields@, i as int) == Ok::<Seq<bool>, BridgeError>(flags@),
        decreases fields@.len() - i,
    {
        match check_field(&fields[i]) {
            Err(e) => {
                proof {
                    assert(fields_flat(fields@, i as int + 1) == Err::<Seq<bool>, BridgeError>(e));
                    lemma_fields_flat_err(fields@, i as int + 1, fields@.len() as int);
                }
                return Err(e);
            },
            Ok(flat) => {
                flags.push(flat);
                assert(fields_flat(fields@, i as int + 1) == Ok::<Seq<bool>, BridgeError>(flags@));
            },
        }
        i += 1;
    }
    if !bridge.vertex {
        return Err(BridgeError::MissingVertex);
    }
    if !bridge.fragment {
        return Err(BridgeError::MissingFragment);
    }
    if !bridge.fragment_takes_varying {
        return Err(BridgeError::FragmentVarying);
    }
    Ok(flags)
}

proof fn lemma_fields_flat_err(fields: Seq<VaryingField>, n: int, m: int)
    requires
        0 < n <= m,
        fields_flat(fields, n) is Err,
    ensures
        fields_flat(fields, m) == fields_flat(fields, n),
    decreases m - n,
{
    if m > n {
        lemma_fields_flat_err(fields, n, m - 1);
    }
}

} // verus!
