use cantus::pass::{
    check_pass_bridge, check_pass_item, BridgeError, PassBridge, VaryingField, parse_stage, ContractError, PassExpansion, ResourceHost, PassItem, PassItemError, PassMethod, PassModel, StageArgument,
};
use cantus::shader::{
    is_workspace_manifest, manifest_features, normalize_shader, reference, shader_artifact_path, shader_features, FeatureList, parse_role, pass_module_name, role_is_unique, validate_role, GpuRole, OptionError, OptionSetting, OptionValue,
    PassOptions, RoleError, Stage,
};

#[test]
fn module_names_lose_their_crate() {
    assert_eq!(pass_module_name("cantus_gpu::track"), "track");
    assert_eq!(pass_module_name("cantus_gpu::render::text"), "render::text");
    assert_eq!(pass_module_name("plain"), "");
    assert_eq!(pass_module_name("a:::b"), "b");
    assert_eq!(pass_module_name(""), "");
}

#[test]
fn roles_by_name_and_stage() {
    assert_eq!(parse_role("vertex_index"), Some(GpuRole::VertexIndex));
    assert_eq!(parse_role("instance_index"), Some(GpuRole::InstanceIndex));
    assert_eq!(parse_role("shared"), Some(GpuRole::Shared));
    assert_eq!(parse_role("instance"), Some(GpuRole::Instance));
    assert_eq!(parse_role("resource"), Some(GpuRole::Resource));
    assert_eq!(parse_role("flat"), Some(GpuRole::Flat));
    assert_eq!(parse_role("texture"), None);
    assert!(role_is_unique(GpuRole::Shared));
    assert!(!role_is_unique(GpuRole::Resource));
    assert!(!role_is_unique(GpuRole::Flat));
    assert_eq!(validate_role(GpuRole::VertexIndex, false, Stage::Vertex), Ok(()));
    assert_eq!(validate_role(GpuRole::VertexIndex, false, Stage::Fragment), Err(RoleError::NotAllowedInStage));
    assert_eq!(validate_role(GpuRole::Flat, false, Stage::Vertex), Err(RoleError::NotAllowedInStage));
    assert_eq!(validate_role(GpuRole::Shared, true, Stage::Vertex), Err(RoleError::IndexOnNonInstance));
    assert_eq!(validate_role(GpuRole::Instance, true, Stage::Fragment), Ok(()));
}

fn setting(key: &str, value: OptionValue) -> OptionSetting {
    OptionSetting { key: key.to_string(), value }
}

fn word(w: &str) -> OptionValue {
    OptionValue::Word(w.to_string())
}

#[test]
fn pass_options_default_and_parse() {
    let options = PassOptions::parse(&vec![]).unwrap();
    assert_eq!((options.topology, options.blend, options.vertices), ("TriangleStrip", "PremultipliedAlpha", 4));
    let options = PassOptions::parse(&vec![
        setting("vertices", OptionValue::Number(6)),
        setting("topology", word("triangle_list")),
        setting("blend", word("add")),
    ])
    .unwrap();
    assert_eq!((options.topology, options.blend, options.vertices), ("TriangleList", "Add", 6));
    let options = PassOptions::parse(&vec![setting("topology", word("point_list")), setting("blend", word("replace"))]).unwrap();
    assert_eq!((options.topology, options.blend), ("PointList", "Replace"));
}

fn refused(settings: Vec<OptionSetting>) -> OptionError {
    match PassOptions::parse(&settings) {
        Err(e) => e,
        Ok(_) => panic!("expected an error"),
    }
}

#[test]
fn pass_options_errors() {
    assert_eq!(refused(vec![setting("blend", word("add")), setting("blend", word("alpha"))]), OptionError::DuplicateOption);
    assert_eq!(refused(vec![setting("color", word("red"))]), OptionError::UnknownOption);
    assert_eq!(refused(vec![setting("vertices", word("six"))]), OptionError::ExpectedNumber);
    assert_eq!(refused(vec![setting("topology", OptionValue::Number(1))]), OptionError::ExpectedWord);
    assert_eq!(refused(vec![setting("vertices", OptionValue::Number(1 << 40))]), OptionError::VertexCountOutOfRange);
    assert_eq!(refused(vec![setting("vertices", OptionValue::Number(0))]), OptionError::ZeroVertices);
    assert_eq!(refused(vec![setting("topology", word("quads"))]), OptionError::UnknownTopology);
    assert_eq!(refused(vec![setting("blend", word("multiply"))]), OptionError::UnknownBlend);
    assert_eq!(
        refused(vec![setting("blend", word("multiply")), setting("blend", word("add"))]),
        OptionError::UnknownBlend
    );
}

fn arg(role: &str, name: &str, ty: &str) -> StageArgument {
    StageArgument {
        receiver: false,
        gpu_attributes: vec![0],
        role: Some((role.to_string(), false)),
        is_u32: ty == "u32",
        name: Some(name.to_string()),
        ty: ty.to_string(),
        resource_type: if role == "resource" { ResourceHost::Host(format!("Storage<{ty}>")) } else { ResourceHost::NotReference },
    }
}

fn varyings() -> StageArgument {
    StageArgument {
        receiver: false,
        gpu_attributes: vec![],
        role: None,
        is_u32: false,
        name: Some("input".to_string()),
        ty: "Varyings".to_string(),
        resource_type: ResourceHost::NotReference,
    }
}

#[test]
fn stage_parameters_get_bindings_by_role() {
    let args = vec![
        arg("vertex_index", "vertex", "u32"),
        arg("shared", "shared", "Shared"),
        arg("resource", "glyphs", "Glyph"),
        arg("instance", "instance", "Item"),
        arg("resource", "lines", "Line"),
    ];
    let params = parse_stage(&args, Stage::Vertex).unwrap();
    let bindings: Vec<Option<u32>> = params.iter().map(|p| p.binding).collect();
    assert_eq!(bindings, vec![None, Some(0), Some(2), Some(1), Some(3)]);
    assert_eq!(params[2].argument, 2);
    let fragment = parse_stage(&vec![varyings(), arg("instance", "instance", "Item")], Stage::Fragment).unwrap();
    assert_eq!(fragment.len(), 1);
    assert_eq!(fragment[0].argument, 1);
    assert_eq!(fragment[0].binding, Some(1));
}

fn stage_error(args: Vec<StageArgument>, stage: Stage) -> ContractError {
    match parse_stage(&args, stage) {
        Err(e) => e,
        Ok(_) => panic!("expected an error"),
    }
}

#[test]
fn stage_errors() {
    let mut receiver = arg("shared", "s", "S");
    receiver.receiver = true;
    assert_eq!(stage_error(vec![receiver], Stage::Vertex), ContractError::Receiver);
    let mut twice = arg("shared", "s", "S");
    twice.gpu_attributes = vec![0, 1];
    assert_eq!(stage_error(vec![twice], Stage::Vertex), ContractError::DuplicateAttribute);
    assert_eq!(stage_error(vec![arg("shared", "s", "S")], Stage::Fragment), ContractError::VaryingsWithRole);
    assert_eq!(stage_error(vec![varyings()], Stage::Vertex), ContractError::MissingRole);
    let mut malformed = arg("shared", "s", "S");
    malformed.role = None;
    assert_eq!(stage_error(vec![malformed], Stage::Vertex), ContractError::MalformedRole);
    assert_eq!(stage_error(vec![arg("texture", "t", "T")], Stage::Vertex), ContractError::UnknownRole);
    let mut indexed = arg("shared", "s", "S");
    indexed.role = Some(("shared".to_string(), true));
    assert_eq!(stage_error(vec![indexed], Stage::Vertex), ContractError::IndexOnNonInstance);
    assert_eq!(stage_error(vec![varyings(), arg("vertex_index", "v", "u32")], Stage::Fragment), ContractError::NotAllowedInStage);
    assert_eq!(stage_error(vec![arg("vertex_index", "v", "f32")], Stage::Vertex), ContractError::IndexNotU32);
    let mut pattern = arg("shared", "s", "S");
    pattern.name = None;
    assert_eq!(stage_error(vec![pattern], Stage::Vertex), ContractError::NotIdentifier);
    assert_eq!(
        stage_error(vec![arg("shared", "a", "S"), arg("shared", "b", "S")], Stage::Vertex),
        ContractError::DuplicateRole
    );
}

#[test]
fn pass_models_merge_their_stages() {
    let vertex = vec![arg("shared", "shared", "S"), arg("instance", "item", "I"), arg("resource", "lines", "L")];
    let fragment = vec![varyings(), arg("resource", "lines", "L"), arg("instance", "item", "I")];
    let model = PassModel::parse(&vertex, &fragment).unwrap();
    assert_eq!(model.shared, Some("S".to_string()));
    assert_eq!(model.instance, "I");
    assert_eq!(model.resources, vec![("lines".to_string(), "Storage<L>".to_string())]);
    assert!(model.carry_instance);
}

fn pass_error(vertex: Vec<StageArgument>, fragment: Vec<StageArgument>) -> ContractError {
    match PassModel::parse(&vertex, &fragment) {
        Err(e) => e,
        Ok(_) => panic!("expected an error"),
    }
}

#[test]
fn pass_model_errors() {
    let mut remapped = arg("instance", "item", "I");
    remapped.role = Some(("instance".to_string(), true));
    assert_eq!(
        pass_error(vec![remapped], vec![varyings(), arg("instance", "item", "I")]),
        ContractError::InstanceRemapped
    );
    assert_eq!(
        pass_error(vec![arg("shared", "s", "A"), arg("instance", "i", "I")], vec![varyings(), arg("shared", "s", "B")]),
        ContractError::SharedTypeMismatch
    );
    assert_eq!(
        pass_error(vec![arg("instance", "i", "I")], vec![varyings(), arg("instance", "i", "J")]),
        ContractError::InstanceTypeMismatch
    );
    let mut unsupported = arg("resource", "r", "R");
    unsupported.resource_type = ResourceHost::Unsupported;
    assert_eq!(pass_error(vec![unsupported], vec![varyings()]), ContractError::UnsupportedResource);
    let mut by_value = arg("resource", "r", "R");
    by_value.resource_type = ResourceHost::NotReference;
    assert_eq!(pass_error(vec![by_value], vec![varyings()]), ContractError::ResourceNotReference);
    assert_eq!(ContractError::ResourceNotReference.message(), Some("GPU resources must be references"));
    assert_eq!(
        ContractError::ResourceOrder.message(),
        Some("shader stages must declare shared resources in the same order")
    );
    assert_eq!(
        ContractError::MissingInstance.message(),
        Some("a pass must declare `#[gpu(instance)]` data in at least one stage")
    );
    assert_eq!(ContractError::MalformedRole.message(), None);
    assert_eq!(
        pass_error(vec![arg("resource", "r", "R"), arg("resource", "r", "R")], vec![varyings()]),
        ContractError::DuplicateResource
    );
    assert_eq!(
        pass_error(
            vec![arg("instance", "i", "I"), arg("resource", "a", "A"), arg("resource", "b", "B")],
            vec![varyings(), arg("resource", "b", "B")]
        ),
        ContractError::ResourceOrder
    );
    assert_eq!(pass_error(vec![arg("shared", "s", "S")], vec![varyings()]), ContractError::MissingInstance);
}

#[test]
fn shader_features_default_to_shader() {
    assert_eq!(shader_features(&FeatureList::Missing), Ok(vec!["shader".to_string()]));
    assert_eq!(
        shader_features(&FeatureList::NotArray),
        Err("package.metadata.isthmus.features must be an array".to_string())
    );
    assert_eq!(
        shader_features(&FeatureList::Items(vec![Some("a".to_string()), Some("b".to_string())])),
        Ok(vec!["a".to_string(), "b".to_string()])
    );
    assert_eq!(shader_features(&FeatureList::Items(vec![])), Ok(vec![]));
    assert_eq!(
        shader_features(&FeatureList::Items(vec![Some("a".to_string()), None])),
        Err("Isthmus shader features must be strings".to_string())
    );
}

#[test]
fn shaders_are_normalized_line_by_line() {
    assert_eq!(normalize_shader(""), "\n");
    assert_eq!(normalize_shader("a  \r\nb\t\n"), "a\nb\n");
    assert_eq!(normalize_shader("fn main() {  \n    return;\n}"), "fn main() {\n    return;\n}\n");
    assert_eq!(normalize_shader("\n\nx"), "\n\nx\n");
    let text = "  one \n\ttwo\t\r\n\nthree";
    let expected = text.lines().map(str::trim_end).collect::<Vec<_>>().join("\n") + "\n";
    assert_eq!(normalize_shader(text), expected);
}

#[test]
fn references_borrow_the_indexed_record() {
    let records = [10u32, 20, 30];
    assert_eq!(*reference(&records, 0), 10);
    assert_eq!(*reference(&records, 2), 30);
}

#[test]
fn manifests_declare_artifacts_and_features() {
    let manifest = "[package]\nname = \"shader\"\n\n[package.metadata.isthmus]\nartifact = \"shaders/track.wgsl\"\nfeatures = [\"a\", \"b\"]\n";
    assert_eq!(shader_artifact_path(manifest), Ok("shaders/track.wgsl".to_string()));
    assert_eq!(manifest_features(manifest), Ok(vec!["a".to_string(), "b".to_string()]));
    let inline = "package = { metadata = { isthmus = { artifact = \"x.wgsl\", features = \"a\" } } }";
    assert_eq!(shader_artifact_path(inline), Ok("x.wgsl".to_string()));
    assert_eq!(manifest_features(inline), Err("package.metadata.isthmus.features must be an array".to_string()));
    let bare = "[package]\nname = \"shader\"\n";
    assert_eq!(shader_artifact_path(bare), Err("missing `package.metadata.isthmus.artifact`".to_string()));
    assert_eq!(manifest_features(bare), Ok(vec!["shader".to_string()]));
    let mixed = "[package.metadata.isthmus]\nartifact = 3\nfeatures = [\"a\", 1]\n";
    assert_eq!(shader_artifact_path(mixed), Err("missing `package.metadata.isthmus.artifact`".to_string()));
    assert_eq!(manifest_features(mixed), Err("Isthmus shader features must be strings".to_string()));
    let broken = "[package";
    let error = shader_artifact_path(broken).unwrap_err();
    assert!(error.starts_with("invalid shader package manifest: "), "{error}");
    assert_eq!(manifest_features(broken), Err(error));
    assert!(is_workspace_manifest("[workspace]\nmembers = []\n"));
    assert!(!is_workspace_manifest(bare));
    assert!(!is_workspace_manifest(broken));
}

fn method(fragment: bool, gpu: bool, named_varying: bool) -> PassMethod {
    PassMethod { fragment, gpu, named_varying }
}

#[test]
fn pass_items_are_checked_in_order() {
    let pass = PassItem::Struct { generic: false, named: true, instance_fields: vec![false, true, false] };
    assert_eq!(check_pass_item(&pass, false), Ok(PassExpansion::Struct { instance_field: Some(1) }));
    assert_eq!(check_pass_item(&pass, true), Err(PassItemError::StructOptions));
    let plain = PassItem::Struct { generic: false, named: false, instance_fields: vec![] };
    assert_eq!(check_pass_item(&plain, false), Ok(PassExpansion::Struct { instance_field: None }));
    let generic = PassItem::Struct { generic: true, named: true, instance_fields: vec![true, true] };
    assert_eq!(check_pass_item(&generic, true), Err(PassItemError::StructOptions));
    assert_eq!(check_pass_item(&generic, false), Err(PassItemError::GenericStruct));
    let two = PassItem::Struct { generic: false, named: true, instance_fields: vec![true, true] };
    assert_eq!(check_pass_item(&two, false), Err(PassItemError::SeveralInstanceContainers));
    assert_eq!(
        PassItemError::SeveralInstanceContainers.message(),
        "a shader pass can own at most one instance container; use a system to coordinate multiple passes"
    );

    let shaders = PassItem::Impl {
        generic: false,
        methods: vec![method(false, true, true), method(true, false, false), method(true, true, true), method(true, true, false)],
    };
    assert_eq!(check_pass_item(&shaders, true), Ok(PassExpansion::Impl { fragment: 2 }));
    let unnamed = PassItem::Impl { generic: false, methods: vec![method(true, true, false), method(true, true, true)] };
    assert_eq!(check_pass_item(&unnamed, false), Err(PassItemError::UnnamedVarying));
    let missing = PassItem::Impl { generic: false, methods: vec![method(true, false, true)] };
    assert_eq!(check_pass_item(&missing, false), Err(PassItemError::MissingFragment));
    let generic_impl = PassItem::Impl { generic: true, methods: vec![] };
    assert_eq!(check_pass_item(&generic_impl, false), Err(PassItemError::GenericImpl));
    assert_eq!(check_pass_item(&PassItem::Other, false), Err(PassItemError::NotStructOrImpl));
    assert_eq!(PassItemError::MissingFragment.message(), "missing `fragment` function");
}

fn varying(gpu_attributes: usize, role: Option<(&str, bool)>) -> VaryingField {
    VaryingField { gpu_attributes, role: role.map(|(name, value)| (name.to_string(), value)) }
}

fn bridge(fields: Vec<VaryingField>) -> PassBridge {
    PassBridge {
        named_type: true,
        varying_structs: vec![Some(fields)],
        vertex: true,
        fragment: true,
        fragment_takes_varying: true,
    }
}

#[test]
fn pass_bridges_report_flat_fields() {
    let fields = vec![varying(0, None), varying(1, Some(("flat", false))), varying(0, None)];
    assert_eq!(check_pass_bridge(&bridge(fields)), Ok(vec![false, true, false]));
    assert_eq!(check_pass_bridge(&bridge(Vec::new())), Ok(Vec::new()));
}

#[test]
fn pass_bridges_refuse_in_order() {
    let mut unnamed = bridge(Vec::new());
    unnamed.named_type = false;
    unnamed.vertex = false;
    assert_eq!(check_pass_bridge(&unnamed), Err(BridgeError::UnnamedPass));

    let mut two = bridge(Vec::new());
    two.varying_structs.push(Some(Vec::new()));
    assert_eq!(check_pass_bridge(&two), Err(BridgeError::VaryingCount));
    let mut none = bridge(Vec::new());
    none.varying_structs.clear();
    assert_eq!(check_pass_bridge(&none), Err(BridgeError::VaryingCount));

    let mut tuple = bridge(Vec::new());
    tuple.varying_structs = vec![None];
    assert_eq!(check_pass_bridge(&tuple), Err(BridgeError::UnnamedVaryingFields));

    assert_eq!(check_pass_bridge(&bridge(vec![varying(2, Some(("flat", false)))])), Err(BridgeError::DuplicateFieldRole));
    assert_eq!(check_pass_bridge(&bridge(vec![varying(1, None)])), Err(BridgeError::MalformedFieldRole));
    assert_eq!(check_pass_bridge(&bridge(vec![varying(1, Some(("smooth", false)))])), Err(BridgeError::UnknownFieldRole));
    assert_eq!(check_pass_bridge(&bridge(vec![varying(1, Some(("flat", true)))])), Err(BridgeError::FieldRoleValue));
    assert_eq!(check_pass_bridge(&bridge(vec![varying(1, Some(("instance", false)))])), Err(BridgeError::FieldNotFlat));
    let first_refusal = vec![varying(0, None), varying(1, Some(("resource", false))), varying(2, None)];
    assert_eq!(check_pass_bridge(&bridge(first_refusal)), Err(BridgeError::FieldNotFlat));

    let mut no_vertex = bridge(vec![varying(0, None)]);
    no_vertex.vertex = false;
    no_vertex.fragment = false;
    assert_eq!(check_pass_bridge(&no_vertex), Err(BridgeError::MissingVertex));
    let mut no_fragment = bridge(Vec::new());
    no_fragment.fragment = false;
    assert_eq!(check_pass_bridge(&no_fragment), Err(BridgeError::MissingFragment));
    let mut untyped = bridge(Vec::new());
    untyped.fragment_takes_varying = false;
    assert_eq!(check_pass_bridge(&untyped), Err(BridgeError::FragmentVarying));
}

#[test]
fn bridge_errors_carry_the_macro_messages() {
    assert_eq!(BridgeError::UnnamedPass.message(), Some("pass requires a named type"));
    assert_eq!(BridgeError::VaryingCount.message(), Some("shader requires exactly one `#[gpu]` varying struct"));
    assert_eq!(BridgeError::UnnamedVaryingFields.message(), Some("Varyings requires named fields"));
    assert_eq!(BridgeError::FieldNotFlat.message(), Some("varying fields only support `#[gpu(flat)]`"));
    assert_eq!(BridgeError::FieldRoleValue.message(), Some("varying fields do not take a value"));
    assert_eq!(BridgeError::MissingVertex.message(), Some("missing `vertex` function"));
    assert_eq!(BridgeError::MissingFragment.message(), Some("missing `fragment` function"));
    assert_eq!(BridgeError::FragmentVarying.message(), Some("fragment must accept a named varying type"));
    assert_eq!(BridgeError::MalformedFieldRole.message(), None);
}
