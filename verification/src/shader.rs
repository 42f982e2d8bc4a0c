use vstd::prelude::*;
use crate::layout::BufferData;

verus! {

/// Where the run of non-colon characters that starts at `i` ends.
pub open spec fn name_end(path: Seq<char>, i: int) -> int
    decreases path.len() - i,
{
    if 0 <= i < path.len() && path[i] != ':' {
        name_end(path, i + 1)
    } else {
        i
    }
}

/// Where the run of colons that starts at `i` ends.
pub open spec fn colons_end(path: Seq<char>, i: int) -> int
    decreases path.len() - i,
{
    if 0 <= i < path.len() && path[i] == ':' {
        colons_end(path, i + 1)
    } else {
        i
    }
}

/// A Rust module path without its crate name: what follows the first run of
/// colons, or nothing when the path has no colon.
pub open spec fn module_path_tail(path: Seq<char>) -> Seq<char> {
    path.skip(colons_end(path, name_end(path, 0)))
}

/// Borrows the record at `index` of a storage binding; the index must lie
/// within the binding.
pub fn reference<T>(records: &[T], index: usize) -> (record: &T)
    requires
        index < records@.len(),
    ensures
        *record == records@[index as int],
{
    &records[index]
}

/// Removes the crate name from a Rust module path.
pub fn pass_module_name(path: &str) -> (name: &str)
    ensures
        name@ == module_path_tail(path@),
{
    let len = path.unicode_len();
    let mut i: usize = 0;
    while i < len && path.get_char(i) != ':'
        invariant
            len == path@.len(),
            0 <= i <= len,
            name_end(path@, i as int) == name_end(path@, 0),
        decreases len - i,
    {
        i += 1;
    }
    let ghost first = i as int;
    assert(name_end(path@, first) == first);
    while i < len && path.get_char(i) == ':'
        invariant
            len == path@.len(),
            first <= i <= len,
            name_end(path@, 0) == first,
            colons_end(path@, i as int) == colons_end(path@, first),
        decreases len - i,
    {
        i += 1;
    }
    assert(colons_end(path@, i as int) == i);
    path.substring_char(i, len)
}

/// How a shader parameter receives its data.
#[derive(Clone, Copy, PartialEq, Eq, Structural, Debug)]
pub enum GpuRole {
    VertexIndex,
    InstanceIndex,
    Shared,
    Instance,
    Resource,
    Flat,
}

/// A shader stage.
#[derive(Clone, Copy, PartialEq, Eq, Structural, Debug)]
pub enum Stage {
    Vertex,
    Fragment,
}

/// Whether a stage may declare `role` at most once.
pub open spec fn unique_role(role: GpuRole) -> bool {
    !(role == GpuRole::Resource || role == GpuRole::Flat)
}

/// Whether a stage may declare `role` at most once: every role but resources
/// and flat values.
pub fn role_is_unique(role: GpuRole) -> (unique: bool)
    ensures
        unique == unique_role(role),
{
    !matches!(role, GpuRole::Resource | GpuRole::Flat)
}

/// Whether `role` is valid in `stage`: index roles only in the vertex stage,
/// flat values in neither.
pub open spec fn role_allowed(role: GpuRole, stage: Stage) -> bool {
    match stage {
        Stage::Vertex => role != GpuRole::Flat,
        Stage::Fragment => role == GpuRole::Shared || role == GpuRole::Instance || role == GpuRole::Resource,
    }
}

/// The role named by a `#[gpu(..)]` attribute.
pub open spec fn role_named(name: Seq<char>) -> Option<GpuRole> {
    if name == "vertex_index"@ {
        Some(GpuRole::VertexIndex)
    } else if name == "instance_index"@ {
        Some(GpuRole::InstanceIndex)
    } else if name == "shared"@ {
        Some(GpuRole::Shared)
    } else if name == "instance"@ {
        Some(GpuRole::Instance)
    } else if name == "resource"@ {
        Some(GpuRole::Resource)
    } else if name == "flat"@ {
        Some(GpuRole::Flat)
    } else {
        None
    }
}

/// The role named by a `#[gpu(..)]` attribute, if the name is known.
pub fn parse_role(name: &str) -> (role: Option<GpuRole>)
    ensures
        role == role_named(name@),
{
    if crate::text::str_eq(name, "vertex_index") {
        Some(GpuRole::VertexIndex)
    } else if crate::text::str_eq(name, "instance_index") {
        Some(GpuRole::InstanceIndex)
    } else if crate::text::str_eq(name, "shared") {
        Some(GpuRole::Shared)
    } else if crate::text::str_eq(name, "instance") {
        Some(GpuRole::Instance)
    } else if crate::text::str_eq(name, "resource") {
        Some(GpuRole::Resource)
    } else if crate::text::str_eq(name, "flat") {
        Some(GpuRole::Flat)
    } else {
        None
    }
}

/// Why a shader parameter's role was refused.
#[derive(Clone, Copy, PartialEq, Eq, Structural, Debug)]
pub enum RoleError {
    /// Only instance parameters can specify an index.
    IndexOnNonInstance,
    /// The role is not valid for the stage.
    NotAllowedInStage,
}

/// Checks a parameter's role against its stage: only instance parameters
/// may carry an index, and the role must be valid in the stage.
pub fn validate_role(role: GpuRole, has_index: bool, stage: Stage) -> (checked: Result<(), RoleError>)
    ensures
        checked == if has_index && role != GpuRole::Instance {
            Err::<(), RoleError>(RoleError::IndexOnNonInstance)
        } else if !role_allowed(role, stage) {
            Err(RoleError::NotAllowedInStage)
        } else {
            Ok(())
        },
{
    if has_index && role != GpuRole::Instance {
        return Err(RoleError::IndexOnNonInstance);
    }
    let allowed = match stage {
        Stage::Vertex => matches!(
            role,
            GpuRole::VertexIndex | GpuRole::InstanceIndex | GpuRole::Shared | GpuRole::Instance | GpuRole::Resource
        ),
        Stage::Fragment => matches!(role, GpuRole::Shared | GpuRole::Instance | GpuRole::Resource),
    };
    if allowed {
        Ok(())
    } else {
        Err(RoleError::NotAllowedInStage)
    }
}

/// The pipeline options of a render pass: primitive topology, blend mode
/// and vertex count per instance.
pub struct PassOptions {
    pub topology: &'static str,
    pub blend: &'static str,
    pub vertices: u32,
}

impl PassOptions {
    /// A strip of two triangles with premultiplied alpha blending.
    pub fn default_options() -> (options: Self)
        ensures
            options.topology@ == "TriangleStrip"@,
            options.blend@ == "PremultipliedAlpha"@,
            options.vertices == 4,
    {
        PassOptions { topology: "TriangleStrip", blend: "PremultipliedAlpha", vertices: 4 }
    }
}

/// The value written after `=` in a pass option.
pub enum OptionValue {
    /// An integer literal.
    Number(u64),
    /// An identifier.
    Word(String),
}

/// One `key = value` pass option, as written.
pub struct OptionSetting {
    pub key: String,
    pub value: OptionValue,
}

/// Why pass options were refused.
#[derive(Clone, Copy, PartialEq, Eq, Structural, Debug)]
pub enum OptionError {
    DuplicateOption,
    UnknownOption,
    ExpectedNumber,
    ExpectedWord,
    VertexCountOutOfRange,
    ZeroVertices,
    UnknownTopology,
    UnknownBlend,
}

/// Pass options as values: topology, blend mode and vertex count.
pub type OptionsView = (Seq<char>, Seq<char>, u32);

/// The topology that an option value names.
pub open spec fn topology_named(name: Seq<char>) -> Option<Seq<char>> {
    if name == "point_list"@ {
        Some("PointList"@)
    } else if name == "line_list"@ {
        Some("LineList"@)
    } else if name == "line_strip"@ {
        Some("LineStrip"@)
    } else if name == "triangle_list"@ {
        Some("TriangleList"@)
    } else if name == "triangle_strip"@ {
        Some("TriangleStrip"@)
    } else {
        None
    }
}

/// The blend mode that an option value names.
pub open spec fn blend_named(name: Seq<char>) -> Option<Seq<char>> {
    if name == "replace"@ {
        Some("Replace"@)
    } else if name == "alpha"@ {
        Some("Alpha"@)
    } else if name == "premultiplied_alpha"@ {
        Some("PremultipliedAlpha"@)
    } else if name == "add"@ {
        Some("Add"@)
    } else {
        None
    }
}

/// The options after one setting is applied to `options`.
pub open spec fn apply_setting(setting: OptionSetting, options: OptionsView) -> Result<OptionsView, OptionError> {
    if setting.key@ == "vertices"@ {
        match setting.value {
            OptionValue::Number(n) => if n > u32::MAX {
                Err(OptionError::VertexCountOutOfRange)
            } else if n == 0 {
                Err(OptionError::ZeroVertices)
            } else {
                Ok((options.0, options.1, n as u32))
            },
            OptionValue::Word(_) => Err(OptionError::ExpectedNumber),
        }
    } else if setting.key@ == "topology"@ {
        match setting.value {
            OptionValue::Word(w) => match topology_named(w@) {
                Some(t) => Ok((t, options.1, options.2)),
                None => Err(OptionError::UnknownTopology),
            },
            OptionValue::Number(_) => Err(OptionError::ExpectedWord),
        }
    } else if setting.key@ == "blend"@ {
        match setting.value {
            OptionValue::Word(w) => match blend_named(w@) {
                Some(b) => Ok((options.0, b, options.2)),
                None => Err(OptionError::UnknownBlend),
            },
            OptionValue::Number(_) => Err(OptionError::ExpectedWord),
        }
    } else {
        Err(OptionError::UnknownOption)
    }
}

/// Whether the key of `settings[i]` appears among the earlier settings.
pub open spec fn repeats_key(settings: Seq<OptionSetting>, i: int) -> bool {
    exists|k: int| 0 <= k < i && #[trigger] settings[k].key@ == settings[i].key@
}

/// The options that `settings` give, applied in order from the defaults;
/// the first refused setting decides the error.
pub open spec fn parsed_options(settings: Seq<OptionSetting>) -> Result<OptionsView, OptionError>
    decreases settings.len(),
{
    if settings.len() == 0 {
        Ok(("TriangleStrip"@, "PremultipliedAlpha"@, 4u32))
    } else {
        match parsed_options(settings.drop_last()) {
            Err(e) => Err(e),
            Ok(options) => if repeats_key(settings, settings.len() - 1) {
                Err(OptionError::DuplicateOption)
            } else {
                apply_setting(settings.last(), options)
            },
        }
    }
}

impl PassOptions {
    /// The options as values.
    pub open spec fn view_options(&self) -> OptionsView {
        (self.topology@, self.blend@, self.vertices)
    }

    fn apply(&mut self, setting: &OptionSetting) -> (applied: Result<(), OptionError>)
        ensures
            match apply_setting(*setting, old(self).view_options()) {
                Ok(options) => applied is Ok && final(self).view_options() == options,
                Err(e) => applied == Err::<(), OptionError>(e),
            },
    {
        if crate::text::str_eq(setting.key.as_str(), "vertices") {
            match &setting.value {
                OptionValue::Number(n) => {
                    if *n > 0xffff_ffff {
                        return Err(OptionError::VertexCountOutOfRange);
                    }
                    if *n == 0 {
                        return Err(OptionError::ZeroVertices);
                    }
                    self.vertices = *n as u32;
                    Ok(())
                },
                OptionValue::Word(_) => Err(OptionError::ExpectedNumber),
            }
        } else if crate::text::str_eq(setting.key.as_str(), "topology") {
            match &setting.value {
                OptionValue::Word(w) => {
                    let w = w.as_str();
                    self.topology = if crate::text::str_eq(w, "point_list") {
                        "PointList"
                    } else if crate::text::str_eq(w, "line_list") {
                        "LineList"
                    } else if crate::text::str_eq(w, "line_strip") {
                        "LineStrip"
                    } else if crate::text::str_eq(w, "triangle_list") {
                        "TriangleList"
                    } else if crate::text::str_eq(w, "triangle_strip") {
                        "TriangleStrip"
                    } else {
                        return Err(OptionError::UnknownTopology);
                    };
                    Ok(())
                },
                OptionValue::Number(_) => Err(OptionError::ExpectedWord),
            }
        } else if crate::text::str_eq(setting.key.as_str(), "blend") {
            match &setting.value {
                OptionValue::Word(w) => {
                    let w = w.as_str();
                    self.blend = if crate::text::str_eq(w, "replace") {
                        "Replace"
                    } else if crate::text::str_eq(w, "alpha") {
                        "Alpha"
                    } else if crate::text::str_eq(w, "premultiplied_alpha") {
                        "PremultipliedAlpha"
                    } else if crate::text::str_eq(w, "add") {
                        "Add"
                    } else {
                        return Err(OptionError::UnknownBlend);
                    };
                    Ok(())
                },
                OptionValue::Number(_) => Err(OptionError::ExpectedWord),
            }
        } else {
            Err(OptionError::UnknownOption)
        }
    }

    /// Reads the `key = value` options of a pass, in order, over the
    /// defaults. Each key may appear once; `vertices` takes a positive
    /// integer that fits in 32 bits, `topology` and `blend` a known name.
    pub fn parse(settings: &Vec<OptionSetting>) -> (parsed: Result<PassOptions, OptionError>)
        ensures
            match parsed_options(settings@) {
                Ok(options) => parsed is Ok && parsed->Ok_0.view_options() == options,
                Err(e) => parsed is Err && parsed->Err_0 == e,
            },
    {
        let mut options = PassOptions::default_options();
        let mut i: usize = 0;
        assert(settings@.take(0) =~= Seq::<OptionSetting>::empty());
        while i < settings.len()
            invariant
                0 <= i <= settings@.len(),
                parsed_options(settings@.take(i as int)) == Ok::<OptionsView, OptionError>(options.view_options()),
            decreases settings@.len() - i,
        {
            let ghost prefix = settings@.take(i as int + 1);
            assert(prefix.drop_last() =~= settings@.take(i as int));
            assert(prefix.last() == settings@[i as int]);
            let mut k: usize = 0;
            while k < i
                invariant
                    0 <= k <= i < settings@.len(),
                    prefix == settings@.take(i as int + 1),
                    prefix.drop_last() == settings@.take(i as int),
                    parsed_options(settings@.take(i as int)) == Ok::<OptionsView, OptionError>(options.view_options()),
                    forall|j: int| 0 <= j < k ==> #[trigger] settings@[j].key@ != settings@[i as int].key@,
                decreases i - k,
            {
                if crate::text::str_eq(settings[k].key.as_str(), settings[i].key.as_str()) {
                    assert(prefix[k as int].key@ == prefix[i as int].key@);
                    assert(repeats_key(prefix, i as int));
                    proof {
                        assert(settings@.take(settings@.len() as int) =~= settings@);
                        lemma_parsed_options_err(settings@, i as int + 1);
                    }
                    return Err(OptionError::DuplicateOption);
                }
                k += 1;
            }
            assert(!repeats_key(prefix, i as int)) by {
                if repeats_key(prefix, i as int) {
                    let j = choose|j: int| 0 <= j < i && #[trigger] prefix[j].key@ == prefix[i as int].key@;
                    assert(settings@[j].key@ != settings@[i as int].key@);
                }
            }
            match options.apply(&settings[i]) {
                Ok(()) => {},
                Err(e) => {
                    proof {
                        lemma_parsed_options_err(settings@, i as int + 1);
                    }
                    return Err(e);
                },
            }
            i += 1;
        }
        assert(settings@.take(i as int) =~= settings@);
        Ok(options)
    }
}

/// Once a prefix of the settings is refused, so are the settings.
proof fn lemma_parsed_options_err(settings: Seq<OptionSetting>, n: int)
    requires
        0 <= n <= settings.len(),
        parsed_options(settings.take(n)) is Err,
    ensures
        parsed_options(settings) == parsed_options(settings.take(n)),
    decreases settings.len() - n,
{
    if n < settings.len() {
        let next = settings.take(n + 1);
        assert(next.drop_last() =~= settings.take(n));
        lemma_parsed_options_err(settings, n + 1);
    } else {
        assert(settings.take(n) =~= settings);
    }
}

/// Marks the texture dimensions that a sampled texture can have.
pub trait Sealed {}

/// A pass that accepts the program's shared data of type `T`.
pub trait PassShared<T: BufferData> {
    /// Whether the pass reads the shared buffer.
    const SHARED_BUFFER: bool;
}

/// What became of a frame handed to the surface.
#[derive(Clone, Copy, PartialEq, Eq, Structural, Debug)]
pub enum Present {
    Rendered,
    Unavailable,
    Lost,
    Validation,
}

/// What a shader package's manifest says under
/// `package.metadata.isthmus.features`.
pub enum FeatureList {
    /// The key is absent.
    Missing,
    /// The key holds something other than an array.
    NotArray,
    /// The key holds an array; each item is its text when it is a string.
    Items(Vec<Option<String>>),
}

/// The texts of a list of optional strings, when every item is a string.
pub open spec fn all_texts(items: Seq<Option<String>>) -> Option<Seq<Seq<char>>> {
    if forall|i: int| 0 <= i < items.len() ==> (#[trigger] items[i]) is Some {
        Some(items.map_values(|item: Option<String>| item->Some_0@))
    } else {
        None
    }
}

/// The texts of a list of strings.
pub open spec fn string_texts(strings: Seq<String>) -> Seq<Seq<char>> {
    strings.map_values(|s: String| s@)
}

/// The crate features a shader package is built with: those its manifest
/// lists, or `shader` when it lists none.
pub fn shader_features(listed: &FeatureList) -> (features: Result<Vec<String>, String>)
    ensures
        match listed {
            FeatureList::Missing => features is Ok && string_texts(features->Ok_0@) == seq!["shader"@],
            FeatureList::NotArray => features is Err && features->Err_0@
                == "package.metadata.isthmus.features must be an array"@,
            FeatureList::Items(items) => match all_texts(items@) {
                Some(texts) => features is Ok && string_texts(features->Ok_0@) == texts,
                None => features is Err && features->Err_0@ == "Isthmus shader features must be strings"@,
            },
        },
{
    match listed {
        FeatureList::Missing => {
            let mut features: Vec<String> = Vec::new();
            features.push("shader".to_string());
            assert(string_texts(features@) =~= seq!["shader"@]);
            Ok(features)
        },
        FeatureList::NotArray => Err("package.metadata.isthmus.features must be an array".to_string()),
        FeatureList::Items(items) => collect_features(items),
    }
}

fn collect_features(items: &Vec<Option<String>>) -> (features: Result<Vec<String>, String>)
    ensures
        match all_texts(items@) {
            Some(texts) => features is Ok && string_texts(features->Ok_0@) == texts,
            None => features is Err && features->Err_0@ == "Isthmus shader features must be strings"@,
        },
{
    let mut features: Vec<String> = Vec::new();
    let mut i: usize = 0;
    while i < items.len()
        invariant
            0 <= i <= items@.len(),
            features@.len() == i,
            forall|k: int| 0 <= k < i ==> (#[trigger] items@[k]) is Some,
            forall|k: int| 0 <= k < i ==> #[trigger] features@[k]@ == items@[k]->Some_0@,
        decreases items@.len() - i,
    {
        match &items[i] {
            Some(feature) => features.push(feature.clone()),
            None => {
                assert(all_texts(items@) is None);
                return Err("Isthmus shader features must be strings".to_string());
            },
        }
        i += 1;
    }
    assert(string_texts(features@) =~= items@.map_values(|item: Option<String>| item->Some_0@));
    Ok(features)
}

/// What a shader package's manifest holds at a key path.
pub enum ManifestItem {
    /// The manifest is not valid TOML; the parser's message.
    Invalid(String),
    /// No item lies at the path.
    Missing,
    /// A string.
    Text(String),
    /// An array; each element is its text when it is a string.
    Array(Vec<Option<String>>),
    /// Any other item (a table, a number, ...).
    Other,
}

/// A manifest item, as values.
pub enum ManifestItemView {
    Invalid(Seq<char>),
    Missing,
    Text(Seq<char>),
    Array(Seq<Option<Seq<char>>>),
    Other,
}

/// An optional string, as characters.
pub open spec fn optional_text(item: Option<String>) -> Option<Seq<char>> {
    match item {
        Some(text) => Some(text@),
        None => None,
    }
}

impl View for ManifestItem {
    type V = ManifestItemView;

    open spec fn view(&self) -> ManifestItemView {
        match self {
            ManifestItem::Invalid(message) => ManifestItemView::Invalid(message@),
            ManifestItem::Missing => ManifestItemView::Missing,
            ManifestItem::Text(text) => ManifestItemView::Text(text@),
            ManifestItem::Array(items) => ManifestItemView::Array(items@.map_values(|item: Option<String>| optional_text(item))),
            ManifestItem::Other => ManifestItemView::Other,
        }
    }
}

/// What the TOML document `manifest` holds at the key path `path` (each
/// key looked up in the table or inline table reached so far).
pub uninterp spec fn manifest_item(manifest: Seq<char>, path: Seq<Seq<char>>) -> ManifestItemView;

/// Looks up an item of a TOML manifest.
///
/// Parses `manifest` as a `toml_edit::DocumentMut`, follows `path` with
/// `toml_edit::Item::get` from the document's root item, and tells apart
/// what it finds with `Item::as_str` and `Item::as_array` (array elements
/// with `Value::as_str`). The contract names the result without stating the
/// TOML grammar; the parser's error is kept as its displayed message.
#[verifier::external_body]
fn manifest_lookup(manifest: &str, path: &Vec<String>) -> (item: ManifestItem)
    ensures
        item@ == manifest_item(manifest@, string_texts(path@)),
{
    let document = match manifest.parse::<toml_edit::DocumentMut>() {
        Ok(document) => document,
        Err(error) => return ManifestItem::Invalid(format!("{error}")),
    };
    match path.iter().try_fold(document.as_item(), |item, key| item.get(key.as_str())) {
        None => ManifestItem::Missing,
        Some(item) => match (item.as_str(), item.as_array()) {
            (Some(text), _) => ManifestItem::Text(text.to_string()),
            (None, Some(array)) => ManifestItem::Array(array.iter().map(|value| value.as_str().map(String::from)).collect()),
            (None, None) => ManifestItem::Other,
        },
    }
}

/// The error of a manifest that does not parse.
pub open spec fn invalid_manifest(message: Seq<char>) -> Seq<char> {
    "invalid shader package manifest: "@ + message
}

/// The key path of a shader package's checked-in artifact.
pub open spec fn artifact_key() -> Seq<Seq<char>> {
    seq!["package"@, "metadata"@, "isthmus"@, "artifact"@]
}

/// The key path of a shader package's build features.
pub open spec fn features_key() -> Seq<Seq<char>> {
    seq!["package"@, "metadata"@, "isthmus"@, "features"@]
}

/// The artifact a manifest item declares: the relative path when it is a
/// string, else an error.
pub open spec fn artifact_of(item: ManifestItemView) -> Result<Seq<char>, Seq<char>> {
    match item {
        ManifestItemView::Invalid(message) => Err(invalid_manifest(message)),
        ManifestItemView::Text(relative) => Ok(relative),
        _ => Err("missing `package.metadata.isthmus.artifact`"@),
    }
}

/// The texts of a list of optional texts, when every item is one.
pub open spec fn item_texts(items: Seq<Option<Seq<char>>>) -> Option<Seq<Seq<char>>> {
    if forall|i: int| 0 <= i < items.len() ==> (#[trigger] items[i]) is Some {
        Some(items.map_values(|item: Option<Seq<char>>| item->Some_0))
    } else {
        None
    }
}

/// The build features a manifest item gives: `shader` when it is missing,
/// the texts of an array of strings, else an error.
pub open spec fn features_of(item: ManifestItemView) -> Result<Seq<Seq<char>>, Seq<char>> {
    match item {
        ManifestItemView::Invalid(message) => Err(invalid_manifest(message)),
        ManifestItemView::Missing => Ok(seq!["shader"@]),
        ManifestItemView::Array(items) => match item_texts(items) {
            Some(texts) => Ok(texts),
            None => Err("Isthmus shader features must be strings"@),
        },
        _ => Err("package.metadata.isthmus.features must be an array"@),
    }
}

fn prefixed(prefix: &str, message: &String) -> (text: String)
    ensures
        text@ == prefix@ + message@,
{
    let mut text = prefix.to_string();
    text.append(message.as_str());
    text
}

/// The relative path of a shader package's artifact, from what its manifest
/// holds at `package.metadata.isthmus.artifact`.
pub fn artifact_from_item(item: ManifestItem) -> (relative: Result<String, String>)
    ensures
        match artifact_of(item@) {
            Ok(a) => relative is Ok && relative->Ok_0@ == a,
            Err(e) => relative is Err && relative->Err_0@ == e,
        },
{
    match item {
        ManifestItem::Invalid(message) => Err(prefixed("invalid shader package manifest: ", &message)),
        ManifestItem::Text(relative) => Ok(relative),
        _ => Err("missing `package.metadata.isthmus.artifact`".to_string()),
    }
}

/// The build features of a shader package, from what its manifest holds at
/// `package.metadata.isthmus.features`.
pub fn features_from_item(item: ManifestItem) -> (features: Result<Vec<String>, String>)
    ensures
        match features_of(item@) {
            Ok(texts) => features is Ok && string_texts(features->Ok_0@) == texts,
            Err(e) => features is Err && features->Err_0@ == e,
        },
{
    match item {
        ManifestItem::Invalid(message) => Err(prefixed("invalid shader package manifest: ", &message)),
        ManifestItem::Missing => shader_features(&FeatureList::Missing),
        ManifestItem::Array(items) => {
            let ghost views = items@.map_values(|item: Option<String>| optional_text(item));
            proof {
                if forall|i: int| 0 <= i < items@.len() ==> (#[trigger] items@[i]) is Some {
                    assert forall|i: int| 0 <= i < views.len() implies (#[trigger] views[i]) is Some by {
                        assert(items@[i] is Some);
                    }
                    assert(items@.map_values(|item: Option<String>| item->Some_0@) =~= views.map_values(
                        |item: Option<Seq<char>>| item->Some_0,
                    ));
                } else {
                    let i = choose|i: int| 0 <= i < items@.len() && !((#[trigger] items@[i]) is Some);
                    assert(!(views[i] is Some));
                }
            }
            shader_features(&FeatureList::Items(items))
        },
        _ => shader_features(&FeatureList::NotArray),
    }
}

fn key(path: &[&str]) -> (keys: Vec<String>)
    ensures
        keys@.len() == path@.len(),
        forall|i: int| 0 <= i < path@.len() ==> #[trigger] keys@[i]@ == path@[i]@,
{
    let mut keys: Vec<String> = Vec::new();
    let mut i: usize = 0;
    while i < path.len()
        invariant
            0 <= i <= path@.len(),
            keys@.len() == i,
            forall|k: int| 0 <= k < i ==> #[trigger] keys@[k]@ == path@[k]@,
        decreases path@.len() - i,
    {
        keys.push(path[i].to_string());
        i += 1;
    }
    keys
}

/// The relative path of the checked-in shader that a package's manifest
/// declares at `package.metadata.isthmus.artifact`.
pub fn shader_artifact_path(manifest: &str) -> (relative: Result<String, String>)
    ensures
        match artifact_of(manifest_item(manifest@, artifact_key())) {
            Ok(a) => relative is Ok && relative->Ok_0@ == a,
            Err(e) => relative is Err && relative->Err_0@ == e,
        },
{
    let path = key(&["package", "metadata", "isthmus", "artifact"]);
    assert(string_texts(path@) =~= artifact_key());
    artifact_from_item(manifest_lookup(manifest, &path))
}

/// The build features that a package's manifest declares at
/// `package.metadata.isthmus.features`, or `shader` when it declares none.
pub fn manifest_features(manifest: &str) -> (features: Result<Vec<String>, String>)
    ensures
        match features_of(manifest_item(manifest@, features_key())) {
            Ok(texts) => features is Ok && string_texts(features->Ok_0@) == texts,
            Err(e) => features is Err && features->Err_0@ == e,
        },
{
    let path = key(&["package", "metadata", "isthmus", "features"]);
    assert(string_texts(path@) =~= features_key());
    features_from_item(manifest_lookup(manifest, &path))
}

/// Whether a manifest parses and has a `workspace` table: the manifest of a
/// workspace root.
pub fn is_workspace_manifest(manifest: &str) -> (root: bool)
    ensures
        root == !(manifest_item(manifest@, seq!["workspace"@]) is Missing || manifest_item(
            manifest@,
            seq!["workspace"@],
        ) is Invalid),
{
    let path = key(&["workspace"]);
    assert(string_texts(path@) =~= seq!["workspace"@]);
    match manifest_lookup(manifest, &path) {
        ManifestItem::Invalid(_) | ManifestItem::Missing => false,
        _ => true,
    }
}

/// Where the line that starts at `i` ends: the next line feed, or the end.
pub open spec fn line_end(text: Seq<char>, i: int) -> int
    decreases text.len() - i,
{
    if 0 <= i < text.len() && text[i] != '\n' {
        line_end(text, i + 1)
    } else {
        i
    }
}

/// `line_end` does not move back, nor past the end.
pub proof fn lemma_line_end(text: Seq<char>, i: int)
    requires
        0 <= i <= text.len(),
    ensures
        i <= line_end(text, i) <= text.len(),
        line_end(text, i) < text.len() ==> text[line_end(text, i)] == '\n',
    decreases text.len() - i,
{
    if i < text.len() && text[i] != '\n' {
        lemma_line_end(text, i + 1);
    }
}

/// The lines of `text` from position `start` on, as `str::lines` splits
/// them: at each line feed, a carriage return before it dropped, and no
/// empty line after a final line feed.
pub open spec fn lines_from(text: Seq<char>, start: int) -> Seq<Seq<char>>
    decreases text.len() - start,
{
    if start < 0 || start >= text.len() {
        Seq::empty()
    } else {
        proof {
            lemma_line_end(text, start);
        }
        let end = line_end(text, start);
        let line = if end > start && text[end - 1] == '\r' && end < text.len() {
            text.subrange(start, end - 1)
        } else {
            text.subrange(start, end)
        };
        if end < text.len() {
            seq![line] + lines_from(text, end + 1)
        } else {
            seq![line]
        }
    }
}

/// `text` without trailing white space.
pub open spec fn trimmed_end(text: Seq<char>) -> Seq<char> {
    text.take(crate::text::trim_end(text, text.len() as int))
}

/// Lines joined with line feeds, each line ending in one.
pub open spec fn joined_lines(lines: Seq<Seq<char>>) -> Seq<char>
    decreases lines.len(),
{
    if lines.len() == 0 {
        Seq::empty()
    } else {
        lines[0] + seq!['\n'] + joined_lines(lines.drop_first())
    }
}

/// A generated shader in the form it is checked in: every line without
/// trailing white space, lines ending in a line feed.
pub open spec fn normalized_shader(text: Seq<char>) -> Seq<char> {
    let lines = lines_from(text, 0);
    if lines.len() == 0 {
        seq!['\n']
    } else {
        joined_lines(lines.map_values(|line: Seq<char>| trimmed_end(line)))
    }
}

/// A generated shader in its checked-in form: each line without trailing
/// white space and ending in a line feed.
pub fn normalize_shader(text: &str) -> (normalized: String)
    ensures
        normalized@ == normalized_shader(text@),
{
    let chars = crate::text::chars_of(text);
    let ghost t = text@;
    let n = chars.len();
    let ghost trim = |line: Seq<char>| trimmed_end(line);
    let mut out = String::new();
    if n == 0 {
        crate::text::push_char(&mut out, '\n');
        assert(out@ =~= seq!['\n']);
        return out;
    }
    let mut start: usize = 0;
    assert(out@ + joined_lines(lines_from(t, 0).map_values(trim)) =~= joined_lines(lines_from(t, 0).map_values(trim)));
    while start < n
        invariant
            chars@ == t,
            n == t.len(),
            n > 0,
            0 <= start <= n,
            trim == (|line: Seq<char>| trimmed_end(line)),
            out@ + joined_lines(lines_from(t, start as int).map_values(trim)) == joined_lines(
                lines_from(t, 0).map_values(trim),
            ),
        decreases n - start,
    {
        proof {
            lemma_line_end(t, start as int);
        }
        let mut end = start;
        while end < n && chars[end] != '\n'
            invariant
                chars@ == t,
                n == t.len(),
                start <= end <= n,
                line_end(t, end as int) == line_end(t, start as int),
            decreases n - end,
        {
            end += 1;
        }
        let stop = if end > start && chars[end - 1] == '\r' && end < n { end - 1 } else { end };
        let ghost line = t.subrange(start as int, stop as int);
        let mut last = stop;
        while last > start && crate::text::char_is_space(chars[last - 1])
            invariant
                chars@ == t,
                start <= last <= stop <= n,
                n == t.len(),
                line == t.subrange(start as int, stop as int),
                crate::text::trim_end(line, (last - start) as int) == crate::text::trim_end(line, line.len() as int),
            decreases last - start,
        {
            last -= 1;
        }
        let mut k = start;
        let ghost before = out@;
        while k < last
            invariant
                chars@ == t,
                n == t.len(),
                start <= k <= last <= n,
                out@ == before + t.subrange(start as int, k as int),
            decreases last - k,
        {
            crate::text::push_char(&mut out, chars[k]);
            assert(out@ =~= before + t.subrange(start as int, k as int + 1));
            k += 1;
        }
        crate::text::push_char(&mut out, '\n');
        proof {
            let rest = lines_from(t, start as int);
            assert(trimmed_end(line) =~= t.subrange(start as int, last as int));
            if end < n {
                assert(rest == seq![line] + lines_from(t, end as int + 1));
                assert(rest.map_values(trim) =~= seq![trimmed_end(line)] + lines_from(t, end as int + 1).map_values(trim));
            } else {
                assert(rest == seq![line]);
                assert(rest.map_values(trim) =~= seq![trimmed_end(line)]);
                assert(lines_from(t, n as int) =~= Seq::<Seq<char>>::empty());
            }
            let next = if end < n { end as int + 1 } else { n as int };
            let m = rest.map_values(trim);
            assert(m.len() > 0);
            assert(m[0] == trimmed_end(line));
            assert(m.drop_first() =~= lines_from(t, next).map_values(trim));
            assert(joined_lines(rest.map_values(trim)) =~= trimmed_end(line) + seq!['\n'] + joined_lines(
                lines_from(t, next).map_values(trim),
            ));
            assert(out@ =~= before + trimmed_end(line) + seq!['\n']);
        }
        start = if end < n { end + 1 } else { n };
    }
    proof {
        assert(lines_from(t, start as int) =~= Seq::<Seq<char>>::empty());
        assert(lines_from(t, start as int).map_values(trim) =~= Seq::<Seq<char>>::empty());
        assert(lines_from(t, 0).len() > 0);
    }
    out
}

} // verus!
