//! The in-memory model of an engine API description, its mathematical
//! counterpart on which every contract of the generator is stated, and the
//! loader that turns a decoded description into the model.

use vstd::prelude::*;
use crate::validation::{
    check_model, consistent, model_fault, sizes_declared, ModelConsistencyError, ModelFault,
};

verus! {

/// Selects among the byte layouts of the builtin value types: the precision
/// of real numbers and the width of a pointer.
#[derive(Clone, Copy, Debug, PartialEq, Eq, Structural)]
pub enum BuildConfiguration {
    Float32,
    Float64,
    Double32,
    Double64,
}

impl DeepView for BuildConfiguration {
    type V = BuildConfiguration;

    open spec fn deep_view(&self) -> BuildConfiguration {
        *self
    }
}

/// One parameter of a method, constructor or utility function.
#[derive(Clone, Debug, PartialEq, Eq)]
pub struct ParamDef {
    pub name: String,
    pub ty: String,
    pub default_value: Option<String>,
}

/// What a [`ParamDef`] holds, as a mathematical value.
pub struct ParamModel {
    pub name: Seq<char>,
    pub ty: Seq<char>,
    pub default_value: Option<Seq<char>>,
}

impl DeepView for ParamDef {
    type V = ParamModel;

    open spec fn deep_view(&self) -> ParamModel {
        ParamModel {
            name: self.name@,
            ty: self.ty@,
            default_value: self.default_value.deep_view(),
        }
    }
}

/// One method of an engine class. `return_type` is `None` for a method
/// that returns nothing; `hash` is the fingerprint of the signature by which
/// the engine's method table is searched.
#[derive(Clone, Debug, PartialEq, Eq)]
pub struct MethodDef {
    pub name: String,
    pub params: Vec<ParamDef>,
    pub return_type: Option<String>,
    pub is_static: bool,
    pub is_virtual: bool,
    pub is_const: bool,
    pub is_vararg: bool,
    pub hash: Option<u64>,
}

/// What a [`MethodDef`] holds, as a mathematical value.
pub struct MethodModel {
    pub name: Seq<char>,
    pub params: Seq<ParamModel>,
    pub return_type: Option<Seq<char>>,
    pub is_static: bool,
    pub is_virtual: bool,
    pub is_const: bool,
    pub is_vararg: bool,
    pub hash: Option<u64>,
}

impl DeepView for MethodDef {
    type V = MethodModel;

    open spec fn deep_view(&self) -> MethodModel {
        MethodModel {
            name: self.name@,
            params: self.params.deep_view(),
            return_type: self.return_type.deep_view(),
            is_static: self.is_static,
            is_virtual: self.is_virtual,
            is_const: self.is_const,
            is_vararg: self.is_vararg,
            hash: self.hash,
        }
    }
}

impl MethodModel {
    /// What the data model asks of every method: a virtual method is not
    /// static, and a method that is bound at run time carries its hash.
    pub open spec fn well_formed(self) -> bool {
        &&& self.is_virtual ==> !self.is_static
        &&& !self.is_virtual ==> self.hash is Some
    }
}

impl MethodDef {
    /// Tests what the data model asks of a method.
    pub fn is_well_formed(&self) -> (r: bool)
        ensures
            r == self.deep_view().well_formed(),
    {
        (!self.is_virtual || !self.is_static) && (self.is_virtual || self.hash.is_some())
    }
}

/// One enumerator with its value.
#[derive(Clone, Debug, PartialEq, Eq)]
pub struct EnumValueDef {
    pub name: String,
    pub value: i64,
}

/// What a [`EnumValueDef`] holds, as a mathematical value.
pub struct EnumValueModel {
    pub name: Seq<char>,
    pub value: i64,
}

impl DeepView for EnumValueDef {
    type V = EnumValueModel;

    open spec fn deep_view(&self) -> EnumValueModel {
        EnumValueModel { name: self.name@, value: self.value }
    }
}

/// An enumeration, global or nested in a class.
#[derive(Clone, Debug, PartialEq, Eq)]
pub struct EnumDef {
    pub name: String,
    pub values: Vec<EnumValueDef>,
}

/// What a [`EnumDef`] holds, as a mathematical value.
pub struct EnumModel {
    pub name: Seq<char>,
    pub values: Seq<EnumValueModel>,
}

impl DeepView for EnumDef {
    type V = EnumModel;

    open spec fn deep_view(&self) -> EnumModel {
        EnumModel { name: self.name@, values: self.values.deep_view() }
    }
}

/// A named integer constant.
#[derive(Clone, Debug, PartialEq, Eq)]
pub struct ConstantDef {
    pub name: String,
    pub value: i64,
}

/// What a [`ConstantDef`] holds, as a mathematical value.
pub struct ConstantModel {
    pub name: Seq<char>,
    pub value: i64,
}

impl DeepView for ConstantDef {
    type V = ConstantModel;

    open spec fn deep_view(&self) -> ConstantModel {
        ConstantModel { name: self.name@, value: self.value }
    }
}

/// An engine class. `parent` names the one class it inherits from.
#[derive(Clone, Debug, PartialEq, Eq)]
pub struct ClassDef {
    pub name: String,
    pub parent: Option<String>,
    pub methods: Vec<MethodDef>,
    pub enums: Vec<EnumDef>,
    pub constants: Vec<ConstantDef>,
    pub is_instantiable: bool,
    pub is_refcounted: bool,
}

/// What a [`ClassDef`] holds, as a mathematical value.
pub struct ClassModel {
    pub name: Seq<char>,
    pub parent: Option<Seq<char>>,
    pub methods: Seq<MethodModel>,
    pub enums: Seq<EnumModel>,
    pub constants: Seq<ConstantModel>,
    pub is_instantiable: bool,
    pub is_refcounted: bool,
}

impl DeepView for ClassDef {
    type V = ClassModel;

    open spec fn deep_view(&self) -> ClassModel {
        ClassModel {
            name: self.name@,
            parent: self.parent.deep_view(),
            methods: self.methods.deep_view(),
            enums: self.enums.deep_view(),
            constants: self.constants.deep_view(),
            is_instantiable: self.is_instantiable,
            is_refcounted: self.is_refcounted,
        }
    }
}

/// The byte size of a builtin type under one build configuration.
#[derive(Clone, Debug, PartialEq, Eq)]
pub struct SizeEntry {
    pub config: BuildConfiguration,
    pub size: u64,
}

/// What a [`SizeEntry`] holds, as a mathematical value.
pub struct SizeModel {
    pub config: BuildConfiguration,
    pub size: u64,
}

impl DeepView for SizeEntry {
    type V = SizeModel;

    open spec fn deep_view(&self) -> SizeModel {
        SizeModel { config: self.config, size: self.size }
    }
}

/// One constructor overload of a builtin type.
#[derive(Clone, Debug, PartialEq, Eq)]
pub struct ConstructorDef {
    pub index: u64,
    pub params: Vec<ParamDef>,
}

/// What a [`ConstructorDef`] holds, as a mathematical value.
pub struct ConstructorModel {
    pub index: u64,
    pub params: Seq<ParamModel>,
}

impl DeepView for ConstructorDef {
    type V = ConstructorModel;

    open spec fn deep_view(&self) -> ConstructorModel {
        ConstructorModel { index: self.index, params: self.params.deep_view() }
    }
}

/// A builtin value type of the engine.
#[derive(Clone, Debug, PartialEq, Eq)]
pub struct BuiltinClassDef {
    pub name: String,
    pub sizes: Vec<SizeEntry>,
    pub constructors: Vec<ConstructorDef>,
    pub has_destructor: bool,
    pub indexing_return_type: Option<String>,
}

/// What a [`BuiltinClassDef`] holds, as a mathematical value.
pub struct BuiltinModel {
    pub name: Seq<char>,
    pub sizes: Seq<SizeModel>,
    pub constructors: Seq<ConstructorModel>,
    pub has_destructor: bool,
    pub indexing_return_type: Option<Seq<char>>,
}

impl DeepView for BuiltinClassDef {
    type V = BuiltinModel;

    open spec fn deep_view(&self) -> BuiltinModel {
        BuiltinModel {
            name: self.name@,
            sizes: self.sizes.deep_view(),
            constructors: self.constructors.deep_view(),
            has_destructor: self.has_destructor,
            indexing_return_type: self.indexing_return_type.deep_view(),
        }
    }
}

/// A free function of the engine.
#[derive(Clone, Debug, PartialEq, Eq)]
pub struct UtilityFunctionDef {
    pub name: String,
    pub params: Vec<ParamDef>,
    pub return_type: Option<String>,
    pub is_vararg: bool,
    pub hash: Option<u64>,
}

/// What a [`UtilityFunctionDef`] holds, as a mathematical value.
pub struct UtilityModel {
    pub name: Seq<char>,
    pub params: Seq<ParamModel>,
    pub return_type: Option<Seq<char>>,
    pub is_vararg: bool,
    pub hash: Option<u64>,
}

impl DeepView for UtilityFunctionDef {
    type V = UtilityModel;

    open spec fn deep_view(&self) -> UtilityModel {
        UtilityModel {
            name: self.name@,
            params: self.params.deep_view(),
            return_type: self.return_type.deep_view(),
            is_vararg: self.is_vararg,
            hash: self.hash,
        }
    }
}

/// The loaded API description. It is not changed after loading.
#[derive(Clone, Debug, PartialEq, Eq)]
pub struct ExtensionApi {
    pub classes: Vec<ClassDef>,
    pub builtin_classes: Vec<BuiltinClassDef>,
    pub utility_functions: Vec<UtilityFunctionDef>,
    pub global_enums: Vec<EnumDef>,
    pub global_constants: Vec<ConstantDef>,
}

/// What a [`ExtensionApi`] holds, as a mathematical value.
pub struct ApiModel {
    pub classes: Seq<ClassModel>,
    pub builtin_classes: Seq<BuiltinModel>,
    pub utility_functions: Seq<UtilityModel>,
    pub global_enums: Seq<EnumModel>,
    pub global_constants: Seq<ConstantModel>,
}

impl DeepView for ExtensionApi {
    type V = ApiModel;

    open spec fn deep_view(&self) -> ApiModel {
        ApiModel {
            classes: self.classes.deep_view(),
            builtin_classes: self.builtin_classes.deep_view(),
            utility_functions: self.utility_functions.deep_view(),
            global_enums: self.global_enums.deep_view(),
            global_constants: self.global_constants.deep_view(),
        }
    }
}

impl View for ExtensionApi {
    type V = ApiModel;

    open spec fn view(&self) -> ApiModel {
        self.deep_view()
    }
}

/// A top-level section that a description must have.
#[derive(Clone, Copy, Debug, PartialEq, Eq, Structural)]
pub enum Section {
    Classes,
    BuiltinClasses,
    GlobalEnums,
}

/// Why a description could not be loaded. Fatal: nothing is generated.
#[derive(Clone, Copy, Debug, PartialEq, Eq, Structural)]
pub enum LoadError {
    /// The engine binary could not be found or run.
    BinaryUnavailable,
    /// What the engine wrote is not well-formed structured data.
    Unparseable,
    /// A required section is absent.
    MissingSection(Section),
}

/// Why nothing was generated.
#[derive(Clone, Debug, PartialEq, Eq)]
pub enum GenerationError {
    Load(LoadError),
    Model(ModelConsistencyError),
}

/// What a [`GenerationError`] holds, as a mathematical value.
pub enum GenerationFault {
    Load(LoadError),
    Model(ModelFault),
}

impl DeepView for GenerationError {
    type V = GenerationFault;

    open spec fn deep_view(&self) -> GenerationFault {
        match *self {
            GenerationError::Load(e) => GenerationFault::Load(e),
            GenerationError::Model(e) => GenerationFault::Model(e.deep_view()),
        }
    }
}

/// A decoded description, before it is known to be complete. The sections
/// that a description must have may be absent here.
#[derive(Clone, Debug, PartialEq, Eq)]
pub struct ApiDescription {
    pub classes: Option<Vec<ClassDef>>,
    pub builtin_classes: Option<Vec<BuiltinClassDef>>,
    pub global_enums: Option<Vec<EnumDef>>,
    pub utility_functions: Vec<UtilityFunctionDef>,
    pub global_constants: Vec<ConstantDef>,
}

/// What a [`ApiDescription`] holds, as a mathematical value.
pub struct DescriptionModel {
    pub classes: Option<Seq<ClassModel>>,
    pub builtin_classes: Option<Seq<BuiltinModel>>,
    pub global_enums: Option<Seq<EnumModel>>,
    pub utility_functions: Seq<UtilityModel>,
    pub global_constants: Seq<ConstantModel>,
}

impl DeepView for ApiDescription {
    type V = DescriptionModel;

    open spec fn deep_view(&self) -> DescriptionModel {
        DescriptionModel {
            classes: self.classes.deep_view(),
            builtin_classes: self.builtin_classes.deep_view(),
            global_enums: self.global_enums.deep_view(),
            utility_functions: self.utility_functions.deep_view(),
            global_constants: self.global_constants.deep_view(),
        }
    }
}

/// How the attempt to obtain a description from the engine ended.
#[derive(Clone, Debug, PartialEq, Eq)]
pub enum DumpOutcome {
    /// The engine binary could not be found or run.
    Unavailable,
    /// The engine wrote something that could not be decoded.
    Unparseable,
    /// The engine wrote a description, and it was decoded.
    Parsed(ApiDescription),
}

/// What a [`DumpOutcome`] holds, as a mathematical value.
pub enum DumpModel {
    Unavailable,
    Unparseable,
    Parsed(DescriptionModel),
}

impl DeepView for DumpOutcome {
    type V = DumpModel;

    open spec fn deep_view(&self) -> DumpModel {
        match *self {
            DumpOutcome::Unavailable => DumpModel::Unavailable,
            DumpOutcome::Unparseable => DumpModel::Unparseable,
            DumpOutcome::Parsed(d) => DumpModel::Parsed(d.deep_view()),
        }
    }
}

/// The first required section that `d` lacks.
pub open spec fn missing_section(d: DescriptionModel) -> Option<Section> {
    if d.classes is None {
        Some(Section::Classes)
    } else if d.builtin_classes is None {
        Some(Section::BuiltinClasses)
    } else if d.global_enums is None {
        Some(Section::GlobalEnums)
    } else {
        None
    }
}

/// The model of a description that has all required sections.
pub open spec fn assembled(d: DescriptionModel) -> ApiModel {
    ApiModel {
        classes: d.classes->Some_0,
        builtin_classes: d.builtin_classes->Some_0,
        utility_functions: d.utility_functions,
        global_enums: d.global_enums->Some_0,
        global_constants: d.global_constants,
    }
}

/// What loading gives: the model of the description, or the reason why there
/// is none. A description is loaded if the engine could be run, its output
/// was decoded, no required section is absent, and the model has no
/// violation under `config`.
pub open spec fn loaded(dump: DumpModel, config: BuildConfiguration) -> Result<
    ApiModel,
    GenerationFault,
> {
    match dump {
        DumpModel::Unavailable => Err(GenerationFault::Load(LoadError::BinaryUnavailable)),
        DumpModel::Unparseable => Err(GenerationFault::Load(LoadError::Unparseable)),
        DumpModel::Parsed(d) => match missing_section(d) {
            Some(section) => Err(GenerationFault::Load(LoadError::MissingSection(section))),
            None => match model_fault(assembled(d), config) {
                Some(fault) => Err(GenerationFault::Model(fault)),
                None => Ok(assembled(d)),
            },
        },
    }
}

/// Loads a description: checks that it is complete and consistent, and
/// hands out its model together with the build configuration.
pub fn load_extension_api(dump: DumpOutcome, config: BuildConfiguration) -> (r: Result<
    (ExtensionApi, BuildConfiguration),
    GenerationError,
>)
    ensures
        match r {
            Ok((api, c)) => loaded(dump.deep_view(), config) == Ok::<ApiModel, GenerationFault>(
                api@,
            ) && c == config && consistent(api@) && sizes_declared(api@, config),
            Err(e) => loaded(dump.deep_view(), config) == Err::<ApiModel, GenerationFault>(
                e.deep_view(),
            ),
        },
{
    let description = match dump {
        DumpOutcome::Unavailable => {
            return Err(GenerationError::Load(LoadError::BinaryUnavailable));
        },
        DumpOutcome::Unparseable => {
            return Err(GenerationError::Load(LoadError::Unparseable));
        },
        DumpOutcome::Parsed(d) => d,
    };
    let ghost model = description.deep_view();
    let ApiDescription {
        classes,
        builtin_classes,
        global_enums,
        utility_functions,
        global_constants,
    } = description;
    let classes = match classes {
        Some(v) => v,
        None => {
            return Err(GenerationError::Load(LoadError::MissingSection(Section::Classes)));
        },
    };
    let builtin_classes = match builtin_classes {
        Some(v) => v,
        None => {
            return Err(GenerationError::Load(LoadError::MissingSection(Section::BuiltinClasses)));
        },
    };
    let global_enums = match global_enums {
        Some(v) => v,
        None => {
            return Err(GenerationError::Load(LoadError::MissingSection(Section::GlobalEnums)));
        },
    };
    let api = ExtensionApi {
        classes,
        builtin_classes,
        utility_functions,
        global_enums,
        global_constants,
    };
    assert(api@ == assembled(model));
    match check_model(&api, config) {
        Ok(_) => Ok((api, config)),
        Err(e) => Err(GenerationError::Model(e)),
    }
}

} // verus!
