//! How a type of the engine API is written in the generated bindings.

use vstd::prelude::*;
use crate::util::Tokens;

verus! {

/// The representation of a type reference in generated code.
#[derive(Clone, Debug, PartialEq, Eq)]
pub enum RustTy {
    /// A primitive or a builtin value type, such as `bool` or `Vector3i`.
    BuiltinIdent(String),
    /// An array of builtin values, such as `TypedArray<i64>`.
    BuiltinArray(Tokens),
    /// An array of engine objects, such as `TypedArray<Gd<PhysicsBody3D>>`,
    /// with the class of its elements.
    EngineArray { tokens: Tokens, elem_class: String },
    /// An enumeration of the engine, such as `module::Enum`, with the class
    /// that declares it; `None` for a global enumeration.
    EngineEnum { tokens: Tokens, surrounding_class: Option<String> },
    /// A handle to an engine object, such as `Gd<Node>`. The object may be
    /// absent.
    EngineClass(Tokens),
}

/// What a [`RustTy`] holds, as a mathematical value.
pub enum RustTyModel {
    BuiltinIdent(Seq<char>),
    BuiltinArray(Seq<Seq<char>>),
    EngineArray { tokens: Seq<Seq<char>>, elem_class: Seq<char> },
    EngineEnum { tokens: Seq<Seq<char>>, surrounding_class: Option<Seq<char>> },
    EngineClass(Seq<Seq<char>>),
}

impl DeepView for RustTy {
    type V = RustTyModel;

    open spec fn deep_view(&self) -> RustTyModel {
        match *self {
            RustTy::BuiltinIdent(ident) => RustTyModel::BuiltinIdent(ident@),
            RustTy::BuiltinArray(tokens) => RustTyModel::BuiltinArray(tokens@),
            RustTy::EngineArray { tokens, elem_class } => RustTyModel::EngineArray {
                tokens: tokens@,
                elem_class: elem_class@,
            },
            RustTy::EngineEnum { tokens, surrounding_class } => RustTyModel::EngineEnum {
                tokens: tokens@,
                surrounding_class: surrounding_class.deep_view(),
            },
            RustTy::EngineClass(tokens) => RustTyModel::EngineClass(tokens@),
        }
    }
}

impl View for RustTy {
    type V = RustTyModel;

    open spec fn view(&self) -> RustTyModel {
        self.deep_view()
    }
}

impl RustTyModel {
    /// The tokens that name the type.
    pub open spec fn tokens(self) -> Seq<Seq<char>> {
        match self {
            RustTyModel::BuiltinIdent(ident) => seq![ident],
            RustTyModel::BuiltinArray(tokens) => tokens,
            RustTyModel::EngineArray { tokens, .. } => tokens,
            RustTyModel::EngineEnum { tokens, .. } => tokens,
            RustTyModel::EngineClass(tokens) => tokens,
        }
    }

    /// The return clause of a function that gives back this type. An engine
    /// object is given back as an option, since it may be absent.
    pub open spec fn return_decl(self) -> Seq<Seq<char>> {
        match self {
            RustTyModel::EngineClass(tokens) => seq!["->"@, "Option"@, "<"@] + tokens + seq![">"@],
            other => seq!["->"@] + other.tokens(),
        }
    }
}

impl RustTy {
    /// A copy of the representation.
    pub fn duplicate(&self) -> (r: RustTy)
        ensures
            r@ == self@,
    {
        match self {
            RustTy::BuiltinIdent(ident) => RustTy::BuiltinIdent(ident.clone()),
            RustTy::BuiltinArray(tokens) => RustTy::BuiltinArray(tokens.duplicate()),
            RustTy::EngineArray { tokens, elem_class } => RustTy::EngineArray {
                tokens: tokens.duplicate(),
                elem_class: elem_class.clone(),
            },
            RustTy::EngineEnum { tokens, surrounding_class } => RustTy::EngineEnum {
                tokens: tokens.duplicate(),
                surrounding_class: match surrounding_class {
                    Some(class) => Some(class.clone()),
                    None => None,
                },
            },
            RustTy::EngineClass(tokens) => RustTy::EngineClass(tokens.duplicate()),
        }
    }

    /// Appends the tokens that name the type to `tokens`.
    pub fn to_tokens(&self, tokens: &mut Tokens)
        ensures
            final(tokens)@ == old(tokens)@ + self@.tokens(),
    {
        match self {
            RustTy::BuiltinIdent(ident) => {
                tokens.push(ident.as_str());
                assert(tokens@ =~= old(tokens)@ + self@.tokens());
            },
            RustTy::BuiltinArray(path) => tokens.extend(path),
            RustTy::EngineArray { tokens: path, .. } => tokens.extend(path),
            RustTy::EngineEnum { tokens: path, .. } => tokens.extend(path),
            RustTy::EngineClass(path) => tokens.extend(path),
        }
    }

    /// The return clause of a function that gives back this type.
    pub fn return_decl(&self) -> (r: Tokens)
        ensures
            r@ == self@.return_decl(),
    {
        let mut out = Tokens::new();
        out.push("->");
        match self {
            RustTy::EngineClass(tokens) => {
                out.push("Option");
                out.push("<");
                out.extend(tokens);
                out.push(">");
                assert(out@ =~= self@.return_decl());
            },
            other => {
                other.to_tokens(&mut out);
                assert(out@ =~= self@.return_decl());
            },
        }
        out
    }
}

} // verus!
