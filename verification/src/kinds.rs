//! The closed vocabularies of kinds, and the classification of the
//! decoder's native types into them.

use vstd::prelude::*;

verus! {

/// The closed vocabulary of signal kinds.
#[derive(Debug, Clone, Copy, PartialEq, Eq, Structural)]
pub enum SignalKind {
    /// A net of any flavour, or a port.
    Wire,
    /// A register.
    Reg,
    /// A four-state logic variable.
    Logic,
    /// An integral variable of any width.
    Integer,
    /// A floating-point variable.
    Real,
    /// A string variable.
    String,
    /// A parameter. The word belongs to the vocabulary; the classification
    /// below gives it to no native type, and reports the decoder's
    /// parameters as unknown.
    Parameter,
    /// Everything that has no kind of its own.
    Unknown,
}

/// The word for each signal kind.
pub open spec fn signal_kind_text(kind: SignalKind) -> Seq<char> {
    match kind {
        SignalKind::Wire => "wire"@,
        SignalKind::Reg => "reg"@,
        SignalKind::Logic => "logic"@,
        SignalKind::Integer => "integer"@,
        SignalKind::Real => "real"@,
        SignalKind::String => "string"@,
        SignalKind::Parameter => "parameter"@,
        SignalKind::Unknown => "unknown"@,
    }
}

impl SignalKind {
    /// The word for this kind.
    pub fn as_str(self) -> (r: &'static str)
        ensures
            r@ == signal_kind_text(self),
    {
        match self {
            SignalKind::Wire => "wire",
            SignalKind::Reg => "reg",
            SignalKind::Logic => "logic",
            SignalKind::Integer => "integer",
            SignalKind::Real => "real",
            SignalKind::String => "string",
            SignalKind::Parameter => "parameter",
            SignalKind::Unknown => "unknown",
        }
    }
}

/// The kind of each native variable type. Nets of every flavour and ports
/// are wires; the integral types are integers; the floating-point types are
/// reals; every other native type has no kind of its own and is unknown.
pub open spec fn signal_kind_of(var_type: wellen::VarType) -> SignalKind {
    match var_type {
        wellen::VarType::Wire
        | wellen::VarType::Tri
        | wellen::VarType::TriAnd
        | wellen::VarType::TriOr
        | wellen::VarType::TriReg
        | wellen::VarType::Tri0
        | wellen::VarType::Tri1
        | wellen::VarType::WAnd
        | wellen::VarType::WOr
        | wellen::VarType::Supply0
        | wellen::VarType::Supply1
        | wellen::VarType::Port => SignalKind::Wire,
        wellen::VarType::Reg => SignalKind::Reg,
        wellen::VarType::Logic => SignalKind::Logic,
        wellen::VarType::Integer
        | wellen::VarType::Int
        | wellen::VarType::ShortInt
        | wellen::VarType::LongInt
        | wellen::VarType::Byte
        | wellen::VarType::Time => SignalKind::Integer,
        wellen::VarType::Real
        | wellen::VarType::RealTime
        | wellen::VarType::RealParameter
        | wellen::VarType::ShortReal => SignalKind::Real,
        wellen::VarType::String => SignalKind::String,
        wellen::VarType::Event
        | wellen::VarType::Parameter
        | wellen::VarType::SparseArray
        | wellen::VarType::Bit
        | wellen::VarType::Enum
        | wellen::VarType::Boolean
        | wellen::VarType::BitVector
        | wellen::VarType::StdLogic
        | wellen::VarType::StdLogicVector
        | wellen::VarType::StdULogic
        | wellen::VarType::StdULogicVector
        | wellen::VarType::EventParameter => SignalKind::Unknown,
    }
}

/// Classifies a native variable type.
pub fn map_signal_kind(var_type: wellen::VarType) -> (r: SignalKind)
    ensures
        r == signal_kind_of(var_type),
{
    match var_type {
        wellen::VarType::Wire
        | wellen::VarType::Tri
        | wellen::VarType::TriAnd
        | wellen::VarType::TriOr
        | wellen::VarType::TriReg
        | wellen::VarType::Tri0
        | wellen::VarType::Tri1
        | wellen::VarType::WAnd
        | wellen::VarType::WOr
        | wellen::VarType::Supply0
        | wellen::VarType::Supply1
        | wellen::VarType::Port => SignalKind::Wire,
        wellen::VarType::Reg => SignalKind::Reg,
        wellen::VarType::Logic => SignalKind::Logic,
        wellen::VarType::Integer
        | wellen::VarType::Int
        | wellen::VarType::ShortInt
        | wellen::VarType::LongInt
        | wellen::VarType::Byte
        | wellen::VarType::Time => SignalKind::Integer,
        wellen::VarType::Real
        | wellen::VarType::RealTime
        | wellen::VarType::RealParameter
        | wellen::VarType::ShortReal => SignalKind::Real,
        wellen::VarType::String => SignalKind::String,
        wellen::VarType::Event
        | wellen::VarType::Parameter
        | wellen::VarType::SparseArray
        | wellen::VarType::Bit
        | wellen::VarType::Enum
        | wellen::VarType::Boolean
        | wellen::VarType::BitVector
        | wellen::VarType::StdLogic
        | wellen::VarType::StdLogicVector
        | wellen::VarType::StdULogic
        | wellen::VarType::StdULogicVector
        | wellen::VarType::EventParameter => SignalKind::Unknown,
    }
}

/// The closed vocabulary of scope kinds.
#[derive(Debug, Clone, Copy, PartialEq, Eq, Structural)]
pub enum ScopeKind {
    /// A module instance. The other kinds but the last are named likewise
    /// after the construct that opens the scope.
    Module,
    Task,
    Function,
    Begin,
    Fork,
    Generate,
    Struct,
    Union,
    Class,
    Interface,
    Package,
    Program,
    /// Every scope that none of the kinds above describes.
    Unknown,
}

/// The word for each scope kind.
pub open spec fn scope_kind_text(kind: ScopeKind) -> Seq<char> {
    match kind {
        ScopeKind::Module => "module"@,
        ScopeKind::Task => "task"@,
        ScopeKind::Function => "function"@,
        ScopeKind::Begin => "begin"@,
        ScopeKind::Fork => "fork"@,
        ScopeKind::Generate => "generate"@,
        ScopeKind::Struct => "struct"@,
        ScopeKind::Union => "union"@,
        ScopeKind::Class => "class"@,
        ScopeKind::Interface => "interface"@,
        ScopeKind::Package => "package"@,
        ScopeKind::Program => "program"@,
        ScopeKind::Unknown => "unknown"@,
    }
}

impl ScopeKind {
    /// The word for this kind.
    pub fn as_str(self) -> (r: &'static str)
        ensures
            r@ == scope_kind_text(self),
    {
        match self {
            ScopeKind::Module => "module",
            ScopeKind::Task => "task",
            ScopeKind::Function => "function",
            ScopeKind::Begin => "begin",
            ScopeKind::Fork => "fork",
            ScopeKind::Generate => "generate",
            ScopeKind::Struct => "struct",
            ScopeKind::Union => "union",
            ScopeKind::Class => "class",
            ScopeKind::Interface => "interface",
            ScopeKind::Package => "package",
            ScopeKind::Program => "program",
            ScopeKind::Unknown => "unknown",
        }
    }
}

/// The kind of each native scope type: the scope types of Verilog keep
/// their own kind, every other native type is unknown.
pub open spec fn scope_kind_of(scope_type: wellen::ScopeType) -> ScopeKind {
    match scope_type {
        wellen::ScopeType::Module => ScopeKind::Module,
        wellen::ScopeType::Task => ScopeKind::Task,
        wellen::ScopeType::Function => ScopeKind::Function,
        wellen::ScopeType::Begin => ScopeKind::Begin,
        wellen::ScopeType::Fork => ScopeKind::Fork,
        wellen::ScopeType::Generate => ScopeKind::Generate,
        wellen::ScopeType::Struct => ScopeKind::Struct,
        wellen::ScopeType::Union => ScopeKind::Union,
        wellen::ScopeType::Class => ScopeKind::Class,
        wellen::ScopeType::Interface => ScopeKind::Interface,
        wellen::ScopeType::Package => ScopeKind::Package,
        wellen::ScopeType::Program => ScopeKind::Program,
        _ => ScopeKind::Unknown,
    }
}

/// Classifies a native scope type.
pub fn map_scope_kind(scope_type: wellen::ScopeType) -> (r: ScopeKind)
    ensures
        r == scope_kind_of(scope_type),
{
    match scope_type {
        wellen::ScopeType::Module => ScopeKind::Module,
        wellen::ScopeType::Task => ScopeKind::Task,
        wellen::ScopeType::Function => ScopeKind::Function,
        wellen::ScopeType::Begin => ScopeKind::Begin,
        wellen::ScopeType::Fork => ScopeKind::Fork,
        wellen::ScopeType::Generate => ScopeKind::Generate,
        wellen::ScopeType::Struct => ScopeKind::Struct,
        wellen::ScopeType::Union => ScopeKind::Union,
        wellen::ScopeType::Class => ScopeKind::Class,
        wellen::ScopeType::Interface => ScopeKind::Interface,
        wellen::ScopeType::Package => ScopeKind::Package,
        wellen::ScopeType::Program => ScopeKind::Program,
        _ => ScopeKind::Unknown,
    }
}

} // verus!
