//! The vocabularies of Solidity syntax trees and their text forms.
use crate::domain::kinds::{ContractKind, FunctionKind, VariableMutability};
use crate::text::text_eq;
use std::str::FromStr;
use vstd::prelude::*;
use vstd::string::*;

verus! {

/// What a reader is told of a text that is not understood.
fn rejection(what: &str, s: &str) -> (r: String)
    ensures
        r@ == what@ + s@,
{
    let mut out = what.to_owned();
    out.append(s);
    out
}

impl BinaryOperator {
    /// Whether the operator relates its operands: all but the logical ones do.
    pub fn is_relative_operator(&self) -> (r: bool)
        ensures
            r == !(self is And || self is Or),
    {
        !matches!(self, BinaryOperator::And | BinaryOperator::Or)
    }
}

/// How a function may touch state.
#[derive(Debug, Clone, Copy, PartialEq, Eq, Hash, Structural)]
pub enum FunctionStateMutability {
    Pure,
    View,
    NonPayable,
    Payable,
}

impl FunctionStateMutability {
    pub open spec fn label(self) -> Seq<char> {
        match self {
            FunctionStateMutability::Pure => "pure"@,
            FunctionStateMutability::View => "view"@,
            FunctionStateMutability::NonPayable => "nonpayable"@,
            FunctionStateMutability::Payable => "payable"@,
        }
    }

    /// Distinct values have distinct labels.
    pub proof fn label_injective(a: FunctionStateMutability, b: FunctionStateMutability)
        requires
            a.label() == b.label(),
        ensures
            a == b,
    {
        reveal_strlit("pure");
        assert("pure"@.len() == 4 && "pure"@[0] == 'p' && "pure"@[1] == 'u' && "pure"@[2] == 'r');
        reveal_strlit("view");
        assert("view"@.len() == 4 && "view"@[0] == 'v' && "view"@[1] == 'i' && "view"@[2] == 'e');
        reveal_strlit("nonpayable");
        assert("nonpayable"@.len() == 10 && "nonpayable"@[0] == 'n' && "nonpayable"@[1] == 'o' && "nonpayable"@[2] == 'n');
        reveal_strlit("payable");
        assert("payable"@.len() == 7 && "payable"@[0] == 'p' && "payable"@[1] == 'a' && "payable"@[2] == 'y');
    }

    /// The value with label `s`.
    pub fn parse_str(s: &str) -> (r: Result<FunctionStateMutability, String>)
        ensures
            match r {
                Ok(k) => k.label() == s@,
                Err(m) => (forall|k: FunctionStateMutability| k.label() != s@) && m@ == "Unknown state mutability: "@ + s@,
            },
            s@ == "pure"@ ==> r is Ok && r->Ok_0 == FunctionStateMutability::Pure,
            s@ == "view"@ ==> r is Ok && r->Ok_0 == FunctionStateMutability::View,
            s@ == "nonpayable"@ ==> r is Ok && r->Ok_0 == FunctionStateMutability::NonPayable,
            s@ == "payable"@ ==> r is Ok && r->Ok_0 == FunctionStateMutability::Payable,
    {
        proof {
            assert forall|a: FunctionStateMutability, b: FunctionStateMutability| #[trigger]
                a.label() == #[trigger] b.label() implies a == b by {
                FunctionStateMutability::label_injective(a, b);
            }
            assert(FunctionStateMutability::Pure.label() == "pure"@);
            assert(FunctionStateMutability::View.label() == "view"@);
            assert(FunctionStateMutability::NonPayable.label() == "nonpayable"@);
            assert(FunctionStateMutability::Payable.label() == "payable"@);
        }
        if text_eq(s, "pure") {
            Ok(FunctionStateMutability::Pure)
        } else if text_eq(s, "view") {
            Ok(FunctionStateMutability::View)
        } else if text_eq(s, "nonpayable") {
            Ok(FunctionStateMutability::NonPayable)
        } else if text_eq(s, "payable") {
            Ok(FunctionStateMutability::Payable)
        } else {
            Err(rejection("Unknown state mutability: ", s))
        }
    }
}

impl FromStr for FunctionStateMutability {
    type Err = String;

    fn from_str(s: &str) -> (r: Result<Self, String>)
        ensures
            match r {
                Ok(k) => k.label() == s@,
                Err(m) => (forall|k: FunctionStateMutability| k.label() != s@) && m@ == "Unknown state mutability: "@ + s@,
            },
    {
        FunctionStateMutability::parse_str(s)
    }
}

/// From where a function can be called.
#[derive(Debug, Clone, Copy, PartialEq, Eq, Hash, Structural)]
pub enum FunctionVisibility {
    Public,
    Private,
    Internal,
    External,
}

impl FunctionVisibility {
    pub open spec fn label(self) -> Seq<char> {
        match self {
            FunctionVisibility::Public => "public"@,
            FunctionVisibility::Private => "private"@,
            FunctionVisibility::Internal => "internal"@,
            FunctionVisibility::External => "external"@,
        }
    }

    /// Distinct values have distinct labels.
    pub proof fn label_injective(a: FunctionVisibility, b: FunctionVisibility)
        requires
            a.label() == b.label(),
        ensures
            a == b,
    {
        reveal_strlit("public");
        assert("public"@.len() == 6 && "public"@[0] == 'p' && "public"@[1] == 'u' && "public"@[2] == 'b');
        reveal_strlit("private");
        assert("private"@.len() == 7 && "private"@[0] == 'p' && "private"@[1] == 'r' && "private"@[2] == 'i');
        reveal_strlit("internal");
        assert("internal"@.len() == 8 && "internal"@[0] == 'i' && "internal"@[1] == 'n' && "internal"@[2] == 't');
        reveal_strlit("external");
        assert("external"@.len() == 8 && "external"@[0] == 'e' && "external"@[1] == 'x' && "external"@[2] == 't');
    }

    /// The value with label `s`.
    pub fn parse_str(s: &str) -> (r: Result<FunctionVisibility, String>)
        ensures
            match r {
                Ok(k) => k.label() == s@,
                Err(m) => (forall|k: FunctionVisibility| k.label() != s@) && m@ == "Unknown visibility: "@ + s@,
            },
            s@ == "public"@ ==> r is Ok && r->Ok_0 == FunctionVisibility::Public,
            s@ == "private"@ ==> r is Ok && r->Ok_0 == FunctionVisibility::Private,
            s@ == "internal"@ ==> r is Ok && r->Ok_0 == FunctionVisibility::Internal,
            s@ == "external"@ ==> r is Ok && r->Ok_0 == FunctionVisibility::External,
    {
        proof {
            assert forall|a: FunctionVisibility, b: FunctionVisibility| #[trigger]
                a.label() == #[trigger] b.label() implies a == b by {
                FunctionVisibility::label_injective(a, b);
            }
            assert(FunctionVisibility::Public.label() == "public"@);
            assert(FunctionVisibility::Private.label() == "private"@);
            assert(FunctionVisibility::Internal.label() == "internal"@);
            assert(FunctionVisibility::External.label() == "external"@);
        }
        if text_eq(s, "public") {
            Ok(FunctionVisibility::Public)
        } else if text_eq(s, "private") {
            Ok(FunctionVisibility::Private)
        } else if text_eq(s, "internal") {
            Ok(FunctionVisibility::Internal)
        } else if text_eq(s, "external") {
            Ok(FunctionVisibility::External)
        } else {
            Err(rejection("Unknown visibility: ", s))
        }
    }
}

impl FromStr for FunctionVisibility {
    type Err = String;

    fn from_str(s: &str) -> (r: Result<Self, String>)
        ensures
            match r {
                Ok(k) => k.label() == s@,
                Err(m) => (forall|k: FunctionVisibility| k.label() != s@) && m@ == "Unknown visibility: "@ + s@,
            },
    {
        FunctionVisibility::parse_str(s)
    }
}

/// From where a variable can be read.
#[derive(Debug, Clone, Copy, PartialEq, Eq, Hash, Structural)]
pub enum VariableVisibility {
    Public,
    Private,
    Internal,
}

impl VariableVisibility {
    pub open spec fn label(self) -> Seq<char> {
        match self {
            VariableVisibility::Public => "public"@,
            VariableVisibility::Private => "private"@,
            VariableVisibility::Internal => "internal"@,
        }
    }

    /// Distinct values have distinct labels.
    pub proof fn label_injective(a: VariableVisibility, b: VariableVisibility)
        requires
            a.label() == b.label(),
        ensures
            a == b,
    {
        reveal_strlit("public");
        assert("public"@.len() == 6 && "public"@[0] == 'p' && "public"@[1] == 'u' && "public"@[2] == 'b');
        reveal_strlit("private");
        assert("private"@.len() == 7 && "private"@[0] == 'p' && "private"@[1] == 'r' && "private"@[2] == 'i');
        reveal_strlit("internal");
        assert("internal"@.len() == 8 && "internal"@[0] == 'i' && "internal"@[1] == 'n' && "internal"@[2] == 't');
    }

    /// The value with label `s`.
    pub fn parse_str(s: &str) -> (r: Result<VariableVisibility, String>)
        ensures
            match r {
                Ok(k) => k.label() == s@,
                Err(m) => (forall|k: VariableVisibility| k.label() != s@) && m@ == "Unknown variable visibility: "@ + s@,
            },
            s@ == "public"@ ==> r is Ok && r->Ok_0 == VariableVisibility::Public,
            s@ == "private"@ ==> r is Ok && r->Ok_0 == VariableVisibility::Private,
            s@ == "internal"@ ==> r is Ok && r->Ok_0 == VariableVisibility::Internal,
    {
        proof {
            assert forall|a: VariableVisibility, b: VariableVisibility| #[trigger]
                a.label() == #[trigger] b.label() implies a == b by {
                VariableVisibility::label_injective(a, b);
            }
            assert(VariableVisibility::Public.label() == "public"@);
            assert(VariableVisibility::Private.label() == "private"@);
            assert(VariableVisibility::Internal.label() == "internal"@);
        }
        if text_eq(s, "public") {
            Ok(VariableVisibility::Public)
        } else if text_eq(s, "private") {
            Ok(VariableVisibility::Private)
        } else if text_eq(s, "internal") {
            Ok(VariableVisibility::Internal)
        } else {
            Err(rejection("Unknown variable visibility: ", s))
        }
    }
}

impl FromStr for VariableVisibility {
    type Err = String;

    fn from_str(s: &str) -> (r: Result<Self, String>)
        ensures
            match r {
                Ok(k) => k.label() == s@,
                Err(m) => (forall|k: VariableVisibility| k.label() != s@) && m@ == "Unknown variable visibility: "@ + s@,
            },
    {
        VariableVisibility::parse_str(s)
    }
}

/// Where a value is stored.
#[derive(Debug, Clone, Copy, PartialEq, Eq, Hash, Structural)]
pub enum StorageLocation {
    Default,
    Storage,
    Memory,
    Calldata,
}

impl StorageLocation {
    pub open spec fn label(self) -> Seq<char> {
        match self {
            StorageLocation::Default => "default"@,
            StorageLocation::Storage => "storage"@,
            StorageLocation::Memory => "memory"@,
            StorageLocation::Calldata => "calldata"@,
        }
    }

    /// Distinct values have distinct labels.
    pub proof fn label_injective(a: StorageLocation, b: StorageLocation)
        requires
            a.label() == b.label(),
        ensures
            a == b,
    {
        reveal_strlit("default");
        assert("default"@.len() == 7 && "default"@[0] == 'd' && "default"@[1] == 'e' && "default"@[2] == 'f');
        reveal_strlit("storage");
        assert("storage"@.len() == 7 && "storage"@[0] == 's' && "storage"@[1] == 't' && "storage"@[2] == 'o');
        reveal_strlit("memory");
        assert("memory"@.len() == 6 && "memory"@[0] == 'm' && "memory"@[1] == 'e' && "memory"@[2] == 'm');
        reveal_strlit("calldata");
        assert("calldata"@.len() == 8 && "calldata"@[0] == 'c' && "calldata"@[1] == 'a' && "calldata"@[2] == 'l');
    }

    /// The value with label `s`.
    pub fn parse_str(s: &str) -> (r: Result<StorageLocation, String>)
        ensures
            match r {
                Ok(k) => k.label() == s@,
                Err(m) => (forall|k: StorageLocation| k.label() != s@) && m@ == "Invalid storage location: "@ + s@,
            },
            s@ == "default"@ ==> r is Ok && r->Ok_0 == StorageLocation::Default,
            s@ == "storage"@ ==> r is Ok && r->Ok_0 == StorageLocation::Storage,
            s@ == "memory"@ ==> r is Ok && r->Ok_0 == StorageLocation::Memory,
            s@ == "calldata"@ ==> r is Ok && r->Ok_0 == StorageLocation::Calldata,
    {
        proof {
            assert forall|a: StorageLocation, b: StorageLocation| #[trigger]
                a.label() == #[trigger] b.label() implies a == b by {
                StorageLocation::label_injective(a, b);
            }
            assert(StorageLocation::Default.label() == "default"@);
            assert(StorageLocation::Storage.label() == "storage"@);
            assert(StorageLocation::Memory.label() == "memory"@);
            assert(StorageLocation::Calldata.label() == "calldata"@);
        }
        if text_eq(s, "default") {
            Ok(StorageLocation::Default)
        } else if text_eq(s, "storage") {
            Ok(StorageLocation::Storage)
        } else if text_eq(s, "memory") {
            Ok(StorageLocation::Memory)
        } else if text_eq(s, "calldata") {
            Ok(StorageLocation::Calldata)
        } else {
            Err(rejection("Invalid storage location: ", s))
        }
    }
}

impl FromStr for StorageLocation {
    type Err = String;

    fn from_str(s: &str) -> (r: Result<Self, String>)
        ensures
            match r {
                Ok(k) => k.label() == s@,
                Err(m) => (forall|k: StorageLocation| k.label() != s@) && m@ == "Invalid storage location: "@ + s@,
            },
    {
        StorageLocation::parse_str(s)
    }
}

/// What a literal denotes.
#[derive(Debug, Clone, Copy, PartialEq, Eq, Hash, Structural)]
pub enum LiteralKind {
    Number,
    Bool,
    String,
    HexString,
}

impl LiteralKind {
    pub open spec fn label(self) -> Seq<char> {
        match self {
            LiteralKind::Number => "number"@,
            LiteralKind::Bool => "bool"@,
            LiteralKind::String => "string"@,
            LiteralKind::HexString => "hexString"@,
        }
    }

    /// Distinct values have distinct labels.
    pub proof fn label_injective(a: LiteralKind, b: LiteralKind)
        requires
            a.label() == b.label(),
        ensures
            a == b,
    {
        reveal_strlit("number");
        assert("number"@.len() == 6 && "number"@[0] == 'n' && "number"@[1] == 'u' && "number"@[2] == 'm');
        reveal_strlit("bool");
        assert("bool"@.len() == 4 && "bool"@[0] == 'b' && "bool"@[1] == 'o' && "bool"@[2] == 'o');
        reveal_strlit("string");
        assert("string"@.len() == 6 && "string"@[0] == 's' && "string"@[1] == 't' && "string"@[2] == 'r');
        reveal_strlit("hexString");
        assert("hexString"@.len() == 9 && "hexString"@[0] == 'h' && "hexString"@[1] == 'e' && "hexString"@[2] == 'x');
    }

    pub fn as_str(&self) -> (r: &'static str)
        ensures
            r@ == self.label(),
            r@ == match self {
                LiteralKind::Number => "number"@,
                LiteralKind::Bool => "bool"@,
                LiteralKind::String => "string"@,
                LiteralKind::HexString => "hexString"@,
            },
    {
        match self {
            LiteralKind::Number => "number",
            LiteralKind::Bool => "bool",
            LiteralKind::String => "string",
            LiteralKind::HexString => "hexString",
        }
    }

    /// The value with label `s`.
    pub fn parse_str(s: &str) -> (r: Result<LiteralKind, String>)
        ensures
            match r {
                Ok(k) => k.label() == s@,
                Err(m) => (forall|k: LiteralKind| k.label() != s@) && m@ == "Unknown literal kind: "@ + s@,
            },
            s@ == "number"@ ==> r is Ok && r->Ok_0 == LiteralKind::Number,
            s@ == "bool"@ ==> r is Ok && r->Ok_0 == LiteralKind::Bool,
            s@ == "string"@ ==> r is Ok && r->Ok_0 == LiteralKind::String,
            s@ == "hexString"@ ==> r is Ok && r->Ok_0 == LiteralKind::HexString,
    {
        proof {
            assert forall|a: LiteralKind, b: LiteralKind| #[trigger]
                a.label() == #[trigger] b.label() implies a == b by {
                LiteralKind::label_injective(a, b);
            }
            assert(LiteralKind::Number.label() == "number"@);
            assert(LiteralKind::Bool.label() == "bool"@);
            assert(LiteralKind::String.label() == "string"@);
            assert(LiteralKind::HexString.label() == "hexString"@);
        }
        if text_eq(s, "number") {
            Ok(LiteralKind::Number)
        } else if text_eq(s, "bool") {
            Ok(LiteralKind::Bool)
        } else if text_eq(s, "string") {
            Ok(LiteralKind::String)
        } else if text_eq(s, "hexString") {
            Ok(LiteralKind::HexString)
        } else {
            Err(rejection("Unknown literal kind: ", s))
        }
    }
}

impl FromStr for LiteralKind {
    type Err = String;

    fn from_str(s: &str) -> (r: Result<Self, String>)
        ensures
            match r {
                Ok(k) => k.label() == s@,
                Err(m) => (forall|k: LiteralKind| k.label() != s@) && m@ == "Unknown literal kind: "@ + s@,
            },
    {
        LiteralKind::parse_str(s)
    }
}

/// An operator with one operand.
#[derive(Debug, Clone, Copy, PartialEq, Eq, Hash, Structural)]
pub enum UnaryOperator {
    Increment,
    Decrement,
    Plus,
    Minus,
    BitwiseNot,
    Not,
    Delete,
}

impl UnaryOperator {
    pub open spec fn label(self) -> Seq<char> {
        match self {
            UnaryOperator::Increment => "++"@,
            UnaryOperator::Decrement => "--"@,
            UnaryOperator::Plus => "+"@,
            UnaryOperator::Minus => "-"@,
            UnaryOperator::BitwiseNot => "~"@,
            UnaryOperator::Not => "!"@,
            UnaryOperator::Delete => "delete"@,
        }
    }

    /// Distinct values have distinct labels.
    pub proof fn label_injective(a: UnaryOperator, b: UnaryOperator)
        requires
            a.label() == b.label(),
        ensures
            a == b,
    {
        reveal_strlit("++");
        assert("++"@.len() == 2 && "++"@[0] == '+' && "++"@[1] == '+');
        reveal_strlit("--");
        assert("--"@.len() == 2 && "--"@[0] == '-' && "--"@[1] == '-');
        reveal_strlit("+");
        assert("+"@.len() == 1 && "+"@[0] == '+');
        reveal_strlit("-");
        assert("-"@.len() == 1 && "-"@[0] == '-');
        reveal_strlit("~");
        assert("~"@.len() == 1 && "~"@[0] == '~');
        reveal_strlit("!");
        assert("!"@.len() == 1 && "!"@[0] == '!');
        reveal_strlit("delete");
        assert("delete"@.len() == 6 && "delete"@[0] == 'd' && "delete"@[1] == 'e' && "delete"@[2] == 'l');
    }

    pub fn as_str(&self) -> (r: &'static str)
        ensures
            r@ == self.label(),
            r@ == match self {
                UnaryOperator::Increment => "++"@,
                UnaryOperator::Decrement => "--"@,
                UnaryOperator::Plus => "+"@,
                UnaryOperator::Minus => "-"@,
                UnaryOperator::BitwiseNot => "~"@,
                UnaryOperator::Not => "!"@,
                UnaryOperator::Delete => "delete"@,
            },
    {
        match self {
            UnaryOperator::Increment => "++",
            UnaryOperator::Decrement => "--",
            UnaryOperator::Plus => "+",
            UnaryOperator::Minus => "-",
            UnaryOperator::BitwiseNot => "~",
            UnaryOperator::Not => "!",
            UnaryOperator::Delete => "delete",
        }
    }

    /// The value with label `s`.
    pub fn parse_str(s: &str) -> (r: Result<UnaryOperator, String>)
        ensures
            match r {
                Ok(k) => k.label() == s@,
                Err(m) => (forall|k: UnaryOperator| k.label() != s@) && m@ == "Invalid unary operator: "@ + s@,
            },
            s@ == "++"@ ==> r is Ok && r->Ok_0 == UnaryOperator::Increment,
            s@ == "--"@ ==> r is Ok && r->Ok_0 == UnaryOperator::Decrement,
            s@ == "+"@ ==> r is Ok && r->Ok_0 == UnaryOperator::Plus,
            s@ == "-"@ ==> r is Ok && r->Ok_0 == UnaryOperator::Minus,
            s@ == "~"@ ==> r is Ok && r->Ok_0 == UnaryOperator::BitwiseNot,
            s@ == "!"@ ==> r is Ok && r->Ok_0 == UnaryOperator::Not,
            s@ == "delete"@ ==> r is Ok && r->Ok_0 == UnaryOperator::Delete,
    {
        proof {
            assert forall|a: UnaryOperator, b: UnaryOperator| #[trigger]
                a.label() == #[trigger] b.label() implies a == b by {
                UnaryOperator::label_injective(a, b);
            }
            assert(UnaryOperator::Increment.label() == "++"@);
            assert(UnaryOperator::Decrement.label() == "--"@);
            assert(UnaryOperator::Plus.label() == "+"@);
            assert(UnaryOperator::Minus.label() == "-"@);
            assert(UnaryOperator::BitwiseNot.label() == "~"@);
            assert(UnaryOperator::Not.label() == "!"@);
            assert(UnaryOperator::Delete.label() == "delete"@);
        }
        if text_eq(s, "++") {
            Ok(UnaryOperator::Increment)
        } else if text_eq(s, "--") {
            Ok(UnaryOperator::Decrement)
        } else if text_eq(s, "+") {
            Ok(UnaryOperator::Plus)
        } else if text_eq(s, "-") {
            Ok(UnaryOperator::Minus)
        } else if text_eq(s, "~") {
            Ok(UnaryOperator::BitwiseNot)
        } else if text_eq(s, "!") {
            Ok(UnaryOperator::Not)
        } else if text_eq(s, "delete") {
            Ok(UnaryOperator::Delete)
        } else {
            Err(rejection("Invalid unary operator: ", s))
        }
    }
}

impl FromStr for UnaryOperator {
    type Err = String;

    fn from_str(s: &str) -> (r: Result<Self, String>)
        ensures
            match r {
                Ok(k) => k.label() == s@,
                Err(m) => (forall|k: UnaryOperator| k.label() != s@) && m@ == "Invalid unary operator: "@ + s@,
            },
    {
        UnaryOperator::parse_str(s)
    }
}

/// An operator with two operands.
#[derive(Debug, Clone, Copy, PartialEq, Eq, Hash, Structural)]
pub enum BinaryOperator {
    Add,
    Subtract,
    Multiply,
    Divide,
    Modulo,
    Power,
    Equal,
    NotEqual,
    LessThan,
    LessThanOrEqual,
    GreaterThan,
    GreaterThanOrEqual,
    And,
    Or,
    BitwiseAnd,
    BitwiseOr,
    BitwiseXor,
    LeftShift,
    RightShift,
}

impl BinaryOperator {
    pub open spec fn label(self) -> Seq<char> {
        match self {
            BinaryOperator::Add => "+"@,
            BinaryOperator::Subtract => "-"@,
            BinaryOperator::Multiply => "*"@,
            BinaryOperator::Divide => "/"@,
            BinaryOperator::Modulo => "%"@,
            BinaryOperator::Power => "**"@,
            BinaryOperator::Equal => "=="@,
            BinaryOperator::NotEqual => "!="@,
            BinaryOperator::LessThan => "<"@,
            BinaryOperator::LessThanOrEqual => "<="@,
            BinaryOperator::GreaterThan => ">"@,
            BinaryOperator::GreaterThanOrEqual => ">="@,
            BinaryOperator::And => "&&"@,
            BinaryOperator::Or => "||"@,
            BinaryOperator::BitwiseAnd => "&"@,
            BinaryOperator::BitwiseOr => "|"@,
            BinaryOperator::BitwiseXor => "^"@,
            BinaryOperator::LeftShift => "<<"@,
            BinaryOperator::RightShift => ">>"@,
        }
    }

    /// Distinct values have distinct labels.
    pub proof fn label_injective(a: BinaryOperator, b: BinaryOperator)
        requires
            a.label() == b.label(),
        ensures
            a == b,
    {
        reveal_strlit("+");
        assert("+"@.len() == 1 && "+"@[0] == '+');
        reveal_strlit("-");
        assert("-"@.len() == 1 && "-"@[0] == '-');
        reveal_strlit("*");
        assert("*"@.len() == 1 && "*"@[0] == '*');
        reveal_strlit("/");
        assert("/"@.len() == 1 && "/"@[0] == '/');
        reveal_strlit("%");
        assert("%"@.len() == 1 && "%"@[0] == '%');
        reveal_strlit("**");
        assert("**"@.len() == 2 && "**"@[0] == '*' && "**"@[1] == '*');
        reveal_strlit("==");
        assert("=="@.len() == 2 && "=="@[0] == '=' && "=="@[1] == '=');
        reveal_strlit("!=");
        assert("!="@.len() == 2 && "!="@[0] == '!' && "!="@[1] == '=');
        reveal_strlit("<");
        assert("<"@.len() == 1 && "<"@[0] == '<');
        reveal_strlit("<=");
        assert("<="@.len() == 2 && "<="@[0] == '<' && "<="@[1] == '=');
        reveal_strlit(">");
        assert(">"@.len() == 1 && ">"@[0] == '>');
        reveal_strlit(">=");
        assert(">="@.len() == 2 && ">="@[0] == '>' && ">="@[1] == '=');
        reveal_strlit("&&");
        assert("&&"@.len() == 2 && "&&"@[0] == '&' && "&&"@[1] == '&');
        reveal_strlit("||");
        assert("||"@.len() == 2 && "||"@[0] == '|' && "||"@[1] == '|');
        reveal_strlit("&");
        assert("&"@.len() == 1 && "&"@[0] == '&');
        reveal_strlit("|");
        assert("|"@.len() == 1 && "|"@[0] == '|');
        reveal_strlit("^");
        assert("^"@.len() == 1 && "^"@[0] == '^');
        reveal_strlit("<<");
        assert("<<"@.len() == 2 && "<<"@[0] == '<' && "<<"@[1] == '<');
        reveal_strlit(">>");
        assert(">>"@.len() == 2 && ">>"@[0] == '>' && ">>"@[1] == '>');
    }

    pub fn as_str(&self) -> (r: &'static str)
        ensures
            r@ == self.label(),
            r@ == match self {
                BinaryOperator::Add => "+"@,
                BinaryOperator::Subtract => "-"@,
                BinaryOperator::Multiply => "*"@,
                BinaryOperator::Divide => "/"@,
                BinaryOperator::Modulo => "%"@,
                BinaryOperator::Power => "**"@,
                BinaryOperator::Equal => "=="@,
                BinaryOperator::NotEqual => "!="@,
                BinaryOperator::LessThan => "<"@,
                BinaryOperator::LessThanOrEqual => "<="@,
                BinaryOperator::GreaterThan => ">"@,
                BinaryOperator::GreaterThanOrEqual => ">="@,
                BinaryOperator::And => "&&"@,
                BinaryOperator::Or => "||"@,
                BinaryOperator::BitwiseAnd => "&"@,
                BinaryOperator::BitwiseOr => "|"@,
                BinaryOperator::BitwiseXor => "^"@,
                BinaryOperator::LeftShift => "<<"@,
                BinaryOperator::RightShift => ">>"@,
            },
    {
        match self {
            BinaryOperator::Add => "+",
            BinaryOperator::Subtract => "-",
            BinaryOperator::Multiply => "*",
            BinaryOperator::Divide => "/",
            BinaryOperator::Modulo => "%",
            BinaryOperator::Power => "**",
            BinaryOperator::Equal => "==",
            BinaryOperator::NotEqual => "!=",
            BinaryOperator::LessThan => "<",
            BinaryOperator::LessThanOrEqual => "<=",
            BinaryOperator::GreaterThan => ">",
            BinaryOperator::GreaterThanOrEqual => ">=",
            BinaryOperator::And => "&&",
            BinaryOperator::Or => "||",
            BinaryOperator::BitwiseAnd => "&",
            BinaryOperator::BitwiseOr => "|",
            BinaryOperator::BitwiseXor => "^",
            BinaryOperator::LeftShift => "<<",
            BinaryOperator::RightShift => ">>",
        }
    }

    /// The value with label `s`.
    pub fn parse_str(s: &str) -> (r: Result<BinaryOperator, String>)
        ensures
            match r {
                Ok(k) => k.label() == s@,
                Err(m) => (forall|k: BinaryOperator| k.label() != s@) && m@ == "Unknown binary operator: "@ + s@,
            },
            s@ == "+"@ ==> r is Ok && r->Ok_0 == BinaryOperator::Add,
            s@ == "-"@ ==> r is Ok && r->Ok_0 == BinaryOperator::Subtract,
            s@ == "*"@ ==> r is Ok && r->Ok_0 == BinaryOperator::Multiply,
            s@ == "/"@ ==> r is Ok && r->Ok_0 == BinaryOperator::Divide,
            s@ == "%"@ ==> r is Ok && r->Ok_0 == BinaryOperator::Modulo,
            s@ == "**"@ ==> r is Ok && r->Ok_0 == BinaryOperator::Power,
            s@ == "=="@ ==> r is Ok && r->Ok_0 == BinaryOperator::Equal,
            s@ == "!="@ ==> r is Ok && r->Ok_0 == BinaryOperator::NotEqual,
            s@ == "<"@ ==> r is Ok && r->Ok_0 == BinaryOperator::LessThan,
            s@ == "<="@ ==> r is Ok && r->Ok_0 == BinaryOperator::LessThanOrEqual,
            s@ == ">"@ ==> r is Ok && r->Ok_0 == BinaryOperator::GreaterThan,
            s@ == ">="@ ==> r is Ok && r->Ok_0 == BinaryOperator::GreaterThanOrEqual,
            s@ == "&&"@ ==> r is Ok && r->Ok_0 == BinaryOperator::And,
            s@ == "||"@ ==> r is Ok && r->Ok_0 == BinaryOperator::Or,
            s@ == "&"@ ==> r is Ok && r->Ok_0 == BinaryOperator::BitwiseAnd,
            s@ == "|"@ ==> r is Ok && r->Ok_0 == BinaryOperator::BitwiseOr,
            s@ == "^"@ ==> r is Ok && r->Ok_0 == BinaryOperator::BitwiseXor,
            s@ == "<<"@ ==> r is Ok && r->Ok_0 == BinaryOperator::LeftShift,
            s@ == ">>"@ ==> r is Ok && r->Ok_0 == BinaryOperator::RightShift,
    {
        proof {
            assert forall|a: BinaryOperator, b: BinaryOperator| #[trigger]
                a.label() == #[trigger] b.label() implies a == b by {
                BinaryOperator::label_injective(a, b);
            }
            assert(BinaryOperator::Add.label() == "+"@);
            assert(BinaryOperator::Subtract.label() == "-"@);
            assert(BinaryOperator::Multiply.label() == "*"@);
            assert(BinaryOperator::Divide.label() == "/"@);
            assert(BinaryOperator::Modulo.label() == "%"@);
            assert(BinaryOperator::Power.label() == "**"@);
            assert(BinaryOperator::Equal.label() == "=="@);
            assert(BinaryOperator::NotEqual.label() == "!="@);
            assert(BinaryOperator::LessThan.label() == "<"@);
            assert(BinaryOperator::LessThanOrEqual.label() == "<="@);
            assert(BinaryOperator::GreaterThan.label() == ">"@);
            assert(BinaryOperator::GreaterThanOrEqual.label() == ">="@);
            assert(BinaryOperator::And.label() == "&&"@);
            assert(BinaryOperator::Or.label() == "||"@);
            assert(BinaryOperator::BitwiseAnd.label() == "&"@);
            assert(BinaryOperator::BitwiseOr.label() == "|"@);
            assert(BinaryOperator::BitwiseXor.label() == "^"@);
            assert(BinaryOperator::LeftShift.label() == "<<"@);
            assert(BinaryOperator::RightShift.label() == ">>"@);
        }
        if text_eq(s, "+") {
            Ok(BinaryOperator::Add)
        } else if text_eq(s, "-") {
            Ok(BinaryOperator::Subtract)
        } else if text_eq(s, "*") {
            Ok(BinaryOperator::Multiply)
        } else if text_eq(s, "/") {
            Ok(BinaryOperator::Divide)
        } else if text_eq(s, "%") {
            Ok(BinaryOperator::Modulo)
        } else if text_eq(s, "**") {
            Ok(BinaryOperator::Power)
        } else if text_eq(s, "==") {
            Ok(BinaryOperator::Equal)
        } else if text_eq(s, "!=") {
            Ok(BinaryOperator::NotEqual)
        } else if text_eq(s, "<") {
            Ok(BinaryOperator::LessThan)
        } else if text_eq(s, "<=") {
            Ok(BinaryOperator::LessThanOrEqual)
        } else if text_eq(s, ">") {
            Ok(BinaryOperator::GreaterThan)
        } else if text_eq(s, ">=") {
            Ok(BinaryOperator::GreaterThanOrEqual)
        } else if text_eq(s, "&&") {
            Ok(BinaryOperator::And)
        } else if text_eq(s, "||") {
            Ok(BinaryOperator::Or)
        } else if text_eq(s, "&") {
            Ok(BinaryOperator::BitwiseAnd)
        } else if text_eq(s, "|") {
            Ok(BinaryOperator::BitwiseOr)
        } else if text_eq(s, "^") {
            Ok(BinaryOperator::BitwiseXor)
        } else if text_eq(s, "<<") {
            Ok(BinaryOperator::LeftShift)
        } else if text_eq(s, ">>") {
            Ok(BinaryOperator::RightShift)
        } else {
            Err(rejection("Unknown binary operator: ", s))
        }
    }
}

impl FromStr for BinaryOperator {
    type Err = String;

    fn from_str(s: &str) -> (r: Result<Self, String>)
        ensures
            match r {
                Ok(k) => k.label() == s@,
                Err(m) => (forall|k: BinaryOperator| k.label() != s@) && m@ == "Unknown binary operator: "@ + s@,
            },
    {
        BinaryOperator::parse_str(s)
    }
}

/// An operator that assigns.
#[derive(Debug, Clone, Copy, PartialEq, Eq, Hash, Structural)]
pub enum AssignmentOperator {
    Assign,
    AddAssign,
    SubtractAssign,
    MultiplyAssign,
    DivideAssign,
    ModuloAssign,
    BitwiseAndAssign,
    BitwiseOrAssign,
    BitwiseXorAssign,
    LeftShiftAssign,
    RightShiftAssign,
}

impl AssignmentOperator {
    pub open spec fn label(self) -> Seq<char> {
        match self {
            AssignmentOperator::Assign => "="@,
            AssignmentOperator::AddAssign => "+="@,
            AssignmentOperator::SubtractAssign => "-="@,
            AssignmentOperator::MultiplyAssign => "*="@,
            AssignmentOperator::DivideAssign => "/="@,
            AssignmentOperator::ModuloAssign => "%="@,
            AssignmentOperator::BitwiseAndAssign => "&="@,
            AssignmentOperator::BitwiseOrAssign => "|="@,
            AssignmentOperator::BitwiseXorAssign => "^="@,
            AssignmentOperator::LeftShiftAssign => "<<="@,
            AssignmentOperator::RightShiftAssign => ">>="@,
        }
    }

    /// Distinct values have distinct labels.
    pub proof fn label_injective(a: AssignmentOperator, b: AssignmentOperator)
        requires
            a.label() == b.label(),
        ensures
            a == b,
    {
        reveal_strlit("=");
        assert("="@.len() == 1 && "="@[0] == '=');
        reveal_strlit("+=");
        assert("+="@.len() == 2 && "+="@[0] == '+' && "+="@[1] == '=');
        reveal_strlit("-=");
        assert("-="@.len() == 2 && "-="@[0] == '-' && "-="@[1] == '=');
        reveal_strlit("*=");
        assert("*="@.len() == 2 && "*="@[0] == '*' && "*="@[1] == '=');
        reveal_strlit("/=");
        assert("/="@.len() == 2 && "/="@[0] == '/' && "/="@[1] == '=');
        reveal_strlit("%=");
        assert("%="@.len() == 2 && "%="@[0] == '%' && "%="@[1] == '=');
        reveal_strlit("&=");
        assert("&="@.len() == 2 && "&="@[0] == '&' && "&="@[1] == '=');
        reveal_strlit("|=");
        assert("|="@.len() == 2 && "|="@[0] == '|' && "|="@[1] == '=');
        reveal_strlit("^=");
        assert("^="@.len() == 2 && "^="@[0] == '^' && "^="@[1] == '=');
        reveal_strlit("<<=");
        assert("<<="@.len() == 3 && "<<="@[0] == '<' && "<<="@[1] == '<' && "<<="@[2] == '=');
        reveal_strlit(">>=");
        assert(">>="@.len() == 3 && ">>="@[0] == '>' && ">>="@[1] == '>' && ">>="@[2] == '=');
    }

    pub fn as_str(&self) -> (r: &'static str)
        ensures
            r@ == self.label(),
            r@ == match self {
                AssignmentOperator::Assign => "="@,
                AssignmentOperator::AddAssign => "+="@,
                AssignmentOperator::SubtractAssign => "-="@,
                AssignmentOperator::MultiplyAssign => "*="@,
                AssignmentOperator::DivideAssign => "/="@,
                AssignmentOperator::ModuloAssign => "%="@,
                AssignmentOperator::BitwiseAndAssign => "&="@,
                AssignmentOperator::BitwiseOrAssign => "|="@,
                AssignmentOperator::BitwiseXorAssign => "^="@,
                AssignmentOperator::LeftShiftAssign => "<<="@,
                AssignmentOperator::RightShiftAssign => ">>="@,
            },
    {
        match self {
            AssignmentOperator::Assign => "=",
            AssignmentOperator::AddAssign => "+=",
            AssignmentOperator::SubtractAssign => "-=",
            AssignmentOperator::MultiplyAssign => "*=",
            AssignmentOperator::DivideAssign => "/=",
            AssignmentOperator::ModuloAssign => "%=",
            AssignmentOperator::BitwiseAndAssign => "&=",
            AssignmentOperator::BitwiseOrAssign => "|=",
            AssignmentOperator::BitwiseXorAssign => "^=",
            AssignmentOperator::LeftShiftAssign => "<<=",
            AssignmentOperator::RightShiftAssign => ">>=",
        }
    }

    /// The value with label `s`.
    pub fn parse_str(s: &str) -> (r: Result<AssignmentOperator, String>)
        ensures
            match r {
                Ok(k) => k.label() == s@,
                Err(m) => (forall|k: AssignmentOperator| k.label() != s@) && m@ == "Unknown assignment operator: "@ + s@,
            },
            s@ == "="@ ==> r is Ok && r->Ok_0 == AssignmentOperator::Assign,
            s@ == "+="@ ==> r is Ok && r->Ok_0 == AssignmentOperator::AddAssign,
            s@ == "-="@ ==> r is Ok && r->Ok_0 == AssignmentOperator::SubtractAssign,
            s@ == "*="@ ==> r is Ok && r->Ok_0 == AssignmentOperator::MultiplyAssign,
            s@ == "/="@ ==> r is Ok && r->Ok_0 == AssignmentOperator::DivideAssign,
            s@ == "%="@ ==> r is Ok && r->Ok_0 == AssignmentOperator::ModuloAssign,
            s@ == "&="@ ==> r is Ok && r->Ok_0 == AssignmentOperator::BitwiseAndAssign,
            s@ == "|="@ ==> r is Ok && r->Ok_0 == AssignmentOperator::BitwiseOrAssign,
            s@ == "^="@ ==> r is Ok && r->Ok_0 == AssignmentOperator::BitwiseXorAssign,
            s@ == "<<="@ ==> r is Ok && r->Ok_0 == AssignmentOperator::LeftShiftAssign,
            s@ == ">>="@ ==> r is Ok && r->Ok_0 == AssignmentOperator::RightShiftAssign,
    {
        proof {
            assert forall|a: AssignmentOperator, b: AssignmentOperator| #[trigger]
                a.label() == #[trigger] b.label() implies a == b by {
                AssignmentOperator::label_injective(a, b);
            }
            assert(AssignmentOperator::Assign.label() == "="@);
            assert(AssignmentOperator::AddAssign.label() == "+="@);
            assert(AssignmentOperator::SubtractAssign.label() == "-="@);
            assert(AssignmentOperator::MultiplyAssign.label() == "*="@);
            assert(AssignmentOperator::DivideAssign.label() == "/="@);
            assert(AssignmentOperator::ModuloAssign.label() == "%="@);
            assert(AssignmentOperator::BitwiseAndAssign.label() == "&="@);
            assert(AssignmentOperator::BitwiseOrAssign.label() == "|="@);
            assert(AssignmentOperator::BitwiseXorAssign.label() == "^="@);
            assert(AssignmentOperator::LeftShiftAssign.label() == "<<="@);
            assert(AssignmentOperator::RightShiftAssign.label() == ">>="@);
        }
        if text_eq(s, "=") {
            Ok(AssignmentOperator::Assign)
        } else if text_eq(s, "+=") {
            Ok(AssignmentOperator::AddAssign)
        } else if text_eq(s, "-=") {
            Ok(AssignmentOperator::SubtractAssign)
        } else if text_eq(s, "*=") {
            Ok(AssignmentOperator::MultiplyAssign)
        } else if text_eq(s, "/=") {
            Ok(AssignmentOperator::DivideAssign)
        } else if text_eq(s, "%=") {
            Ok(AssignmentOperator::ModuloAssign)
        } else if text_eq(s, "&=") {
            Ok(AssignmentOperator::BitwiseAndAssign)
        } else if text_eq(s, "|=") {
            Ok(AssignmentOperator::BitwiseOrAssign)
        } else if text_eq(s, "^=") {
            Ok(AssignmentOperator::BitwiseXorAssign)
        } else if text_eq(s, "<<=") {
            Ok(AssignmentOperator::LeftShiftAssign)
        } else if text_eq(s, ">>=") {
            Ok(AssignmentOperator::RightShiftAssign)
        } else {
            Err(rejection("Unknown assignment operator: ", s))
        }
    }
}

impl FromStr for AssignmentOperator {
    type Err = String;

    fn from_str(s: &str) -> (r: Result<Self, String>)
        ensures
            match r {
                Ok(k) => k.label() == s@,
                Err(m) => (forall|k: AssignmentOperator| k.label() != s@) && m@ == "Unknown assignment operator: "@ + s@,
            },
    {
        AssignmentOperator::parse_str(s)
    }
}

impl FunctionKind {
    pub open spec fn label(self) -> Seq<char> {
        match self {
            FunctionKind::Constructor => "constructor"@,
            FunctionKind::Function => "function"@,
            FunctionKind::Fallback => "fallback"@,
            FunctionKind::Receive => "receive"@,
            FunctionKind::FreeFunction => "freeFunction"@,
        }
    }

    /// Distinct values have distinct labels.
    pub proof fn label_injective(a: FunctionKind, b: FunctionKind)
        requires
            a.label() == b.label(),
        ensures
            a == b,
    {
        reveal_strlit("constructor");
        assert("constructor"@.len() == 11 && "constructor"@[0] == 'c' && "constructor"@[1] == 'o' && "constructor"@[2] == 'n');
        reveal_strlit("function");
        assert("function"@.len() == 8 && "function"@[0] == 'f' && "function"@[1] == 'u' && "function"@[2] == 'n');
        reveal_strlit("fallback");
        assert("fallback"@.len() == 8 && "fallback"@[0] == 'f' && "fallback"@[1] == 'a' && "fallback"@[2] == 'l');
        reveal_strlit("receive");
        assert("receive"@.len() == 7 && "receive"@[0] == 'r' && "receive"@[1] == 'e' && "receive"@[2] == 'c');
        reveal_strlit("freeFunction");
        assert("freeFunction"@.len() == 12 && "freeFunction"@[0] == 'f' && "freeFunction"@[1] == 'r' && "freeFunction"@[2] == 'e');
    }

    /// The value with label `s`.
    pub fn parse_str(s: &str) -> (r: Result<FunctionKind, String>)
        ensures
            match r {
                Ok(k) => k.label() == s@,
                Err(m) => (forall|k: FunctionKind| k.label() != s@) && m@ == "Unknown function kind: "@ + s@,
            },
            s@ == "constructor"@ ==> r is Ok && r->Ok_0 == FunctionKind::Constructor,
            s@ == "function"@ ==> r is Ok && r->Ok_0 == FunctionKind::Function,
            s@ == "fallback"@ ==> r is Ok && r->Ok_0 == FunctionKind::Fallback,
            s@ == "receive"@ ==> r is Ok && r->Ok_0 == FunctionKind::Receive,
            s@ == "freeFunction"@ ==> r is Ok && r->Ok_0 == FunctionKind::FreeFunction,
    {
        proof {
            assert forall|a: FunctionKind, b: FunctionKind| #[trigger]
                a.label() == #[trigger] b.label() implies a == b by {
                FunctionKind::label_injective(a, b);
            }
            assert(FunctionKind::Constructor.label() == "constructor"@);
            assert(FunctionKind::Function.label() == "function"@);
            assert(FunctionKind::Fallback.label() == "fallback"@);
            assert(FunctionKind::Receive.label() == "receive"@);
            assert(FunctionKind::FreeFunction.label() == "freeFunction"@);
        }
        if text_eq(s, "constructor") {
            Ok(FunctionKind::Constructor)
        } else if text_eq(s, "function") {
            Ok(FunctionKind::Function)
        } else if text_eq(s, "fallback") {
            Ok(FunctionKind::Fallback)
        } else if text_eq(s, "receive") {
            Ok(FunctionKind::Receive)
        } else if text_eq(s, "freeFunction") {
            Ok(FunctionKind::FreeFunction)
        } else {
            Err(rejection("Unknown function kind: ", s))
        }
    }
}

impl FromStr for FunctionKind {
    type Err = String;

    fn from_str(s: &str) -> (r: Result<Self, String>)
        ensures
            match r {
                Ok(k) => k.label() == s@,
                Err(m) => (forall|k: FunctionKind| k.label() != s@) && m@ == "Unknown function kind: "@ + s@,
            },
    {
        FunctionKind::parse_str(s)
    }
}

impl VariableMutability {
    pub open spec fn label(self) -> Seq<char> {
        match self {
            VariableMutability::Mutable => "mutable"@,
            VariableMutability::Immutable => "immutable"@,
            VariableMutability::Constant => "constant"@,
        }
    }

    /// Distinct values have distinct labels.
    pub proof fn label_injective(a: VariableMutability, b: VariableMutability)
        requires
            a.label() == b.label(),
        ensures
            a == b,
    {
        reveal_strlit("mutable");
        assert("mutable"@.len() == 7 && "mutable"@[0] == 'm' && "mutable"@[1] == 'u' && "mutable"@[2] == 't');
        reveal_strlit("immutable");
        assert("immutable"@.len() == 9 && "immutable"@[0] == 'i' && "immutable"@[1] == 'm' && "immutable"@[2] == 'm');
        reveal_strlit("constant");
        assert("constant"@.len() == 8 && "constant"@[0] == 'c' && "constant"@[1] == 'o' && "constant"@[2] == 'n');
    }

    /// The value with label `s`.
    pub fn parse_str(s: &str) -> (r: Result<VariableMutability, String>)
        ensures
            match r {
                Ok(k) => k.label() == s@,
                Err(m) => (forall|k: VariableMutability| k.label() != s@) && m@ == "Unknown mutability: "@ + s@,
            },
            s@ == "mutable"@ ==> r is Ok && r->Ok_0 == VariableMutability::Mutable,
            s@ == "immutable"@ ==> r is Ok && r->Ok_0 == VariableMutability::Immutable,
            s@ == "constant"@ ==> r is Ok && r->Ok_0 == VariableMutability::Constant,
    {
        proof {
            assert forall|a: VariableMutability, b: VariableMutability| #[trigger]
                a.label() == #[trigger] b.label() implies a == b by {
                VariableMutability::label_injective(a, b);
            }
            assert(VariableMutability::Mutable.label() == "mutable"@);
            assert(VariableMutability::Immutable.label() == "immutable"@);
            assert(VariableMutability::Constant.label() == "constant"@);
        }
        if text_eq(s, "mutable") {
            Ok(VariableMutability::Mutable)
        } else if text_eq(s, "immutable") {
            Ok(VariableMutability::Immutable)
        } else if text_eq(s, "constant") {
            Ok(VariableMutability::Constant)
        } else {
            Err(rejection("Unknown mutability: ", s))
        }
    }
}

impl FromStr for VariableMutability {
    type Err = String;

    fn from_str(s: &str) -> (r: Result<Self, String>)
        ensures
            match r {
                Ok(k) => k.label() == s@,
                Err(m) => (forall|k: VariableMutability| k.label() != s@) && m@ == "Unknown mutability: "@ + s@,
            },
    {
        VariableMutability::parse_str(s)
    }
}

impl ContractKind {
    pub open spec fn label(self) -> Seq<char> {
        match self {
            ContractKind::Contract => "contract"@,
            ContractKind::Library => "library"@,
            ContractKind::Abstract => "abstract"@,
            ContractKind::Interface => "interface"@,
        }
    }

    /// Distinct values have distinct labels.
    pub proof fn label_injective(a: ContractKind, b: ContractKind)
        requires
            a.label() == b.label(),
        ensures
            a == b,
    {
        reveal_strlit("contract");
        assert("contract"@.len() == 8 && "contract"@[0] == 'c' && "contract"@[1] == 'o' && "contract"@[2] == 'n');
        reveal_strlit("library");
        assert("library"@.len() == 7 && "library"@[0] == 'l' && "library"@[1] == 'i' && "library"@[2] == 'b');
        reveal_strlit("abstract");
        assert("abstract"@.len() == 8 && "abstract"@[0] == 'a' && "abstract"@[1] == 'b' && "abstract"@[2] == 's');
        reveal_strlit("interface");
        assert("interface"@.len() == 9 && "interface"@[0] == 'i' && "interface"@[1] == 'n' && "interface"@[2] == 't');
    }

    /// The value with label `s`.
    pub fn parse_str(s: &str) -> (r: Result<ContractKind, String>)
        ensures
            match r {
                Ok(k) => k.label() == s@,
                Err(m) => (forall|k: ContractKind| k.label() != s@) && m@ == "Invalid contract kind: "@ + s@,
            },
            s@ == "contract"@ ==> r is Ok && r->Ok_0 == ContractKind::Contract,
            s@ == "library"@ ==> r is Ok && r->Ok_0 == ContractKind::Library,
            s@ == "abstract"@ ==> r is Ok && r->Ok_0 == ContractKind::Abstract,
            s@ == "interface"@ ==> r is Ok && r->Ok_0 == ContractKind::Interface,
    {
        proof {
            assert forall|a: ContractKind, b: ContractKind| #[trigger]
                a.label() == #[trigger] b.label() implies a == b by {
                ContractKind::label_injective(a, b);
            }
            assert(ContractKind::Contract.label() == "contract"@);
            assert(ContractKind::Library.label() == "library"@);
            assert(ContractKind::Abstract.label() == "abstract"@);
            assert(ContractKind::Interface.label() == "interface"@);
        }
        if text_eq(s, "contract") {
            Ok(ContractKind::Contract)
        } else if text_eq(s, "library") {
            Ok(ContractKind::Library)
        } else if text_eq(s, "abstract") {
            Ok(ContractKind::Abstract)
        } else if text_eq(s, "interface") {
            Ok(ContractKind::Interface)
        } else {
            Err(rejection("Invalid contract kind: ", s))
        }
    }
}

impl FromStr for ContractKind {
    type Err = String;

    fn from_str(s: &str) -> (r: Result<Self, String>)
        ensures
            match r {
                Ok(k) => k.label() == s@,
                Err(m) => (forall|k: ContractKind| k.label() != s@) && m@ == "Invalid contract kind: "@ + s@,
            },
    {
        ContractKind::parse_str(s)
    }
}
} // verus!
