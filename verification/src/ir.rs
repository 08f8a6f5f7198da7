//! The operator vocabularies of the Opy HIR and the Workshop IR, and source
//! positions.

use vstd::prelude::*;

use crate::text::str_eq;

verus! {

/// The typed binary operators of the v0.1 surface.
#[derive(Debug, Clone, Copy, PartialEq, Eq, Structural)]
pub enum BinaryOp {
    Add,
    Subtract,
    Multiply,
    Divide,
    Modulo,
    Power,
    Equal,
    NotEqual,
    Less,
    LessEqual,
    Greater,
    GreaterEqual,
    And,
    Or,
}

/// The protocol spelling of a binary operator.
pub open spec fn binary_op_name(op: BinaryOp) -> Seq<char> {
    match op {
        BinaryOp::Add => "+"@,
        BinaryOp::Subtract => "-"@,
        BinaryOp::Multiply => "*"@,
        BinaryOp::Divide => "/"@,
        BinaryOp::Modulo => "%"@,
        BinaryOp::Power => "**"@,
        BinaryOp::Equal => "=="@,
        BinaryOp::NotEqual => "!="@,
        BinaryOp::Less => "<"@,
        BinaryOp::LessEqual => "<="@,
        BinaryOp::Greater => ">"@,
        BinaryOp::GreaterEqual => ">="@,
        BinaryOp::And => "and"@,
        BinaryOp::Or => "or"@,
    }
}

/// The binary operator a protocol spelling names.
pub open spec fn binary_op_named(s: Seq<char>) -> Option<BinaryOp> {
    if s == "+"@ {
        Some(BinaryOp::Add)
    } else if s == "-"@ {
        Some(BinaryOp::Subtract)
    } else if s == "*"@ {
        Some(BinaryOp::Multiply)
    } else if s == "/"@ {
        Some(BinaryOp::Divide)
    } else if s == "%"@ {
        Some(BinaryOp::Modulo)
    } else if s == "**"@ {
        Some(BinaryOp::Power)
    } else if s == "=="@ {
        Some(BinaryOp::Equal)
    } else if s == "!="@ {
        Some(BinaryOp::NotEqual)
    } else if s == "<"@ {
        Some(BinaryOp::Less)
    } else if s == "<="@ {
        Some(BinaryOp::LessEqual)
    } else if s == ">"@ {
        Some(BinaryOp::Greater)
    } else if s == ">="@ {
        Some(BinaryOp::GreaterEqual)
    } else if s == "and"@ {
        Some(BinaryOp::And)
    } else if s == "or"@ {
        Some(BinaryOp::Or)
    } else {
        None
    }
}

impl BinaryOp {
    /// The protocol spelling of this operator.
    pub fn as_str(self) -> (r: &'static str)
        ensures
            r@ == binary_op_name(self),
    {
        match self {
            BinaryOp::Add => "+",
            BinaryOp::Subtract => "-",
            BinaryOp::Multiply => "*",
            BinaryOp::Divide => "/",
            BinaryOp::Modulo => "%",
            BinaryOp::Power => "**",
            BinaryOp::Equal => "==",
            BinaryOp::NotEqual => "!=",
            BinaryOp::Less => "<",
            BinaryOp::LessEqual => "<=",
            BinaryOp::Greater => ">",
            BinaryOp::GreaterEqual => ">=",
            BinaryOp::And => "and",
            BinaryOp::Or => "or",
        }
    }

    /// Parse a protocol operator spelling.
    pub fn parse(op: &str) -> (r: Option<BinaryOp>)
        ensures
            r == binary_op_named(op@),
    {
        if str_eq(op, "+") {
            Some(BinaryOp::Add)
        } else if str_eq(op, "-") {
            Some(BinaryOp::Subtract)
        } else if str_eq(op, "*") {
            Some(BinaryOp::Multiply)
        } else if str_eq(op, "/") {
            Some(BinaryOp::Divide)
        } else if str_eq(op, "%") {
            Some(BinaryOp::Modulo)
        } else if str_eq(op, "**") {
            Some(BinaryOp::Power)
        } else if str_eq(op, "==") {
            Some(BinaryOp::Equal)
        } else if str_eq(op, "!=") {
            Some(BinaryOp::NotEqual)
        } else if str_eq(op, "<") {
            Some(BinaryOp::Less)
        } else if str_eq(op, "<=") {
            Some(BinaryOp::LessEqual)
        } else if str_eq(op, ">") {
            Some(BinaryOp::Greater)
        } else if str_eq(op, ">=") {
            Some(BinaryOp::GreaterEqual)
        } else if str_eq(op, "and") {
            Some(BinaryOp::And)
        } else if str_eq(op, "or") {
            Some(BinaryOp::Or)
        } else {
            None
        }
    }
}

/// Parsing the spelling of a binary operator gives the operator back.
pub proof fn lemma_binary_op_round_trip(op: BinaryOp)
    ensures
        binary_op_named(binary_op_name(op)) == Some(op),
{
    reveal_strlit("+");
    reveal_strlit("-");
    reveal_strlit("*");
    reveal_strlit("/");
    reveal_strlit("%");
    reveal_strlit("**");
    reveal_strlit("==");
    reveal_strlit("!=");
    reveal_strlit("<");
    reveal_strlit("<=");
    reveal_strlit(">");
    reveal_strlit(">=");
    reveal_strlit("and");
    reveal_strlit("or");
    match op {
        BinaryOp::Add => {},
        BinaryOp::Subtract => {
            assert("-"@[0] != "+"@[0]);
        },
        BinaryOp::Multiply => {
            assert("*"@[0] != "+"@[0]);
            assert("*"@[0] != "-"@[0]);
        },
        BinaryOp::Divide => {
            assert("/"@[0] != "+"@[0]);
            assert("/"@[0] != "-"@[0]);
            assert("/"@[0] != "*"@[0]);
        },
        BinaryOp::Modulo => {
            assert("%"@[0] != "+"@[0]);
            assert("%"@[0] != "-"@[0]);
            assert("%"@[0] != "*"@[0]);
            assert("%"@[0] != "/"@[0]);
        },
        BinaryOp::Power => {
            assert("**"@.len() != "+"@.len());
            assert("**"@.len() != "-"@.len());
            assert("**"@.len() != "*"@.len());
            assert("**"@.len() != "/"@.len());
            assert("**"@.len() != "%"@.len());
        },
        BinaryOp::Equal => {
            assert("=="@.len() != "+"@.len());
            assert("=="@.len() != "-"@.len());
            assert("=="@.len() != "*"@.len());
            assert("=="@.len() != "/"@.len());
            assert("=="@.len() != "%"@.len());
            assert("=="@[0] != "**"@[0]);
        },
        BinaryOp::NotEqual => {
            assert("!="@.len() != "+"@.len());
            assert("!="@.len() != "-"@.len());
            assert("!="@.len() != "*"@.len());
            assert("!="@.len() != "/"@.len());
            assert("!="@.len() != "%"@.len());
            assert("!="@[0] != "**"@[0]);
            assert("!="@[0] != "=="@[0]);
        },
        BinaryOp::Less => {
            assert("<"@[0] != "+"@[0]);
            assert("<"@[0] != "-"@[0]);
            assert("<"@[0] != "*"@[0]);
            assert("<"@[0] != "/"@[0]);
            assert("<"@[0] != "%"@[0]);
            assert("<"@.len() != "**"@.len());
            assert("<"@.len() != "=="@.len());
            assert("<"@.len() != "!="@.len());
        },
        BinaryOp::LessEqual => {
            assert("<="@.len() != "+"@.len());
            assert("<="@.len() != "-"@.len());
            assert("<="@.len() != "*"@.len());
            assert("<="@.len() != "/"@.len());
            assert("<="@.len() != "%"@.len());
            assert("<="@[0] != "**"@[0]);
            assert("<="@[0] != "=="@[0]);
            assert("<="@[0] != "!="@[0]);
            assert("<="@.len() != "<"@.len());
        },
        BinaryOp::Greater => {
            assert(">"@[0] != "+"@[0]);
            assert(">"@[0] != "-"@[0]);
            assert(">"@[0] != "*"@[0]);
            assert(">"@[0] != "/"@[0]);
            assert(">"@[0] != "%"@[0]);
            assert(">"@.len() != "**"@.len());
            assert(">"@.len() != "=="@.len());
            assert(">"@.len() != "!="@.len());
            assert(">"@[0] != "<"@[0]);
            assert(">"@.len() != "<="@.len());
        },
        BinaryOp::GreaterEqual => {
            assert(">="@.len() != "+"@.len());
            assert(">="@.len() != "-"@.len());
            assert(">="@.len() != "*"@.len());
            assert(">="@.len() != "/"@.len());
            assert(">="@.len() != "%"@.len());
            assert(">="@[0] != "**"@[0]);
            assert(">="@[0] != "=="@[0]);
            assert(">="@[0] != "!="@[0]);
            assert(">="@.len() != "<"@.len());
            assert(">="@[0] != "<="@[0]);
            assert(">="@.len() != ">"@.len());
        },
        BinaryOp::And => {
            assert("and"@.len() != "+"@.len());
            assert("and"@.len() != "-"@.len());
            assert("and"@.len() != "*"@.len());
            assert("and"@.len() != "/"@.len());
            assert("and"@.len() != "%"@.len());
            assert("and"@.len() != "**"@.len());
            assert("and"@.len() != "=="@.len());
            assert("and"@.len() != "!="@.len());
            assert("and"@.len() != "<"@.len());
            assert("and"@.len() != "<="@.len());
            assert("and"@.len() != ">"@.len());
            assert("and"@.len() != ">="@.len());
        },
        BinaryOp::Or => {
            assert("or"@.len() != "+"@.len());
            assert("or"@.len() != "-"@.len());
            assert("or"@.len() != "*"@.len());
            assert("or"@.len() != "/"@.len());
            assert("or"@.len() != "%"@.len());
            assert("or"@[0] != "**"@[0]);
            assert("or"@[0] != "=="@[0]);
            assert("or"@[0] != "!="@[0]);
            assert("or"@.len() != "<"@.len());
            assert("or"@[0] != "<="@[0]);
            assert("or"@.len() != ">"@.len());
            assert("or"@[0] != ">="@[0]);
            assert("or"@.len() != "and"@.len());
        },
    }
}

/// The typed unary operators of the v0.1 surface.
#[derive(Debug, Clone, Copy, PartialEq, Eq, Structural)]
pub enum UnaryOp {
    Negate,
    Not,
}

/// The protocol spelling of a unary operator.
pub open spec fn unary_op_name(op: UnaryOp) -> Seq<char> {
    match op {
        UnaryOp::Negate => "-"@,
        UnaryOp::Not => "not"@,
    }
}

/// The unary operator a protocol spelling names.
pub open spec fn unary_op_named(s: Seq<char>) -> Option<UnaryOp> {
    if s == "-"@ {
        Some(UnaryOp::Negate)
    } else if s == "not"@ {
        Some(UnaryOp::Not)
    } else {
        None
    }
}

impl UnaryOp {
    /// The protocol spelling of this operator.
    pub fn as_str(self) -> (r: &'static str)
        ensures
            r@ == unary_op_name(self),
    {
        match self {
            UnaryOp::Negate => "-",
            UnaryOp::Not => "not",
        }
    }

    /// Parse a protocol operator spelling.
    pub fn parse(op: &str) -> (r: Option<UnaryOp>)
        ensures
            r == unary_op_named(op@),
    {
        if str_eq(op, "-") {
            Some(UnaryOp::Negate)
        } else if str_eq(op, "not") {
            Some(UnaryOp::Not)
        } else {
            None
        }
    }
}

/// Parsing the spelling of a unary operator gives the operator back.
pub proof fn lemma_unary_op_round_trip(op: UnaryOp)
    ensures
        unary_op_named(unary_op_name(op)) == Some(op),
{
    reveal_strlit("-");
    reveal_strlit("not");
    assert("-"@.len() != "not"@.len());
}

/// The modify operators of the v0.1 surface.
#[derive(Debug, Clone, Copy, PartialEq, Eq, Structural)]
pub enum ModifyOp {
    Add,
    Subtract,
    Multiply,
    Divide,
    Modulo,
    RaiseToPower,
    AppendToArray,
    RemoveFromArray,
}

/// The canonical name of a modify operator.
pub open spec fn modify_op_name(op: ModifyOp) -> Seq<char> {
    match op {
        ModifyOp::Add => "Add"@,
        ModifyOp::Subtract => "Subtract"@,
        ModifyOp::Multiply => "Multiply"@,
        ModifyOp::Divide => "Divide"@,
        ModifyOp::Modulo => "Modulo"@,
        ModifyOp::RaiseToPower => "RaiseToPower"@,
        ModifyOp::AppendToArray => "AppendToArray"@,
        ModifyOp::RemoveFromArray => "RemoveFromArray"@,
    }
}

impl ModifyOp {
    /// A short canonical name for dumps and diagnostics.
    pub fn as_str(self) -> (r: &'static str)
        ensures
            r@ == modify_op_name(self),
    {
        match self {
            ModifyOp::Add => "Add",
            ModifyOp::Subtract => "Subtract",
            ModifyOp::Multiply => "Multiply",
            ModifyOp::Divide => "Divide",
            ModifyOp::Modulo => "Modulo",
            ModifyOp::RaiseToPower => "RaiseToPower",
            ModifyOp::AppendToArray => "AppendToArray",
            ModifyOp::RemoveFromArray => "RemoveFromArray",
        }
    }
}

/// A 1-based line/column position in a source file.
#[derive(Debug, Clone, Copy, PartialEq, Eq, Structural)]
pub struct Position {
    pub line: u32,
    pub col: u32,
}

impl Position {
    /// A position at line `line`, column `col` (both 1-based).
    pub fn new(line: u32, col: u32) -> (p: Position)
        ensures
            p.line == line,
            p.col == col,
    {
        Position { line, col }
    }

    /// Whether this position is valid (1-based).
    pub fn is_valid(self) -> (r: bool)
        ensures
            r == (self.line >= 1 && self.col >= 1),
    {
        self.line >= 1 && self.col >= 1
    }
}

} // verus!
