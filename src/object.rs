use vstd::prelude::*;

use crate::environment::Environment;
use crate::expression::{duplicate_identifiers, names_of, Identifier};
use crate::statement::{stmts_model, Block, StmtModel};

verus! {

/// One scope: names bound to values, the earliest binding first.
pub type Scope = Seq<(Seq<char>, Value)>;

/// A chain of scopes, the innermost first.
pub type Env = Seq<Scope>;

/// The mathematical model of a runtime value.
pub enum Value {
    Int(i64),
    Bool(bool),
    Null,
    /// A value on its way out of a function through `return`.
    Ret(Box<Value>),
    /// A runtime error with its message.
    Error(Seq<char>),
    /// A closure: parameter names, body, and the environment it was created in.
    Func(Seq<Seq<char>>, Seq<StmtModel>, Env),
}

/// A runtime value.
#[derive(Debug)]
pub enum Object {
    Boolean(Boolean),
    Error(Error),
    Function(Function),
    Integer(Integer),
    Null(Null),
    Return(Return),
}

#[derive(Debug, Clone, Copy, PartialEq, Eq, Structural)]
pub struct Integer {
    pub value: i64,
}

#[derive(Debug, Clone, Copy, PartialEq, Eq, Structural)]
pub struct Boolean {
    pub value: bool,
}

#[derive(Debug, Clone, Copy, PartialEq, Eq, Structural)]
pub struct Null;

/// A value that a `return` statement hands up to the enclosing call.
#[derive(Debug)]
pub struct Return {
    pub value: Box<Object>,
}

/// A runtime error.
#[derive(Debug)]
pub struct Error {
    pub message: String,
}

/// A closure: a function literal together with the environment it was evaluated in.
#[derive(Debug)]
pub struct Function {
    pub parameters: Vec<Identifier>,
    pub body: Block,
    pub env: Environment,
}

impl Object {
    /// The value this object stands for.
    pub open spec fn model(&self) -> Value
        decreases self,
    {
        match self {
            Object::Boolean(b) => Value::Bool(b.value),
            Object::Error(e) => Value::Error(e.message@),
            Object::Function(f) => Value::Func(
                names_of(f.parameters@),
                stmts_model(f.body.statements@),
                f.env.model(),
            ),
            Object::Integer(i) => Value::Int(i.value),
            Object::Null(_) => Value::Null,
            Object::Return(r) => Value::Ret(Box::new(r.value.model())),
        }
    }

    /// A copy of this object.
    pub fn duplicate(&self) -> (r: Object)
        ensures
            r.model() == self.model(),
        decreases self,
    {
        match self {
            Object::Boolean(b) => Object::Boolean(*b),
            Object::Error(e) => Object::Error(Error { message: e.message.clone() }),
            Object::Function(f) => Object::Function(
                Function {
                    parameters: duplicate_identifiers(&f.parameters),
                    body: f.body.duplicate(),
                    env: f.env.duplicate(),
                },
            ),
            Object::Integer(i) => Object::Integer(*i),
            Object::Null(n) => Object::Null(*n),
            Object::Return(r) => Object::Return(Return { value: Box::new(r.value.duplicate()) }),
        }
    }

    pub fn is_error(&self) -> (r: bool)
        ensures
            r == (self.model() is Error),
    {
        match self {
            Object::Error(_) => true,
            _ => false,
        }
    }

    /// Whether `if` takes this value as true.
    pub fn as_boolean(&self) -> (r: Boolean)
        ensures
            r.value == truthy(self.model()),
        decreases self,
    {
        match self {
            Object::Boolean(b) => Boolean { value: b.value },
            Object::Integer(i) => Boolean { value: i.value != 0 },
            Object::Return(r) => r.value.as_boolean(),
            _ => Boolean { value: false },
        }
    }
}

/// Truthiness: `true` and every integer but zero are true; `false`, zero, `null`,
/// errors and functions are false; a returned value is as true as what it holds.
pub open spec fn truthy(v: Value) -> bool
    decreases v,
{
    match v {
        Value::Bool(b) => b,
        Value::Int(n) => n != 0,
        Value::Ret(inner) => truthy(*inner),
        _ => false,
    }
}

impl Integer {
    pub fn new(value: i64) -> (r: Integer)
        ensures
            r.value == value,
    {
        Integer { value }
    }

    pub fn value(&self) -> (r: i64)
        ensures
            r == self.value,
    {
        self.value
    }
}

impl Boolean {
    pub fn new(value: bool) -> (r: Boolean)
        ensures
            r.value == value,
    {
        Boolean { value }
    }

    pub fn value(&self) -> (r: bool)
        ensures
            r == self.value,
    {
        self.value
    }

    /// The opposite truth value.
    pub fn not(self) -> (r: Boolean)
        ensures
            r.value == !self.value,
    {
        Boolean { value: !self.value }
    }
}

impl Null {
    pub fn new() -> (r: Null) {
        Null
    }
}

impl Return {
    pub fn new(value: Box<Object>) -> (r: Return)
        ensures
            r.value == value,
    {
        Return { value }
    }

    pub fn value(&self) -> (r: &Object)
        ensures
            r == &*self.value,
    {
        &self.value
    }
}

impl Error {
    pub fn new(message: String) -> (r: Error)
        ensures
            r.message@ == message@,
    {
        Error { message }
    }

    pub fn message(&self) -> (r: &str)
        ensures
            r@ == self.message@,
    {
        self.message.as_str()
    }
}

impl Function {
    pub fn new(parameters: Vec<Identifier>, body: Block, env: Environment) -> (r: Function)
        ensures
            r.parameters == parameters,
            r.body == body,
            r.env == env,
    {
        Function { parameters, body, env }
    }

    pub fn parameters(&self) -> (r: &Vec<Identifier>)
        ensures
            r == &self.parameters,
    {
        &self.parameters
    }

    pub fn body(&self) -> (r: &Block)
        ensures
            r == &self.body,
    {
        &self.body
    }

    pub fn env(&self) -> (r: &Environment)
        ensures
            r == &self.env,
    {
        &self.env
    }
}

} // verus!
