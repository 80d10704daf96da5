//! Plain values that travel between the host and the interpreter.

use vstd::prelude::*;

verus! {

/// Identifies a host type whose values live in userdata blocks.
pub type TypeKey = u64;

/// The key of `WrappedFailure`.
pub const FAILURE_KEY: u64 = 0;

/// The key of `String`.
pub const TEXT_KEY: u64 = 1;

/// The pseudo-index of the registry table.
pub const REGISTRY_INDEX: i32 = -1001000;

/// The registry slot that holds the main thread, from Lua 5.2 on.
pub const RIDX_MAINTHREAD: i64 = 1;

/// Asks a call for all the results that the callee left.
pub const MULTRET: i32 = -1;

/// Stack slots that a traceback needs.
pub const TRACEBACK_STACK: i32 = 11;

/// Free stack slots that every C function finds on entry.
pub const MIN_STACK: i32 = 20;

/// The most slots that one stack can hold.
pub const MAX_STACK: i32 = 1000000;

/// The Lua dialect that the interpreter runs.
#[derive(Clone, Copy, PartialEq, Eq, Structural, Debug)]
pub enum LuaVersion {
    Lua54,
    Lua53,
    Lua52,
    Lua51,
    LuaJit,
}

/// How a protected call ended.
#[derive(Clone, Copy, PartialEq, Eq, Structural, Debug)]
pub enum Status {
    Success,
    Yield,
    ErrRun,
    ErrSyntax,
    ErrMem,
    ErrGcmm,
    ErrErr,
}

/// The type tag of a stack slot.
#[derive(Clone, Copy, PartialEq, Eq, Structural, Debug)]
pub enum LuaType {
    Absent,
    Nil,
    Boolean,
    LightUserdata,
    Number,
    Str,
    Table,
    Function,
    Userdata,
    Thread,
    Other,
}

/// The C functions that this library hands to the interpreter, and those of the host.
#[derive(Clone, Copy, PartialEq, Eq, Structural, Debug)]
pub enum CFunction {
    ErrorTraceback,
    DoCall,
    MetaIndex,
    MetaNewindex,
    Destructor(u64),
    SafePcall,
    SafeXpcall,
    XpcallMsgh,
    ErrorTostring,
    DestructedError,
    Host(u64),
}

/// The addresses that light userdata hold: those this library keys the registry with, the
/// parameter block of a protected call, and any other of the host.
#[derive(Clone, Copy, PartialEq, Eq, Structural, Debug)]
pub enum Pointer {
    GcMetatable(u64),
    DestructedMetatable,
    ErrorPrintBuffer,
    Params,
    Host(u64),
}

/// A Lua error is in flight: control is on its way to the innermost protected call.
#[derive(Clone, Copy, PartialEq, Eq, Structural, Debug)]
pub struct Raised {
    pub status: Status,
}

/// A Lua value.
///
/// Tables, closures, full userdata and threads are named by their address. A floating point
/// number is carried as its decimal text, with the integer it equals where there is one.
pub ghost enum Value {
    Nil,
    Boolean(bool),
    LightUserdata(Pointer),
    Integer(i64),
    Number { text: Seq<char>, whole: Option<i64> },
    Str(Seq<u8>),
    Table(u64),
    CFunction(CFunction),
    Closure(u64),
    Userdata(u64),
    Thread(u64),
    Other(u64),
}

impl Value {
    pub open spec fn tag(self) -> LuaType {
        match self {
            Value::Nil => LuaType::Nil,
            Value::Boolean(_) => LuaType::Boolean,
            Value::LightUserdata(_) => LuaType::LightUserdata,
            Value::Integer(_) => LuaType::Number,
            Value::Number { .. } => LuaType::Number,
            Value::Str(_) => LuaType::Str,
            Value::Table(_) => LuaType::Table,
            Value::CFunction(_) => LuaType::Function,
            Value::Closure(_) => LuaType::Function,
            Value::Userdata(_) => LuaType::Userdata,
            Value::Thread(_) => LuaType::Thread,
            Value::Other(_) => LuaType::Other,
        }
    }

    /// What `lua_toboolean` says of the value.
    pub open spec fn truthy(self) -> bool {
        !(self is Nil) && self != Value::Boolean(false)
    }

    /// Not equal to itself.
    pub open spec fn is_nan(self) -> bool {
        self matches Value::Number { text, .. } && text == "NaN"@
    }

    /// The key under which a table files the value: a float that equals an integer is filed
    /// under that integer.
    pub open spec fn key(self) -> Value {
        match self {
            Value::Number { text: _, whole: Some(i) } => Value::Integer(i),
            _ => self,
        }
    }

    /// A table can be indexed by the value on assignment.
    pub open spec fn is_key(self) -> bool {
        !(self is Nil) && !self.is_nan()
    }
}

/// The errors that the library makes or passes on.
#[derive(Debug)]
pub enum Error {
    /// The Lua stack cannot grow as far as asked.
    StackError,
    RuntimeError(String),
    SyntaxError { message: String, incomplete_input: bool },
    MemoryError(String),
    GarbageCollectorError(String),
    /// The panic behind a failure was resumed before.
    PreviouslyResumedPanic,
    UserDataTypeMismatch,
    /// A userdata was used after its destruction.
    CallbackDestructed,
    /// A callback returned the error `cause`.
    CallbackError { traceback: String, cause: Box<Error> },
    /// An error of the host, which keeps it under this number.
    External(u64),
}

/// An error, with its texts as sequences of characters.
pub ghost enum ErrorModel {
    StackError,
    RuntimeError(Seq<char>),
    SyntaxError { message: Seq<char>, incomplete_input: bool },
    MemoryError(Seq<char>),
    GarbageCollectorError(Seq<char>),
    PreviouslyResumedPanic,
    UserDataTypeMismatch,
    CallbackDestructed,
    CallbackError { traceback: Seq<char>, cause: Box<ErrorModel> },
    External(u64),
}

impl Error {
    pub open spec fn view(&self) -> ErrorModel
        decreases self,
    {
        match *self {
            Error::StackError => ErrorModel::StackError,
            Error::RuntimeError(s) => ErrorModel::RuntimeError(s@),
            Error::SyntaxError { message, incomplete_input } => ErrorModel::SyntaxError {
                message: message@,
                incomplete_input,
            },
            Error::MemoryError(s) => ErrorModel::MemoryError(s@),
            Error::GarbageCollectorError(s) => ErrorModel::GarbageCollectorError(s@),
            Error::PreviouslyResumedPanic => ErrorModel::PreviouslyResumedPanic,
            Error::UserDataTypeMismatch => ErrorModel::UserDataTypeMismatch,
            Error::CallbackDestructed => ErrorModel::CallbackDestructed,
            Error::CallbackError { traceback, cause } => ErrorModel::CallbackError {
                traceback: traceback@,
                cause: Box::new(cause.view()),
            },
            Error::External(n) => ErrorModel::External(n),
        }
    }
}

impl Clone for Error {
    fn clone(&self) -> (r: Self)
        ensures
            r@ == self@,
        decreases self,
    {
        match self {
            Error::StackError => Error::StackError,
            Error::RuntimeError(s) => Error::RuntimeError(s.clone()),
            Error::SyntaxError { message, incomplete_input } => Error::SyntaxError {
                message: message.clone(),
                incomplete_input: *incomplete_input,
            },
            Error::MemoryError(s) => Error::MemoryError(s.clone()),
            Error::GarbageCollectorError(s) => Error::GarbageCollectorError(s.clone()),
            Error::PreviouslyResumedPanic => Error::PreviouslyResumedPanic,
            Error::UserDataTypeMismatch => Error::UserDataTypeMismatch,
            Error::CallbackDestructed => Error::CallbackDestructed,
            Error::CallbackError { traceback, cause } => Error::CallbackError {
                traceback: traceback.clone(),
                cause: Box::new((&**cause).clone()),
            },
            Error::External(n) => Error::External(*n),
        }
    }
}

/// What a panic was raised with.
#[derive(Debug)]
pub enum PanicPayload {
    /// A string slice.
    Literal(String),
    /// A string of its own.
    Message(String),
    /// A value of another type, which the host keeps under this number.
    Opaque(u64),
}

pub ghost enum PanicModel {
    Literal(Seq<char>),
    Message(Seq<char>),
    Opaque(u64),
}

impl PanicPayload {
    pub open spec fn view(&self) -> PanicModel {
        match *self {
            PanicPayload::Literal(s) => PanicModel::Literal(s@),
            PanicPayload::Message(s) => PanicModel::Message(s@),
            PanicPayload::Opaque(n) => PanicModel::Opaque(n),
        }
    }
}

/// A host error or panic on its way through the interpreter.
#[derive(Debug)]
pub enum WrappedFailure {
    Error(Error),
    /// `None` once the panic has been resumed.
    Panic(Option<PanicPayload>),
}

pub ghost enum FailureModel {
    Error(ErrorModel),
    Panic(Option<PanicModel>),
}

impl WrappedFailure {
    pub open spec fn view(&self) -> FailureModel {
        match *self {
            WrappedFailure::Error(e) => FailureModel::Error(e@),
            WrappedFailure::Panic(None) => FailureModel::Panic(None),
            WrappedFailure::Panic(Some(p)) => FailureModel::Panic(Some(p@)),
        }
    }
}

/// Why an operation did not succeed: an error to return, or a panic to resume.
#[derive(Debug)]
pub enum Failure {
    Error(Error),
    Panic(PanicPayload),
}

pub ghost enum Failed {
    Error(ErrorModel),
    Panic(PanicModel),
}

impl Failure {
    pub open spec fn view(&self) -> Failed {
        match *self {
            Failure::Error(e) => Failed::Error(e@),
            Failure::Panic(p) => Failed::Panic(p@),
        }
    }
}

/// What a full userdata block holds.
#[derive(Debug)]
pub enum Payload<O> {
    /// Nothing yet, or nothing any more.
    Vacant,
    Failure(WrappedFailure),
    Text(String),
    /// A value of the host.
    Object(O),
}

#[verifier::reject_recursive_types(O)]
pub ghost enum PayloadModel<O> {
    Vacant,
    Failure(FailureModel),
    Text(Seq<char>),
    Object(O),
}

impl<O> Payload<O> {
    pub open spec fn view(&self) -> PayloadModel<O> {
        match *self {
            Payload::Vacant => PayloadModel::Vacant,
            Payload::Failure(w) => PayloadModel::Failure(w@),
            Payload::Text(s) => PayloadModel::Text(s@),
            Payload::Object(o) => PayloadModel::Object(o),
        }
    }
}

impl<O> PayloadModel<O> {
    /// The payload is of the type that `key` identifies, where the library knows that type.
    pub open spec fn fits(self, key: TypeKey) -> bool {
        &&& key == FAILURE_KEY ==> self is Failure
        &&& key == TEXT_KEY ==> self is Text
    }
}

} // verus!
