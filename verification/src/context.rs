//! The context: one slot of state that the handlers of a loop share. The
//! slot is empty or holds a single value of one of a few types, and remembers
//! which. Reading it as another type finds nothing.

use vstd::prelude::*;

verus! {

/// The types that a context can hold.
#[derive(Debug, Clone, Copy, PartialEq, Eq, Structural)]
pub enum Kind {
    Text,
    Int32,
    Int64,
    Flag,
}

/// A value together with its type. `S` is the type of a text: `String` in
/// running code, a sequence of characters in contracts.
#[derive(Debug, PartialEq, Eq)]
pub enum Value<S> {
    Text(S),
    Int32(i32),
    Int64(i64),
    Flag(bool),
}

impl<S> Value<S> {
    /// The type of the value.
    pub open spec fn kind(self) -> Kind {
        match self {
            Value::Text(_) => Kind::Text,
            Value::Int32(_) => Kind::Int32,
            Value::Int64(_) => Kind::Int64,
            Value::Flag(_) => Kind::Flag,
        }
    }
}

impl View for Value<String> {
    type V = Value<Seq<char>>;

    open spec fn view(&self) -> Value<Seq<char>> {
        match self {
            Value::Text(text) => Value::Text(text@),
            Value::Int32(n) => Value::Int32(*n),
            Value::Int64(n) => Value::Int64(*n),
            Value::Flag(b) => Value::Flag(*b),
        }
    }
}

/// A type whose values a context can hold.
pub trait Payload: Sized {
    /// The tag under which values of this type are stored.
    spec fn kind() -> Kind;

    /// The value as it stands in a context.
    spec fn stored(&self) -> Value<Seq<char>>;

    /// A value is stored under its type's tag.
    proof fn lemma_stored_kind(&self)
        ensures
            self.stored().kind() == Self::kind(),
    ;

    /// Tags the value with its type.
    fn wrap(self) -> (value: Value<String>)
        ensures
            value@ == self.stored(),
    ;

    /// The value inside, if it is of this type.
    fn peek(value: &Value<String>) -> (inner: Option<&Self>)
        ensures
            inner is Some <==> value@.kind() == Self::kind(),
            inner matches Some(it) ==> it.stored() == value@,
    ;

    /// The value inside, to be changed in place, if it is of this type.
    fn peek_mut(value: &mut Value<String>) -> (inner: Option<&mut Self>)
        ensures
            inner is Some <==> old(value)@.kind() == Self::kind(),
            inner is None ==> final(value)@ == old(value)@,
            inner matches Some(it) ==> it.stored() == old(value)@ && final(value)@ == final(
                it
            ).stored(),
    ;
}

impl Payload for String {
    open spec fn kind() -> Kind {
        Kind::Text
    }

    open spec fn stored(&self) -> Value<Seq<char>> {
        Value::Text(self@)
    }

    proof fn lemma_stored_kind(&self) {
    }

    fn wrap(self) -> (value: Value<String>) {
        Value::Text(self)
    }

    fn peek(value: &Value<String>) -> (inner: Option<&Self>) {
        match value {
            Value::Text(text) => Some(text),
            _ => None,
        }
    }

    fn peek_mut(value: &mut Value<String>) -> (inner: Option<&mut Self>) {
        match value {
            Value::Text(text) => Some(text),
            _ => None,
        }
    }
}

impl Payload for i32 {
    open spec fn kind() -> Kind {
        Kind::Int32
    }

    open spec fn stored(&self) -> Value<Seq<char>> {
        Value::Int32(*self)
    }

    proof fn lemma_stored_kind(&self) {
    }

    fn wrap(self) -> (value: Value<String>) {
        Value::Int32(self)
    }

    fn peek(value: &Value<String>) -> (inner: Option<&Self>) {
        match value {
            Value::Int32(n) => Some(n),
            _ => None,
        }
    }

    fn peek_mut(value: &mut Value<String>) -> (inner: Option<&mut Self>) {
        match value {
            Value::Int32(n) => Some(n),
            _ => None,
        }
    }
}

impl Payload for i64 {
    open spec fn kind() -> Kind {
        Kind::Int64
    }

    open spec fn stored(&self) -> Value<Seq<char>> {
        Value::Int64(*self)
    }

    proof fn lemma_stored_kind(&self) {
    }

    fn wrap(self) -> (value: Value<String>) {
        Value::Int64(self)
    }

    fn peek(value: &Value<String>) -> (inner: Option<&Self>) {
        match value {
            Value::Int64(n) => Some(n),
            _ => None,
        }
    }

    fn peek_mut(value: &mut Value<String>) -> (inner: Option<&mut Self>) {
        match value {
            Value::Int64(n) => Some(n),
            _ => None,
        }
    }
}

impl Payload for bool {
    open spec fn kind() -> Kind {
        Kind::Flag
    }

    open spec fn stored(&self) -> Value<Seq<char>> {
        Value::Flag(*self)
    }

    proof fn lemma_stored_kind(&self) {
    }

    fn wrap(self) -> (value: Value<String>) {
        Value::Flag(self)
    }

    fn peek(value: &Value<String>) -> (inner: Option<&Self>) {
        match value {
            Value::Flag(b) => Some(b),
            _ => None,
        }
    }

    fn peek_mut(value: &mut Value<String>) -> (inner: Option<&mut Self>) {
        match value {
            Value::Flag(b) => Some(b),
            _ => None,
        }
    }
}

/// What a read as type `T` finds in a slot: the stored value when it is of
/// that type, and nothing when the slot is empty or holds another type.
pub open spec fn read_as<T: Payload>(slot: Option<Value<Seq<char>>>) -> Option<Value<Seq<char>>> {
    match slot {
        Some(value) => if value.kind() == T::kind() {
            Some(value)
        } else {
            None
        },
        None => None,
    }
}

/// What a reference that was handed out stands for.
pub open spec fn seen<T: Payload>(inner: Option<&T>) -> Option<Value<Seq<char>>> {
    match inner {
        Some(value) => Some(value.stored()),
        None => None,
    }
}

/// One slot of state, empty or holding a value of some type.
pub struct Context {
    slot: Option<Value<String>>,
}

impl View for Context {
    type V = Option<Value<Seq<char>>>;

    closed spec fn view(&self) -> Option<Value<Seq<char>>> {
        match self.slot {
            Some(value) => Some(value@),
            None => None,
        }
    }
}

impl Context {
    /// An empty context.
    pub fn new() -> (context: Context)
        ensures
            context@ is None,
    {
        Context { slot: None }
    }

    /// Tells whether nothing is stored. This, unlike `get`, tells an empty
    /// context from one that holds another type.
    pub fn is_empty(&self) -> (empty: bool)
        ensures
            empty == (self@ is None),
    {
        self.slot.is_none()
    }

    /// The type of what is stored, if anything is.
    pub fn kind(&self) -> (kind: Option<Kind>)
        ensures
            kind == match self@ {
                Some(value) => Some(value.kind()),
                None => None,
            },
    {
        match &self.slot {
            Some(Value::Text(_)) => Some(Kind::Text),
            Some(Value::Int32(_)) => Some(Kind::Int32),
            Some(Value::Int64(_)) => Some(Kind::Int64),
            Some(Value::Flag(_)) => Some(Kind::Flag),
            None => None,
        }
    }

    /// Stores `value`, of whatever type, in place of what was there.
    pub fn set<T: Payload>(&mut self, value: T)
        ensures
            final(self)@ == Some(value.stored()),
    {
        self.slot = Some(value.wrap());
    }

    /// The stored value, if there is one and it is of type `T`. An empty
    /// context and one of another type both give `None`.
    pub fn get<T: Payload>(&self) -> (inner: Option<&T>)
        ensures
            seen(inner) == read_as::<T>(self@),
    {
        match &self.slot {
            Some(value) => T::peek(value),
            None => None,
        }
    }

    /// The stored value, to be changed in place, if there is one and it is
    /// of type `T`. What the caller leaves in it is what the context holds
    /// afterwards; without a match the context stays as it is.
    pub fn get_mut<T: Payload>(&mut self) -> (inner: Option<&mut T>)
        ensures
            match inner {
                Some(value) => read_as::<T>(old(self)@) == Some(value.stored()) && final(self)@
                    == Some(final(value).stored()),
                None => read_as::<T>(old(self)@) is None && final(self)@ == old(self)@,
            },
    {
        match &mut self.slot {
            Some(value) => T::peek_mut(value),
            None => None,
        }
    }
}

/// A value that was stored is found again under its own type, and under no
/// other: to a reader of another type the context looks empty.
pub proof fn lemma_stored_value_is_found<T: Payload, U: Payload>(value: T)
    ensures
        read_as::<T>(Some(value.stored())) == Some(value.stored()),
        U::kind() != T::kind() ==> read_as::<U>(Some(value.stored())) is None,
        read_as::<T>(None) is None,
{
    value.lemma_stored_kind();
}

} // verus!
