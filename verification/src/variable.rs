//! Variable support: the lookup capability, the default index variable, and
//! fake stand-ins for expressions without variables.

use core::marker::PhantomData;
use vstd::prelude::*;
use vstd::string::StrSliceExecFns;
use vstd::string::StringExecFns;
use crate::convert_ref::TryFromRef;
use crate::text::{spec_parse_uint, spec_uint_text, parse_usize, uint_text, ParseNumErr, Render};

verus! {

/// Allows an expression to retrieve variables from a container using an
/// index value such as [`IndexVar`].
pub trait GetVariable<I> {
    /// The type of the stored values.
    type Output;

    /// The value stored under `index`, if any.
    spec fn spec_get(&self, index: I) -> Option<Self::Output>;

    /// Looks up the value stored under `index`.
    fn get_variable(&self, index: I) -> (r: Option<&Self::Output>)
        ensures
            match r {
                Some(t) => self.spec_get(index) == Some(*t),
                None => self.spec_get(index) is None,
            },
    ;
}

/// Conversion of a variable token into the index used for container lookup.
pub trait ToIndex<I> {
    /// The index this variable stands for.
    spec fn spec_index(&self) -> I;

    /// Converts this variable into its lookup index.
    fn to_index(self) -> (i: I)
        ensures
            i == self.spec_index(),
    ;
}

impl<T> GetVariable<usize> for Vec<T> {
    type Output = T;

    open spec fn spec_get(&self, index: usize) -> Option<T> {
        if index < self@.len() {
            Some(self@[index as int])
        } else {
            None
        }
    }

    fn get_variable(&self, index: usize) -> (r: Option<&T>) {
        if index < self.len() {
            Some(&self[index])
        } else {
            None
        }
    }
}

impl<T> GetVariable<usize> for std::collections::VecDeque<T> {
    type Output = T;

    open spec fn spec_get(&self, index: usize) -> Option<T> {
        if index < self@.len() {
            Some(self@[index as int])
        } else {
            None
        }
    }

    fn get_variable(&self, index: usize) -> (r: Option<&T>) {
        if index < self.len() {
            Some(&self[index])
        } else {
            None
        }
    }
}

impl<T> GetVariable<u64> for std::collections::HashMap<u64, T> {
    type Output = T;

    open spec fn spec_get(&self, index: u64) -> Option<T> {
        if self@.contains_key(index) {
            Some(self@[index])
        } else {
            None
        }
    }

    fn get_variable(&self, index: u64) -> (r: Option<&T>) {
        broadcast use vstd::std_specs::hash::group_hash_axioms;

        self.get(&index)
    }
}

/// Variable type that no token converts into, used to fake variables when
/// they are not needed in expressions.
///
/// Prefer using this type together with the [`DummyVariables`] fake
/// container.
#[derive(Debug, Copy, Clone)]
pub struct DummyVariable;

impl<T> TryFromRef<T> for DummyVariable {
    type Err = ();

    open spec fn spec_try_from_ref(t: T) -> Result<DummyVariable, ()> {
        Err(())
    }

    fn try_from_ref(t: &T) -> (r: Result<DummyVariable, ()>) {
        Err(())
    }
}

impl ToIndex<()> for DummyVariable {
    open spec fn spec_index(&self) -> () {
        ()
    }

    fn to_index(self) -> (i: ()) {
        ()
    }
}

impl Render for DummyVariable {
    open spec fn spec_text(&self) -> Seq<char> {
        Seq::empty()
    }

    fn render(&self) -> (s: String) {
        String::new()
    }
}

/// Container that holds no variable, used to fake variables when they are
/// not needed in expressions.
///
/// Prefer using this container with the [`DummyVariable`] fake type.
#[derive(Debug)]
pub struct DummyVariables<T>(PhantomData<T>);

/// The canonical empty container value.
pub closed spec fn spec_dummy_variables<T>() -> DummyVariables<T> {
    DummyVariables(PhantomData)
}

impl<T> Default for DummyVariables<T> {
    fn default() -> (d: Self)
        ensures
            d == spec_dummy_variables::<T>(),
    {
        DummyVariables(PhantomData)
    }
}

impl<T> GetVariable<()> for DummyVariables<T> {
    type Output = T;

    open spec fn spec_get(&self, index: ()) -> Option<T> {
        None
    }

    fn get_variable(&self, index: ()) -> (r: Option<&T>) {
        None
    }
}

/// Default variable keeping an index into an indexable variable container,
/// such as a vector.
///
/// Its token form is a `$` sigil followed by the decimal index.
#[derive(Debug, Copy, Clone, PartialEq, Eq)]
pub struct IndexVar(pub usize);

/// Type returned when a token denotes no index variable.
#[derive(Debug, PartialEq)]
pub enum VarIdxErr<'a, E> {
    /// The token does not start with the `$` sigil.
    InvalidVariableName(&'a str),
    /// The characters after the sigil do not form a valid index.
    ConvertErr(E),
}

impl<'a> TryFromRef<&'a str> for IndexVar {
    type Err = VarIdxErr<'a, ParseNumErr>;

    open spec fn spec_try_from_ref(t: &'a str) -> Result<IndexVar, VarIdxErr<'a, ParseNumErr>> {
        if t@.len() == 0 || t@[0] != '$' {
            Err(VarIdxErr::InvalidVariableName(t))
        } else {
            match spec_parse_uint(t@.skip(1), usize::MAX as int) {
                Ok(v) => Ok(IndexVar(v as usize)),
                Err(e) => Err(VarIdxErr::ConvertErr(e)),
            }
        }
    }

    fn try_from_ref(t: &&'a str) -> (r: Result<IndexVar, VarIdxErr<'a, ParseNumErr>>) {
        let len = t.unicode_len();
        if len == 0 {
            return Err(VarIdxErr::InvalidVariableName(*t));
        }
        if t.get_char(0) != '$' {
            return Err(VarIdxErr::InvalidVariableName(*t));
        }
        let rest = t.substring_char(1, len);
        proof {
            assert(rest@ =~= t@.skip(1));
        }
        match parse_usize(rest) {
            Ok(v) => Ok(IndexVar(v)),
            Err(e) => Err(VarIdxErr::ConvertErr(e)),
        }
    }
}

impl ToIndex<usize> for IndexVar {
    open spec fn spec_index(&self) -> usize {
        self.0
    }

    fn to_index(self) -> (i: usize) {
        self.0
    }
}

impl ToIndex<u64> for IndexVar {
    open spec fn spec_index(&self) -> u64 {
        self.0 as u64
    }

    fn to_index(self) -> (i: u64) {
        self.0 as u64
    }
}

impl From<IndexVar> for usize {
    fn from(var_idx: IndexVar) -> (r: usize) {
        var_idx.0
    }
}

impl vstd::std_specs::convert::FromSpecImpl<IndexVar> for usize {
    open spec fn obeys_from_spec() -> bool {
        true
    }

    open spec fn from_spec(v: IndexVar) -> usize {
        v.0
    }
}

impl Render for IndexVar {
    open spec fn spec_text(&self) -> Seq<char> {
        seq!['$'] + spec_uint_text(self.0 as int)
    }

    fn render(&self) -> (s: String) {
        let mut s = String::from_str("$");
        s.append(uint_text(self.0 as u64).as_str());
        proof {
            reveal_strlit("$");
            assert(s@ =~= seq!['$'] + spec_uint_text(self.0 as int));
        }
        s
    }
}

} // verus!

verus! {

/// Round trip: the canonical text of an index variable reads back as that
/// variable.
pub proof fn lemma_index_var_round_trip<'a>(t: &'a str, v: IndexVar)
    requires
        t@ == v.spec_text(),
    ensures
        <IndexVar as TryFromRef<&'a str>>::spec_try_from_ref(t) == Ok::<
            IndexVar,
            VarIdxErr<'a, ParseNumErr>,
        >(v),
{
    crate::text::lemma_uint_text_round_trip(v.0 as int, usize::MAX as int);
    assert(t@[0] == '$');
    assert(t@.skip(1) =~= spec_uint_text(v.0 as int));
}

} // verus!
