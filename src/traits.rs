use vstd::prelude::*;

use crate::schema::DataType;

verus! {

/// Values that report the static type they belong to.
pub trait TypeOf {
    spec fn spec_type_of(&self) -> DataType;

    fn type_of(&self) -> (r: DataType)
        ensures
            r == self.spec_type_of(),
    ;
}

/// Values that can be written as JSON text.
pub trait Json {
    fn to_json(&self) -> Result<String, crate::error::Error>;
}

/// Lookup of an element by an index of type `T`.
pub trait Get<T> {
    type Output;

    fn get(&self, index: T) -> Option<&Self::Output>;
}

} // verus!
