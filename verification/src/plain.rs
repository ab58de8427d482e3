//! The data of the std types that can be stored as they are.

use crate::erased::{Plain, Storable};
use vstd::prelude::*;

verus! {

impl Storable for u8 {
    open spec fn plain(&self) -> Plain {
        seq![*self as int]
    }
}

impl Storable for u16 {
    open spec fn plain(&self) -> Plain {
        seq![*self as int]
    }
}

impl Storable for u32 {
    open spec fn plain(&self) -> Plain {
        seq![*self as int]
    }
}

impl Storable for u64 {
    open spec fn plain(&self) -> Plain {
        seq![*self as int]
    }
}

impl Storable for usize {
    open spec fn plain(&self) -> Plain {
        seq![*self as int]
    }
}

impl Storable for i8 {
    open spec fn plain(&self) -> Plain {
        seq![*self as int]
    }
}

impl Storable for i16 {
    open spec fn plain(&self) -> Plain {
        seq![*self as int]
    }
}

impl Storable for i32 {
    open spec fn plain(&self) -> Plain {
        seq![*self as int]
    }
}

impl Storable for i64 {
    open spec fn plain(&self) -> Plain {
        seq![*self as int]
    }
}

impl Storable for isize {
    open spec fn plain(&self) -> Plain {
        seq![*self as int]
    }
}

impl Storable for bool {
    open spec fn plain(&self) -> Plain {
        seq![if *self { 1int } else { 0int }]
    }
}

impl Storable for char {
    open spec fn plain(&self) -> Plain {
        seq![*self as int]
    }
}

/// A string is known by its characters.
impl Storable for String {
    open spec fn plain(&self) -> Plain {
        self@.map_values(|c: char| c as int)
    }
}

/// Two strings with the same data have the same characters.
pub proof fn lemma_string_plain(a: String, b: String)
    requires
        a.plain() == b.plain(),
    ensures
        a@ == b@,
{
    assert(a@.len() == a.plain().len());
    assert(b@.len() == b.plain().len());
    assert forall|i: int| 0 <= i < a@.len() implies a@[i] == b@[i] by {
        assert(a.plain()[i] == a@[i] as int);
        assert(b.plain()[i] == b@[i] as int);
    }
    assert(a@ =~= b@);
}

} // verus!
