//! Marker types that describe a value rather than hold one.
use vstd::prelude::*;
use core::any::TypeId;
use crate::type_key::{type_id_eq, type_id_of};

verus! {

pub struct IsNone;
pub struct IsSome;
pub struct IsBorrowed;
pub struct IsOwned;
pub struct IsNull;
pub struct IsUnit;

/// Information about a value, given by the identifier of a marker type.
pub struct MetaInfo(TypeId);

impl MetaInfo {
    /// The identifier it holds.
    pub closed spec fn spec_id(&self) -> TypeId {
        self.0
    }

    pub fn new(type_id: TypeId) -> (r: Self)
        ensures
            r.spec_id() == type_id,
    {
        MetaInfo(type_id)
    }

    /// The information for the type `T`.
    pub fn about<T: ?Sized + 'static>() -> (r: Self) {
        Self::new(type_id_of::<T>())
    }

    /// The information for the type of `value`.
    pub fn about_val<T: ?Sized + 'static>(value: &T) -> (r: Self) {
        Self::new(type_id_of::<T>())
    }

    /// The name of the marker type it stands for, if it is one of the markers.
    pub fn name(&self) -> (r: Option<&'static str>)
        ensures
            r matches Some(n) ==> meta_name(n@),
    {
        proof {
            reveal_strlit("IsNone");
            reveal_strlit("IsSome");
            reveal_strlit("IsBorrowed");
            reveal_strlit("IsOwned");
            reveal_strlit("IsNull");
            reveal_strlit("IsUnit");
        }
        if type_id_eq(&self.0, &type_id_of::<IsNone>()) {
            Some("IsNone")
        } else if type_id_eq(&self.0, &type_id_of::<IsSome>()) {
            Some("IsSome")
        } else if type_id_eq(&self.0, &type_id_of::<IsBorrowed>()) {
            Some("IsBorrowed")
        } else if type_id_eq(&self.0, &type_id_of::<IsOwned>()) {
            Some("IsOwned")
        } else if type_id_eq(&self.0, &type_id_of::<IsNull>()) {
            Some("IsNull")
        } else if type_id_eq(&self.0, &type_id_of::<IsUnit>()) {
            Some("IsUnit")
        } else {
            None
        }
    }

    /// The text that shows the information: `#` and the marker's name, or `#Unknown`.
    pub fn to_text(&self) -> (r: String)
        ensures
            r@.len() > 1,
            r@[0] == '#',
            r@.skip(1) == "Unknown"@ || meta_name(r@.skip(1)),
    {
        proof {
            reveal_strlit("#");
            reveal_strlit("Unknown");
            reveal_strlit("IsNone");
            reveal_strlit("IsSome");
            reveal_strlit("IsBorrowed");
            reveal_strlit("IsOwned");
            reveal_strlit("IsNull");
            reveal_strlit("IsUnit");
        }
        let mut s = String::from_str("#");
        let ghost hash = s@;
        match self.name() {
            Some(n) => {
                s.append(n);
                assert(s@.skip(1) =~= n@);
            },
            None => {
                s.append("Unknown");
                assert(s@.skip(1) =~= "Unknown"@);
            },
        }
        s
    }

    /// The information for an identifier.
    pub fn from(type_id: TypeId) -> (r: Self)
        ensures
            r.spec_id() == type_id,
    {
        Self::new(type_id)
    }
}

/// The names of the marker types.
pub open spec fn meta_name(n: Seq<char>) -> bool {
    ||| n == "IsNone"@
    ||| n == "IsSome"@
    ||| n == "IsBorrowed"@
    ||| n == "IsOwned"@
    ||| n == "IsNull"@
    ||| n == "IsUnit"@
}

/// The set of the marker types.
pub type MetaTypes = crate::rr::typeset::AnyOf<(IsNone, IsSome, IsBorrowed, IsNull, IsOwned, IsUnit)>;

} // verus!
