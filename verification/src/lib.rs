//! Interactive capture-session controller.
//!
//! The library owns the session state machine (interface selection and
//! capturing modes), the per-tick event processing, the parsing of the
//! system's network-device table, and the pure text projection of each mode.
//! Terminal I/O, argument parsing and drawing live outside the library and
//! only hand plain values in and out.

use vstd::prelude::*;

pub mod app;
pub mod args;
pub mod capture;
pub mod error;
pub mod events;
pub mod ui;

use crate::error::AppError;

verus! {

/// True exactly when `name` occurs, by exact string match, in `list`.
pub fn contains_name(list: &[String], name: &String) -> (r: bool)
    ensures
        r <==> list.deep_view().contains(name@),
{
    let mut i: usize = 0;
    while i < list.len()
        invariant
            i <= list@.len(),
            forall|j: int| #![auto] 0 <= j < i ==> list.deep_view()[j] != name@,
        decreases list@.len() - i,
    {
        if list[i].eq(name) {
            proof {
                assert(list.deep_view()[i as int] == name@);
            }
            return true;
        }
        i = i + 1;
    }
    false
}

/// Reject an empty interface list, and an explicitly requested name that is
/// absent from the list; accept every other combination.
pub fn validate_interface(interfaces: &[String], name: Option<&str>) -> (r: Result<(), AppError>)
    ensures
        match r {
            Ok(_) => {
                &&& interfaces@.len() > 0
                &&& (name matches Some(n) ==> interfaces.deep_view().contains(n@))
            },
            Err(e) => match e {
                AppError::NoInterfaces => interfaces@.len() == 0,
                AppError::InterfaceNotFound(m) => {
                    &&& interfaces@.len() > 0
                    &&& name matches Some(n) && n@ == m@
                    &&& !interfaces.deep_view().contains(m@)
                },
                _ => false,
            },
        },
{
    if interfaces.len() == 0 {
        return Err(AppError::NoInterfaces);
    }
    if let Some(n) = name {
        let owned = n.to_owned();
        if !contains_name(interfaces, &owned) {
            return Err(AppError::InterfaceNotFound(owned));
        }
    }
    Ok(())
}

} // verus!
