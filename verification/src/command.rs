//! One-shot commands: what is reported for a query that was put to the
//! upstream API directly, past cache and authorization.
use crate::resource::{Query, ResourceKind};
use crate::{optional_text, outcome_text, Error};
use vstd::prelude::*;
use vstd::string::*;

verus! {

/// The word that introduces a reported result: the kind, in the plural where
/// all records were asked for.
pub open spec fn heading(kind: ResourceKind, single: bool) -> Seq<char> {
    match kind {
        ResourceKind::Character => if single {
            "Character"@
        } else {
            "Characters"@
        },
        ResourceKind::Episode => if single {
            "Episode"@
        } else {
            "Episodes"@
        },
        ResourceKind::Location => if single {
            "Location"@
        } else {
            "Locations"@
        },
    }
}

/// What a one-shot command reports: the rendered result behind its heading,
/// or the failure. A single record that could not be fetched is reported as
/// `RecordNotFound`, a collection that could not be fetched as `Unknown`.
pub open spec fn reported(query: Query, fetched: Option<Seq<char>>) -> Result<Seq<char>, Error> {
    match fetched {
        Some(rendered) => Ok(heading(query.kind, query.id is Some) + ": "@ + rendered + " "@),
        None => if query.id is Some {
            Err(Error::RecordNotFound)
        } else {
            Err(Error::Unknown)
        },
    }
}

/// The word that introduces a reported result.
pub fn heading_of(kind: ResourceKind, single: bool) -> (word: &'static str)
    ensures
        word@ == heading(kind, single),
{
    match kind {
        ResourceKind::Character => if single {
            "Character"
        } else {
            "Characters"
        },
        ResourceKind::Episode => if single {
            "Episode"
        } else {
            "Episodes"
        },
        ResourceKind::Location => if single {
            "Location"
        } else {
            "Locations"
        },
    }
}

/// The line that a one-shot command prints for a query, given the rendered
/// result of the upstream call, or `None` where the call failed.
pub fn report(query: Query, fetched: Option<String>) -> (line: Result<String, Error>)
    ensures
        outcome_text(line) == reported(query, optional_text(fetched)),
{
    match fetched {
        Some(rendered) => {
            let mut line = String::from_str(heading_of(query.kind, query.id.is_some()));
            line.append(": ");
            line.append(rendered.as_str());
            line.append(" ");
            Ok(line)
        },
        None => {
            if query.id.is_some() {
                Err(Error::RecordNotFound)
            } else {
                Err(Error::Unknown)
            }
        },
    }
}

} // verus!
