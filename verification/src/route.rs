//! Routing: which query a request path asks for.
//!
//! Six shapes of path are served, `/{kind}` and `/{kind}/{id}` for each of
//! the three kinds. A single slash after the last segment is tolerated, an
//! empty segment is not.
use crate::decimal::{
    decimal, id_text, is_digit, lemma_decimal_reads_back, lemma_id_text_reads_back, parse_id,
    parsed_id,
};
use crate::resource::{fingerprint_of, kind_name, lemma_names, Query, ResourceKind};
use crate::text::{lemma_no_occurrence, lemma_split_joined, same_text, split_first, split_once};
use vstd::prelude::*;
use vstd::string::*;

verus! {

/// The character between the segments of a path.
pub const SLASH: char = '/';

/// The kind that a path segment names, if it names one.
pub open spec fn segment_kind(segment: Seq<char>) -> Option<ResourceKind> {
    if segment == kind_name(ResourceKind::Character) {
        Some(ResourceKind::Character)
    } else if segment == kind_name(ResourceKind::Episode) {
        Some(ResourceKind::Episode)
    } else if segment == kind_name(ResourceKind::Location) {
        Some(ResourceKind::Location)
    } else {
        None
    }
}

/// A path without the slash it begins with.
pub open spec fn without_leading_slash(path: Seq<char>) -> Seq<char> {
    if path.len() > 0 && path[0] == SLASH {
        path.drop_first()
    } else {
        path
    }
}

/// The first segment of a path and what follows the slash behind it. Where
/// no slash follows, nothing does.
pub open spec fn first_segment(path: Seq<char>) -> (Seq<char>, Seq<char>) {
    match split_first(path, SLASH) {
        Some(parts) => parts,
        None => (path, Seq::empty()),
    }
}

/// The query that a request path asks for.
///
/// The first segment names the kind. Where nothing follows it, all records
/// of the kind are asked for. Otherwise the second segment is the identifier
/// of the one record asked for, and nothing may follow that but one slash.
/// Every other path asks for nothing that the proxy serves.
pub open spec fn routed(path: Seq<char>) -> Option<Query> {
    let (first, after) = first_segment(without_leading_slash(path));
    let (second, rest) = first_segment(after);
    match segment_kind(first) {
        None => None,
        Some(kind) => if after.len() == 0 {
            Some(Query { kind, id: None })
        } else {
            match parsed_id(second) {
                Some(id) => if rest.len() == 0 {
                    Some(Query { kind, id: Some(id) })
                } else {
                    None
                },
                None => None,
            }
        },
    }
}

/// Every query has a path: the kind's name behind a slash asks for all
/// records of the kind, and the fingerprint of a single record behind a
/// slash asks for that record.
pub proof fn lemma_queries_have_paths(kind: ResourceKind, id: i64)
    ensures
        routed(seq![SLASH] + kind_name(kind)) == Some(Query { kind, id: None }),
        routed(seq![SLASH] + fingerprint_of(kind, Some(id))) == Some(Query { kind, id: Some(id) }),
{
    lemma_names();
    let name = kind_name(kind);
    let nothing = Seq::<char>::empty();
    assert(segment_kind(name) == Some(kind));
    assert forall|j: int| 0 <= j < name.len() implies name[j] != SLASH by {}
    lemma_no_occurrence(name, SLASH);
    lemma_no_occurrence(nothing, SLASH);

    // All records: nothing follows the name.
    assert(without_leading_slash(seq![SLASH] + name) =~= name);
    assert(first_segment(name) == (name, nothing));

    // One record: the identifier follows the name, and nothing follows that.
    let text = id_text(id as int);
    let magnitude = if id < 0 {
        (-id) as nat
    } else {
        id as nat
    };
    lemma_id_text_reads_back(id);
    lemma_decimal_reads_back(magnitude);
    assert forall|j: int| 0 <= j < text.len() implies text[j] != SLASH by {
        if id >= 0 {
            assert(is_digit(decimal(magnitude)[j]));
        } else if j > 0 {
            assert(is_digit(decimal(magnitude)[j - 1]));
        }
    }
    lemma_no_occurrence(text, SLASH);
    assert(first_segment(text) == (text, nothing));
    let single = seq![SLASH] + fingerprint_of(kind, Some(id));
    assert(without_leading_slash(single) =~= name + seq![SLASH] + text);
    lemma_split_joined(name, SLASH, text);
}

/// The kind that a path segment names, if it names one.
pub fn kind_of(segment: &str) -> (kind: Option<ResourceKind>)
    ensures
        kind == segment_kind(segment@),
{
    if same_text(segment, ResourceKind::Character.name()) {
        Some(ResourceKind::Character)
    } else if same_text(segment, ResourceKind::Episode.name()) {
        Some(ResourceKind::Episode)
    } else if same_text(segment, ResourceKind::Location.name()) {
        Some(ResourceKind::Location)
    } else {
        None
    }
}

/// Splits a path into its first segment and what follows the slash behind it.
fn take_segment<'a>(path: &'a str) -> (parts: (&'a str, &'a str))
    ensures
        (parts.0@, parts.1@) == first_segment(path@),
{
    match split_once(path, SLASH) {
        Some(parts) => parts,
        None => {
            proof {
                reveal_strlit("");
            }
            (path, "")
        },
    }
}

/// Decides which query a request path asks for; `None` where the proxy has
/// no route for the path.
pub fn route(path: &str) -> (query: Option<Query>)
    ensures
        query == routed(path@),
{
    let total = path.unicode_len();
    let relative = if total > 0 && path.get_char(0) == SLASH {
        path.substring_char(1, total)
    } else {
        path
    };
    assert(relative@ =~= without_leading_slash(path@));
    let (first, after) = take_segment(relative);
    let (second, rest) = take_segment(after);
    match kind_of(first) {
        None => None,
        Some(kind) => {
            if after.is_empty() {
                Some(Query { kind, id: None })
            } else {
                match parse_id(second) {
                    Some(id) => {
                        if rest.is_empty() {
                            Some(Query { kind, id: Some(id) })
                        } else {
                            None
                        }
                    },
                    None => None,
                }
            }
        },
    }
}

} // verus!
