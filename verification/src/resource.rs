//! The three kinds of record that the proxy serves, the queries that can be
//! put to the upstream API, and the fingerprint under which the answer to a
//! query is cached.
use crate::decimal::{id_text, lemma_id_text_is_injective, push_id};
use vstd::prelude::*;
use vstd::string::*;

verus! {

/// A kind of record.
#[derive(Debug, Clone, Copy, PartialEq, Eq, Structural)]
pub enum ResourceKind {
    Character,
    Episode,
    Location,
}

/// What is asked of the upstream API: one record of a kind, or all of them.
#[derive(Debug, Clone, Copy, PartialEq, Eq, Structural)]
pub struct Query {
    pub kind: ResourceKind,
    pub id: Option<i64>,
}

/// The name of a kind, as it stands in paths and fingerprints.
pub open spec fn kind_name(kind: ResourceKind) -> Seq<char> {
    match kind {
        ResourceKind::Character => "character"@,
        ResourceKind::Episode => "episode"@,
        ResourceKind::Location => "location"@,
    }
}

/// The end of the fingerprint of a query for all records of a kind.
pub open spec fn all_suffix() -> Seq<char> {
    "-all"@
}

/// The fingerprint of a query: `{kind}/{id}` for one record, `{kind}-all`
/// for all records of the kind.
pub open spec fn fingerprint_of(kind: ResourceKind, id: Option<i64>) -> Seq<char> {
    match id {
        Some(id) => kind_name(kind) + seq!['/'] + id_text(id as int),
        None => kind_name(kind) + all_suffix(),
    }
}

/// What the names and the suffix are, character by character.
pub proof fn lemma_names()
    ensures
        kind_name(ResourceKind::Character) == seq!['c', 'h', 'a', 'r', 'a', 'c', 't', 'e', 'r'],
        kind_name(ResourceKind::Episode) == seq!['e', 'p', 'i', 's', 'o', 'd', 'e'],
        kind_name(ResourceKind::Location) == seq!['l', 'o', 'c', 'a', 't', 'i', 'o', 'n'],
        all_suffix() == seq!['-', 'a', 'l', 'l'],
{
    reveal_strlit("character");
    reveal_strlit("episode");
    reveal_strlit("location");
    reveal_strlit("-all");
    assert(kind_name(ResourceKind::Character) =~= seq![
        'c',
        'h',
        'a',
        'r',
        'a',
        'c',
        't',
        'e',
        'r',
    ]);
    assert(kind_name(ResourceKind::Episode) =~= seq!['e', 'p', 'i', 's', 'o', 'd', 'e']);
    assert(kind_name(ResourceKind::Location) =~= seq!['l', 'o', 'c', 'a', 't', 'i', 'o', 'n']);
    assert(all_suffix() =~= seq!['-', 'a', 'l', 'l']);
}

/// Fingerprints never collide: two queries with the same fingerprint are the
/// same query. (That the same query always has the same fingerprint needs no
/// proof: the fingerprint is a function of the query.)
pub proof fn lemma_fingerprints_are_distinct(
    kind: ResourceKind,
    id: Option<i64>,
    other_kind: ResourceKind,
    other_id: Option<i64>,
)
    requires
        fingerprint_of(kind, id) == fingerprint_of(other_kind, other_id),
    ensures
        kind == other_kind,
        id == other_id,
{
    lemma_names();
    let a = fingerprint_of(kind, id);
    let b = fingerprint_of(other_kind, other_id);
    let name = kind_name(kind);
    let other_name = kind_name(other_kind);
    // The names begin with different letters, so the kinds agree.
    assert(a[0] == name[0]);
    assert(b[0] == other_name[0]);
    assert(kind == other_kind);
    // Behind the name stands a slash for one record, a hyphen for all.
    let n = name.len() as int;
    match (id, other_id) {
        (Some(x), Some(y)) => {
            assert(a.subrange(n + 1, a.len() as int) =~= id_text(x as int));
            assert(b.subrange(n + 1, b.len() as int) =~= id_text(y as int));
            lemma_id_text_is_injective(x, y);
        },
        (Some(_), None) => {
            assert(a[n] == '/');
            assert(b[n] == '-');
        },
        (None, Some(_)) => {
            assert(a[n] == '-');
            assert(b[n] == '/');
        },
        (None, None) => {},
    }
}

impl ResourceKind {
    /// The name of the kind, as it stands in paths and fingerprints.
    pub fn name(&self) -> (name: &'static str)
        ensures
            name@ == kind_name(*self),
    {
        match self {
            ResourceKind::Character => "character",
            ResourceKind::Episode => "episode",
            ResourceKind::Location => "location",
        }
    }
}

impl Query {
    /// The fingerprint of the query.
    pub open spec fn spec_fingerprint(&self) -> Seq<char> {
        fingerprint_of(self.kind, self.id)
    }

    /// The fingerprint of the query: the key under which its answer is
    /// cached.
    pub fn fingerprint(&self) -> (text: String)
        ensures
            text@ == self.spec_fingerprint(),
    {
        fingerprint(self.kind, self.id)
    }
}

/// The fingerprint of a query for the record `id` of a kind, or for all
/// records of the kind where `id` is `None`.
pub fn fingerprint(kind: ResourceKind, id: Option<i64>) -> (text: String)
    ensures
        text@ == fingerprint_of(kind, id),
{
    let mut text = String::from_str(kind.name());
    match id {
        Some(id) => {
            text.append("/");
            push_id(&mut text, id);
            proof {
                reveal_strlit("/");
            }
        },
        None => {
            text.append("-all");
        },
    }
    text
}

} // verus!
