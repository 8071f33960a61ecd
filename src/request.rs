//! What callers send: namespace paths in parameter form and request bodies.
use vstd::prelude::*;
use crate::json::Properties;
use crate::namespace::NamespaceIdent;
use crate::result::{CatalogResult, Error, ErrorType, Location};
use crate::types::TableIdentifier;

verus! {

/// Whether a character is an ASCII letter or digit.
pub open spec fn is_alnum(c: char) -> bool {
    ('0' <= c && c <= '9') || ('a' <= c && c <= 'z') || ('A' <= c && c <= 'Z')
}

/// Whether a namespace parameter holds only ASCII letters, digits and unit
/// separators, and every piece between separators is non-empty: each
/// segment is one or more ASCII letters and digits.
pub open spec fn valid_param(s: Seq<char>) -> bool {
    &&& forall|i: int| 0 <= i < s.len() ==> #[trigger] s[i] == '\u{1F}' || is_alnum(s[i])
    &&& forall|j: int| 0 <= j < split_units(s).len() ==> #[trigger] split_units(s)[j].len() > 0
}

/// The pieces of `s` between unit separators; there is always at least one.
pub open spec fn split_units(s: Seq<char>) -> Seq<Seq<char>>
    decreases s.len(),
{
    if s.len() == 0 {
        seq![Seq::empty()]
    } else {
        let prev = split_units(s.drop_last());
        if s.last() == '\u{1F}' {
            prev.push(Seq::empty())
        } else {
            prev.update(prev.len() - 1, prev.last().push(s.last()))
        }
    }
}

proof fn lemma_split_nonempty(s: Seq<char>)
    ensures
        split_units(s).len() >= 1,
    decreases s.len(),
{
    if s.len() > 0 {
        lemma_split_nonempty(s.drop_last());
    }
}

proof fn lemma_split_prefix(s: Seq<char>, k: int)
    requires
        0 <= k <= s.len(),
    ensures
        split_units(s.take(k)).len() <= split_units(s).len(),
        forall|j: int|
            0 <= j < split_units(s.take(k)).len() - 1 ==> split_units(s)[j] == #[trigger] split_units(s.take(k))[j],
    decreases s.len() - k,
{
    if k == s.len() {
        assert(s.take(k) =~= s);
    } else {
        lemma_split_prefix(s, k + 1);
        let t = s.take(k + 1);
        assert(t.drop_last() =~= s.take(k));
        lemma_split_nonempty(s.take(k));
        let p = split_units(s.take(k));
        let q = split_units(t);
        assert(q.len() >= p.len());
        assert forall|j: int| 0 <= j < p.len() - 1 implies q[j] == p[j] by {}
    }
}

/// A namespace path given as one parameter.
pub struct NamespaceParam(pub Vec<NamespaceIdent>);

impl NamespaceParam {
    /// Reads a path whose segments are separated by the unit separator
    /// (U+001F); each segment may hold ASCII letters and digits only.
    pub fn try_from(param: &str) -> (r: CatalogResult<NamespaceParam>)
        ensures
            match r {
                Ok(p) => valid_param(param@) && p.0.deep_view() == split_units(param@),
                Err(e) => !valid_param(param@) && e.error_type == ErrorType::BadRequest
                    && e.location == Location::Namespace && e.message@ == "Invalid parameter"@,
            },
    {
        let n = param.unicode_len();
        let ghost s = param@;
        let mut parts: Vec<NamespaceIdent> = Vec::new();
        let mut start: usize = 0;
        let mut i: usize = 0;
        proof {
            assert(s.take(0) =~= Seq::empty());
            assert(s.subrange(0, 0) =~= Seq::<char>::empty());
            assert(parts.deep_view().push(Seq::empty()) =~= seq![Seq::<char>::empty()]);
        }
        while i < n
            invariant
                n == s.len(),
                s == param@,
                start <= i <= n,
                forall|j: int| 0 <= j < i ==> #[trigger] s[j] == '\u{1F}' || is_alnum(s[j]),
                parts.deep_view().push(s.subrange(start as int, i as int)) == split_units(s.take(i as int)),
                forall|j: int| 0 <= j < parts.deep_view().len() ==> #[trigger] parts.deep_view()[j].len() > 0,
            decreases n - i,
        {
            let c = param.get_char(i);
            let ghost before = parts.deep_view();
            proof {
                assert(s.take(i + 1).drop_last() =~= s.take(i as int));
                assert(s.take(i + 1).last() == c);
                lemma_split_nonempty(s.take(i as int));
            }
            if c == '\u{1F}' {
                if start == i {
                    proof {
                        let q = split_units(s.take(i + 1));
                        assert(s.subrange(start as int, i as int) =~= Seq::<char>::empty());
                        assert(q =~= before.push(Seq::empty()).push(Seq::empty()));
                        assert(q[before.len() as int].len() == 0);
                        lemma_split_prefix(s, i + 1);
                        assert(split_units(s)[before.len() as int].len() == 0);
                    }
                    return Err(Error::of(ErrorType::BadRequest, Location::Namespace, String::from_str("Invalid parameter")));
                }
                let ghost first = start;
                parts.push(String::from_str(param.substring_char(start, i)));
                start = i + 1;
                proof {
                    assert(parts.deep_view() =~= before.push(s.subrange(first as int, i as int)));
                    assert(parts.deep_view()[before.len() as int].len() > 0);
                    assert(s.subrange(start as int, i + 1) =~= Seq::<char>::empty());
                    assert(parts.deep_view().push(s.subrange(start as int, i + 1)) =~= split_units(s.take(i + 1)));
                }
            } else if ('0' <= c && c <= '9') || ('a' <= c && c <= 'z') || ('A' <= c && c <= 'Z') {
                proof {
                    assert(s.subrange(start as int, i + 1) =~= s.subrange(start as int, i as int).push(c));
                    assert(parts.deep_view().push(s.subrange(start as int, i + 1)) =~= split_units(s.take(i + 1)));
                }
            } else {
                proof {
                    assert(!(s[i as int] == '\u{1F}' || is_alnum(s[i as int])));
                }
                return Err(Error::of(ErrorType::BadRequest, Location::Namespace, String::from_str("Invalid parameter")));
            }
            i = i + 1;
        }
        proof {
            assert(s.take(n as int) =~= s);
        }
        if start == n {
            proof {
                assert(split_units(s)[parts.deep_view().len() as int] == s.subrange(start as int, n as int));
                assert(split_units(s)[parts.deep_view().len() as int].len() == 0);
            }
            return Err(Error::of(ErrorType::BadRequest, Location::Namespace, String::from_str("Invalid parameter")));
        }
        let ghost before = parts.deep_view();
        parts.push(String::from_str(param.substring_char(start, n)));
        proof {
            assert(s.take(n as int) =~= s);
            assert(parts.deep_view() =~= before.push(s.subrange(start as int, n as int)));
            assert forall|j: int| 0 <= j < split_units(s).len() implies #[trigger] split_units(s)[j].len() > 0 by {
                if j < before.len() {
                    assert(split_units(s)[j] == before[j]);
                }
            }
        }
        Ok(NamespaceParam(parts))
    }
}

/// A request to create a namespace, with optional properties.
pub struct CreateNamespaceRequest {
    pub namespace: Vec<NamespaceIdent>,
    pub properties: Option<Properties>,
}

/// A request to remove and set properties of a namespace.
pub struct UpdateNamespaceRequest {
    pub removals: Option<Vec<String>>,
    pub updates: Option<Properties>,
}

/// A request to create a table.
pub struct CreateTableRequest {
    pub name: String,
}

/// A request to register a table from a metadata file.
pub struct RegisterTableRequest {
    pub name: String,
    pub metadata_location: String,
}

/// A request to commit changes to a table.
pub struct CommitTableRequest {
    pub requirements: Vec<TableRequirement>,
    pub updates: Vec<TableUpdate>,
}

/// A condition a commit requires of a table.
pub struct TableRequirement {
    pub requirement: RequirementType,
}

/// A commit requirement; no kind of requirement is supported yet.
pub struct RequirementType {}

/// A table change; no kind of change is supported yet.
pub struct TableUpdate {}

/// Whether dropping a table should also purge its data.
pub struct PurgeRequested {
    pub purge_requested: Option<bool>,
}

/// A request to rename a table.
pub struct RenameTableRequest {
    pub source: TableIdentifier,
    pub destination: TableIdentifier,
}

} // verus!
