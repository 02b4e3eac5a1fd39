use vstd::prelude::*;

use crate::strutil::str_eq;

verus! {

/// A capability in `resource:action` form. Either component may be the
/// wildcard `*`, on either side of a match: a wildcard in a query
/// pattern is satisfied by any granted value, and a granted wildcard
/// satisfies any query value in that position.
#[derive(Debug, PartialEq, Eq, Hash)]
pub struct Permission {
    pub resource: String,
    pub action: String,
}

impl Clone for Permission {
    /// A clone is the same value.
    fn clone(&self) -> (r: Permission)
        ensures
            r == *self,
    {
        Permission { resource: self.resource.clone(), action: self.action.clone() }
    }
}

impl View for Permission {
    type V = (Seq<char>, Seq<char>);

    open spec fn view(&self) -> (Seq<char>, Seq<char>) {
        (self.resource@, self.action@)
    }
}

/// The `resource:action` string of a permission.
pub open spec fn perm_string(resource: Seq<char>, action: Seq<char>) -> Seq<char> {
    resource + ":"@ + action
}

/// Position `i` is the single colon of `s`.
pub open spec fn splits_at(s: Seq<char>, i: int) -> bool {
    &&& 0 <= i < s.len()
    &&& s[i] == ':'
    &&& forall|j: int| 0 <= j < s.len() && j != i ==> s[j] != ':'
}

/// What parsing a `resource:action` string yields: the two components
/// around the colon when the string holds exactly one colon, nothing
/// otherwise.
pub open spec fn spec_from_string(s: Seq<char>) -> Option<(Seq<char>, Seq<char>)> {
    if exists|i: int| splits_at(s, i) {
        let i = choose|i: int| splits_at(s, i);
        Some((s.subrange(0, i), s.subrange(i + 1, s.len() as int)))
    } else {
        None
    }
}

/// Whether a granted permission `p` satisfies the query `pattern`:
/// `*` and `*:*` match everything; otherwise the pattern must parse as
/// `resource:action`, and in each position a wildcard on either side —
/// the query's or the granted permission's — or equality satisfies it.
/// Matching is wildcard-aware in both directions: a wildcard in the
/// query is satisfied by any granted value, and a wildcard stored as a
/// granted component likewise satisfies any query value.
pub open spec fn spec_matches(p: (Seq<char>, Seq<char>), pattern: Seq<char>) -> bool {
    if pattern == "*"@ || pattern == "*:*"@ {
        true
    } else {
        match spec_from_string(pattern) {
            Some(q) => (q.0 == "*"@ || p.0 == "*"@ || q.0 == p.0) && (q.1 == "*"@ || p.1 == "*"@
                || q.1 == p.1),
            None => false,
        }
    }
}

impl Permission {
    /// Builds a permission from its two components.
    pub fn new(resource: String, action: String) -> (r: Permission)
        ensures
            r@ == (resource@, action@),
    {
        Permission { resource, action }
    }

    /// Renders the permission as its `resource:action` string.
    pub fn to_string(&self) -> (r: String)
        ensures
            r@ == perm_string(self.resource@, self.action@),
    {
        let mut s = self.resource.clone();
        s.append(":");
        s.append(self.action.as_str());
        s
    }

    /// Parses a `resource:action` string; yields nothing unless the string
    /// holds exactly one colon.
    pub fn from_string(s: &str) -> (r: Option<Permission>)
        ensures
            (r is Some) == (spec_from_string(s@) is Some),
            r matches Some(p) ==> spec_from_string(s@) == Some((p.resource@, p.action@)),
    {
        let len = s.unicode_len();
        let mut i: usize = 0;
        let mut colon_pos: usize = 0;
        let mut colon_pos2: usize = 0;
        let mut colons: usize = 0;
        while i < len
            invariant
                len == s@.len(),
                i <= len,
                colons <= i,
                colons > 0 ==> colon_pos < i && s@[colon_pos as int] == ':',
                colons >= 2 ==> colon_pos < colon_pos2 < i && s@[colon_pos2 as int] == ':',
                colons == 0 ==> forall|j: int| 0 <= j < i ==> s@[j] != ':',
                colons == 1 ==> forall|j: int| 0 <= j < i && j != colon_pos ==> s@[j] != ':',
            decreases len - i,
        {
            if s.get_char(i) == ':' {
                if colons == 0 {
                    colon_pos = i;
                } else if colons == 1 {
                    colon_pos2 = i;
                }
                colons = colons + 1;
            }
            i = i + 1;
        }
        if colons == 1 {
            proof {
                assert(splits_at(s@, colon_pos as int));
                let k = choose|k: int| splits_at(s@, k);
                assert(k == colon_pos as int);
            }
            let resource = s.substring_char(0, colon_pos);
            let action = s.substring_char(colon_pos + 1, len);
            Some(Permission {
                resource: resource.to_owned(),
                action: action.to_owned(),
            })
        } else {
            proof {
                if exists|k: int| splits_at(s@, k) {
                    let k = choose|k: int| splits_at(s@, k);
                    if colons == 0 {
                        assert(s@[k] != ':');
                    } else {
                        if k == colon_pos as int {
                            assert(s@[colon_pos2 as int] != ':');
                        } else {
                            assert(s@[colon_pos as int] != ':');
                        }
                    }
                }
            }
            None
        }
    }

    /// Wildcard-aware match of this granted permission against a query
    /// pattern, per `spec_matches`.
    pub fn matches(&self, pattern: &str) -> (r: bool)
        ensures
            r == spec_matches(self@, pattern@),
    {
        if str_eq(pattern, "*") || str_eq(pattern, "*:*") {
            return true;
        }
        match Permission::from_string(pattern) {
            Some(q) => {
                (str_eq(q.resource.as_str(), "*") || str_eq(self.resource.as_str(), "*")
                    || str_eq(q.resource.as_str(), self.resource.as_str())) && (str_eq(
                    q.action.as_str(),
                    "*",
                ) || str_eq(self.action.as_str(), "*") || str_eq(
                    q.action.as_str(),
                    self.action.as_str(),
                ))
            },
            None => false,
        }
    }
}

/// Wildcard law, universal part: the full wildcards `*` and `*:*` and the
/// per-component wildcards `resource:*` and `*:action` are satisfied by
/// every granted permission with that resource or action; a granted
/// wildcard — `*:*`, or `*` in one position — likewise satisfies any
/// concrete query; and a parsed pattern without wildcards on either side
/// matches exactly the equal permission.
pub proof fn lemma_wildcard_matches(p: (Seq<char>, Seq<char>))
    requires
        !p.0.contains(':'),
        !p.1.contains(':'),
    ensures
        spec_matches(p, "*"@),
        spec_matches(p, "*:*"@),
        spec_matches(p, perm_string(p.0, "*"@)),
        spec_matches(p, perm_string("*"@, p.1)),
        spec_matches(p, perm_string(p.0, p.1)),
        spec_matches(("*"@, "*"@), perm_string(p.0, p.1)),
        spec_matches(("*"@, p.1), perm_string(p.0, p.1)),
        spec_matches((p.0, "*"@), perm_string(p.0, p.1)),
{
    reveal_strlit("*");
    assert(!"*"@.contains(':')) by {
        assert(forall|j: int| 0 <= j < "*"@.len() ==> "*"@[j] == '*');
    }
    lemma_parsed_pattern_law(p, p.0, "*"@);
    lemma_parsed_pattern_law(p, "*"@, p.1);
    lemma_parsed_pattern_law(p, p.0, p.1);
    lemma_parsed_pattern_law(("*"@, "*"@), p.0, p.1);
    lemma_parsed_pattern_law(("*"@, p.1), p.0, p.1);
    lemma_parsed_pattern_law((p.0, "*"@), p.0, p.1);
}

/// Wildcard law for component patterns: matching a colon-free pair
/// `qr:qa` holds iff, in each position, the query component or the
/// granted component is `*`, or the two are equal.
pub proof fn lemma_parsed_pattern_law(p: (Seq<char>, Seq<char>), qr: Seq<char>, qa: Seq<char>)
    requires
        !qr.contains(':'),
        !qa.contains(':'),
    ensures
        spec_matches(p, perm_string(qr, qa)) == ((qr == "*"@ || p.0 == "*"@ || qr == p.0) && (qa
            == "*"@ || p.1 == "*"@ || qa == p.1)),
{
    reveal_strlit("*");
    reveal_strlit("*:*");
    reveal_strlit(":");
    let s = perm_string(qr, qa);
    let i = qr.len() as int;
    assert(s[i] == ':');
    assert forall|j: int| 0 <= j < s.len() && j != i implies s[j] != ':' by {
        if j < i {
            assert(s[j] == qr[j]);
            assert(!qr.contains(':'));
        } else {
            assert(s[j] == qa[j - i - 1]);
            assert(!qa.contains(':'));
        }
    }
    assert(splits_at(s, i));
    let k = choose|k: int| splits_at(s, k);
    assert(k == i);
    assert(s.subrange(0, i) =~= qr);
    assert(s.subrange(i + 1, s.len() as int) =~= qa);
    if s == "*"@ {
        assert(s.len() == 1);
        assert(false);
    }
    if s == "*:*"@ {
        assert(s[0] == '*' && s[2] == '*' && s.len() == 3);
        assert(qr =~= "*"@);
        assert(qa =~= "*"@);
    }
}

} // verus!

