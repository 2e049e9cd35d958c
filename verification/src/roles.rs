//! Role selection: locating the role-membership attribute by its `/Role`
//! name suffix, splitting each entry into its principal-ARN/role-ARN pair,
//! and picking the first entry whose role ARN carries the requested suffix.

use vstd::prelude::*;
use crate::extract::{AttrModel, SamlAssertion, views_of};
use crate::scan::{
    copy_range, find_in, first_match_in, is_match_at, lemma_first_match_in_first,
    lemma_first_match_in_is, lemma_first_match_in_none, lemma_single_byte_match, match_at,
};

verus! {

/// Failure of role selection, each variant a user-actionable condition.
#[derive(Clone, Copy, Debug, PartialEq, Eq, Structural)]
pub enum RoleError {
    /// No attribute name ends with `/Role`.
    RoleAttributeMissing,
    /// A role entry does not consist of exactly two comma-separated fields.
    MalformedEntry,
    /// No entry's role ARN ends with the requested filter.
    RoleNotFound,
}

/// Mathematical model of a selected principal-ARN/role-ARN pair.
pub ghost struct PrincipalModel {
    pub principal_arn: Seq<u8>,
    pub role_arn: Seq<u8>,
}

/// A selected principal-ARN/role-ARN pair.
pub struct Principal {
    pub principal_arn: Vec<u8>,
    pub role_arn: Vec<u8>,
}

impl View for Principal {
    type V = PrincipalModel;

    open spec fn view(&self) -> PrincipalModel {
        PrincipalModel { principal_arn: self.principal_arn@, role_arn: self.role_arn@ }
    }
}

/// `s` ends with `suffix`.
pub open spec fn ends_with(s: Seq<u8>, suffix: Seq<u8>) -> bool {
    s.len() >= suffix.len() && s.subrange(s.len() - suffix.len(), s.len() as int) == suffix
}

/// The name suffix that marks the role-membership attribute: `/Role`.
pub open spec fn role_suffix() -> Seq<u8> {
    seq![47u8, 82u8, 111u8, 108u8, 101u8]
}

fn role_suffix_bytes() -> (r: Vec<u8>)
    ensures
        r@ == role_suffix(),
{
    let r: Vec<u8> = vec![47u8, 82u8, 111u8, 108u8, 101u8];
    proof {
        assert(r@ =~= role_suffix());
    }
    r
}

/// A comma, the separator of a role entry's two fields.
pub open spec fn comma() -> Seq<u8> {
    seq![44u8]
}

fn comma_bytes() -> (r: Vec<u8>)
    ensures
        r@ == comma(),
{
    let r: Vec<u8> = vec![44u8];
    proof {
        assert(r@ =~= comma());
    }
    r
}

/// Whether `s` ends with `suffix`.
pub fn suffix_matches(s: &[u8], suffix: &[u8]) -> (r: bool)
    ensures
        r == ends_with(s@, suffix@),
{
    if suffix.len() > s.len() {
        return false;
    }
    let start = s.len() - suffix.len();
    let r = match_at(s, suffix, start, s.len());
    proof {
        assert(s@.subrange(start as int, start + suffix@.len()) == s@.subrange(
            s@.len() - suffix@.len(),
            s@.len() as int,
        ));
    }
    r
}

/// The values of the first attribute whose name ends with `/Role`, if any.
pub open spec fn spec_find_role_values(attrs: Seq<AttrModel>) -> Option<Seq<Seq<u8>>>
    decreases attrs.len(),
{
    if attrs.len() == 0 {
        None
    } else if ends_with(attrs[0].name, role_suffix()) {
        Some(attrs[0].values)
    } else {
        spec_find_role_values(attrs.drop_first())
    }
}

/// The role-attribute lookup is name-suffix-exact on `/Role`: it comes back
/// empty exactly when no attribute name carries that suffix.
pub proof fn lemma_role_lookup_exact(attrs: Seq<AttrModel>)
    ensures
        spec_find_role_values(attrs) is None <==> (forall|i: int|
            0 <= i < attrs.len() ==> !ends_with(#[trigger] attrs[i].name, role_suffix())),
    decreases attrs.len(),
{
    if attrs.len() == 0 {
    } else {
        let rest = attrs.drop_first();
        lemma_role_lookup_exact(rest);
        assert(forall|i: int| 0 <= i < rest.len() ==> #[trigger] rest[i] == attrs[i + 1]);
        if spec_find_role_values(attrs) is None {
            assert forall|i: int|
                0 <= i < attrs.len() implies !ends_with(
                #[trigger] attrs[i].name,
                role_suffix(),
            ) by {
                if i > 0 {
                    assert(rest[i - 1] == attrs[i]);
                }
            }
        }
        if forall|i: int| 0 <= i < attrs.len() ==> !ends_with(
            #[trigger] attrs[i].name,
            role_suffix(),
        ) {
            assert forall|i: int|
                0 <= i < rest.len() implies !ends_with(#[trigger] rest[i].name, role_suffix()) by {
                assert(rest[i] == attrs[i + 1]);
            }
            assert(!ends_with(attrs[0].name, role_suffix()));
            assert(spec_find_role_values(rest) is None);
        }
    }
}

/// A role entry split at its single comma: `None` unless the entry holds
/// exactly one comma, so exactly two fields.
pub open spec fn spec_split_entry(v: Seq<u8>) -> Option<PrincipalModel> {
    let end = v.len() as int;
    match first_match_in(v, comma(), 0, end) {
        None => None,
        Some(i) => {
            if first_match_in(v, comma(), i + 1, end) is Some {
                None
            } else {
                Some(
                    PrincipalModel {
                        principal_arn: v.subrange(0, i),
                        role_arn: v.subrange(i + 1, end),
                    },
                )
            }
        },
    }
}

/// No byte of `s` is a comma.
pub open spec fn comma_free(s: Seq<u8>) -> bool {
    forall|i: int| 0 <= i < s.len() ==> s[i] != 44u8
}

/// Splitting an entry of the form `principal,role`, with comma-free
/// fields, recovers the two original fields exactly.
pub proof fn lemma_split_round_trip(p: Seq<u8>, r: Seq<u8>)
    requires
        comma_free(p),
        comma_free(r),
    ensures
        spec_split_entry(p + comma() + r) == Some(
            PrincipalModel { principal_arn: p, role_arn: r },
        ),
{
    let v = p + comma() + r;
    let end = v.len() as int;
    let m = p.len() as int;
    assert(comma() =~= seq![44u8]);
    assert(v[m] == 44u8) by {
        assert((p + comma())[m] == comma()[0]);
    }
    assert forall|j: int| 0 <= j < m implies !is_match_at(v, comma(), j, end) by {
        assert(v[j] == p[j]);
        lemma_single_byte_match(v, 44u8, j, end);
    }
    assert(is_match_at(v, comma(), m, end)) by {
        lemma_single_byte_match(v, 44u8, m, end);
    }
    lemma_first_match_in_is(v, comma(), 0, end, m);
    assert forall|j: int| m + 1 <= j implies !is_match_at(v, comma(), j, end) by {
        if j < end {
            assert(v[j] == r[j - m - 1]);
        }
        lemma_single_byte_match(v, 44u8, j, end);
    }
    lemma_first_match_in_none(v, comma(), m + 1, end);
    assert(v.subrange(0, m) =~= p);
    assert(v.subrange(m + 1, end) =~= r);
}

/// A successful split is exact: the entry is its two comma-free fields
/// joined by the single comma, so a malformed entry — one with fewer or
/// more than two comma-separated fields — never yields truncated values.
pub proof fn lemma_split_exact(v: Seq<u8>)
    ensures
        spec_split_entry(v) matches Some(m) ==> v == m.principal_arn + comma() + m.role_arn
            && comma_free(m.principal_arn) && comma_free(m.role_arn),
{
    if spec_split_entry(v) is Some {
        let end = v.len() as int;
        assert(comma() =~= seq![44u8]);
        lemma_first_match_in_first(v, comma(), 0, end);
        let i = first_match_in(v, comma(), 0, end)->Some_0;
        lemma_first_match_in_first(v, comma(), i + 1, end);
        lemma_single_byte_match(v, 44u8, i, end);
        assert forall|j: int| 0 <= j < i implies v[j] != 44u8 by {
            lemma_single_byte_match(v, 44u8, j, end);
        }
        assert forall|j: int| i + 1 <= j < end implies v[j] != 44u8 by {
            lemma_single_byte_match(v, 44u8, j, end);
        }
        let pm = spec_split_entry(v)->Some_0;
        assert(comma_free(pm.principal_arn)) by {
            assert(forall|j: int|
                0 <= j < pm.principal_arn.len() ==> pm.principal_arn[j] == v[j]);
        }
        assert(comma_free(pm.role_arn)) by {
            assert(forall|j: int| 0 <= j < pm.role_arn.len() ==> pm.role_arn[j] == v[i + 1 + j]);
        }
        assert(v =~= pm.principal_arn + comma() + pm.role_arn);
    }
}

/// An entry that is not two comma-free fields joined by one comma never
/// splits: selection fails on it rather than yielding truncated fields.
pub proof fn lemma_malformed_entry_never_splits(v: Seq<u8>)
    requires
        forall|p: Seq<u8>, r: Seq<u8>|
            !(v == #[trigger] (p + comma() + r)) || !comma_free(p) || !comma_free(r),
    ensures
        spec_split_entry(v) is None,
{
    if spec_split_entry(v) is Some {
        lemma_split_exact(v);
        let m = spec_split_entry(v)->Some_0;
        assert(v == m.principal_arn + comma() + m.role_arn);
    }
}

/// Splits one role entry into its principal-ARN/role-ARN pair; an entry
/// with fewer or more than two comma-separated fields is malformed.
pub fn split_entry(value: &[u8]) -> (r: Result<Principal, RoleError>)
    ensures
        match r {
            Ok(p) => spec_split_entry(value@) == Some(p@),
            Err(e) => spec_split_entry(value@) is None && e == RoleError::MalformedEntry,
        },
{
    let cm = comma_bytes();
    let end = value.len();
    match find_in(value, cm.as_slice(), 0, end) {
        None => Err(RoleError::MalformedEntry),
        Some(i) => {
            proof {
                lemma_first_match_in_first(value@, comma(), 0, end as int);
            }
            match find_in(value, cm.as_slice(), i + 1, end) {
                Some(_) => Err(RoleError::MalformedEntry),
                None => {
                    let principal_arn = copy_range(value, 0, i);
                    let role_arn = copy_range(value, i + 1, end);
                    Ok(Principal { principal_arn, role_arn })
                },
            }
        },
    }
}

/// The first entry whose role ARN ends with `filter`, walking the values in
/// order; a malformed entry fails before any later match is considered.
pub open spec fn spec_select_entry(values: Seq<Seq<u8>>, filter: Seq<u8>) -> Result<
    PrincipalModel,
    RoleError,
>
    decreases values.len(),
{
    if values.len() == 0 {
        Err(RoleError::RoleNotFound)
    } else {
        match spec_split_entry(values[0]) {
            None => Err(RoleError::MalformedEntry),
            Some(m) => {
                if ends_with(m.role_arn, filter) {
                    Ok(m)
                } else {
                    spec_select_entry(values.drop_first(), filter)
                }
            },
        }
    }
}

/// Role selection over a whole assertion: the values of the role attribute,
/// searched in order for the first entry whose role ARN ends with `filter`.
pub open spec fn spec_select_role(attrs: Seq<AttrModel>, filter: Seq<u8>) -> Result<
    PrincipalModel,
    RoleError,
> {
    match spec_find_role_values(attrs) {
        None => Err(RoleError::RoleAttributeMissing),
        Some(values) => spec_select_entry(values, filter),
    }
}

fn find_role_index(assertion: &SamlAssertion) -> (r: Option<usize>)
    ensures
        match r {
            Some(i) => i < assertion.attributes@.len() && spec_find_role_values(assertion@)
                == Some(views_of(assertion.attributes@[i as int].values@)),
            None => spec_find_role_values(assertion@) is None,
        },
{
    let sfx = role_suffix_bytes();
    let n = assertion.attributes.len();
    proof {
        assert(assertion@.skip(0) =~= assertion@);
    }
    let mut idx: usize = 0;
    while idx < n
        invariant
            idx <= n,
            n == assertion.attributes@.len(),
            sfx@ == role_suffix(),
            spec_find_role_values(assertion@) == spec_find_role_values(
                assertion@.skip(idx as int),
            ),
        decreases n - idx,
    {
        let attr = &assertion.attributes[idx];
        proof {
            assert(assertion@.skip(idx as int)[0] == assertion@[idx as int]);
            assert(assertion@[idx as int] == assertion.attributes@[idx as int]@);
        }
        if suffix_matches(attr.name.as_slice(), sfx.as_slice()) {
            return Some(idx);
        }
        proof {
            assert(assertion@.skip(idx as int).drop_first() =~= assertion@.skip(idx + 1));
        }
        idx = idx + 1;
    }
    proof {
        assert(assertion@.skip(n as int) =~= Seq::<AttrModel>::empty());
    }
    None
}

/// Selects the federated role: finds the `/Role` attribute, splits each of
/// its values, and returns the first pair whose role ARN ends with
/// `role_filter`, exactly as `spec_select_role` describes it.
pub fn select_role(assertion: &SamlAssertion, role_filter: &[u8]) -> (r: Result<
    Principal,
    RoleError,
>)
    ensures
        match r {
            Ok(p) => spec_select_role(assertion@, role_filter@) == Ok::<
                PrincipalModel,
                RoleError,
            >(p@),
            Err(e) => spec_select_role(assertion@, role_filter@) == Err::<
                PrincipalModel,
                RoleError,
            >(e),
        },
{
    let ai = match find_role_index(assertion) {
        None => {
            return Err(RoleError::RoleAttributeMissing);
        },
        Some(ai) => ai,
    };
    let values = &assertion.attributes[ai].values;
    let ghost all: Seq<Seq<u8>> = views_of(values@);
    let n = values.len();
    proof {
        assert(all.skip(0) =~= all);
    }
    let mut vi: usize = 0;
    while vi < n
        invariant
            vi <= n,
            n == values@.len(),
            all == views_of(values@),
            spec_find_role_values(assertion@) == Some(all),
            spec_select_entry(all, role_filter@) == spec_select_entry(
                all.skip(vi as int),
                role_filter@,
            ),
        decreases n - vi,
    {
        proof {
            assert(all.skip(vi as int)[0] == all[vi as int]);
            assert(all[vi as int] == values@[vi as int]@);
        }
        match split_entry(values[vi].as_slice()) {
            Err(_) => {
                return Err(RoleError::MalformedEntry);
            },
            Ok(p) => {
                if suffix_matches(p.role_arn.as_slice(), role_filter) {
                    return Ok(p);
                }
                proof {
                    assert(all.skip(vi as int).drop_first() =~= all.skip(vi + 1));
                }
            },
        }
        vi = vi + 1;
    }
    proof {
        assert(all.skip(n as int) =~= Seq::<Seq<u8>>::empty());
    }
    Err(RoleError::RoleNotFound)
}

} // verus!
