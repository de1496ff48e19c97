//! Folding per-zome validation callback results into one outcome.
//!
//! Validation outcomes merge monotonically: an invalid result dominates,
//! unresolved dependencies come next, and a valid result never overrides
//! either. The same precedence governs every append-only evidence merge in
//! this library.

use crate::entry::{Entry, EntryV};
use crate::hash::{HashV, HoloHash};
use vstd::prelude::*;
use vstd::string::StringExecFns;

verus! {

/// The name of a zome within a DNA.
pub struct ZomeName(pub String);

impl View for ZomeName {
    type V = Seq<char>;

    open spec fn view(&self) -> Seq<char> {
        self.0@
    }
}

impl Clone for ZomeName {
    fn clone(&self) -> (r: Self)
        ensures
            r@ == self@,
    {
        ZomeName(self.0.clone())
    }
}

/// Which zomes an invocation runs in.
pub enum ZomesToInvoke {
    /// Every zome of the DNA.
    All,
    /// One named zome.
    One(ZomeName),
}

/// Mathematical value of a [`ZomesToInvoke`].
#[verifier::ext_equal]
pub ghost enum ZomesToInvokeV {
    All,
    One(Seq<char>),
}

impl View for ZomesToInvoke {
    type V = ZomesToInvokeV;

    open spec fn view(&self) -> ZomesToInvokeV {
        match self {
            ZomesToInvoke::All => ZomesToInvokeV::All,
            ZomesToInvoke::One(z) => ZomesToInvokeV::One(z@),
        }
    }
}

/// One zome's answer to a validation callback.
pub enum ValidateCallbackResult {
    /// The data is valid.
    Valid,
    /// The data is invalid, with the zome's reason.
    Invalid(String),
    /// Validation cannot finish until these entries can be fetched.
    UnresolvedDependencies(Vec<HoloHash>),
}

/// Mathematical value of a [`ValidateCallbackResult`].
#[verifier::ext_equal]
pub ghost enum ValidateCallbackResultV {
    Valid,
    Invalid(Seq<char>),
    UnresolvedDependencies(Seq<HashV>),
}

impl View for ValidateCallbackResult {
    type V = ValidateCallbackResultV;

    open spec fn view(&self) -> ValidateCallbackResultV {
        match self {
            ValidateCallbackResult::Valid => ValidateCallbackResultV::Valid,
            ValidateCallbackResult::Invalid(s) => ValidateCallbackResultV::Invalid(s@),
            ValidateCallbackResult::UnresolvedDependencies(v) => {
                ValidateCallbackResultV::UnresolvedDependencies(
                    Seq::new(v@.len(), |i: int| v@[i]@),
                )
            },
        }
    }
}

/// The folded outcome of running validation across zomes.
pub enum ValidateResult {
    /// Every callback accepted the data.
    Valid,
    /// Some callback rejected the data, with its reason.
    Invalid(String),
    /// No callback rejected the data, but some could not finish; the
    /// subconscious maps this to pending or abandoned based on context the
    /// WASM cannot have.
    UnresolvedDependencies(Vec<HoloHash>),
}

/// Mathematical value of a [`ValidateResult`].
#[verifier::ext_equal]
pub ghost enum ValidateResultV {
    Valid,
    Invalid(Seq<char>),
    UnresolvedDependencies(Seq<HashV>),
}

impl View for ValidateResult {
    type V = ValidateResultV;

    open spec fn view(&self) -> ValidateResultV {
        match self {
            ValidateResult::Valid => ValidateResultV::Valid,
            ValidateResult::Invalid(s) => ValidateResultV::Invalid(s@),
            ValidateResult::UnresolvedDependencies(v) => {
                ValidateResultV::UnresolvedDependencies(Seq::new(v@.len(), |i: int| v@[i]@))
            },
        }
    }
}

/// The fold of the first `j` callback results: an invalid result replaces
/// the accumulator, unresolved dependencies replace anything but invalid,
/// and a valid result changes nothing.
pub open spec fn fold_validate(s: Seq<ValidateCallbackResultV>, j: int) -> ValidateResultV
    decreases j,
{
    if j <= 0 {
        ValidateResultV::Valid
    } else {
        let acc = fold_validate(s, j - 1);
        match s[j - 1] {
            ValidateCallbackResultV::Invalid(i) => ValidateResultV::Invalid(i),
            ValidateCallbackResultV::UnresolvedDependencies(ud) => match acc {
                ValidateResultV::Invalid(_) => acc,
                _ => ValidateResultV::UnresolvedDependencies(ud),
            },
            ValidateCallbackResultV::Valid => acc,
        }
    }
}

/// The view of a run of callback results.
pub open spec fn vcr_views(s: Seq<ValidateCallbackResult>) -> Seq<ValidateCallbackResultV> {
    Seq::new(s.len(), |i: int| s[i]@)
}

impl ValidateResult {
    /// Folds callback results in order: invalid dominates, then
    /// unresolved dependencies, then valid.
    pub fn from_callback_results(callback_results: Vec<ValidateCallbackResult>) -> (r:
        ValidateResult)
        ensures
            r@ == fold_validate(vcr_views(callback_results@), callback_results@.len() as int),
    {
        let ghost s = vcr_views(callback_results@);
        let mut acc = ValidateResult::Valid;
        let mut results = callback_results;
        let mut i: usize = 0;
        while i < results.len()
            invariant
                i <= results@.len(),
                s == vcr_views(results@),
                acc@ == fold_validate(s, i as int),
            decreases results@.len() - i,
        {
            proof {
                assert(s[i as int] == results@[i as int]@);
            }
            let x = results[i].clone();
            acc = match x {
                ValidateCallbackResult::Invalid(reason) => ValidateResult::Invalid(reason),
                ValidateCallbackResult::UnresolvedDependencies(ud) => match acc {
                    ValidateResult::Invalid(reason) => ValidateResult::Invalid(reason),
                    _ => ValidateResult::UnresolvedDependencies(ud),
                },
                ValidateCallbackResult::Valid => acc,
            };
            i += 1;
        }
        acc
    }

    /// Folds named callback results, dropping the zome names.
    pub fn from_zome_results(a: Vec<(ZomeName, ValidateCallbackResult)>) -> (r: ValidateResult)
        ensures
            r@ == fold_validate(
                Seq::new(a@.len(), |i: int| a@[i].1@),
                a@.len() as int,
            ),
    {
        let mut results: Vec<ValidateCallbackResult> = Vec::new();
        let mut i: usize = 0;
        while i < a.len()
            invariant
                i <= a@.len(),
                results@.len() == i,
                forall|j: int| 0 <= j < i ==> (#[trigger] results@[j])@ == a@[j].1@,
            decreases a@.len() - i,
        {
            results.push(a[i].1.clone());
            i += 1;
        }
        let r = Self::from_callback_results(results);
        proof {
            assert(vcr_views(results@) =~= Seq::new(a@.len(), |i: int| a@[i].1@));
        }
        r
    }
}

impl Clone for ValidateCallbackResult {
    fn clone(&self) -> (r: Self)
        ensures
            r@ == self@,
    {
        match self {
            ValidateCallbackResult::Valid => ValidateCallbackResult::Valid,
            ValidateCallbackResult::Invalid(s) => ValidateCallbackResult::Invalid(s.clone()),
            ValidateCallbackResult::UnresolvedDependencies(v) => {
                let mut out: Vec<HoloHash> = Vec::new();
                let mut i: usize = 0;
                while i < v.len()
                    invariant
                        i <= v@.len(),
                        out@.len() == i,
                        forall|j: int| 0 <= j < i ==> (#[trigger] out@[j])@ == v@[j]@,
                    decreases v@.len() - i,
                {
                    out.push(v[i].clone());
                    i += 1;
                }
                let r = ValidateCallbackResult::UnresolvedDependencies(out);
                proof {
                    assert(r@ =~= self@) by {
                        assert(Seq::new(out@.len(), |i: int| out@[i]@) =~= Seq::new(
                            v@.len(),
                            |i: int| v@[i]@,
                        ));
                    }
                }
                r
            },
        }
    }
}

/// Whether any of the first `j` callback results is invalid.
pub open spec fn any_invalid(s: Seq<ValidateCallbackResultV>, j: int) -> bool {
    exists|i: int| 0 <= i < j && (#[trigger] s[i]) matches ValidateCallbackResultV::Invalid(_)
}

/// Whether any of the first `j` callback results is unresolved.
pub open spec fn any_unresolved(s: Seq<ValidateCallbackResultV>, j: int) -> bool {
    exists|i: int|
        0 <= i < j && (#[trigger] s[i]) matches ValidateCallbackResultV::UnresolvedDependencies(_)
}

/// Law: the folded outcome's kind depends only on which kinds of callback
/// results are present, not on their order or number: invalid dominates,
/// then unresolved dependencies, then valid.
pub proof fn lemma_fold_validate_precedence(s: Seq<ValidateCallbackResultV>, j: int)
    requires
        0 <= j <= s.len(),
    ensures
        any_invalid(s, j) <==> fold_validate(s, j) matches ValidateResultV::Invalid(_),
        (!any_invalid(s, j) && any_unresolved(s, j)) <==> fold_validate(s, j)
            matches ValidateResultV::UnresolvedDependencies(_),
        (!any_invalid(s, j) && !any_unresolved(s, j)) <==> fold_validate(s, j)
            == ValidateResultV::Valid,
    decreases j,
{
    if j > 0 {
        lemma_fold_validate_precedence(s, j - 1);
    }
}

/// The context in which the validate callback runs: no host functions are
/// accessible during validation.
pub struct ValidateHostAccess;

/// A request to run the validate callback on one entry in one zome.
pub struct ValidateInvocation {
    /// The zome the entry is defined in; entries are validated only there.
    pub zome_name: ZomeName,
    /// The entry to validate.
    pub entry: Entry,
}

/// Mathematical value of a [`ValidateInvocation`].
#[verifier::ext_equal]
pub ghost struct ValidateInvocationV {
    pub zome_name: Seq<char>,
    pub entry: EntryV,
}

impl View for ValidateInvocation {
    type V = ValidateInvocationV;

    open spec fn view(&self) -> ValidateInvocationV {
        ValidateInvocationV { zome_name: self.zome_name@, entry: self.entry@ }
    }
}

impl ValidateInvocation {
    /// Builds an invocation for one entry in one zome.
    pub fn new(zome_name: ZomeName, entry: Entry) -> (r: ValidateInvocation)
        ensures
            r@.zome_name == zome_name@,
            r@.entry == entry@,
    {
        ValidateInvocation { zome_name, entry }
    }

    /// The zomes to invoke: entries are specific to zomes, so only the
    /// zome the entry is defined in validates it.
    pub fn zomes(&self) -> (r: ZomesToInvoke)
        ensures
            r@ == ZomesToInvokeV::One(self@.zome_name),
    {
        ZomesToInvoke::One(self.zome_name.clone())
    }

    /// The callback names this invocation resolves, most specific first:
    /// the callback for the entry's kind, then the general validate
    /// callback.
    pub fn fn_components(&self) -> (r: Vec<String>)
        ensures
            r@.len() == 2,
            r@[0]@ == match self@.entry {
                EntryV::Agent(_) => "validate_agent"@,
                EntryV::App(_) => "validate_entry"@,
                EntryV::CapClaim(_) => "validate_cap_claim"@,
                EntryV::CapGrant(_) => "validate_cap_grant"@,
            },
            r@[1]@ == "validate"@,
    {
        let mut r: Vec<String> = Vec::new();
        let first: String = match &self.entry {
            Entry::Agent(_) => String::from_str("validate_agent"),
            Entry::App(_) => String::from_str("validate_entry"),
            Entry::CapClaim(_) => String::from_str("validate_cap_claim"),
            Entry::CapGrant(_) => String::from_str("validate_cap_grant"),
        };
        r.push(first);
        r.push(String::from_str("validate"));
        r
    }
}

} // verus!
