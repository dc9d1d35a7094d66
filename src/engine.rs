//! Policy documents: scoped requirement lists, resolution of the scope that governs a
//! request, and the decision that combines the verdicts of its requirements.

use vstd::prelude::*;
use vstd::string::*;
use crate::identity::{has_prefix, is_prefix_of};
use crate::requirement::{
    requirement_key_error, requirement_verdict, KeySourceError, PolicyReqType, UnsatisfiedReason,
    VerificationError, Verdict, VerifiedPayload,
};

verus! {

/// A scope pattern and the requirements that govern the images it covers.
#[derive(Clone, Debug, PartialEq, Eq)]
pub struct PolicyScope {
    /// A reference prefix, optionally closed by `*`; `*` alone is the default scope.
    pub scope: String,
    pub requirements: Vec<PolicyReqType>,
}

/// Whether a decision stops at the first unsatisfied requirement.
#[derive(Clone, Copy, Debug, PartialEq, Eq, Structural)]
pub enum EvaluationMode {
    /// Stop at the first unsatisfied requirement and report only it.
    FailFast,
    /// Evaluate every requirement and report each unsatisfied one.
    CollectAll,
}

/// An unsatisfied requirement, by its position in the resolved list.
#[derive(Clone, Copy, Debug, PartialEq, Eq, Structural)]
pub struct Rejection {
    pub requirement: usize,
    pub reason: UnsatisfiedReason,
}

/// The outcome of a policy decision.
#[derive(Clone, Debug, PartialEq, Eq)]
pub enum Decision {
    Accept,
    Reject(Vec<Rejection>),
}

/// Why a set of scopes does not make a policy document.
#[derive(Clone, Copy, Debug, PartialEq, Eq, Structural)]
pub enum PolicyError {
    /// No scope is the default scope `*`.
    MissingDefaultScope,
    /// A scope has no requirement.
    EmptyRequirementList { scope: usize },
    /// A signed requirement names no key source, or two.
    InvalidKeySource { scope: usize, requirement: usize, error: KeySourceError },
}

/// The reference prefix a scope pattern stands for.
pub open spec fn scope_literal(s: Seq<char>) -> Seq<char> {
    if s.len() > 0 && s.last() == '*' {
        s.drop_last()
    } else {
        s
    }
}

/// `e` is the first fault of `scopes`: the default scope is checked first, then the
/// requirement lists in order, then the key sources in order.
pub open spec fn error_found_in(scopes: Seq<PolicyScope>, e: PolicyError) -> bool {
    match e {
        PolicyError::MissingDefaultScope => !has_default_scope(scopes),
        PolicyError::EmptyRequirementList { scope } => {
            &&& has_default_scope(scopes)
            &&& scope < scopes.len()
            &&& scopes[scope as int].requirements@.len() == 0
            &&& forall|j: int| 0 <= j < scope ==> (#[trigger] scopes[j]).requirements@.len() > 0
        },
        PolicyError::InvalidKeySource { scope, requirement, error } => {
            &&& has_default_scope(scopes)
            &&& all_lists_nonempty(scopes)
            &&& scope < scopes.len()
            &&& requirement < scopes[scope as int].requirements@.len()
            &&& requirement_key_error(scopes[scope as int].requirements@[requirement as int]) == Some(error)
            &&& forall|a: int, b: int|
                0 <= a < scope && 0 <= b < scopes[a].requirements@.len() ==> (#[trigger] requirement_key_error(
                    scopes[a].requirements@[b],
                )) is None
            &&& forall|b: int| 0 <= b < requirement ==> (#[trigger] requirement_key_error(
                    scopes[scope as int].requirements@[b],
                )) is None
        },
    }
}

/// The scope pattern `s` covers the reference `requested`.
pub open spec fn scope_applies(s: Seq<char>, requested: Seq<char>) -> bool {
    is_prefix_of(scope_literal(s), requested)
}

pub open spec fn is_default_scope(s: Seq<char>) -> bool {
    s == seq!['*']
}

pub open spec fn has_default_scope(scopes: Seq<PolicyScope>) -> bool {
    exists|k: int| 0 <= k < scopes.len() && is_default_scope(#[trigger] scopes[k].scope@)
}

pub open spec fn all_lists_nonempty(scopes: Seq<PolicyScope>) -> bool {
    forall|k: int| 0 <= k < scopes.len() ==> (#[trigger] scopes[k]).requirements@.len() > 0
}

pub open spec fn all_key_sources_valid(scopes: Seq<PolicyScope>) -> bool {
    forall|k: int, j: int|
        0 <= k < scopes.len() && 0 <= j < scopes[k].requirements@.len() ==> (#[trigger] requirement_key_error(
            scopes[k].requirements@[j],
        )) is None
}

/// The scopes make a valid policy document.
pub open spec fn scopes_valid(scopes: Seq<PolicyScope>) -> bool {
    has_default_scope(scopes) && all_lists_nonempty(scopes) && all_key_sources_valid(scopes)
}

/// Scope `k` governs `requested`: it covers it, no covering scope is more specific, and
/// no earlier covering scope is as specific.
pub open spec fn resolves_to(scopes: Seq<PolicyScope>, requested: Seq<char>, k: int) -> bool {
    &&& 0 <= k < scopes.len()
    &&& scope_applies(scopes[k].scope@, requested)
    &&& forall|j: int|
        0 <= j < scopes.len() && scope_applies(#[trigger] scopes[j].scope@, requested)
            ==> scope_literal(scopes[j].scope@).len() <= scope_literal(scopes[k].scope@).len()
    &&& forall|j: int|
        0 <= j < k && scope_applies(#[trigger] scopes[j].scope@, requested)
            ==> scope_literal(scopes[j].scope@).len() < scope_literal(scopes[k].scope@).len()
}

/// The scope that governs `requested`.
pub open spec fn resolved_scope(scopes: Seq<PolicyScope>, requested: Seq<char>) -> int {
    choose|k: int| resolves_to(scopes, requested, k)
}

/// At most one scope governs a request.
pub proof fn lemma_resolution_unique(scopes: Seq<PolicyScope>, requested: Seq<char>, k1: int, k2: int)
    requires
        resolves_to(scopes, requested, k1),
        resolves_to(scopes, requested, k2),
    ensures
        k1 == k2,
{
    assert(scope_applies(scopes[k1].scope@, requested));
    assert(scope_applies(scopes[k2].scope@, requested));
}

/// The outcomes of verifying the signatures for requirement `i`; none when not given.
pub open spec fn outcome_row(outcomes: Seq<Vec<Result<VerifiedPayload, VerificationError>>>, i: int) -> Seq<
    Result<VerifiedPayload, VerificationError>,
> {
    if 0 <= i < outcomes.len() {
        outcomes[i]@
    } else {
        Seq::empty()
    }
}

/// The verdict of each requirement of `reqs`.
pub open spec fn verdicts_of(
    reqs: Seq<PolicyReqType>,
    requested: Seq<char>,
    outcomes: Seq<Vec<Result<VerifiedPayload, VerificationError>>>,
) -> Seq<Verdict> {
    Seq::new(reqs.len(), |i: int| requirement_verdict(reqs[i], requested, outcome_row(outcomes, i)))
}

pub open spec fn all_satisfied(vs: Seq<Verdict>) -> bool {
    forall|i: int| 0 <= i < vs.len() ==> (#[trigger] vs[i]) is Satisfied
}

/// One rejection for each unsatisfied verdict, in order.
pub open spec fn rejections(vs: Seq<Verdict>) -> Seq<Rejection>
    decreases vs.len(),
{
    if vs.len() == 0 {
        Seq::empty()
    } else {
        let prev = rejections(vs.drop_last());
        match vs.last() {
            Verdict::Unsatisfied(reason) => prev.push(Rejection { requirement: (vs.len() - 1) as usize, reason }),
            Verdict::Satisfied => prev,
        }
    }
}

/// The rejections a decision reports in `mode`.
pub open spec fn reported_rejections(vs: Seq<Verdict>, mode: EvaluationMode) -> Seq<Rejection> {
    match mode {
        EvaluationMode::CollectAll => rejections(vs),
        EvaluationMode::FailFast => if rejections(vs).len() == 0 {
            Seq::empty()
        } else {
            seq![rejections(vs)[0]]
        },
    }
}

/// A list of verdicts is all satisfied exactly when it yields no rejection; a single
/// unsatisfied verdict anywhere makes it yield one.
pub proof fn lemma_accept_iff_all_satisfied(vs: Seq<Verdict>, i: int, reason: UnsatisfiedReason)
    requires
        0 <= i < vs.len(),
    ensures
        all_satisfied(vs) <==> rejections(vs).len() == 0,
        !all_satisfied(vs.update(i, Verdict::Unsatisfied(reason))),
        rejections(vs.update(i, Verdict::Unsatisfied(reason))).len() > 0,
{
    lemma_rejections_empty_iff(vs);
    let w = vs.update(i, Verdict::Unsatisfied(reason));
    assert(w[i] is Unsatisfied);
    lemma_rejections_empty_iff(w);
}

/// No rejection exactly when every verdict is satisfied.
pub proof fn lemma_rejections_empty_iff(vs: Seq<Verdict>)
    ensures
        all_satisfied(vs) <==> rejections(vs).len() == 0,
    decreases vs.len(),
{
    if vs.len() > 0 {
        let p = vs.drop_last();
        lemma_rejections_empty_iff(p);
        if all_satisfied(vs) {
            assert(vs.last() == vs[vs.len() - 1]);
            assert forall|i: int| 0 <= i < p.len() implies (#[trigger] p[i]) is Satisfied by {
                assert(p[i] == vs[i]);
            }
        } else {
            let i = choose|i: int| 0 <= i < vs.len() && !((#[trigger] vs[i]) is Satisfied);
            if i < vs.len() - 1 {
                assert(p[i] == vs[i]);
            }
        }
    }
}

/// The rejections of a prefix of a list of verdicts begin the rejections of the list.
proof fn lemma_rejections_prefix(vs: Seq<Verdict>, m: int)
    requires
        0 <= m <= vs.len(),
    ensures
        rejections(vs.take(m)).len() <= rejections(vs).len(),
        rejections(vs.take(m)) == rejections(vs).take(rejections(vs.take(m)).len() as int),
    decreases vs.len(),
{
    if m == vs.len() {
        assert(vs.take(m) =~= vs);
        assert(rejections(vs).take(rejections(vs).len() as int) =~= rejections(vs));
    } else {
        let p = vs.drop_last();
        assert(p.take(m) =~= vs.take(m));
        lemma_rejections_prefix(p, m);
        let a = rejections(vs.take(m));
        let rp = rejections(p);
        assert(rejections(vs).take(a.len() as int) =~= rp.take(a.len() as int));
    }
}

pub struct PolicyDocument {
    scopes: Vec<PolicyScope>,
}

impl View for PolicyDocument {
    type V = Seq<PolicyScope>;

    closed spec fn view(&self) -> Seq<PolicyScope> {
        self.scopes@
    }
}

/// Length of the reference prefix that scope pattern `s` stands for.
fn scope_literal_len(s: &str) -> (n: usize)
    ensures
        n == scope_literal(s@).len(),
{
    let len = s.unicode_len();
    if len > 0 && s.get_char(len - 1) == '*' {
        len - 1
    } else {
        len
    }
}

/// Whether scope pattern `s` covers `requested`; if so, also the length of its prefix.
fn scope_covers(s: &str, requested: &str) -> (r: (bool, usize))
    ensures
        r.0 == scope_applies(s@, requested@),
        r.1 == scope_literal(s@).len(),
{
    let n = scope_literal_len(s);
    let literal = s.substring_char(0, n);
    assert(literal@ =~= scope_literal(s@));
    (has_prefix(requested, literal), n)
}

/// Checks the lists of scopes `0..scopes.len()` for emptiness.
fn check_lists(scopes: &Vec<PolicyScope>) -> (r: Result<(), usize>)
    ensures
        r is Ok <==> all_lists_nonempty(scopes@),
        r matches Err(k) ==> k < scopes@.len() && scopes@[k as int].requirements@.len() == 0
            && forall|j: int| 0 <= j < k ==> (#[trigger] scopes@[j]).requirements@.len() > 0,
{
    let mut k: usize = 0;
    while k < scopes.len()
        invariant
            k <= scopes@.len(),
            forall|j: int| 0 <= j < k ==> (#[trigger] scopes@[j]).requirements@.len() > 0,
        decreases scopes@.len() - k,
    {
        if scopes[k].requirements.len() == 0 {
            return Err(k);
        }
        k = k + 1;
    }
    Ok(())
}

/// Checks the key source of every requirement, scope by scope.
fn check_key_sources(scopes: &Vec<PolicyScope>) -> (r: Result<(), (usize, usize, KeySourceError)>)
    ensures
        r is Ok <==> all_key_sources_valid(scopes@),
        r matches Err((k, j, e)) ==> k < scopes@.len() && j < scopes@[k as int].requirements@.len()
            && requirement_key_error(scopes@[k as int].requirements@[j as int]) == Some(e)
            && (forall|a: int, b: int|
                0 <= a < k && 0 <= b < scopes@[a].requirements@.len() ==> (#[trigger] requirement_key_error(
                    scopes@[a].requirements@[b],
                )) is None)
            && (forall|b: int| 0 <= b < j ==> (#[trigger] requirement_key_error(
                    scopes@[k as int].requirements@[b],
                )) is None),
{
    let mut k: usize = 0;
    while k < scopes.len()
        invariant
            k <= scopes@.len(),
            forall|a: int, b: int|
                0 <= a < k && 0 <= b < scopes@[a].requirements@.len() ==> (#[trigger] requirement_key_error(
                    scopes@[a].requirements@[b],
                )) is None,
        decreases scopes@.len() - k,
    {
        let reqs = &scopes[k].requirements;
        let mut j: usize = 0;
        while j < reqs.len()
            invariant
                k < scopes@.len(),
                *reqs == scopes@[k as int].requirements,
                j <= reqs@.len(),
                forall|a: int, b: int|
                    0 <= a < k && 0 <= b < scopes@[a].requirements@.len() ==> (#[trigger] requirement_key_error(
                        scopes@[a].requirements@[b],
                    )) is None,
                forall|b: int| 0 <= b < j ==> (#[trigger] requirement_key_error(reqs@[b])) is None,
            decreases reqs@.len() - j,
        {
            match reqs[j].check_key_source() {
                Ok(()) => {},
                Err(e) => {
                    return Err((k, j, e));
                },
            }
            j = j + 1;
        }
        k = k + 1;
    }
    Ok(())
}

impl PolicyDocument {
    /// The document is well formed.
    pub open spec fn wf(&self) -> bool {
        scopes_valid(self@)
    }

    /// Builds a document from its scopes, refusing one without a default scope, with an
    /// empty requirement list, or with a signed requirement whose key source is missing
    /// or given twice.
    pub fn new(scopes: Vec<PolicyScope>) -> (r: Result<PolicyDocument, PolicyError>)
        ensures
            r is Ok <==> scopes_valid(scopes@),
            r matches Ok(d) ==> d@ == scopes@ && d.wf(),
            (r == Err::<PolicyDocument, PolicyError>(PolicyError::MissingDefaultScope)) <==> !has_default_scope(scopes@),
            r matches Err(e) ==> error_found_in(scopes@, e),
    {
        let mut found = false;
        let mut k: usize = 0;
        while k < scopes.len()
            invariant
                k <= scopes@.len(),
                found == exists|j: int| 0 <= j < k && is_default_scope(#[trigger] scopes@[j].scope@),
            decreases scopes@.len() - k,
        {
            let s = scopes[k].scope.as_str();
            if s.unicode_len() == 1 && s.get_char(0) == '*' {
                assert(s@ =~= seq!['*']);
                found = true;
            } else {
                assert(!is_default_scope(scopes@[k as int].scope@));
            }
            k = k + 1;
        }
        if !found {
            return Err(PolicyError::MissingDefaultScope);
        }
        match check_lists(&scopes) {
            Ok(()) => {},
            Err(k) => {
                return Err(PolicyError::EmptyRequirementList { scope: k });
            },
        }
        match check_key_sources(&scopes) {
            Ok(()) => {},
            Err((k, j, e)) => {
                return Err(PolicyError::InvalidKeySource { scope: k, requirement: j, error: e });
            },
        }
        Ok(PolicyDocument { scopes })
    }

    /// The number of scopes.
    pub fn len(&self) -> (n: usize)
        ensures
            n == self@.len(),
    {
        self.scopes.len()
    }

    /// The scope at `k`.
    pub fn scope(&self, k: usize) -> (s: &PolicyScope)
        requires
            k < self@.len(),
        ensures
            *s == self@[k as int],
    {
        &self.scopes[k]
    }

    /// The index of the scope that governs `requested`: the covering scope with the
    /// longest prefix, the first of them on a tie; the default scope covers every request.
    pub fn resolve(&self, requested: &str) -> (k: usize)
        requires
            self.wf(),
        ensures
            resolves_to(self@, requested@, k as int),
            k as int == resolved_scope(self@, requested@),
    {
        let ghost scopes = self@;
        let mut best: Option<usize> = None;
        let mut best_len: usize = 0;
        let mut i: usize = 0;
        while i < self.scopes.len()
            invariant
                scopes == self@,
                i <= scopes.len(),
                best matches Some(b) ==> b < i && scope_applies(scopes[b as int].scope@, requested@)
                    && best_len == scope_literal(scopes[b as int].scope@).len()
                    && (forall|j: int|
                        0 <= j < i && scope_applies(#[trigger] scopes[j].scope@, requested@)
                            ==> scope_literal(scopes[j].scope@).len() <= best_len)
                    && (forall|j: int|
                        0 <= j < b && scope_applies(#[trigger] scopes[j].scope@, requested@)
                            ==> scope_literal(scopes[j].scope@).len() < best_len),
                best is None ==> forall|j: int| 0 <= j < i ==> !scope_applies(#[trigger] scopes[j].scope@, requested@),
            decreases scopes.len() - i,
        {
            let (covers, n) = scope_covers(self.scopes[i].scope.as_str(), requested);
            if covers {
                match best {
                    None => {
                        best = Some(i);
                        best_len = n;
                    },
                    Some(_) => {
                        if n > best_len {
                            best = Some(i);
                            best_len = n;
                        }
                    },
                }
            }
            i = i + 1;
        }
        let ghost d = choose|d: int| 0 <= d < scopes.len() && is_default_scope(#[trigger] scopes[d].scope@);
        assert(scope_literal(scopes[d].scope@) =~= Seq::<char>::empty());
        assert(requested@.subrange(0, 0) =~= Seq::<char>::empty());
        assert(scope_applies(scopes[d].scope@, requested@));
        match best {
            Some(b) => {
                assert(resolves_to(scopes, requested@, b as int));
                proof {
                    let c = resolved_scope(scopes, requested@);
                    lemma_resolution_unique(scopes, requested@, b as int, c);
                }
                b
            },
            None => {
                assert(false);
                0
            },
        }
    }

    /// Decides on `requested` with the requirements of the scope that governs it, where
    /// `outcomes[i][j]` is the result of verifying the image's j-th signature with the
    /// key of the i-th requirement of that scope. The image is accepted only when every
    /// requirement is satisfied.
    pub fn decide(
        &self,
        requested: &str,
        outcomes: &Vec<Vec<Result<VerifiedPayload, VerificationError>>>,
        mode: EvaluationMode,
    ) -> (d: Decision)
        requires
            self.wf(),
        ensures
            ({
                let vs = verdicts_of(
                    self@[resolved_scope(self@, requested@)].requirements@,
                    requested@,
                    outcomes@,
                );
                &&& (d is Accept) == all_satisfied(vs)
                &&& d matches Decision::Reject(rs) ==> rs@ == reported_rejections(vs, mode) && rs@.len() > 0
            }),
    {
        let k = self.resolve(requested);
        evaluate_requirements(&self.scopes[k].requirements, requested, outcomes, mode)
    }
}

/// Combines the verdicts of `reqs` on `requested`: accepted only when all are satisfied.
pub fn evaluate_requirements(
    reqs: &Vec<PolicyReqType>,
    requested: &str,
    outcomes: &Vec<Vec<Result<VerifiedPayload, VerificationError>>>,
    mode: EvaluationMode,
) -> (d: Decision)
    ensures
        ({
            let vs = verdicts_of(reqs@, requested@, outcomes@);
            &&& (d is Accept) == all_satisfied(vs)
            &&& d matches Decision::Reject(rs) ==> rs@ == reported_rejections(vs, mode) && rs@.len() > 0
        }),
{
    let ghost vs = verdicts_of(reqs@, requested@, outcomes@);
    let empty: Vec<Result<VerifiedPayload, VerificationError>> = Vec::new();
    let mut rs: Vec<Rejection> = Vec::new();
    let mut i: usize = 0;
    while i < reqs.len()
        invariant
            vs == verdicts_of(reqs@, requested@, outcomes@),
            empty@.len() == 0,
            i <= reqs@.len(),
            rs@ == rejections(vs.take(i as int)),
            mode == EvaluationMode::FailFast ==> rs@.len() == 0,
        decreases reqs@.len() - i,
    {
        let row = if i < outcomes.len() {
            &outcomes[i]
        } else {
            &empty
        };
        assert(row@ == outcome_row(outcomes@, i as int));
        let v = reqs[i].evaluate(requested, row);
        assert(vs.take(i + 1).drop_last() =~= vs.take(i as int));
        assert(vs.take(i + 1).last() == v);
        match v {
            Verdict::Satisfied => {},
            Verdict::Unsatisfied(reason) => {
                let rej = Rejection { requirement: i, reason };
                match mode {
                    EvaluationMode::FailFast => {
                        let mut one: Vec<Rejection> = Vec::new();
                        one.push(rej);
                        proof {
                            lemma_rejections_prefix(vs, i + 1);
                            let t = vs.take(i + 1);
                            assert(rejections(t) == rejections(t.drop_last()).push(rej));
                            assert(rejections(t) =~= seq![rej]);
                            assert(rejections(vs).take(1)[0] == rejections(vs)[0]);
                        }
                        assert(one@ =~= seq![rejections(vs)[0]]);
                        return Decision::Reject(one);
                    },
                    EvaluationMode::CollectAll => {
                        rs.push(rej);
                    },
                }
            },
        }
        i = i + 1;
    }
    assert(vs.take(i as int) =~= vs);
    proof {
        lemma_rejections_empty_iff(vs);
    }
    if rs.len() == 0 {
        Decision::Accept
    } else {
        Decision::Reject(rs)
    }
}

/// Holds the document that decisions are made against, and replaces it as a whole.
pub struct PolicyStore {
    document: PolicyDocument,
}

impl View for PolicyStore {
    type V = Seq<PolicyScope>;

    closed spec fn view(&self) -> Seq<PolicyScope> {
        self.document@
    }
}

impl PolicyStore {
    pub open spec fn wf(&self) -> bool {
        scopes_valid(self@)
    }

    /// A store that serves `document`.
    pub fn new(document: PolicyDocument) -> (s: PolicyStore)
        requires
            document.wf(),
        ensures
            s@ == document@,
            s.wf(),
    {
        PolicyStore { document }
    }

    /// The document decisions are made against now.
    pub fn current(&self) -> (d: &PolicyDocument)
        ensures
            d@ == self@,
            self.wf() ==> d.wf(),
    {
        &self.document
    }

    /// Replaces the document with one built from `scopes`. If `scopes` do not make a valid
    /// document, the error is returned and the previous document stays in place; either
    /// way the store holds one whole document, never parts of two.
    pub fn reload(&mut self, scopes: Vec<PolicyScope>) -> (r: Result<(), PolicyError>)
        requires
            old(self).wf(),
        ensures
            r is Ok <==> scopes_valid(scopes@),
            r is Ok ==> final(self)@ == scopes@,
            r is Err ==> final(self)@ == old(self)@,
            (r == Err::<(), PolicyError>(PolicyError::MissingDefaultScope)) <==> !has_default_scope(scopes@),
            r matches Err(e) ==> error_found_in(scopes@, e),
            final(self).wf(),
    {
        match PolicyDocument::new(scopes) {
            Ok(d) => {
                self.document = d;
                Ok(())
            },
            Err(e) => Err(e),
        }
    }
}

} // verus!
