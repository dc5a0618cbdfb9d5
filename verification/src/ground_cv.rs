//! The credential service: certificates of education, experience and skill,
//! and the scoring of a holder's certificates against a set of requirements.

use vstd::prelude::*;
use crate::assets::Badge;
use crate::cv_id_const::{EDUCATION, EXPERIENCE, SKILL};
use crate::error::DaoError;
use crate::fixed::{bounded, div_checked, Fixed, SCALE};

verus! {

/// Verified work experience.
pub struct Experience {
    /// Id of the position within the experience credentials.
    pub position_id: u8,
    /// Years worked in the position, 0 to 10.
    pub year: u8,
}

/// A verified skill.
pub struct Skill {
    /// Id of the skill within the skill credentials.
    pub skill_id: u8,
    /// 1 to 10.
    pub level: u8,
}

/// How a graduate studied.
#[derive(Clone, Copy, Debug, PartialEq, Eq, Structural)]
pub enum EdTypes {
    FullTime,
    PartTime,
    Online,
}

/// A verified education.
pub struct Education {
    /// Id of the academic major within the education credentials.
    pub academic_major_id: u8,
    pub university: String,
    pub ed_type: EdTypes,
    /// 1 to 10.
    pub graduate_grade: u8,
}

/// What one credential certificate states, by kind.
pub enum CVdata {
    Education(Education),
    Experience(Experience),
    Skill(Skill),
}

/// A credential certificate.
pub struct CiV {
    pub cv_data: CVdata,
}

impl CVdata {
    /// The credential id (the kind's base plus the id within the kind) and
    /// the level that the certificate states.
    pub open spec fn id_and_level(self) -> (u32, u8) {
        match self {
            CVdata::Education(e) => ((EDUCATION + e.academic_major_id) as u32, e.graduate_grade),
            CVdata::Experience(e) => ((EXPERIENCE + e.position_id) as u32, e.year),
            CVdata::Skill(s) => ((SKILL + s.skill_id) as u32, s.level),
        }
    }

    pub fn get_cv_id_and_level_from_cvdata(&self) -> (r: (u32, u8))
        ensures
            r == self.id_and_level(),
    {
        match self {
            CVdata::Education(e) => (EDUCATION + e.academic_major_id as u32, e.graduate_grade),
            CVdata::Experience(e) => (EXPERIENCE + e.position_id as u32, e.year),
            CVdata::Skill(s) => (SKILL + s.skill_id as u32, s.level),
        }
    }
}

/// Whether certificate `i` of `cvs` is for credential `id` at `level` or above.
pub open spec fn cv_meets(cvs: Seq<CiV>, i: int, id: u32, level: u8) -> bool {
    cvs[i].cv_data.id_and_level().0 == id && cvs[i].cv_data.id_and_level().1 >= level
}

/// Whether some certificate of `cvs` is for credential `id` at `level` or above.
pub open spec fn meets_requirement(cvs: Seq<CiV>, id: u32, level: u8) -> bool {
    exists|i: int| 0 <= i < cvs.len() && cv_meets(cvs, i, id, level)
}

/// Whether `cvs` meets each of the first `n` requirements.
pub open spec fn meets_first(cvs: Seq<CiV>, reqs: Seq<(u32, u8)>, n: int) -> bool {
    forall|k: int| 0 <= k < n ==> meets_requirement(cvs, (#[trigger] reqs[k]).0, reqs[k].1)
}

/// Whether `cvs` meets every requirement.
pub open spec fn meets_all(cvs: Seq<CiV>, reqs: Seq<(u32, u8)>) -> bool {
    meets_first(cvs, reqs, reqs.len() as int)
}

/// The highest level that a certificate of `cvs` states for credential `id`;
/// absent where none is for that credential.
pub open spec fn best_level(cvs: Seq<CiV>, id: u32) -> Option<u8>
    decreases cvs.len(),
{
    if cvs.len() == 0 {
        None
    } else {
        let rest = best_level(cvs.drop_last(), id);
        let (cv_id, level) = cvs.last().cv_data.id_and_level();
        if cv_id != id {
            rest
        } else {
            match rest {
                Some(b) => Some(if b >= level { b } else { level }),
                None => Some(level),
            }
        }
    }
}

/// The score of one credential held at `level`: one plus a tenth of the level.
pub open spec fn level_score(level: u8) -> int {
    SCALE + level * (SCALE / 10)
}

/// What credential `id` adds to the score of `cvs`: the score of its best
/// level, nothing where no certificate is for it.
pub open spec fn id_score(cvs: Seq<CiV>, id: u32) -> int {
    match best_level(cvs, id) {
        Some(level) => level_score(level),
        None => 0,
    }
}

/// The scores of the credentials `ids`, added up.
pub open spec fn score_sum(cvs: Seq<CiV>, ids: Seq<u32>) -> int
    decreases ids.len(),
{
    if ids.len() == 0 {
        0
    } else {
        score_sum(cvs, ids.drop_last()) + id_score(cvs, ids.last())
    }
}

/// The mean score of `cvs` over the credentials `ids`; absent where `ids` is
/// empty or a number on the way cannot be held.
pub open spec fn aggregated_score(cvs: Seq<CiV>, ids: Seq<u32>) -> Option<int> {
    if in_score_range(score_sum(cvs, ids)) {
        div_checked(score_sum(cvs, ids), ids.len() * SCALE)
    } else {
        None
    }
}

/// Whether a sum of scores can be held.
pub open spec fn in_score_range(v: int) -> bool {
    bounded(v) is Some
}

/// The credential ids of a list of requirements, in its order.
pub open spec fn requirement_ids(reqs: Seq<(u32, u8)>) -> Seq<u32> {
    Seq::new(reqs.len(), |k: int| reqs[k].0)
}

/// The best level is that of some certificate for the credential, and no
/// certificate for the credential states a higher one; it is absent exactly
/// where no certificate is for the credential.
pub proof fn lemma_best_level(cvs: Seq<CiV>, id: u32)
    ensures
        best_level(cvs, id) is None <==> (forall|i: int|
            0 <= i < cvs.len() ==> (#[trigger] cvs[i]).cv_data.id_and_level().0 != id),
        best_level(cvs, id) matches Some(b) ==> {
            &&& exists|i: int| 0 <= i < cvs.len() && #[trigger] cv_meets(cvs, i, id, b) && cvs[i].cv_data.id_and_level().1 == b
            &&& forall|i: int|
                0 <= i < cvs.len() && (#[trigger] cvs[i]).cv_data.id_and_level().0 == id
                    ==> cvs[i].cv_data.id_and_level().1 <= b
        },
    decreases cvs.len(),
{
    if cvs.len() > 0 {
        let init = cvs.drop_last();
        lemma_best_level(init, id);
        assert forall|i: int| 0 <= i < init.len() implies init[i] == cvs[i] by {}
        let last = cvs.len() - 1;
        match best_level(cvs, id) {
            Some(b) => {
                if cvs[last].cv_data.id_and_level().0 == id && cvs[last].cv_data.id_and_level().1 == b {
                    assert(cv_meets(cvs, last, id, b));
                } else {
                    let i = choose|i: int| 0 <= i < init.len() && #[trigger] cv_meets(init, i, id, b) && init[i].cv_data.id_and_level().1 == b;
                    assert(cv_meets(cvs, i, id, b));
                }
                assert forall|i: int|
                    0 <= i < cvs.len() && (#[trigger] cvs[i]).cv_data.id_and_level().0 == id
                    implies cvs[i].cv_data.id_and_level().1 <= b by {
                    if i < last {
                        assert(init[i] == cvs[i]);
                    }
                }
            },
            None => {
                assert forall|i: int| 0 <= i < cvs.len() implies (#[trigger] cvs[i]).cv_data.id_and_level().0 != id by {
                    if i < last {
                        assert(init[i] == cvs[i]);
                    }
                }
            },
        }
        if best_level(cvs, id) is Some {
            if cvs[last].cv_data.id_and_level().0 != id {
                let b = best_level(init, id)->0;
                let i = choose|i: int| 0 <= i < init.len() && #[trigger] cv_meets(init, i, id, b) && init[i].cv_data.id_and_level().1 == b;
                assert(cvs[i].cv_data.id_and_level().0 == id);
            }
        }
    }
}

/// A requirement is met exactly where the best level for its credential
/// reaches the level it asks for.
pub proof fn lemma_meets_by_best_level(cvs: Seq<CiV>, id: u32, level: u8)
    ensures
        meets_requirement(cvs, id, level) <==> (best_level(cvs, id) matches Some(b) && b >= level),
{
    lemma_best_level(cvs, id);
    if meets_requirement(cvs, id, level) {
        let i = choose|i: int| 0 <= i < cvs.len() && cv_meets(cvs, i, id, level);
        assert(cvs[i].cv_data.id_and_level().0 == id);
    }
    if best_level(cvs, id) matches Some(b) && b >= level {
        let b = best_level(cvs, id)->0;
        let i = choose|i: int| 0 <= i < cvs.len() && #[trigger] cv_meets(cvs, i, id, b) && cvs[i].cv_data.id_and_level().1 == b;
        assert(cv_meets(cvs, i, id, level));
    }
}

/// A sum of scores is not negative and does not shrink as credentials are added.
pub proof fn lemma_score_sum_grows(cvs: Seq<CiV>, ids: Seq<u32>, n: int)
    requires
        0 <= n <= ids.len(),
    ensures
        0 <= score_sum(cvs, ids.take(n)) <= score_sum(cvs, ids),
    decreases ids.len() - n,
{
    if n == ids.len() {
        assert(ids.take(n) =~= ids);
        lemma_score_sum_nonnegative(cvs, ids);
    } else {
        lemma_score_sum_grows(cvs, ids, n + 1);
        assert(ids.take(n + 1).drop_last() =~= ids.take(n));
        lemma_score_sum_nonnegative(cvs, ids.take(n));
    }
}

/// A sum of scores is not negative.
pub proof fn lemma_score_sum_nonnegative(cvs: Seq<CiV>, ids: Seq<u32>)
    ensures
        0 <= score_sum(cvs, ids),
    decreases ids.len(),
{
    if ids.len() > 0 {
        lemma_score_sum_nonnegative(cvs, ids.drop_last());
    }
}

/// Whether no credential is required twice.
pub fn distinct_requirements(requirement: &Vec<(u32, u8)>) -> (r: bool)
    ensures
        r == requirement_ids(requirement@).no_duplicates(),
{
    let ghost ids = requirement_ids(requirement@);
    let mut i: usize = 0;
    while i < requirement.len()
        invariant
            i <= requirement.len(),
            ids == requirement_ids(requirement@),
            forall|a: int, b: int| 0 <= a < i && 0 <= b < ids.len() && a != b ==> ids[a] != ids[b],
        decreases requirement.len() - i,
    {
        let mut k: usize = i + 1;
        while k < requirement.len()
            invariant
                i < k <= requirement.len(),
                ids == requirement_ids(requirement@),
                forall|b: int| i < b < k ==> ids[i as int] != ids[b],
            decreases requirement.len() - k,
        {
            if requirement[i].0 == requirement[k].0 {
                assert(ids[i as int] == ids[k as int]);
                return false;
            }
            k = k + 1;
        }
        i = i + 1;
    }
    true
}

/// The best level that `cvs` states for credential `id`.
pub fn best_cv_level(cvs: &Vec<CiV>, id: u32) -> (r: Option<u8>)
    ensures
        r == best_level(cvs@, id),
{
    let mut best: Option<u8> = None;
    let mut i: usize = 0;
    while i < cvs.len()
        invariant
            i <= cvs.len(),
            best == best_level(cvs@.take(i as int), id),
        decreases cvs.len() - i,
    {
        let (cv_id, level) = cvs[i].cv_data.get_cv_id_and_level_from_cvdata();
        proof {
            assert(cvs@.take(i + 1).drop_last() =~= cvs@.take(i as int));
            assert(cvs@.take(i + 1).last() == cvs@[i as int]);
        }
        if cv_id == id {
            best = match best {
                Some(b) => Some(if b >= level { b } else { level }),
                None => Some(level),
            };
        }
        i = i + 1;
    }
    proof {
        assert(cvs@.take(cvs.len() as int) =~= cvs@);
    }
    best
}

/// A tenth of a level, computed in fixed point, is exact.
proof fn lemma_tenth_of_level(level: u8)
    ensures
        div_checked(level * SCALE, 10 * SCALE) == Some(level * (SCALE / 10)),
        0 <= level * (SCALE / 10) <= 255 * (SCALE / 10),
{
    let q: int = level * 100_000_000_000_000_000;
    assert(SCALE / 10 == 100_000_000_000_000_000);
    assert(level * (SCALE / 10) == q);
    let d: int = 10_000_000_000_000_000_000;
    assert((level * SCALE) * SCALE == q * d) by (nonlinear_arith)
        requires
            SCALE == 1_000_000_000_000_000_000,
            q == level * 100_000_000_000_000_000,
            d == 10_000_000_000_000_000_000,
    ;
    assert((q * d) / d == q) by (nonlinear_arith)
        requires
            d > 0,
    ;
    assert(q * d >= 0) by (nonlinear_arith)
        requires
            q >= 0,
            d > 0,
    ;
}

/// The score of one credential held at `level`.
pub fn score_of_level(level: u8) -> (r: Fixed)
    ensures
        r@ == level_score(level),
{
    proof {
        lemma_tenth_of_level(level);
    }
    let tenths = Fixed::from_int(level as u64).checked_div(Fixed::from_int(10));
    let sum = Fixed::one().checked_add(tenths.unwrap());
    sum.unwrap()
}

/// A holder's credential certificates as presented: the resource that they
/// belong to, and the certificates.
pub struct CvProof {
    pub resource_address: u64,
    pub cvs: Vec<CiV>,
}

/// The credential service.
pub struct GroundCV {
    /// The authority that issues certificates.
    pub admin_badge: u64,
    /// The resource of the certificates that this service issues.
    pub cv_sbt: u64,
}

impl GroundCV {
    pub fn new(admin_badge: u64, cv_sbt: u64) -> (r: GroundCV)
        ensures
            r.admin_badge == admin_badge,
            r.cv_sbt == cv_sbt,
    {
        GroundCV { admin_badge, cv_sbt }
    }

    /// Issues a certificate with the given content. Refuses an authority
    /// other than the service's (`WrongResource`).
    pub fn issue_new_cv_sbt(&self, authority: &Badge, cv: CVdata) -> (r: Result<CiV, DaoError>)
        ensures
            r == (if authority.resource_address == self.admin_badge {
                Ok::<CiV, DaoError>(CiV { cv_data: cv })
            } else {
                Err(DaoError::WrongResource)
            }),
    {
        if authority.resource_address != self.admin_badge {
            return Err(DaoError::WrongResource);
        }
        Ok(CiV { cv_data: cv })
    }

    /// Passes exactly where `cv` is the resource of this service's certificates.
    pub fn check_resource(&self, cv: u64) -> (r: Result<(), DaoError>)
        ensures
            r == (if cv == self.cv_sbt {
                Ok::<(), DaoError>(())
            } else {
                Err(DaoError::VerificationFailed)
            }),
    {
        if cv == self.cv_sbt {
            Ok(())
        } else {
            Err(DaoError::VerificationFailed)
        }
    }

    /// Passes exactly where some certificate of `cvs` is for the required
    /// credential at the required level or above.
    pub fn check_cv_requirement(&self, cvs: &Vec<CiV>, requirement: (u32, u8)) -> (r: Result<
        (),
        DaoError,
    >)
        ensures
            r == (if meets_requirement(cvs@, requirement.0, requirement.1) {
                Ok::<(), DaoError>(())
            } else {
                Err(DaoError::VerificationFailed)
            }),
    {
        let best = best_cv_level(cvs, requirement.0);
        proof {
            lemma_meets_by_best_level(cvs@, requirement.0, requirement.1);
        }
        match best {
            Some(b) => {
                if b >= requirement.1 {
                    Ok(())
                } else {
                    Err(DaoError::VerificationFailed)
                }
            },
            None => Err(DaoError::VerificationFailed),
        }
    }

    /// The mean score of `cvs` over the required credentials, where every
    /// requirement is met. Fails with `VerificationFailed` where one is not,
    /// and otherwise with `Arithmetic` where the mean has no value.
    pub fn check_requirements_and_get_aggregrated_cv_score(
        &self,
        cvs: &Vec<CiV>,
        requirement: &Vec<(u32, u8)>,
    ) -> (r: Result<Fixed, DaoError>)
        ensures
            r == (if !meets_all(cvs@, requirement@) {
                Err::<Fixed, DaoError>(DaoError::VerificationFailed)
            } else {
                match aggregated_score(cvs@, requirement_ids(requirement@)) {
                    Some(s) => Ok(Fixed::of(s)),
                    None => Err(DaoError::Arithmetic),
                }
            }),
    {
        let ghost ids = requirement_ids(requirement@);
        let mut i: usize = 0;
        while i < requirement.len()
            invariant
                i <= requirement.len(),
                meets_first(cvs@, requirement@, i as int),
            decreases requirement.len() - i,
        {
            let (id, level) = requirement[i];
            match self.check_cv_requirement(cvs, (id, level)) {
                Ok(()) => {},
                Err(e) => {
                    return Err(e);
                },
            }
            i = i + 1;
        }
        let mut ids_exec: Vec<u32> = Vec::new();
        let mut k: usize = 0;
        while k < requirement.len()
            invariant
                k <= requirement.len(),
                ids_exec@ =~= requirement_ids(requirement@).take(k as int),
            decreases requirement.len() - k,
        {
            ids_exec.push(requirement[k].0);
            k = k + 1;
        }
        proof {
            assert(ids.take(requirement.len() as int) =~= ids);
        }
        self.get_aggregrated_cv_score(cvs, &ids_exec)
    }

    /// The mean score of `cvs` over the credentials `id_factors`: for each of
    /// them the score of the best level that a certificate states for it, or
    /// nothing where none does. Fails with `Arithmetic` where the mean has no
    /// value: `id_factors` is empty, or a number on the way cannot be held.
    pub fn get_aggregrated_cv_score(&self, cvs: &Vec<CiV>, id_factors: &Vec<u32>) -> (r: Result<
        Fixed,
        DaoError,
    >)
        ensures
            r == (match aggregated_score(cvs@, id_factors@) {
                Some(s) => Ok::<Fixed, DaoError>(Fixed::of(s)),
                None => Err(DaoError::Arithmetic),
            }),
    {
        let mut result = Fixed::zero();
        let mut i: usize = 0;
        while i < id_factors.len()
            invariant
                i <= id_factors.len(),
                result@ == score_sum(cvs@, id_factors@.take(i as int)),
            decreases id_factors.len() - i,
        {
            let term = match best_cv_level(cvs, id_factors[i]) {
                Some(level) => score_of_level(level),
                None => Fixed::zero(),
            };
            proof {
                assert(id_factors@.take(i + 1).drop_last() =~= id_factors@.take(i as int));
                assert(id_factors@.take(i + 1).last() == id_factors@[i as int]);
                lemma_score_sum_grows(cvs@, id_factors@, i + 1);
            }
            match result.checked_add(term) {
                Some(next) => {
                    result = next;
                },
                None => {
                    return Err(DaoError::Arithmetic);
                },
            }
            i = i + 1;
        }
        proof {
            assert(id_factors@.take(id_factors.len() as int) =~= id_factors@);
        }
        let times = Fixed::from_int(id_factors.len() as u64);
        match result.checked_div(times) {
            Some(mean) => Ok(mean),
            None => Err(DaoError::Arithmetic),
        }
    }
}

} // verus!
