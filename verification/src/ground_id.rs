//! The identity service: identity certificates with a trust factor, and the
//! check that rates of every component share.

use vstd::prelude::*;
use crate::assets::Badge;
use crate::error::DaoError;
use crate::fixed::{Fixed, SCALE};

verus! {

/// Whether `rate` attos lie above zero and at most at one hundred.
pub open spec fn rate_in_bounds(rate: int) -> bool {
    0 < rate <= 100 * SCALE
}

/// Passes exactly where `rate` lies above zero and at most at one hundred.
pub fn assert_rate(rate: Fixed) -> (r: Result<(), DaoError>)
    ensures
        r == (if rate_in_bounds(rate@) {
            Ok::<(), DaoError>(())
        } else {
            Err(DaoError::InvalidInput)
        }),
{
    if rate.is_positive() && rate.le(&Fixed::from_int(100)) {
        Ok(())
    } else {
        Err(DaoError::InvalidInput)
    }
}

/// What kind of holder an identity certificate names.
#[derive(Clone, Copy, Debug, PartialEq, Eq, Structural)]
pub enum IdentityType {
    Person,
    Business,
    Organization,
}

impl IdentityType {
    /// Passes exactly for a person.
    pub fn check_human_proof(&self) -> (r: Result<(), DaoError>)
        ensures
            r == (if *self == IdentityType::Person {
                Ok::<(), DaoError>(())
            } else {
                Err(DaoError::VerificationFailed)
            }),
    {
        match self {
            IdentityType::Person => Ok(()),
            _ => Err(DaoError::VerificationFailed),
        }
    }
}

/// What an identity certificate states of its holder.
#[derive(Clone, Copy, Debug, PartialEq, Eq, Structural)]
pub struct IdentityData {
    pub identity: IdentityType,
    /// Yearly income.
    pub income: Fixed,
    /// Above zero and at most one hundred.
    pub trust_factor: Fixed,
}

/// An identity certificate.
#[derive(Clone, Copy, Debug, PartialEq, Eq, Structural)]
pub struct Identity {
    pub data: IdentityData,
}

/// An identity certificate as its holder presents it: the resource that it
/// belongs to, and what it states.
#[derive(Clone, Copy, Debug, PartialEq, Eq, Structural)]
pub struct IdentityProof {
    pub resource_address: u64,
    pub identity: Identity,
}

/// The badge of a request to change what an identity certificate states.
#[derive(Clone, Copy, Debug, PartialEq, Eq, Structural)]
pub struct Request {}

/// Allows its holder to change an identity certificate to the data that a
/// request asked for.
#[derive(Clone, Copy, Debug, PartialEq, Eq, Structural)]
pub struct IDDataUpdateBadge {
    /// Id of the identity certificate.
    pub sbt_id: u64,
    pub income: Fixed,
    pub trust_factor: Fixed,
}

/// What the request book notes of one request.
#[derive(Clone, Copy, Debug, PartialEq, Eq, Structural)]
pub struct RequestEntry {
    /// Id of the identity certificate.
    pub sbt_id: u64,
    pub income: Fixed,
    pub trust_factor: Fixed,
    /// Whether the service has reviewed the request.
    pub reviewed: bool,
}

/// The identity service.
pub struct GroundID {
    /// The authority that issues certificates and reviews requests.
    pub admin_badge: u64,
    /// The resource of the certificates that this service issues.
    pub identity_sbt: u64,
    /// The resource of the request badges.
    pub request_badge: u64,
    /// The resource of the update badges.
    pub id_update_badge: u64,
    /// The identity certificates by id.
    pub identities: Vec<Identity>,
    /// The requests by id.
    pub request_book: Vec<RequestEntry>,
    /// The id that the next request gets.
    pub request_id_counter: u64,
    /// The request badges by request id; absent once burned.
    pub requests: Vec<Option<Request>>,
    /// The update badges that wait for their requester, by request id.
    pub update_badge_vault: Vec<Option<IDDataUpdateBadge>>,
    /// The update badges that their requester has taken, by request id;
    /// absent once burned.
    pub update_badges: Vec<Option<IDDataUpdateBadge>>,
}

/// The service's state as plain mathematical values.
pub struct IdModel {
    pub admin_badge: u64,
    pub identity_sbt: u64,
    pub request_badge: u64,
    pub id_update_badge: u64,
    pub identities: Seq<Identity>,
    pub request_book: Seq<RequestEntry>,
    pub request_id_counter: u64,
    pub requests: Seq<Option<Request>>,
    pub update_badge_vault: Seq<Option<IDDataUpdateBadge>>,
    pub update_badges: Seq<Option<IDDataUpdateBadge>>,
}

impl IdModel {
    /// What holds of the service between any two operations: every request
    /// has its entry in each store, an update badge exists only for a
    /// reviewed request and is for the certificate that the request names,
    /// and a request names a certificate that exists.
    pub open spec fn wf(self) -> bool {
        &&& self.request_book.len() == self.request_id_counter
        &&& self.requests.len() == self.request_id_counter
        &&& self.update_badge_vault.len() == self.request_id_counter
        &&& self.update_badges.len() == self.request_id_counter
        &&& forall|i: int|
            0 <= i < self.request_book.len() ==> (#[trigger] self.request_book[i]).sbt_id
                < self.identities.len()
        &&& forall|i: int|
            0 <= i < self.update_badge_vault.len() ==> ((#[trigger] self.update_badge_vault[i])
                matches Some(b) ==> self.request_book[i].reviewed && b.sbt_id
                == self.request_book[i].sbt_id)
        &&& forall|i: int|
            0 <= i < self.update_badges.len() ==> ((#[trigger] self.update_badges[i]) matches Some(b)
                ==> self.request_book[i].reviewed && b.sbt_id == self.request_book[i].sbt_id)
    }

    /// Whether `badge` names an identity certificate of this service.
    pub open spec fn holds_identity(self, badge: Badge) -> bool {
        badge.resource_address == self.identity_sbt && badge.id < self.identities.len()
    }

    /// Whether `badge` names a request badge that is in the store.
    pub open spec fn holds_request(self, badge: Badge) -> bool {
        &&& badge.resource_address == self.request_badge
        &&& badge.id < self.requests.len()
        &&& self.requests[badge.id as int] is Some
    }

    /// Whether `badge` names an update badge that its requester has taken
    /// and not used.
    pub open spec fn holds_update(self, badge: Badge) -> bool {
        &&& badge.resource_address == self.id_update_badge
        &&& badge.id < self.update_badges.len()
        &&& self.update_badges[badge.id as int] is Some
    }

    /// What `review_update_data` answers.
    pub open spec fn review_check(self, authority: Badge, id: u64) -> Result<(), DaoError> {
        if authority.resource_address != self.admin_badge {
            Err(DaoError::WrongResource)
        } else if id >= self.request_book.len() {
            Err(DaoError::UnknownRequest)
        } else if self.request_book[id as int].reviewed {
            Err(DaoError::AlreadyReviewed)
        } else {
            Ok(())
        }
    }

    /// What `get_update_badge` answers.
    pub open spec fn collect_check(self, badge: Badge) -> Result<(), DaoError> {
        if !self.holds_request(badge) {
            Err(DaoError::WrongResource)
        } else if !self.request_book[badge.id as int].reviewed {
            Err(DaoError::NotYetReviewed)
        } else {
            Ok(())
        }
    }

    /// What `update_data` answers.
    pub open spec fn update_check(self, identity: Badge, update: Badge) -> Result<(), DaoError> {
        if !self.holds_identity(identity) || !self.holds_update(update)
            || self.update_badges[update.id as int]->0.sbt_id != identity.id {
            Err(DaoError::WrongResource)
        } else {
            Ok(())
        }
    }
}

impl View for GroundID {
    type V = IdModel;

    open spec fn view(&self) -> IdModel {
        IdModel {
            admin_badge: self.admin_badge,
            identity_sbt: self.identity_sbt,
            request_badge: self.request_badge,
            id_update_badge: self.id_update_badge,
            identities: self.identities@,
            request_book: self.request_book@,
            request_id_counter: self.request_id_counter,
            requests: self.requests@,
            update_badge_vault: self.update_badge_vault@,
            update_badges: self.update_badges@,
        }
    }
}

impl GroundID {
    pub open spec fn wf(&self) -> bool {
        self@.wf()
    }

    /// A service without certificates and requests.
    pub fn new(admin_badge: u64, identity_sbt: u64, request_badge: u64, id_update_badge: u64) -> (r:
        GroundID)
        ensures
            r.wf(),
            r@ == (IdModel {
                admin_badge,
                identity_sbt,
                request_badge,
                id_update_badge,
                identities: Seq::empty(),
                request_book: Seq::empty(),
                request_id_counter: 0,
                requests: Seq::empty(),
                update_badge_vault: Seq::empty(),
                update_badges: Seq::empty(),
            }),
    {
        GroundID {
            admin_badge,
            identity_sbt,
            request_badge,
            id_update_badge,
            identities: Vec::new(),
            request_book: Vec::new(),
            request_id_counter: 0,
            requests: Vec::new(),
            update_badge_vault: Vec::new(),
            update_badges: Vec::new(),
        }
    }

    /// Issues an identity certificate and hands back the badge that names
    /// it. Refuses an authority other than the service's (`WrongResource`)
    /// and a trust factor that is not above zero and at most one hundred
    /// (`InvalidInput`). A refusal changes nothing.
    pub fn issue_new_id_sbt(
        &mut self,
        authority: &Badge,
        identity: IdentityType,
        income: Fixed,
        trust_factor: Fixed,
    ) -> (r: Result<Badge, DaoError>)
        requires
            old(self).wf(),
        ensures
            final(self).wf(),
            if authority.resource_address != old(self).admin_badge {
                r == Err::<Badge, DaoError>(DaoError::WrongResource) && final(self)@ == old(self)@
            } else if !rate_in_bounds(trust_factor@) {
                r == Err::<Badge, DaoError>(DaoError::InvalidInput) && final(self)@ == old(self)@
            } else {
                &&& r == Ok::<Badge, DaoError>(
                    Badge {
                        resource_address: old(self).identity_sbt,
                        id: old(self).identities.len() as u64,
                    },
                )
                &&& final(self)@ == (IdModel {
                    identities: old(self)@.identities.push(
                        Identity { data: IdentityData { identity, income, trust_factor } },
                    ),
                    ..old(self)@
                })
            },
    {
        if authority.resource_address != self.admin_badge {
            return Err(DaoError::WrongResource);
        }
        match assert_rate(trust_factor) {
            Ok(()) => {},
            Err(e) => {
                return Err(e);
            },
        }
        let id = self.identities.len() as u64;
        self.identities.push(Identity { data: IdentityData { identity, income, trust_factor } });
        Ok(Badge { resource_address: self.identity_sbt, id })
    }

    /// The certificate that `id_proof` names as its holder presents it;
    /// absent where the badge names no certificate of this service.
    pub fn present(&self, id_proof: &Badge) -> (r: Option<IdentityProof>)
        ensures
            r == (if self@.holds_identity(*id_proof) {
                Some(
                    IdentityProof {
                        resource_address: self.identity_sbt,
                        identity: self@.identities[id_proof.id as int],
                    },
                )
            } else {
                None
            }),
    {
        if id_proof.resource_address != self.identity_sbt || id_proof.id
            >= self.identities.len() as u64 {
            return None;
        }
        Some(
            IdentityProof {
                resource_address: self.identity_sbt,
                identity: self.identities[id_proof.id as usize],
            },
        )
    }

    /// Notes a request to change the income and trust factor of the
    /// holder's certificate, and hands back the request's badge and id.
    /// Refuses a badge that names no certificate of this service
    /// (`WrongResource`) and a request id that cannot be held
    /// (`Arithmetic`). A refusal changes nothing.
    pub fn request_update_data(&mut self, id_sbt: &Badge, income: Fixed, trust_factor: Fixed) -> (r:
        Result<(Badge, u64), DaoError>)
        requires
            old(self).wf(),
        ensures
            final(self).wf(),
            if !old(self)@.holds_identity(*id_sbt) {
                r == Err::<(Badge, u64), DaoError>(DaoError::WrongResource) && final(self)@ == old(
                    self,
                )@
            } else if old(self).request_id_counter == u64::MAX {
                r == Err::<(Badge, u64), DaoError>(DaoError::Arithmetic) && final(self)@ == old(self)@
            } else {
                let id = old(self).request_id_counter;
                &&& r == Ok::<(Badge, u64), DaoError>(
                    (Badge { resource_address: old(self).request_badge, id }, id),
                )
                &&& final(self)@ == (IdModel {
                    request_book: old(self)@.request_book.push(
                        RequestEntry { sbt_id: id_sbt.id, income, trust_factor, reviewed: false },
                    ),
                    request_id_counter: (id + 1) as u64,
                    requests: old(self)@.requests.push(Some(Request {  })),
                    update_badge_vault: old(self)@.update_badge_vault.push(None),
                    update_badges: old(self)@.update_badges.push(None),
                    ..old(self)@
                })
            },
    {
        if id_sbt.resource_address != self.identity_sbt || id_sbt.id >= self.identities.len() as u64 {
            return Err(DaoError::WrongResource);
        }
        if self.request_id_counter == u64::MAX {
            return Err(DaoError::Arithmetic);
        }
        let id = self.request_id_counter;
        self.request_book.push(
            RequestEntry { sbt_id: id_sbt.id, income, trust_factor, reviewed: false },
        );
        self.request_id_counter = id + 1;
        self.requests.push(Some(Request {  }));
        self.update_badge_vault.push(None);
        self.update_badges.push(None);
        Ok((Badge { resource_address: self.request_badge, id }, id))
    }

    /// Reviews a request once: notes it as reviewed and, where it is
    /// accepted, puts an update badge for it into the vault.
    /// Refuses an authority other than the service's (`WrongResource`), an
    /// id that is not in the book (`UnknownRequest`) and a request that was
    /// reviewed before (`AlreadyReviewed`). A refusal changes nothing.
    pub fn review_update_data(&mut self, authority: &Badge, id: u64, is_ok: bool) -> (r: Result<
        (),
        DaoError,
    >)
        requires
            old(self).wf(),
        ensures
            final(self).wf(),
            r == old(self)@.review_check(*authority, id),
            match r {
                Err(_) => final(self)@ == old(self)@,
                Ok(_) => {
                    let entry = old(self)@.request_book[id as int];
                    final(self)@ == (IdModel {
                        request_book: old(self)@.request_book.update(
                            id as int,
                            RequestEntry { reviewed: true, ..entry },
                        ),
                        update_badge_vault: if is_ok {
                            old(self)@.update_badge_vault.update(
                                id as int,
                                Some(
                                    IDDataUpdateBadge {
                                        sbt_id: entry.sbt_id,
                                        income: entry.income,
                                        trust_factor: entry.trust_factor,
                                    },
                                ),
                            )
                        } else {
                            old(self)@.update_badge_vault
                        },
                        ..old(self)@
                    })
                },
            },
    {
        if authority.resource_address != self.admin_badge {
            return Err(DaoError::WrongResource);
        }
        if id >= self.request_book.len() as u64 {
            return Err(DaoError::UnknownRequest);
        }
        let at = id as usize;
        let entry = self.request_book[at];
        if entry.reviewed {
            return Err(DaoError::AlreadyReviewed);
        }
        self.request_book.set(
            at,
            RequestEntry {
                sbt_id: entry.sbt_id,
                income: entry.income,
                trust_factor: entry.trust_factor,
                reviewed: true,
            },
        );
        if is_ok {
            self.update_badge_vault.set(
                at,
                Some(
                    IDDataUpdateBadge {
                        sbt_id: entry.sbt_id,
                        income: entry.income,
                        trust_factor: entry.trust_factor,
                    },
                ),
            );
        }
        Ok(())
    }

    /// Burns the badge of a reviewed request and hands back the badge of
    /// the update badge that waits for it, or nothing where the request was
    /// rejected. Refuses a badge that names no request (`WrongResource`)
    /// and a request that is not reviewed yet (`NotYetReviewed`). A refusal
    /// changes nothing.
    pub fn get_update_badge(&mut self, request_badge: Badge) -> (r: Result<Option<Badge>, DaoError>)
        requires
            old(self).wf(),
        ensures
            final(self).wf(),
            match old(self)@.collect_check(request_badge) {
                Err(e) => r == Err::<Option<Badge>, DaoError>(e) && final(self)@ == old(self)@,
                Ok(_) => {
                    let at = request_badge.id as int;
                    let waiting = old(self)@.update_badge_vault[at];
                    &&& r == Ok::<Option<Badge>, DaoError>(
                        if waiting is Some {
                            Some(
                                Badge {
                                    resource_address: old(self).id_update_badge,
                                    id: request_badge.id,
                                },
                            )
                        } else {
                            None
                        },
                    )
                    &&& final(self)@ == (IdModel {
                        requests: old(self)@.requests.update(at, None),
                        update_badge_vault: old(self)@.update_badge_vault.update(at, None),
                        update_badges: if waiting is Some {
                            old(self)@.update_badges.update(at, waiting)
                        } else {
                            old(self)@.update_badges
                        },
                        ..old(self)@
                    })
                },
            },
    {
        if request_badge.resource_address != self.request_badge || request_badge.id
            >= self.requests.len() as u64 {
            return Err(DaoError::WrongResource);
        }
        let at = request_badge.id as usize;
        if self.requests[at].is_none() {
            return Err(DaoError::WrongResource);
        }
        if !self.request_book[at].reviewed {
            return Err(DaoError::NotYetReviewed);
        }
        self.requests.set(at, None);
        let waiting = self.update_badge_vault[at];
        self.update_badge_vault.set(at, None);
        match waiting {
            Some(badge) => {
                self.update_badges.set(at, Some(badge));
                Ok(Some(Badge { resource_address: self.id_update_badge, id: request_badge.id }))
            },
            None => Ok(None),
        }
    }

    /// Changes the income and trust factor of the holder's certificate to
    /// what the update badge states, and burns the update badge. Refuses
    /// badges that name no certificate or no update badge, and an update
    /// badge for another certificate (`WrongResource`). A refusal changes
    /// nothing.
    pub fn update_data(&mut self, id_proof: &Badge, update_badge: Badge) -> (r: Result<(), DaoError>)
        requires
            old(self).wf(),
        ensures
            final(self).wf(),
            r == old(self)@.update_check(*id_proof, update_badge),
            match r {
                Err(_) => final(self)@ == old(self)@,
                Ok(_) => {
                    let update = old(self)@.update_badges[update_badge.id as int]->0;
                    final(self)@ == (IdModel {
                        identities: old(self)@.identities.update(
                            id_proof.id as int,
                            Identity {
                                data: IdentityData {
                                    identity: old(self)@.identities[id_proof.id as int].data.identity,
                                    income: update.income,
                                    trust_factor: update.trust_factor,
                                },
                            },
                        ),
                        update_badges: old(self)@.update_badges.update(update_badge.id as int, None),
                        ..old(self)@
                    })
                },
            },
    {
        if id_proof.resource_address != self.identity_sbt || id_proof.id
            >= self.identities.len() as u64 {
            return Err(DaoError::WrongResource);
        }
        if update_badge.resource_address != self.id_update_badge || update_badge.id
            >= self.update_badges.len() as u64 {
            return Err(DaoError::WrongResource);
        }
        let at = update_badge.id as usize;
        let update = match self.update_badges[at] {
            Some(u) => u,
            None => {
                return Err(DaoError::WrongResource);
            },
        };
        if update.sbt_id != id_proof.id {
            return Err(DaoError::WrongResource);
        }
        let who = id_proof.id as usize;
        let kind = self.identities[who].data.identity;
        self.update_badges.set(at, None);
        self.identities.set(
            who,
            Identity {
                data: IdentityData {
                    identity: kind,
                    income: update.income,
                    trust_factor: update.trust_factor,
                },
            },
        );
        Ok(())
    }

    /// The id of the certificate that `id_proof` names. Refuses a badge
    /// that names no certificate of this service (`WrongResource`).
    pub fn get_id(&self, id_proof: &Badge) -> (r: Result<u64, DaoError>)
        ensures
            r == (if self@.holds_identity(*id_proof) {
                Ok::<u64, DaoError>(id_proof.id)
            } else {
                Err(DaoError::WrongResource)
            }),
    {
        if id_proof.resource_address != self.identity_sbt || id_proof.id
            >= self.identities.len() as u64 {
            return Err(DaoError::WrongResource);
        }
        Ok(id_proof.id)
    }

    /// Passes exactly where `id` is the resource of this service's
    /// certificates.
    pub fn check_resource(&self, id: u64) -> (r: Result<(), DaoError>)
        ensures
            r == (if id == self.identity_sbt {
                Ok::<(), DaoError>(())
            } else {
                Err(DaoError::VerificationFailed)
            }),
    {
        if id == self.identity_sbt {
            Ok(())
        } else {
            Err(DaoError::VerificationFailed)
        }
    }
}

impl GroundID {
    /// Whether the service's state is sound: what every operation asks for
    /// and leaves behind. For callers that build or restore a state
    /// themselves.
    pub fn is_sound(&self) -> (r: bool)
        ensures
            r == self.wf(),
    {
        let n = self.request_book.len();
        if n as u64 != self.request_id_counter || self.requests.len() != n
            || self.update_badge_vault.len() != n || self.update_badges.len() != n {
            return false;
        }
        let mut i: usize = 0;
        while i < n
            invariant
                i <= n,
                n == self.request_book.len(),
                n == self.update_badge_vault.len(),
                n == self.update_badges.len(),
                forall|j: int|
                    0 <= j < i ==> (#[trigger] self@.request_book[j]).sbt_id
                        < self@.identities.len(),
                forall|j: int|
                    0 <= j < i ==> ((#[trigger] self@.update_badge_vault[j]) matches Some(b)
                        ==> self@.request_book[j].reviewed && b.sbt_id
                        == self@.request_book[j].sbt_id),
                forall|j: int|
                    0 <= j < i ==> ((#[trigger] self@.update_badges[j]) matches Some(b)
                        ==> self@.request_book[j].reviewed && b.sbt_id
                        == self@.request_book[j].sbt_id),
            decreases n - i,
        {
            let entry = self.request_book[i];
            if entry.sbt_id >= self.identities.len() as u64 {
                assert(!(self@.request_book[i as int].sbt_id < self@.identities.len()));
                return false;
            }
            match self.update_badge_vault[i] {
                Some(b) => {
                    if !entry.reviewed || b.sbt_id != entry.sbt_id {
                        assert(self@.update_badge_vault[i as int] is Some);
                        return false;
                    }
                },
                None => {},
            }
            match self.update_badges[i] {
                Some(b) => {
                    if !entry.reviewed || b.sbt_id != entry.sbt_id {
                        assert(self@.update_badges[i as int] is Some);
                        return false;
                    }
                },
                None => {},
            }
            i = i + 1;
        }
        true
    }
}

} // verus!
