//! The request shapes of the administrative frontend, and the decisions
//! behind its review actions.

use vstd::prelude::*;

use crate::entities::Entry;
use crate::error::{Error, ParameterError, RepoError};
use crate::repo::Repo;

verus! {

/// A request to change a user's role to the one named by a numeric code.
pub struct ChangeUserRoleAction {
    pub email: String,
    pub role: u8,
}

/// A user's role, from least to most capable.
#[derive(Clone, Copy, PartialEq, Eq, Structural, Debug)]
pub enum Role {
    Guest,
    User,
    Scout,
    Admin,
}

/// The role named by a numeric code, if any.
pub open spec fn role_of(role: u8) -> Option<Role> {
    if role == 0 {
        Some(Role::Guest)
    } else if role == 1 {
        Some(Role::User)
    } else if role == 2 {
        Some(Role::Scout)
    } else if role == 3 {
        Some(Role::Admin)
    } else {
        None
    }
}

impl Role {
    /// The role named by a numeric code, if any.
    pub fn from_u8(role: u8) -> (r: Option<Role>)
        ensures
            r == role_of(role),
    {
        match role {
            0 => Some(Role::Guest),
            1 => Some(Role::User),
            2 => Some(Role::Scout),
            3 => Some(Role::Admin),
            _ => None,
        }
    }
}

/// An appraisal of a place: a comment and a numeric status code.
pub struct Review {
    pub comment: String,
    pub status: i16,
}

/// The review status a place can be put into.
#[derive(Clone, Copy, PartialEq, Eq, Structural, Debug)]
pub enum ReviewStatus {
    Rejected,
    Archived,
    Created,
    Confirmed,
}

/// The review status named by a numeric code, if any.
pub open spec fn review_status_of(status: i16) -> Option<ReviewStatus> {
    if status == -1 {
        Some(ReviewStatus::Rejected)
    } else if status == 0 {
        Some(ReviewStatus::Archived)
    } else if status == 1 {
        Some(ReviewStatus::Created)
    } else if status == 2 {
        Some(ReviewStatus::Confirmed)
    } else {
        None
    }
}

impl ReviewStatus {
    /// The review status named by a numeric code, if any.
    pub fn try_from(status: i16) -> (r: Option<ReviewStatus>)
        ensures
            r == review_status_of(status),
    {
        if status == -1 {
            Some(ReviewStatus::Rejected)
        } else if status == 0 {
            Some(ReviewStatus::Archived)
        } else if status == 1 {
            Some(ReviewStatus::Created)
        } else if status == 2 {
            Some(ReviewStatus::Confirmed)
        } else {
            None
        }
    }
}

/// An archive request: a comma-separated list of identifiers and the place
/// they belong to.
pub struct ArchiveAction {
    pub ids: String,
    pub place_id: String,
}

/// Decide a review request: the status code must name a known review
/// status — a parameter error otherwise — and the reviewed place must be
/// stored — not-found otherwise. The write-back of an accepted review
/// belongs to the storage collaborator.
pub fn review_place<RE: Repo<Entry>>(re: &RE, status: i16, comment: String, id: &str) -> (r:
    Result<Review, Error>)
    ensures
        match r {
            Ok(review) => review_status_of(status) is Some && review.status == status && review
                .comment@ == comment@ && exists|i: int|
                #![auto]
                0 <= i < re.repo().len() && re.repo()[i].id == id@,
            Err(err) => (err == Error::Parameter(ParameterError::ReviewStatus)
                && review_status_of(status) is None) || (err == Error::Repo(RepoError::NotFound)
                && review_status_of(status) is Some && forall|i: int|
                #![auto]
                0 <= i < re.repo().len() ==> re.repo()[i].id != id@),
        },
{
    if ReviewStatus::try_from(status).is_none() {
        return Err(Error::Parameter(ParameterError::ReviewStatus));
    }
    match re.get(id) {
        Ok(_place) => Ok(Review { comment, status }),
        Err(err) => Err(Error::Repo(err)),
    }
}

} // verus!
