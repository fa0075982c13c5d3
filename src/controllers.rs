use vstd::prelude::*;
use crate::models::{NewWineRecommendation, WineRecommendation};
use crate::text::same_text;
use crate::types::WineColorEnum;

verus! {

/// A registration request.
pub struct UserForm {
    pub email: String,
    pub admin: bool,
    pub password: String,
}

/// A login request.
pub struct LoginForm {
    pub email: String,
    pub password: String,
}

/// The fields of a recommendation that its owner may change.
pub struct WineRecommendationForm {
    pub country: String,
    pub region: String,
    pub designation_of_origin: String,
    pub producer: String,
    pub rating: i32,
    pub color: WineColorEnum,
    pub grape_variety: String,
}

impl WineRecommendationForm {
    /// The recommendation with the form's fields written over its own; its
    /// identifier, owner and wine name stay.
    pub fn apply_to(self, reco: WineRecommendation) -> (r: WineRecommendation)
        ensures
            r.id == reco.id,
            r.user_id == reco.user_id,
            r.name == reco.name,
            r.country == self.country,
            r.region == self.region,
            r.designation_of_origin == self.designation_of_origin,
            r.producer == self.producer,
            r.rating == self.rating,
            r.color == self.color,
            r.grape_variety == self.grape_variety,
    {
        WineRecommendation {
            id: reco.id,
            country: self.country,
            region: self.region,
            designation_of_origin: self.designation_of_origin,
            producer: self.producer,
            rating: self.rating,
            color: self.color,
            grape_variety: self.grape_variety,
            user_id: reco.user_id,
            name: reco.name,
        }
    }
}

/// Whether a request carries the server's secret: its authorization header is
/// present and equal to the secret.
pub fn is_authorized(header: Option<&str>, secret_key: &str) -> (r: bool)
    ensures
        r == (header matches Some(h) && h@ == secret_key@),
{
    match header {
        Some(h) => same_text(h, secret_key),
        None => false,
    }
}

/// A new recommendation, owned by the given user whatever the request said.
pub fn owned_by(reco: NewWineRecommendation, user_id: i32) -> (r: NewWineRecommendation)
    ensures
        r.user_id == Some(user_id),
        r.country == reco.country,
        r.region == reco.region,
        r.designation_of_origin == reco.designation_of_origin,
        r.producer == reco.producer,
        r.rating == reco.rating,
        r.color == reco.color,
        r.grape_variety == reco.grape_variety,
        r.wine_name == reco.wine_name,
{
    NewWineRecommendation { user_id: Some(user_id), ..reco }
}

/// Whether a recommendation may be changed or deleted by a user: it is the
/// one named and the user owns it.
pub fn may_edit(reco: &WineRecommendation, user_id: i32, reco_id: i32) -> (r: bool)
    ensures
        r == (reco.id == reco_id && reco.user_id == Some(user_id)),
{
    reco.id == reco_id && reco.user_id == Some(user_id)
}

} // verus!
