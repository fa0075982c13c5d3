use vstd::prelude::*;
use argon2rs::{argon2i_simple, Argon2, Variant};
use crate::decimal::Decimal;
use crate::types::WineColorEnum;

verus! {

/// A wine of the retailer's catalog, as stored.
pub struct SaqWine {
    pub id: i32,
    pub name: String,
    pub country: String,
    pub region: String,
    pub designation_of_origin: String,
    pub regulated_designation: bool,
    pub producer: String,
    /// In millilitres.
    pub volume: Decimal,
    pub price: Decimal,
    pub alcohol_percent: Decimal,
    pub color: WineColorEnum,
    pub grape_varieties: Vec<String>,
    pub available_online: bool,
}

/// A wine read from the retailer's site, ready to be stored.
pub struct NewSaqWine {
    pub name: String,
    pub country: String,
    pub region: String,
    pub designation_of_origin: String,
    pub regulated_designation: bool,
    pub producer: String,
    /// In millilitres.
    pub volume: Decimal,
    pub price: Decimal,
    pub alcohol_percent: Decimal,
    pub color: WineColorEnum,
    pub grape_varieties: Vec<String>,
    pub available_online: bool,
}

/// A recommendation as stored: an empty text field matches any wine.
pub struct WineRecommendation {
    pub id: i32,
    pub country: String,
    pub region: String,
    pub designation_of_origin: String,
    pub producer: String,
    pub rating: i32,
    pub color: WineColorEnum,
    pub grape_variety: String,
    pub user_id: Option<i32>,
    pub name: String,
}

/// A recommendation to be stored.
pub struct NewWineRecommendation {
    pub country: String,
    pub region: String,
    pub designation_of_origin: String,
    pub producer: String,
    pub rating: i32,
    pub color: WineColorEnum,
    pub grape_variety: String,
    pub user_id: Option<i32>,
    pub wine_name: String,
}

/// A registered user.
pub struct User {
    pub id: i32,
    pub email: String,
    pub admin: bool,
    pub salt: Vec<u8>,
    pub password: Vec<u8>,
}

/// A user to be stored.
pub struct NewUser {
    pub email: String,
    pub admin: bool,
    pub salt: Vec<u8>,
    pub password: Vec<u8>,
}

/// The digest that Argon2i, with the crate's default parameters, makes of a
/// password and a salt.
pub uninterp spec fn argon2i_digest(password: Seq<char>, salt: Seq<u8>) -> Seq<u8>;

/// The digest that `argon2i_simple` makes of a password and a salt given as text.
pub uninterp spec fn argon2i_simple_digest(password: Seq<char>, salt: Seq<char>) -> Seq<u8>;

/// Whether a salt has a length that Argon2 accepts.
pub open spec fn salt_ok(salt: Seq<u8>) -> bool {
    8 <= salt.len() <= 0xffff_ffff
}

/// Relies on argon2rs::Argon2::hash, with Argon2::default(Variant::Argon2i):
/// a 32-byte digest of the password and the salt; it asserts that the salt has
/// 8 to 2^32 - 1 bytes and the password at most 2^32 - 1.
#[verifier::external_body]
pub fn hash_password(password: &String, salt: Vec<u8>) -> (r: Vec<u8>)
    requires
        salt_ok(salt@),
        password@.len() <= 0x3fff_ffff,
    ensures
        r@ == argon2i_digest(password@, salt@),
        r@.len() == 32,
{
    let mut out = [0u8; argon2rs::defaults::LENGTH];
    let a2 = Argon2::default(Variant::Argon2i);
    a2.hash(&mut out, password.as_bytes(), &salt, &[], &[]);
    out.to_vec()
}

/// Relies on argon2rs::argon2i_simple: a 32-byte digest of the e-mail, salted
/// with the server's secret key, which must have 8 bytes or more.
#[verifier::external_body]
pub fn compute_salt(email: &String, secret_key: &str) -> (r: Vec<u8>)
    requires
        8 <= secret_key@.len() <= 0x3fff_ffff,
        email@.len() <= 0x3fff_ffff,
    ensures
        r@ == argon2i_simple_digest(email@, secret_key@),
        r@.len() == 32,
{
    argon2i_simple(email, secret_key).to_vec()
}

/// Whether two byte strings are equal.
pub fn same_bytes(a: &Vec<u8>, b: &Vec<u8>) -> (r: bool)
    ensures
        r == (a@ == b@),
{
    if a.len() != b.len() {
        return false;
    }
    let mut i: usize = 0;
    while i < a.len()
        invariant
            a@.len() == b@.len(),
            i <= a@.len(),
            forall|j: int| 0 <= j < i ==> a@[j] == b@[j],
        decreases a.len() - i,
    {
        if a[i] != b[i] {
            return false;
        }
        i = i + 1;
    }
    assert(a@ =~= b@);
    true
}

/// Whether a digest that was computed from a password is the one stored for a
/// user.
pub fn digest_matches(digest: &Vec<u8>, user: &User) -> (r: bool)
    ensures
        r == (digest@ == user.password@),
{
    same_bytes(digest, &user.password)
}

/// Whether a password is the user's: it is hashed with the user's salt and
/// compared with the stored digest. A salt that Argon2 refuses matches nothing.
pub fn password_matches(password: &String, user: &User) -> (r: bool)
    ensures
        r == (salt_ok(user.salt@) && password@.len() <= 0x3fff_ffff
            && argon2i_digest(password@, user.salt@) == user.password@),
{
    if user.salt.len() < 8 || user.salt.len() > 0xffff_ffff || password.as_str().unicode_len() > 0x3fff_ffff {
        return false;
    }
    let digest = hash_password(password, user.salt.clone());
    digest_matches(&digest, user)
}

} // verus!
