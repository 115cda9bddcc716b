//! The two seed profiles and the sample data that each puts in a new store.
use vstd::prelude::*;
use crate::models::{CollectionKind, CollectionResponse, CollectionsResponse, Timestamp};
use crate::policy::strs;
use crate::store::MutableStaticData;

verus! {

/// Id of the "saved" collection, the same in both profiles.
pub const SAVED_COLLECTION_ID: &'static str = "F8895D13-CCB2-4864-9DE6-C35A1FC943BE";

/// Id of the "cooked" collection, the same in both profiles.
pub const COOKED_COLLECTION_ID: &'static str = "22468120-81C4-4E4A-8B9D-71AEE5E25C40";

/// Which fixed sample data seeds the store.
#[derive(Clone, Copy, Debug, PartialEq, Eq, Structural)]
pub enum Environment {
    /// The development sample set.
    CODE,
    /// The production sample set.
    PROD,
}

impl Default for Environment {
    fn default() -> (r: Environment)
        ensures
            r == Environment::PROD,
    {
        Environment::PROD
    }
}

impl Environment {
    /// The profile's name as given on the command line.
    pub fn to_string(&self) -> (r: String)
        ensures
            r@ == match self {
                Environment::CODE => "code"@,
                Environment::PROD => "prod"@,
            },
    {
        match self {
            Environment::CODE => "code".to_string(),
            Environment::PROD => "prod".to_string(),
        }
    }
}

/// The recipe ids that seed the "saved" collection.
pub open spec fn saved_sample(env: Environment) -> Seq<Seq<char>> {
    match env {
        Environment::CODE => seq![
            "99ea87d53eb3dc2f2f445b38919d9b9cbda4b7b1"@,
            "f7c7d8f4d84f8792fb3db7e8a8d01dd0d0f5f44e"@,
            "0a4058e84d82baafa0b5e3f9592ccbb338948436"@,
            "87ff572716ff27ce79af69103853037129d96278"@,
            "53011c2b714858980de757ea640f63cd0be3fa4d"@,
            "4e69b3b3563d4c7b8171875029fb55ea"@,
        ],
        Environment::PROD => seq![
            "ed9e148c614d47f0b236f5ce7113d196"@,
            "cedbcd3f945edab2082929cdb32b53be0f60ce65"@,
            "abd71bb34eda489ca830d3d7688dc5f0"@,
            "0b1f06a6a3c54e1c8deb23bdc7d1d9ae"@,
            "c3d429e206c24e4f8bb362913e959c77"@,
            "d5a731c27edd44ff9df5b9dd4f8d983e"@,
        ],
    }
}

/// The recipe ids that seed the "cooked" collection.
pub open spec fn cooked_sample(env: Environment) -> Seq<Seq<char>> {
    match env {
        Environment::CODE => seq![
            "784df601c67b345c66b1421dd4bb509de6e56506"@,
            "70265dd004fc4b03a5cb50f972fe13f5"@,
            "52162dbaf825914f151a60b4039dce6098831ba0"@,
            "0bba989e6300c009d6deec7c305f321cf1592446"@,
            "47153f13da3db88470e1d13da68fbcdc1971674f"@,
        ],
        Environment::PROD => seq![
            "01d206bc58b54044836e3c5046101062"@,
            "cfac27aee0d01ea8718a61fd1d23f441402dee17"@,
            "17ad58e0cffc482b8b0e591a94e30809"@,
            "b01c05a481ba00f9ae21a4f2bf11e137b6609c42"@,
            "9a6b1e956f774667ad7562d6410ab73e"@,
        ],
    }
}

/// What a store seeded from `env` holds.
pub open spec fn seeded(env: Environment) -> Map<Seq<char>, Seq<Seq<char>>> {
    Map::empty().insert(SAVED_COLLECTION_ID@, saved_sample(env)).insert(
        COOKED_COLLECTION_ID@,
        cooked_sample(env),
    )
}

fn saved_sample_ids(env: Environment) -> (r: Vec<String>)
    ensures
        strs(r@) == saved_sample(env),
{
    let r = match env {
        Environment::CODE => vec![
            "99ea87d53eb3dc2f2f445b38919d9b9cbda4b7b1".to_string(),
            "f7c7d8f4d84f8792fb3db7e8a8d01dd0d0f5f44e".to_string(),
            "0a4058e84d82baafa0b5e3f9592ccbb338948436".to_string(),
            "87ff572716ff27ce79af69103853037129d96278".to_string(),
            "53011c2b714858980de757ea640f63cd0be3fa4d".to_string(),
            "4e69b3b3563d4c7b8171875029fb55ea".to_string(),
        ],
        Environment::PROD => vec![
            "ed9e148c614d47f0b236f5ce7113d196".to_string(),
            "cedbcd3f945edab2082929cdb32b53be0f60ce65".to_string(),
            "abd71bb34eda489ca830d3d7688dc5f0".to_string(),
            "0b1f06a6a3c54e1c8deb23bdc7d1d9ae".to_string(),
            "c3d429e206c24e4f8bb362913e959c77".to_string(),
            "d5a731c27edd44ff9df5b9dd4f8d983e".to_string(),
        ],
    };
    assert(strs(r@) =~= saved_sample(env));
    r
}

fn cooked_sample_ids(env: Environment) -> (r: Vec<String>)
    ensures
        strs(r@) == cooked_sample(env),
{
    let r = match env {
        Environment::CODE => vec![
            "784df601c67b345c66b1421dd4bb509de6e56506".to_string(),
            "70265dd004fc4b03a5cb50f972fe13f5".to_string(),
            "52162dbaf825914f151a60b4039dce6098831ba0".to_string(),
            "0bba989e6300c009d6deec7c305f321cf1592446".to_string(),
            "47153f13da3db88470e1d13da68fbcdc1971674f".to_string(),
        ],
        Environment::PROD => vec![
            "01d206bc58b54044836e3c5046101062".to_string(),
            "cfac27aee0d01ea8718a61fd1d23f441402dee17".to_string(),
            "17ad58e0cffc482b8b0e591a94e30809".to_string(),
            "b01c05a481ba00f9ae21a4f2bf11e137b6609c42".to_string(),
            "9a6b1e956f774667ad7562d6410ab73e".to_string(),
        ],
    };
    assert(strs(r@) =~= cooked_sample(env));
    r
}

impl MutableStaticData {
    /// A new store seeded from the profile `env`: the "saved" and the
    /// "cooked" collection with that profile's sample ids, nothing else.
    pub fn new(env: Environment) -> (r: MutableStaticData)
        ensures
            r.wf(),
            r.profile() == env,
            r@ == seeded(env),
    {
        let mut data = MutableStaticData::empty(env);
        data.insert_collection(SAVED_COLLECTION_ID.to_string(), saved_sample_ids(env));
        data.insert_collection(COOKED_COLLECTION_ID.to_string(), cooked_sample_ids(env));
        data
    }
}

/// The user's collections: the "saved" and the "cooked" one, both last
/// modified at `timestamp`.
pub fn gen_user_collections(timestamp: Timestamp) -> (r: CollectionsResponse)
    ensures
        r.collections@.len() == 2,
        r.collections@[0].id@ == SAVED_COLLECTION_ID@,
        r.collections@[0].collection_type == CollectionKind::Saved,
        r.collections@[0].last_modified == timestamp,
        r.collections@[1].id@ == COOKED_COLLECTION_ID@,
        r.collections@[1].collection_type == CollectionKind::Cooked,
        r.collections@[1].last_modified == timestamp,
{
    CollectionsResponse {
        collections: vec![
            CollectionResponse {
                id: SAVED_COLLECTION_ID.to_string(),
                collection_type: CollectionKind::Saved,
                last_modified: timestamp,
            },
            CollectionResponse {
                id: COOKED_COLLECTION_ID.to_string(),
                collection_type: CollectionKind::Cooked,
                last_modified: timestamp,
            },
        ],
    }
}

} // verus!
