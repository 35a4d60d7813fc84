use vstd::prelude::*;

verus! {

/// Port of the HTTP endpoints.
pub const PORT: u32 = 5050;

/// Port of the socket relay.
pub const WS_PORT: u32 = 5055;

/// Credentials and location of the blob store.
pub struct BucketConfig {
    pub token_value: String,
    pub access_key_id: String,
    pub secret_access_key: String,
    pub s3_endpoint: String,
    pub bucket_name: String,
}

} // verus!
