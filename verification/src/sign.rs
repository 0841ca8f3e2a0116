//! Signed URLs for the files of a table kept in object storage.

use vstd::prelude::*;

verus! {

/// The region of the object store that requests are signed for.
#[verifier::external_type_specification]
#[verifier::external_body]
pub struct ExRegion(rusoto_core::Region);

/// The credentials that requests are signed with.
#[verifier::external_type_specification]
#[verifier::external_body]
pub struct ExAwsCredentials(rusoto_credential::AwsCredentials);

/// Why a location is not an object in S3.
#[verifier::external_type_specification]
#[verifier::external_body]
pub struct ExUriError(deltalake::storage::UriError);

/// How long a signed URL stays valid, in seconds.
pub const URL_LIFETIME_SECS: u64 = 300;

/// Bucket and key of the object that an S3 location points at, as
/// `deltalake::storage::parse_uri` followed by `Uri::into_s3object` reads
/// them; `None` for a location that they do not accept as an S3 object.
pub uninterp spec fn s3_location_of(uri: Seq<char>) -> Option<(Seq<char>, Seq<char>)>;

/// Splits an S3 location into bucket and key with
/// `deltalake::storage::parse_uri` and `Uri::into_s3object`. The outcome is a
/// function of the location alone; the contract names it.
#[verifier::external_body]
pub(crate) fn s3_location(uri: &str) -> (found: Result<
    (String, String),
    deltalake::storage::UriError,
>)
    ensures
        match found {
            Ok(location) => s3_location_of(uri@) == Some((location.0@, location.1@)),
            Err(_) => s3_location_of(uri@) is None,
        },
{
    let object = deltalake::storage::parse_uri(uri)?.into_s3object()?;
    Ok((object.bucket.to_string(), object.key.to_string()))
}

/// A URL that lets its holder read one object for `lifetime_secs` seconds,
/// from `get_presigned_url` of `rusoto_s3` on a `GetObjectRequest`. The URL
/// carries the time of signing, so it has no name; what holds of every
/// outcome is that it is not empty: it is written as scheme, `://`, host,
/// path, `?` and query.
#[verifier::external_body]
pub(crate) fn presigned_get_url(
    bucket: &str,
    key: &str,
    region: &rusoto_core::Region,
    credentials: &rusoto_credential::AwsCredentials,
    lifetime_secs: u64,
) -> (url: String)
    ensures
        url@.len() > 0,
{
    let request = rusoto_s3::GetObjectRequest {
        bucket: bucket.to_string(),
        key: key.to_string(),
        ..Default::default()
    };
    let options = rusoto_s3::util::PreSignedRequestOption {
        expires_in: std::time::Duration::from_secs(lifetime_secs),
    };
    rusoto_s3::util::PreSignedRequest::get_presigned_url(&request, region, credentials, &options)
}

} // verus!
