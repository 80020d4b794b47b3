//! Storage locations: where an uploaded object lives under the CDN and
//! in the bucket. Producing a signed upload URL is the storage service's
//! business and stays with the caller; this module only builds the paths
//! and records the response shape.

use vstd::prelude::*;

verus! {

/// What the library needs to know of the storage setup: the bucket name,
/// the CDN host, and the optional environment prefix that routes a CDN
/// path to the right bucket.
pub struct S3Access {
    pub bucket: String,
    pub cdn_url: String,
    pub cdn_prefix: Option<String>,
}

impl S3Access {
    pub fn new(bucket: String, cdn_url: String, cdn_prefix: Option<String>) -> (r: S3Access)
        ensures
            r.bucket == bucket,
            r.cdn_url == cdn_url,
            r.cdn_prefix == cdn_prefix,
    {
        S3Access { bucket, cdn_url, cdn_prefix }
    }

    /// The prefix as an abstract value.
    pub open spec fn spec_prefix(self) -> Option<Seq<char>> {
        match self.cdn_prefix {
            Some(p) => Some(p@),
            None => None,
        }
    }
}

/// The object key `directory/id`, under the environment prefix when one
/// is configured.
pub open spec fn destination_of(
    prefix: Option<Seq<char>>,
    directory: Seq<char>,
    id: Seq<char>,
) -> Seq<char> {
    match prefix {
        Some(p) => p + seq!['/'] + directory + seq!['/'] + id,
        None => directory + seq!['/'] + id,
    }
}

/// The public URL of an object: the CDN host in front of its key.
pub open spec fn entity_url_of(
    cdn: Seq<char>,
    prefix: Option<Seq<char>>,
    directory: Seq<char>,
    id: Seq<char>,
) -> Seq<char> {
    "https://"@ + cdn + seq!['/'] + destination_of(prefix, directory, id)
}

/// Builds the object key for an upload.
pub fn get_destination(s3: &S3Access, directory: &str, id: &str) -> (r: String)
    ensures
        r@ == destination_of(s3.spec_prefix(), directory@, id@),
{
    proof {
        reveal_strlit("/");
    }
    let mut out: String;
    match &s3.cdn_prefix {
        Some(prefix) => {
            out = prefix.clone();
            out.append("/");
        },
        None => {
            out = String::new();
        },
    }
    out.append(directory);
    out.append("/");
    out.append(id);
    proof {
        assert("/"@ =~= seq!['/']);
    }
    out
}

impl S3Access {
    /// The CDN URL a stored object is served from.
    pub fn cdn_url_of_entity(&self, directory: &str, id: &str) -> (r: String)
        ensures
            r@ == entity_url_of(self.cdn_url@, self.spec_prefix(), directory@, id@),
    {
        let mut out = "https://".to_owned();
        out.append(self.cdn_url.as_str());
        proof {
            reveal_strlit("/");
            assert("/"@ =~= seq!['/']);
        }
        out.append("/");
        let dest = get_destination(self, directory, id);
        out.append(dest.as_str());
        out
    }
}

/// An upload about to be signed: the client's file name and content type.
#[derive(Debug, PartialEq)]
pub struct UploadRequest {
    pub filename: String,
    pub file_type: String,
}

impl UploadRequest {
    /// A canned request, as the test suites use.
    pub fn fake() -> (r: UploadRequest)
        ensures
            r.filename@ == "f"@,
            r.file_type@ == "t"@,
    {
        UploadRequest { filename: "f".to_owned(), file_type: "t".to_owned() }
    }
}

/// What the client receives for an upload: the signed PUT URL its bytes
/// go to, and where they will be served from afterwards.
#[derive(Debug, PartialEq)]
pub struct UploadResponse {
    pub url: String,
    pub directory: String,
    pub filename: String,
    pub get_url: String,
}

/// Assembles the response around a PUT URL the storage signer produced.
pub fn upload_response(s3: &S3Access, directory: &str, req: &UploadRequest, id: &str, put_url: String) -> (r:
    UploadResponse)
    ensures
        r.url == put_url,
        r.directory@ == directory@,
        r.filename == req.filename,
        r.get_url@ == entity_url_of(s3.cdn_url@, s3.spec_prefix(), directory@, id@),
{
    UploadResponse {
        url: put_url,
        directory: directory.to_owned(),
        filename: req.filename.clone(),
        get_url: s3.cdn_url_of_entity(directory, id),
    }
}

} // verus!
