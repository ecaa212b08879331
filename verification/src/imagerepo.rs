//! The content-addressed image repository: images are filed under the
//! hex digest of their contents. Hashing file streams, copying images and
//! writing metadata is the caller's business; this module decides which
//! sources are acceptable and where everything goes.

use vstd::prelude::*;

use crate::lockfile::LockFile;

verus! {

/// The repository root and derived paths.
#[derive(Debug)]
pub struct ImageRepo {
    path: String,
}

impl View for ImageRepo {
    type V = Seq<char>;

    /// A repository is identified by its root directory.
    closed spec fn view(&self) -> Seq<char> {
        self.path@
    }
}

/// One stored image: its digest identity, where it lies, where it came
/// from, and its format.
#[derive(Debug)]
pub struct Image {
    pub id: String,
    pub path: String,
    pub origin: String,
    pub format: String,
}

impl ImageRepo {
    /// The repository at its fixed root. The caller creates the
    /// directory.
    pub fn new() -> (r: ImageRepo)
        ensures
            r@ == "/var/lib/bigiron/images"@,
    {
        ImageRepo { path: "/var/lib/bigiron/images".to_owned() }
    }

    /// The repository root.
    pub fn root(&self) -> (r: &str)
        ensures
            r@ == self@,
    {
        self.path.as_str()
    }

    /// The lock that serializes repository mutation.
    pub fn lockfile(&self) -> (r: LockFile)
        ensures
            r@ == self@ + "/.lock"@,
    {
        let mut s = self.path.clone();
        s.append("/.lock");
        LockFile::new(s.as_str())
    }

    /// Whether a source URL scheme is one the repository accepts: only
    /// local files are.
    pub fn supported_scheme(scheme: &str) -> (r: bool)
        ensures
            r == (scheme@ == "file"@),
    {
        let want = "file".to_owned();
        let got = scheme.to_owned();
        got == want
    }

    /// Where the image with hex digest `hx` is stored.
    pub fn image_path(&self, hx: &str) -> (r: String)
        ensures
            r@ == self@ + "/"@ + hx@,
    {
        let mut s = self.path.clone();
        s.append("/");
        s.append(hx);
        s
    }

    /// Where the metadata of the image with hex digest `hx` is stored.
    pub fn image_meta_path(&self, hx: &str) -> (r: String)
        ensures
            r@ == self@ + "/"@ + hx@ + ".json"@,
    {
        let mut s = self.image_path(hx);
        s.append(".json");
        s
    }

    /// The record for a newly stored image.
    pub fn image_for(&self, hx: &str, origin: &str) -> (r: Image)
        ensures
            r.id@ == hx@,
            r.path@ == self@ + "/"@ + hx@,
            r.origin@ == origin@,
            r.format@ == "qcow2"@,
    {
        Image {
            id: hx.to_owned(),
            path: self.image_path(hx),
            origin: origin.to_owned(),
            format: "qcow2".to_owned(),
        }
    }
}

} // verus!
