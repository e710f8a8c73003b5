//! Path specifications: `image.img:inner/path` names a file inside a FAT
//! image, anything else names a host file.

use vstd::prelude::*;

verus! {

/// A parsed path: inside an image, or on the host.
#[derive(Debug, Clone, PartialEq, Eq)]
pub enum PathSpec {
    /// A path within a FAT image: the image file and the path inside it.
    ImagePath {
        /// The image file on the host.
        image: String,
        /// The path within the image.
        path: String,
    },
    /// A plain host filesystem path.
    HostPath(String),
}

/// No separator anywhere in `s`.
pub open spec fn spec_no_colon(s: Seq<char>) -> bool {
    forall|i: int| 0 <= i < s.len() ==> s[i] != ':'
}

/// `i` is the first separator of `s`.
pub open spec fn spec_first_colon_at(s: Seq<char>, i: int) -> bool {
    &&& 0 <= i < s.len()
    &&& s[i] == ':'
    &&& forall|j: int| 0 <= j < i ==> s[j] != ':'
}

/// Index of the first `:` in `s`, if any.
fn find_colon(s: &str) -> (r: Option<usize>)
    ensures
        match r {
            Some(i) => spec_first_colon_at(s@, i as int),
            None => spec_no_colon(s@),
        },
{
    let n = s.unicode_len();
    let mut i: usize = 0;
    while i < n
        invariant
            i <= n,
            n == s@.len(),
            forall|j: int| 0 <= j < i ==> s@[j] != ':',
        decreases n - i,
    {
        if s.get_char(i) == ':' {
            return Some(i);
        }
        i = i + 1;
    }
    None
}

impl PathSpec {
    /// Parse a path specification: with a `:` the part before it is the
    /// image and the part after the inner path; without one, a host path.
    pub fn parse(spec: &str) -> (r: Result<PathSpec, ()>)
        ensures
            match r {
                Ok(PathSpec::ImagePath { image, path }) => exists|i: int|
                    #[trigger] spec_first_colon_at(spec@, i)
                        && image@ == spec@.take(i) && path@ == spec@.skip(i + 1),
                Ok(PathSpec::HostPath(p)) => spec_no_colon(spec@) && p@ == spec@,
                Err(_) => false,
            },
    {
        match find_colon(spec) {
            Some(i) => {
                let n = spec.unicode_len();
                let image = spec.substring_char(0, i).to_owned();
                let path = spec.substring_char(i + 1, n).to_owned();
                proof {
                    assert(image@ =~= spec@.take(i as int));
                    assert(path@ =~= spec@.skip(i + 1));
                }
                Ok(PathSpec::ImagePath { image, path })
            },
            None => Ok(PathSpec::HostPath(spec.to_owned())),
        }
    }

    /// Parse with a fallback image: an explicit `image:path` wins; a bare
    /// path lands inside `default_image`.
    pub fn parse_with_default_image(spec: &str, default_image: &str) -> (r: Result<
        PathSpec, ()>)
        ensures
            match r {
                Ok(PathSpec::ImagePath { image, path }) => {
                    ||| exists|i: int| #[trigger] spec_first_colon_at(spec@, i)
                        && image@ == spec@.take(i) && path@ == spec@.skip(i + 1)
                    ||| spec_no_colon(spec@) && image@ == default_image@ && path@ == spec@
                },
                Ok(PathSpec::HostPath(_)) => false,
                Err(_) => false,
            },
    {
        match find_colon(spec) {
            Some(i) => {
                let n = spec.unicode_len();
                let image = spec.substring_char(0, i).to_owned();
                let path = spec.substring_char(i + 1, n).to_owned();
                proof {
                    assert(image@ =~= spec@.take(i as int));
                    assert(path@ =~= spec@.skip(i + 1));
                }
                Ok(PathSpec::ImagePath { image, path })
            },
            None => Ok(PathSpec::ImagePath {
                image: default_image.to_owned(),
                path: spec.to_owned(),
            }),
        }
    }

    /// The image file, for image paths.
    pub fn image_path(&self) -> (r: Option<&String>)
        ensures
            match self {
                PathSpec::ImagePath { image, .. } => r == Some(image),
                PathSpec::HostPath(_) => r is None,
            },
    {
        match self {
            PathSpec::ImagePath { image, .. } => Some(image),
            PathSpec::HostPath(_) => None,
        }
    }

    /// The path within the image, for image paths.
    pub fn inner_path(&self) -> (r: Option<&String>)
        ensures
            match self {
                PathSpec::ImagePath { path, .. } => r == Some(path),
                PathSpec::HostPath(_) => r is None,
            },
    {
        match self {
            PathSpec::ImagePath { path, .. } => Some(path),
            PathSpec::HostPath(_) => None,
        }
    }

    /// The host path, for host paths.
    pub fn host_path(&self) -> (r: Option<&String>)
        ensures
            match self {
                PathSpec::HostPath(p) => r == Some(p),
                PathSpec::ImagePath { .. } => r is None,
            },
    {
        match self {
            PathSpec::HostPath(p) => Some(p),
            PathSpec::ImagePath { .. } => None,
        }
    }

    /// Is this an image path?
    pub fn is_image_path(&self) -> (r: bool)
        ensures
            r == (self matches PathSpec::ImagePath { .. }),
    {
        matches!(self, PathSpec::ImagePath { .. })
    }

    /// Is this a host path?
    pub fn is_host_path(&self) -> (r: bool)
        ensures
            r == (self matches PathSpec::HostPath(_)),
    {
        matches!(self, PathSpec::HostPath(_))
    }
}

/// How `PathSpec::parse` reads an input: an image path split at the first
/// separator, or the whole input as a host path.
pub open spec fn spec_parse_result(input: Seq<char>, p: PathSpec) -> bool {
    match p {
        PathSpec::ImagePath { image, path } => exists|i: int|
            #[trigger] spec_first_colon_at(input, i)
                && image@ == input.take(i) && path@ == input.skip(i + 1),
        PathSpec::HostPath(h) => spec_no_colon(input) && h@ == input,
    }
}

/// Both inputs name the same image file.
pub open spec fn spec_same_image(source: Seq<char>, dest: Seq<char>) -> bool {
    exists|i: int, j: int|
        #[trigger] spec_first_colon_at(source, i) && #[trigger] spec_first_colon_at(dest, j)
            && source.take(i) == dest.take(j)
}

/// Parse a copy operation's two ends and rule out the copies that make no
/// sense — both on the host, or both inside one image. `Ok` carries the
/// two parses exactly; `Err` comes exactly on the ruled-out shapes, its
/// text naming the reason.
pub fn parse_copy_operation(source: &str, dest: &str) -> (r: Result<
    (PathSpec, PathSpec), String>)
    ensures
        match r {
            Ok((src, dst)) => {
                &&& spec_parse_result(source@, src)
                &&& spec_parse_result(dest@, dst)
                &&& !(spec_no_colon(source@) && spec_no_colon(dest@))
                &&& !spec_same_image(source@, dest@)
            },
            Err(_) => (spec_no_colon(source@) && spec_no_colon(dest@))
                || spec_same_image(source@, dest@),
        },
{
    let src = match PathSpec::parse(source) {
        Ok(s) => s,
        Err(_) => {
            let mut m = String::new();
            m.append("Failed to parse source path");
            return Err(m);
        },
    };
    let dst = match PathSpec::parse(dest) {
        Ok(d) => d,
        Err(_) => {
            let mut m = String::new();
            m.append("Failed to parse destination path");
            return Err(m);
        },
    };
    let same_image = match (&src, &dst) {
        (PathSpec::ImagePath { image: i1, .. }, PathSpec::ImagePath { image: i2, .. }) => {
            i1.eq(i2)
        },
        _ => false,
    };
    proof {
        if same_image {
            // Both parses split at their first separators with one image
            // name, which is exactly the same-image shape.
            let i = choose|i: int| #[trigger] spec_first_colon_at(source@, i)
                && (src matches PathSpec::ImagePath { image, path }
                    && image@ == source@.take(i) && path@ == source@.skip(i + 1));
            let j = choose|j: int| #[trigger] spec_first_colon_at(dest@, j)
                && (dst matches PathSpec::ImagePath { image, path }
                    && image@ == dest@.take(j) && path@ == dest@.skip(j + 1));
            assert(source@.take(i) == dest@.take(j));
            assert(spec_same_image(source@, dest@));
        }
    }
    if same_image {
        let mut m = String::new();
        m.append("Cannot copy within the same image. ");
        m.append("Use host filesystem for intermediate storage.");
        return Err(m);
    }
    let both_host = src.is_host_path() && dst.is_host_path();
    if both_host {
        let mut m = String::new();
        m.append("Cannot copy within host filesystem. ");
        m.append("To copy to or from images, use the image:path notation.");
        return Err(m);
    }
    Ok((src, dst))
}

} // verus!
