//! Where an object lives: from a content hash to a path under the store root.

use vstd::prelude::*;
use vstd::string::*;

verus! {

/// Number of leading hash characters that name the fan-out directory.
pub const PREFIX_LEN: usize = 2;

/// Shortest hash that can be resolved: the prefix and a file name of one
/// character.
pub const MIN_HASH_LEN: usize = PREFIX_LEN + 1;

/// The two kinds of object that the store keeps.
#[derive(Clone, Copy, Debug, PartialEq, Eq, Structural)]
pub enum Category {
    Claims,
    Verifications,
}

impl AddressError {
    pub fn describe(&self) -> (r: String)
        ensures
            r@ == "Invalid hash"@,
    {
        String::from_str("Invalid hash")
    }
}

impl Category {
    /// Name of the category's directory under `objects`.
    pub open spec fn code_spec(self) -> Seq<char> {
        match self {
            Category::Claims => "cl"@,
            Category::Verifications => "vf"@,
        }
    }

    pub fn code(&self) -> (r: &'static str)
        ensures
            r@ == self.code_spec(),
    {
        match self {
            Category::Claims => "cl",
            Category::Verifications => "vf",
        }
    }

    /// What one object of the category is called.
    pub open spec fn title_spec(self) -> Seq<char> {
        match self {
            Category::Claims => "Claim"@,
            Category::Verifications => "Verification"@,
        }
    }

    pub fn title(&self) -> (r: &'static str)
        ensures
            r@ == self.title_spec(),
    {
        match self {
            Category::Claims => "Claim",
            Category::Verifications => "Verification",
        }
    }
}

/// The files that lie directly under the store root.
#[derive(Clone, Copy, Debug, PartialEq, Eq, Structural)]
pub enum StoreFile {
    /// The head reference.
    Head,
    /// The private half of the signing key pair.
    PrivateKey,
    /// The public half of the signing key pair.
    PublicKey,
    /// The audit log.
    AuditLog,
}

impl StoreFile {
    /// Name of the file under the store root.
    pub open spec fn name_spec(self) -> Seq<char> {
        match self {
            StoreFile::Head => "HEAD"@,
            StoreFile::PrivateKey => "proof.key"@,
            StoreFile::PublicKey => "proof.pub"@,
            StoreFile::AuditLog => "audit.json"@,
        }
    }

    pub fn name(&self) -> (r: &'static str)
        ensures
            r@ == self.name_spec(),
    {
        match self {
            StoreFile::Head => "HEAD",
            StoreFile::PrivateKey => "proof.key",
            StoreFile::PublicKey => "proof.pub",
            StoreFile::AuditLog => "audit.json",
        }
    }
}

/// Where the store lies under a home directory.
pub open spec fn store_root_spec(home: Seq<char>) -> Seq<char> {
    home + "/Almacen_IA/LumenSyntax-Main/.truth"@
}

/// `root/<file>`.
pub open spec fn store_file_spec(root: Seq<char>, file: StoreFile) -> Seq<char> {
    root + "/"@ + file.name_spec()
}

/// A hash can be resolved when it is long enough to leave a file name after
/// the prefix.
pub open spec fn resolvable(hash: Seq<char>) -> bool {
    hash.len() >= MIN_HASH_LEN
}

/// The fan-out directory of a hash: its first `PREFIX_LEN` characters.
pub open spec fn hash_prefix(hash: Seq<char>) -> Seq<char> {
    hash.subrange(0, PREFIX_LEN as int)
}

/// The file name of a hash: what follows the prefix.
pub open spec fn hash_suffix(hash: Seq<char>) -> Seq<char> {
    hash.subrange(PREFIX_LEN as int, hash.len() as int)
}

/// `root/objects/<category>`.
pub open spec fn category_dir_spec(root: Seq<char>, category: Category) -> Seq<char> {
    root + "/objects/"@ + category.code_spec()
}

/// `root/objects/<category>/<prefix>/<suffix>`.
pub open spec fn object_path_spec(root: Seq<char>, category: Category, hash: Seq<char>) -> Seq<
    char,
> {
    category_dir_spec(root, category) + "/"@ + hash_prefix(hash) + "/"@ + hash_suffix(hash)
}

/// A hash that can be resolved splits into a prefix of `PREFIX_LEN`
/// characters and a file name that is not empty, and the two together are the
/// hash again.
pub proof fn lemma_hash_splits(hash: Seq<char>)
    requires
        resolvable(hash),
    ensures
        hash_prefix(hash).len() == PREFIX_LEN,
        hash_suffix(hash).len() == hash.len() - PREFIX_LEN,
        hash_suffix(hash).len() > 0,
        hash_prefix(hash) + hash_suffix(hash) == hash,
{
    assert(hash_prefix(hash) + hash_suffix(hash) =~= hash);
}

/// The path of an object lies under the directory of its category, in the
/// fan-out directory named by the prefix of its hash.
pub proof fn lemma_object_lies_in_category(root: Seq<char>, category: Category, hash: Seq<char>)
    ensures
        object_path_spec(root, category, hash) == category_dir_spec(root, category) + "/"@
            + hash_prefix(hash) + "/"@ + hash_suffix(hash),
        category_dir_spec(root, category).is_prefix_of(object_path_spec(root, category, hash)),
{
    let dir = category_dir_spec(root, category);
    let rest = "/"@ + hash_prefix(hash) + "/"@ + hash_suffix(hash);
    assert(object_path_spec(root, category, hash) =~= dir + rest);
}

/// Why a hash could not be turned into a path.
#[derive(Clone, Copy, Debug, PartialEq, Eq, Structural)]
pub enum AddressError {
    /// The hash is too short to hold a prefix and a file name.
    InvalidIdentifier,
}

/// Why the store root could not be named.
#[derive(Clone, Copy, Debug, PartialEq, Eq, Structural)]
pub enum RootError {
    /// No home directory is known.
    NoHome,
}

impl RootError {
    pub fn describe(&self) -> (r: String)
        ensures
            r@ == "Could not find home directory"@,
    {
        String::from_str("Could not find home directory")
    }
}

/// The store root under `home`, or `NoHome` where no home directory is known.
pub fn store_root(home: Option<&str>) -> (r: Result<String, RootError>)
    ensures
        match home {
            Some(dir) => r is Ok && r->Ok_0@ == store_root_spec(dir@),
            None => r == Err::<String, RootError>(RootError::NoHome),
        },
{
    match home {
        Some(dir) => {
            let mut path = String::from_str(dir);
            path.append("/Almacen_IA/LumenSyntax-Main/.truth");
            Ok(path)
        },
        None => Err(RootError::NoHome),
    }
}

/// Path of one of the files that lie directly under the root.
pub fn store_file(root: &str, file: StoreFile) -> (r: String)
    ensures
        r@ == store_file_spec(root@, file),
{
    let mut path = String::from_str(root);
    path.append("/");
    path.append(file.name());
    path
}

/// Directory that holds every object of `category`.
pub fn category_dir(root: &str, category: Category) -> (r: String)
    ensures
        r@ == category_dir_spec(root@, category),
{
    let mut path = String::from_str(root);
    path.append("/objects/");
    path.append(category.code());
    path
}

/// Path of the object named by `hash`, or `InvalidIdentifier` when the hash
/// has fewer than `MIN_HASH_LEN` characters. Nothing is looked up: the answer
/// depends on the three arguments alone.
pub fn resolve(root: &str, category: Category, hash: &str) -> (r: Result<String, AddressError>)
    ensures
        resolvable(hash@) ==> r is Ok && r->Ok_0@ == object_path_spec(root@, category, hash@),
        !resolvable(hash@) ==> r == Err::<String, AddressError>(AddressError::InvalidIdentifier),
{
    let n: usize = hash.unicode_len();
    if n < MIN_HASH_LEN {
        return Err(AddressError::InvalidIdentifier);
    }
    let mut path = category_dir(root, category);
    path.append("/");
    path.append(hash.substring_char(0, PREFIX_LEN));
    path.append("/");
    path.append(hash.substring_char(PREFIX_LEN, n));
    Ok(path)
}

} // verus!
