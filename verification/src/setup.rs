//! The project's build and setup tasks: where each artifact lives, which tools and compiler
//! targets are missing, and where the downloaded pieces come from.
use vstd::prelude::*;
use crate::text::{concat2, contains, has_infix, views};

verus! {

/// The version of the guest kernel that is downloaded.
pub const KERNEL_VERSION: &'static str = "5.10.223";

/// Where the guest kernel is downloaded from.
pub const KERNEL_URL: &'static str = "https://s3.amazonaws.com/spec.ccfc.min/firecracker-ci/v1.6/x86_64/vmlinux-5.10.223";

/// The version of Firecracker that is downloaded.
pub const FIRECRACKER_VERSION: &'static str = "v1.12.1";

/// Where Firecracker is downloaded from.
pub const FIRECRACKER_URL: &'static str = "https://github.com/firecracker-microvm/firecracker/releases/download/v1.12.1/firecracker-v1.12.1-x86_64.tgz";

/// What `Path::parent` gives for a path.
pub uninterp spec fn path_parent(path: Seq<char>) -> Option<Seq<char>>;

/// `Path::parent`. Trusted: the result is `path_parent` of the path.
#[verifier::external_body]
fn parent_of(path: &str) -> (r: Option<String>)
    ensures
        match r {
            Some(p) => path_parent(path@) == Some(p@),
            None => path_parent(path@) is None,
        },
{
    std::path::Path::new(path).parent().map(|p| p.to_string_lossy().into_owned())
}

/// What `Path::join` gives for a base and a path.
pub uninterp spec fn path_join(base: Seq<char>, part: Seq<char>) -> Seq<char>;

/// `Path::join`. Trusted: the result is `path_join` of the two; a relative part is put
/// after the base with one `/` between them when the base does not end with one (as std
/// documents for `push`).
#[verifier::external_body]
fn join_path(base: &str, part: &str) -> (r: String)
    ensures
        r@ == path_join(base@, part@),
        base@.len() > 0 && base@.last() != '/' && part@.len() > 0 && part@[0] != '/' ==> r@ == base@ + "/"@ + part@,
{
    std::path::Path::new(base).join(part).to_string_lossy().into_owned()
}

/// The places of the project's artifacts.
#[derive(Debug, Clone, PartialEq, Eq)]
pub struct Paths {
    pub project_root: String,
    pub guest_manifest_path: String,
    pub vm_agent_manifest_path: String,
    pub vm_images_dir: String,
    pub firecracker_dir: String,
    pub kernel_path: String,
    pub rootfs_path: String,
    pub firecracker_binary: String,
}

impl Paths {
    /// The places, given the directory of the build tool's own manifest: the project is
    /// its parent; the images and Firecracker live in `firecracker`. `None` when the
    /// directory has no parent.
    pub fn new(manifest_dir: &str) -> (r: Option<Self>)
        ensures
            match path_parent(manifest_dir@) {
                None => r is None,
                Some(root) => r matches Some(p) && {
                    let images = path_join(root, "firecracker"@);
                    &&& p.project_root@ == root
                    &&& p.guest_manifest_path@ == path_join(root, "guest/Cargo.toml"@)
                    &&& p.vm_agent_manifest_path@ == path_join(root, "vm-agent/Cargo.toml"@)
                    &&& p.vm_images_dir@ == images
                    &&& p.firecracker_dir@ == images
                    &&& p.kernel_path@ == path_join(images, "vmlinux-"@ + KERNEL_VERSION@)
                    &&& p.rootfs_path@ == path_join(images, "rootfs.ext4"@)
                    &&& p.firecracker_binary@ == path_join(images, "firecracker"@)
                },
            },
    {
        let root = match parent_of(manifest_dir) {
            Some(r) => r,
            None => {
                return None;
            },
        };
        let guest_manifest_path = join_path(root.as_str(), "guest/Cargo.toml");
        let vm_agent_manifest_path = join_path(root.as_str(), "vm-agent/Cargo.toml");
        let vm_images_dir = join_path(root.as_str(), "firecracker");
        let firecracker_dir = vm_images_dir.clone();
        let kernel_name = concat2("vmlinux-", KERNEL_VERSION);
        let kernel_path = join_path(vm_images_dir.as_str(), kernel_name.as_str());
        let rootfs_path = join_path(vm_images_dir.as_str(), "rootfs.ext4");
        let firecracker_binary = join_path(firecracker_dir.as_str(), "firecracker");
        Some(
            Paths {
                project_root: root,
                guest_manifest_path,
                vm_agent_manifest_path,
                vm_images_dir,
                firecracker_dir,
                kernel_path,
                rootfs_path,
                firecracker_binary,
            },
        )
    }
}

/// The missing tools, named with their packages, in the order they are checked: `dd`,
/// `mkfs.ext4`, `sudo`.
pub open spec fn spec_missing_dependencies(has_dd: bool, has_mkfs: bool, has_sudo: bool) -> Seq<Seq<char>> {
    (if has_dd { Seq::empty() } else { seq!["dd (coreutils)"@] }) + (if has_mkfs {
        Seq::empty()
    } else {
        seq!["mkfs.ext4 (e2fsprogs)"@]
    }) + (if has_sudo { Seq::empty() } else { seq!["sudo"@] })
}

/// The tools that are missing.
pub fn missing_dependencies(has_dd: bool, has_mkfs: bool, has_sudo: bool) -> (r: Vec<String>)
    ensures
        views(r@) == spec_missing_dependencies(has_dd, has_mkfs, has_sudo),
{
    let mut missing: Vec<String> = Vec::new();
    if !has_dd {
        missing.push(String::from_str("dd (coreutils)"));
    }
    if !has_mkfs {
        missing.push(String::from_str("mkfs.ext4 (e2fsprogs)"));
    }
    if !has_sudo {
        missing.push(String::from_str("sudo"));
    }
    assert(views(missing@) =~= spec_missing_dependencies(has_dd, has_mkfs, has_sudo));
    missing
}

/// The required compiler targets that the list of installed targets does not mention, in
/// order: `x86_64-unknown-linux-musl`, `x86_64-unknown-none`.
pub open spec fn spec_targets_to_install(installed: Seq<char>) -> Seq<Seq<char>> {
    (if has_infix(installed, "x86_64-unknown-linux-musl"@) {
        Seq::empty()
    } else {
        seq!["x86_64-unknown-linux-musl"@]
    }) + (if has_infix(installed, "x86_64-unknown-none"@) {
        Seq::empty()
    } else {
        seq!["x86_64-unknown-none"@]
    })
}

/// The compiler targets to install.
pub fn targets_to_install(installed: &str) -> (r: Vec<String>)
    ensures
        views(r@) == spec_targets_to_install(installed@),
{
    let mut r: Vec<String> = Vec::new();
    if !contains(installed, "x86_64-unknown-linux-musl") {
        r.push(String::from_str("x86_64-unknown-linux-musl"));
    }
    if !contains(installed, "x86_64-unknown-none") {
        r.push(String::from_str("x86_64-unknown-none"));
    }
    assert(views(r@) =~= spec_targets_to_install(installed@));
    r
}

/// Where the Firecracker binary lies in the unpacked archive.
pub fn firecracker_archive_binary(extract_dir: &str) -> (r: String)
    ensures
        r@ == path_join(
            path_join(extract_dir@, "release-"@ + FIRECRACKER_VERSION@ + "-x86_64"@),
            "firecracker-"@ + FIRECRACKER_VERSION@ + "-x86_64"@,
        ),
{
    let release = crate::text::concat3("release-", FIRECRACKER_VERSION, "-x86_64");
    let dir = join_path(extract_dir, release.as_str());
    let name = crate::text::concat3("firecracker-", FIRECRACKER_VERSION, "-x86_64");
    join_path(dir.as_str(), name.as_str())
}

} // verus!
