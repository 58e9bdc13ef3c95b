//! Resolving the install directory and recognising an installed invocation.
use vstd::prelude::*;
use vstd::slice::slice_to_vec;
use vstd::string::StringSliceAdditionalSpecFns;
use crate::ascii::eq_ci;
use crate::ascii::eq_ignore_case;
use crate::errors::Error;
use crate::segments::split;
use crate::segments::split_bytes;

verus! {

/// The separator between components of a filesystem path.
pub const SEPARATOR: u8 = 92;

/// The tail the install directory appends below the user data root.
pub open spec fn install_subdir() -> Seq<u8> {
    seq![SEPARATOR] + "Programs".spec_bytes() + seq![SEPARATOR] + "lcli".spec_bytes()
}

/// `dir \ name`.
pub fn path_join(dir: &[u8], name: &[u8]) -> (r: Vec<u8>)
    ensures
        r@ == dir@ + seq![SEPARATOR] + name@,
{
    let mut out = slice_to_vec(dir);
    out.push(SEPARATOR);
    out.extend_from_slice(name);
    proof {
        assert(out@ =~= dir@ + seq![SEPARATOR] + name@);
    }
    out
}

/// The install directory below a given user data root.
pub fn install_dir_from_root(root: &[u8]) -> (r: Vec<u8>)
    ensures
        r@ == root@ + install_subdir(),
{
    let mut out = slice_to_vec(root);
    out.push(SEPARATOR);
    out.extend_from_slice("Programs".as_bytes());
    out.push(SEPARATOR);
    out.extend_from_slice("lcli".as_bytes());
    proof {
        assert(out@ =~= root@ + install_subdir());
    }
    out
}

/// Relies on dirs::data_local_dir: the per-user local data directory, if the
/// host can determine one. The result depends on the environment alone, so
/// nothing is promised of it.
#[verifier::external_body]
fn user_data_root() -> (r: Option<Vec<u8>>) {
    dirs::data_local_dir()
        .and_then(|p| p.into_os_string().into_string().ok())
        .map(|s| s.into_bytes())
}

/// Resolve the install directory: the user data root, with the fixed tail
/// below it. Fails with `Error::Configuration` exactly when the host gives
/// no root.
pub fn resolve_install_dir() -> (r: Result<Vec<u8>, Error>)
    ensures
        r matches Ok(p) ==> exists|root: Seq<u8>| p@ == root + install_subdir(),
        r matches Err(e) ==> e == Error::Configuration,
{
    match user_data_root() {
        None => Err(Error::Configuration),
        Some(root) => {
            let p = install_dir_from_root(root.as_slice());
            proof {
                assert(p@ == root@ + install_subdir());
            }
            Ok(p)
        },
    }
}

/// Is the running executable inside the install directory? True iff the
/// components of `install_dir` are a prefix of the components of `exe_path`,
/// compared case-insensitively; a sibling directory whose name merely shares
/// a string prefix does not match.
pub open spec fn spec_is_running_from(exe_path: Seq<u8>, install_dir: Seq<u8>) -> bool {
    let e = split(exe_path, SEPARATOR);
    let d = split(install_dir, SEPARATOR);
    d.len() <= e.len() && (forall|i: int| 0 <= i < d.len() ==> eq_ci(d[i], e[i]))
}

/// Decide whether the current executable runs from the install directory.
pub fn is_running_from_install_dir(exe_path: &[u8], install_dir: &[u8]) -> (r: bool)
    ensures
        r == spec_is_running_from(exe_path@, install_dir@),
{
    let e = split_bytes(exe_path, SEPARATOR);
    let d = split_bytes(install_dir, SEPARATOR);
    let ghost ev = e.deep_view();
    let ghost dvv = d.deep_view();
    if d.len() > e.len() {
        return false;
    }
    let mut i: usize = 0;
    while i < d.len()
        invariant
            i <= d@.len(),
            ev == e.deep_view(),
            dvv == d.deep_view(),
            ev == split(exe_path@, SEPARATOR),
            dvv == split(install_dir@, SEPARATOR),
            ev.len() == e@.len(),
            dvv.len() == d@.len(),
            dvv.len() <= ev.len(),
            forall|j: int| 0 <= j < i ==> eq_ci(dvv[j], ev[j]),
        decreases d@.len() - i,
    {
        proof {
            assert(dvv[i as int] == d@[i as int].deep_view());
            assert(d@[i as int].deep_view() =~= d@[i as int]@);
            assert(ev[i as int] == e@[i as int].deep_view());
            assert(e@[i as int].deep_view() =~= e@[i as int]@);
        }
        if !eq_ignore_case(d[i].as_slice(), e[i].as_slice()) {
            return false;
        }
        i += 1;
    }
    true
}

} // verus!
