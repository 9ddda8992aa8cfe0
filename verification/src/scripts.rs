use vstd::prelude::*;
use crate::archive::ArchiveEntry;
use crate::text::{bytes_eq, push_all, push_slice, subvec};

verus! {

/// The bytes of `uwupm-install.sh`, the well-known install script name at the
/// root of an unpacked package.
pub open spec fn install_script_name() -> Seq<u8> {
    seq![117u8, 119, 117, 112, 109, 45, 105, 110, 115, 116, 97, 108, 108, 46, 115, 104]
}

pub fn install_script_file_name() -> (r: Vec<u8>)
    ensures
        r@ == install_script_name(),
{
    let mut r: Vec<u8> = Vec::new();
    push_slice(
        &mut r,
        &[117u8, 119, 117, 112, 109, 45, 105, 110, 115, 116, 97, 108, 108, 46, 115, 104],
    );
    proof {
        assert(r@ =~= install_script_name());
    }
    r
}

/// The bytes of `uwupm-uninstall.sh`, the well-known uninstall script name.
pub open spec fn uninstall_script_name() -> Seq<u8> {
    seq![117u8, 119, 117, 112, 109, 45, 117, 110, 105, 110, 115, 116, 97, 108, 108, 46, 115, 104]
}

pub fn uninstall_script_file_name() -> (r: Vec<u8>)
    ensures
        r@ == uninstall_script_name(),
{
    let mut r: Vec<u8> = Vec::new();
    push_slice(
        &mut r,
        &[
            117u8, 119, 117, 112, 109, 45, 117, 110, 105, 110, 115, 116, 97, 108, 108, 46, 115,
            104,
        ],
    );
    proof {
        assert(r@ =~= uninstall_script_name());
    }
    r
}

/// The file a package's uninstall script is preserved under in the uninstall
/// registry: `<name>-uninstall.sh`.
pub open spec fn registry_script_name(name: Seq<u8>) -> Seq<u8> {
    name + seq![45u8, 117, 110, 105, 110, 115, 116, 97, 108, 108, 46, 115, 104]
}

pub fn registry_script_file_name(name: &Vec<u8>) -> (r: Vec<u8>)
    ensures
        r@ == registry_script_name(name@),
{
    let mut r = subvec(name, 0, name.len());
    push_slice(&mut r, &[45u8, 117, 110, 105, 110, 115, 116, 97, 108, 108, 46, 115, 104]);
    proof {
        assert(r@ =~= registry_script_name(name@));
    }
    r
}

/// Whether an archive entry path names `name` at the root of the unpacked
/// tree: the path is the name itself, or `./` followed by it.
pub open spec fn is_script_entry(path: Seq<u8>, name: Seq<u8>) -> bool {
    path == name || path == seq![46u8, 47] + name
}

/// Whether the extracted tree holds the script `name` at its root.
pub open spec fn has_script(entries: Seq<(Seq<u8>, Seq<u8>)>, name: Seq<u8>) -> bool {
    exists|k: int| 0 <= k < entries.len() && is_script_entry(#[trigger] entries[k].0, name)
}

pub fn has_script_vec(entries: &Vec<ArchiveEntry>, name: &Vec<u8>) -> (r: bool)
    ensures
        r == has_script(entries@.map_values(|e: ArchiveEntry| e@), name@),
{
    let ghost ev = entries@.map_values(|e: ArchiveEntry| e@);
    let mut dotted: Vec<u8> = Vec::new();
    push_slice(&mut dotted, &[46u8, 47]);
    push_all(&mut dotted, name);
    proof {
        assert(dotted@ =~= seq![46u8, 47] + name@);
    }
    let mut k: usize = 0;
    while k < entries.len()
        invariant
            k <= entries@.len(),
            ev == entries@.map_values(|e: ArchiveEntry| e@),
            dotted@ == seq![46u8, 47] + name@,
            forall|j: int| 0 <= j < k ==> !is_script_entry(#[trigger] ev[j].0, name@),
        decreases entries@.len() - k,
    {
        if bytes_eq(&entries[k].path, name) || bytes_eq(&entries[k].path, &dotted) {
            proof {
                assert(ev[k as int].0 == entries@[k as int].path@);
                assert(is_script_entry(ev[k as int].0, name@));
            }
            return true;
        }
        proof {
            assert(ev[k as int].0 == entries@[k as int].path@);
        }
        k += 1;
    }
    false
}

/// Terminal state of the per-package script lifecycle: with both well-known
/// scripts present the install script is run and the uninstall script is
/// registered; with either missing the package stays installed on disk but
/// unregistered, and manual intervention is reported as a warning.
#[derive(Debug, Clone, Copy, PartialEq, Eq, Structural)]
pub enum ScriptOutcome {
    Registered,
    ManualInterventionRequired,
}

/// The lifecycle outcome is decided by the joint presence of the two scripts
/// and by nothing else.
pub open spec fn lifecycle_outcome(has_install: bool, has_uninstall: bool) -> ScriptOutcome {
    if has_install && has_uninstall {
        ScriptOutcome::Registered
    } else {
        ScriptOutcome::ManualInterventionRequired
    }
}

/// Decides a package's terminal script state from the presence of the two
/// well-known scripts; the caller runs the install script and relocates the
/// uninstall script exactly when the outcome is `Registered`.
pub fn finalize_install(has_install: bool, has_uninstall: bool) -> (r: ScriptOutcome)
    ensures
        r == lifecycle_outcome(has_install, has_uninstall),
{
    if has_install && has_uninstall {
        ScriptOutcome::Registered
    } else {
        ScriptOutcome::ManualInterventionRequired
    }
}

/// The terminal script state of an extracted package tree.
pub fn package_outcome(entries: &Vec<ArchiveEntry>) -> (r: ScriptOutcome)
    ensures
        r == lifecycle_outcome(
            has_script(entries@.map_values(|e: ArchiveEntry| e@), install_script_name()),
            has_script(entries@.map_values(|e: ArchiveEntry| e@), uninstall_script_name()),
        ),
{
    let install_name = install_script_file_name();
    let uninstall_name = uninstall_script_file_name();
    let has_install = has_script_vec(entries, &install_name);
    let has_uninstall = has_script_vec(entries, &uninstall_name);
    finalize_install(has_install, has_uninstall)
}

impl ScriptOutcome {
    /// The stable code of the manual-intervention warning; a registered
    /// package warns of nothing.
    pub fn warning_code(&self) -> (c: Option<&'static str>)
        ensures
            c matches Some(s) ==> s@ == "FS011"@ && *self is ManualInterventionRequired,
            c is None ==> *self is Registered,
    {
        match self {
            ScriptOutcome::Registered => None,
            ScriptOutcome::ManualInterventionRequired => Some("FS011"),
        }
    }
}

} // verus!
