use vstd::prelude::*;
use crate::errors::EntryError;
use crate::queue::missing_names;
use crate::text::{bytes_eq, subvec};

verus! {

/// A command-line word is a flag when it begins with `-`; every other word
/// names a package to install.
pub open spec fn is_flag_word(w: Seq<u8>) -> bool {
    w.len() > 0 && w[0] == 45
}

/// The flag words of an invocation, in order.
pub open spec fn flag_words(args: Seq<Seq<u8>>) -> Seq<Seq<u8>>
    decreases args.len(),
{
    if args.len() == 0 {
        Seq::empty()
    } else if is_flag_word(args[0]) {
        seq![args[0]] + flag_words(args.drop_first())
    } else {
        flag_words(args.drop_first())
    }
}

/// The package words of an invocation, in order.
pub open spec fn package_words(args: Seq<Seq<u8>>) -> Seq<Seq<u8>>
    decreases args.len(),
{
    if args.len() == 0 {
        Seq::empty()
    } else if is_flag_word(args[0]) {
        package_words(args.drop_first())
    } else {
        seq![args[0]] + package_words(args.drop_first())
    }
}

pub proof fn lemma_words_append(a: Seq<Seq<u8>>, b: Seq<Seq<u8>>)
    ensures
        flag_words(a + b) == flag_words(a) + flag_words(b),
        package_words(a + b) == package_words(a) + package_words(b),
    decreases a.len(),
{
    if a.len() == 0 {
        assert(a + b =~= b);
        assert(flag_words(a) + flag_words(b) =~= flag_words(b));
        assert(package_words(a) + package_words(b) =~= package_words(b));
    } else {
        assert((a + b).drop_first() =~= a.drop_first() + b);
        lemma_words_append(a.drop_first(), b);
        assert(flag_words(a + b) =~= flag_words(a) + flag_words(b));
        assert(package_words(a + b) =~= package_words(a) + package_words(b));
    }
}

/// Whether some word of `ws` is exactly `w`.
pub open spec fn has_word(ws: Seq<Seq<u8>>, w: Seq<u8>) -> bool {
    exists|k: int| 0 <= k < ws.len() && #[trigger] ws[k] == w
}

pub fn has_word_vec(ws: &Vec<Vec<u8>>, w: &Vec<u8>) -> (r: bool)
    ensures
        r == has_word(ws@.map_values(|x: Vec<u8>| x@), w@),
{
    let ghost wv = ws@.map_values(|x: Vec<u8>| x@);
    let mut k: usize = 0;
    while k < ws.len()
        invariant
            k <= ws@.len(),
            wv == ws@.map_values(|x: Vec<u8>| x@),
            forall|j: int| 0 <= j < k ==> #[trigger] wv[j] != w@,
        decreases ws@.len() - k,
    {
        if bytes_eq(&ws[k], w) {
            proof {
                assert(wv[k as int] == w@);
            }
            return true;
        }
        k += 1;
    }
    false
}

/// The bytes of `-s`, the short spelling of skip-unavailable.
pub open spec fn skip_short() -> Seq<u8> {
    seq![45u8, 115]
}

/// The bytes of `--skip`.
pub open spec fn skip_long() -> Seq<u8> {
    seq![45u8, 45, 115, 107, 105, 112]
}

/// The bytes of `-y`, the short spelling of no-confirm.
pub open spec fn no_confirm_short() -> Seq<u8> {
    seq![45u8, 121]
}

/// The bytes of `--no-confirm`.
pub open spec fn no_confirm_long() -> Seq<u8> {
    seq![45u8, 45, 110, 111, 45, 99, 111, 110, 102, 105, 114, 109]
}

/// Whether the invocation asks to skip unavailable packages.
pub open spec fn skip_requested(args: Seq<Seq<u8>>) -> bool {
    has_word(args, skip_short()) || has_word(args, skip_long())
}

/// Whether the invocation asks to install without confirming.
pub open spec fn no_confirm_requested(args: Seq<Seq<u8>>) -> bool {
    has_word(args, no_confirm_short()) || has_word(args, no_confirm_long())
}

/// An install invocation as parsed from its argument words: the requested
/// package names, and the two recognized flags.
pub struct InstallRequest {
    pub packages: Vec<Vec<u8>>,
    pub skip_unavailable: bool,
    pub no_confirm: bool,
}

/// Separates flags from package names and reads the recognized flags.
pub fn parse_install_args(args: &Vec<Vec<u8>>) -> (r: InstallRequest)
    ensures
        r.packages@.map_values(|x: Vec<u8>| x@) == package_words(
            args@.map_values(|x: Vec<u8>| x@),
        ),
        r.skip_unavailable == skip_requested(args@.map_values(|x: Vec<u8>| x@)),
        r.no_confirm == no_confirm_requested(args@.map_values(|x: Vec<u8>| x@)),
{
    let ghost av = args@.map_values(|x: Vec<u8>| x@);
    let mut packages: Vec<Vec<u8>> = Vec::new();
    let mut k: usize = 0;
    proof {
        assert(av.take(0) =~= Seq::<Seq<u8>>::empty());
        assert(packages@.map_values(|x: Vec<u8>| x@) =~= package_words(av.take(0)));
    }
    while k < args.len()
        invariant
            k <= args@.len(),
            av == args@.map_values(|x: Vec<u8>| x@),
            packages@.map_values(|x: Vec<u8>| x@) == package_words(av.take(k as int)),
        decreases args@.len() - k,
    {
        proof {
            let w = av[k as int];
            assert(args@[k as int]@ == w);
            assert(av.take(k + 1) =~= av.take(k as int) + seq![w]);
            lemma_words_append(av.take(k as int), seq![w]);
            assert(seq![w].drop_first() =~= Seq::<Seq<u8>>::empty());
            assert(package_words(Seq::<Seq<u8>>::empty()) == Seq::<Seq<u8>>::empty());
        }
        let is_flag = args[k].len() > 0 && args[k][0] == 45;
        if !is_flag {
            let word = subvec(&args[k], 0, args[k].len());
            proof {
                let w = av[k as int];
                assert(word@ =~= w);
                assert(package_words(seq![w]) =~= seq![w]);
                assert((packages@.push(word)).map_values(|x: Vec<u8>| x@) =~= packages@.map_values(
                    |x: Vec<u8>| x@,
                ).push(word@));
                assert(package_words(av.take(k as int)) + seq![w] =~= package_words(
                    av.take(k as int),
                ).push(w));
            }
            packages.push(word);
        } else {
            proof {
                let w = av[k as int];
                assert(package_words(seq![w]) =~= Seq::<Seq<u8>>::empty());
                assert(package_words(av.take(k as int)) + Seq::<Seq<u8>>::empty() =~= package_words(
                    av.take(k as int),
                ));
            }
        }
        k += 1;
    }
    proof {
        assert(av.take(args@.len() as int) =~= av);
    }
    let mut w: Vec<u8> = Vec::new();
    crate::text::push_slice(&mut w, &[45u8, 115]);
    proof {
        assert(w@ =~= skip_short());
    }
    let skip1 = has_word_vec(args, &w);
    let mut w2: Vec<u8> = Vec::new();
    crate::text::push_slice(&mut w2, &[45u8, 45, 115, 107, 105, 112]);
    proof {
        assert(w2@ =~= skip_long());
    }
    let skip2 = has_word_vec(args, &w2);
    let mut w3: Vec<u8> = Vec::new();
    crate::text::push_slice(&mut w3, &[45u8, 121]);
    proof {
        assert(w3@ =~= no_confirm_short());
    }
    let confirm1 = has_word_vec(args, &w3);
    let mut w4: Vec<u8> = Vec::new();
    crate::text::push_slice(&mut w4, &[45u8, 45, 110, 111, 45, 99, 111, 110, 102, 105, 114, 109]);
    proof {
        assert(w4@ =~= no_confirm_long());
    }
    let confirm2 = has_word_vec(args, &w4);
    InstallRequest {
        packages,
        skip_unavailable: skip1 || skip2,
        no_confirm: confirm1 || confirm2,
    }
}

/// Whether every worker finished without error.
pub open spec fn all_ok(results: Seq<Result<(), EntryError>>) -> bool {
    forall|k: int| 0 <= k < results.len() ==> results[k] is Ok
}

/// What the result aggregator decides after joining every worker.
pub struct BatchOutcome {
    pub success: bool,
    pub wipe_staging: bool,
}

/// Joins the workers' terminal results. The staging area is wiped whichever
/// way the batch went — archives are transient, and a single failure
/// deliberately discards the whole batch's extraction progress — and the
/// batch reports success exactly when no worker failed.
pub fn aggregate(results: &Vec<Result<(), EntryError>>) -> (r: BatchOutcome)
    ensures
        r.success == all_ok(results@),
        r.wipe_staging,
{
    let mut ok = true;
    let mut k: usize = 0;
    while k < results.len()
        invariant
            k <= results@.len(),
            ok == (forall|j: int| 0 <= j < k ==> results@[j] is Ok),
        decreases results@.len() - k,
    {
        let entry_ok = match &results[k] {
            Ok(_) => true,
            Err(_) => false,
        };
        ok = ok && entry_ok;
        k += 1;
    }
    BatchOutcome { success: ok, wipe_staging: true }
}

/// The aggregate verdict of one install invocation: refused at resolution
/// when requested names are missing and skipping was not asked for, and
/// otherwise completed or failed according to the workers' per-entry
/// results.
#[derive(Debug, Clone, Copy, PartialEq, Eq, Structural)]
pub enum InstallVerdict {
    Refused,
    Completed,
    Failed,
}

pub open spec fn install_verdict(
    index: Seq<(Seq<u8>, Seq<u8>)>,
    requested: Seq<Seq<u8>>,
    skip_unavailable: bool,
    results: Seq<Result<(), EntryError>>,
) -> InstallVerdict {
    if !skip_unavailable && missing_names(index, requested).len() > 0 {
        InstallVerdict::Refused
    } else if all_ok(results) {
        InstallVerdict::Completed
    } else {
        InstallVerdict::Failed
    }
}

/// Idempotent re-run: a second `install` of the same request against the
/// same index, whose workers report the same per-entry results, reaches the
/// same aggregate verdict as the first run.
pub proof fn lemma_rerun_same_verdict(
    index: Seq<(Seq<u8>, Seq<u8>)>,
    requested: Seq<Seq<u8>>,
    skip_unavailable: bool,
    first: Seq<Result<(), EntryError>>,
    second: Seq<Result<(), EntryError>>,
)
    requires
        first == second,
    ensures
        install_verdict(index, requested, skip_unavailable, first) == install_verdict(
            index,
            requested,
            skip_unavailable,
            second,
        ),
{
}

} // verus!
