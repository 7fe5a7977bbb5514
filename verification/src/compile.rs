//! The batched compiler invocation.
//!
//! All discovered units are compiled by one subprocess invocation.
//! The library computes the invocation's argument list and its
//! environment policy; the caller spawns the process, drains its two
//! output streams on independent concurrent readers, joins both, and
//! only then reads the exit status — a non-zero status is fatal for
//! the whole batch.

use vstd::prelude::*;

use crate::bytes::lit;
use crate::bytes::lit_bytes;
use crate::bytes::push_all;
use crate::bytes::sub_vec;
use crate::discover::BuildUnit;
use crate::discover::UnitModel;
use crate::discover::units_view;

verus! {

/// The package flag naming one unit to build.
pub open spec fn package_flag(name: Seq<u8>) -> Seq<u8> {
    lit("-p=") + name
}

/// The argument list of the batched invocation: the build command,
/// one package flag per unit in discovery order, the binary target
/// format, the build profile, the locked-dependencies flag, and the
/// shared workspace manifest path.
pub open spec fn args_spec(names: Seq<Seq<u8>>, manifest_path: Seq<u8>) -> Seq<Seq<u8>> {
    seq![lit("build")] + names.map(|i: int, n: Seq<u8>| package_flag(n)) + seq![
        lit("--target=wasm32-unknown-unknown"),
        lit("--profile=wasm"),
        lit("--locked"),
        lit("--manifest-path=") + manifest_path,
    ]
}

/// The names of a unit list, in order.
pub open spec fn names_of(us: Seq<UnitModel>) -> Seq<Seq<u8>> {
    us.map(|i: int, u: UnitModel| u.name)
}

/// Computes the argument list of the batched invocation: exactly
/// [`args_spec`] over the units' names in order.
pub fn compile_args(units: &Vec<BuildUnit>, manifest_path: &[u8]) -> (r: Vec<Vec<u8>>)
    ensures
        r.deep_view() == args_spec(names_of(units_view(units@)), manifest_path@),
{
    let ghost names = names_of(units_view(units@));
    let mut r: Vec<Vec<u8>> = Vec::new();
    r.push(lit_bytes("build"));
    proof {
        assert(r.deep_view() =~~= seq![lit("build")]);
    }
    let mut i: usize = 0;
    while i < units.len()
        invariant
            i <= units@.len(),
            names == names_of(units_view(units@)),
            r.deep_view() == seq![lit("build")] + names.take(i as int).map(
                |k: int, n: Seq<u8>| package_flag(n),
            ),
        decreases units@.len() - i,
    {
        let ghost pre = r.deep_view();
        let mut flag = lit_bytes("-p=");
        push_all(&mut flag, units[i].name.as_slice());
        proof {
            assert(units_view(units@)[i as int] == units@[i as int]@);
            assert(names[i as int] == units@[i as int]@.name);
            assert(flag@ == package_flag(names[i as int]));
        }
        r.push(flag);
        proof {
            assert(r.deep_view() =~~= pre.push(package_flag(names[i as int])));
            assert(names.take(i + 1).map(|k: int, n: Seq<u8>| package_flag(n)) =~= names.take(
                i as int,
            ).map(|k: int, n: Seq<u8>| package_flag(n)).push(package_flag(names[i as int])));
            assert(pre.push(package_flag(names[i as int])) =~= seq![lit("build")] + names.take(
                i + 1,
            ).map(|k: int, n: Seq<u8>| package_flag(n)));
        }
        i += 1;
    }
    proof {
        assert(names.take(names.len() as int) =~= names);
    }
    let ghost mid = r.deep_view();
    r.push(lit_bytes("--target=wasm32-unknown-unknown"));
    r.push(lit_bytes("--profile=wasm"));
    r.push(lit_bytes("--locked"));
    let mut manifest_flag = lit_bytes("--manifest-path=");
    push_all(&mut manifest_flag, manifest_path);
    r.push(manifest_flag);
    proof {
        assert(r.deep_view() =~~= mid + seq![
            lit("--target=wasm32-unknown-unknown"),
            lit("--profile=wasm"),
            lit("--locked"),
            lit("--manifest-path=") + manifest_path@,
        ]);
        assert(mid + seq![
            lit("--target=wasm32-unknown-unknown"),
            lit("--profile=wasm"),
            lit("--locked"),
            lit("--manifest-path=") + manifest_path@,
        ] =~= args_spec(names, manifest_path@));
    }
    r
}

/// The environment policy of the invocation.
pub struct CompileEnv {
    /// Variables set for the subprocess: the build outputs are routed
    /// to an isolated output directory scoped to this run.
    pub set_vars: Vec<(Vec<u8>, Vec<u8>)>,
    /// Variables stripped before the invocation: the inherited
    /// code-generation-flag variable would override the flags this
    /// pipeline configures.
    pub unset_vars: Vec<Vec<u8>>,
}

/// Computes the environment policy: route the build outputs to
/// `out_dir`, and strip the inherited code-generation-flag variable.
pub fn compile_env(out_dir: &[u8]) -> (r: CompileEnv)
    ensures
        r.set_vars@.len() == 1,
        r.set_vars@[0].0@ == lit("CARGO_TARGET_DIR"),
        r.set_vars@[0].1@ == out_dir@,
        r.unset_vars@.len() == 1,
        r.unset_vars@[0]@ == lit("CARGO_ENCODED_RUSTFLAGS"),
{
    let mut set_vars: Vec<(Vec<u8>, Vec<u8>)> = Vec::new();
    set_vars.push((lit_bytes("CARGO_TARGET_DIR"), sub_vec(out_dir, 0, out_dir.len())));
    let mut unset_vars: Vec<Vec<u8>> = Vec::new();
    unset_vars.push(lit_bytes("CARGO_ENCODED_RUSTFLAGS"));
    proof {
        assert(out_dir@.subrange(0, out_dir@.len() as int) =~= out_dir@);
    }
    CompileEnv { set_vars, unset_vars }
}

} // verus!
