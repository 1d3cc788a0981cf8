//! The compliance result of one resolved repository snapshot, assembled
//! from its variant directories, the compliant-variant matrix and the
//! per-binary policy results.

use crate::error::CompliantError;
use crate::matrix::{count_in, covers, select, summary_text, get_build_status_summary, CompliantMatrix, CudaStatus, RocmStatus};
use crate::report::{
    all_passed, check_abi_for_repository, failing_texts, messages, variant_verdict, AbiCheckResult,
    VariantResult, VariantScan,
};
use crate::text::views;
use crate::variant::{join_fields, parse_name, Variant};
use crate::version::Version;
use vstd::prelude::*;
use vstd::string::*;

verus! {

/// The canonical names of the directory names that parse as variants, in
/// order.
pub open spec fn variant_names_of(dir_names: Seq<Seq<char>>) -> Seq<Seq<char>>
    decreases dir_names.len(),
{
    if dir_names.len() == 0 {
        Seq::empty()
    } else {
        let p = variant_names_of(dir_names.drop_last());
        match parse_name(dir_names.last()) {
            Some(f) => p.push(join_fields(f)),
            None => p,
        }
    }
}

/// The names of the scanned variant directories.
pub open spec fn scan_names(scans: Seq<VariantScan>) -> Seq<Seq<char>> {
    scans.map_values(|s: VariantScan| s.name@)
}

/// The canonical names of the variant directories whose names parse as
/// variants; the others are passed over.
pub fn get_build_variants(dir_names: &Vec<String>) -> (r: Vec<String>)
    ensures
        views(r@) == variant_names_of(views(dir_names@)),
{
    let mut out: Vec<String> = Vec::new();
    let mut i: usize = 0;
    proof {
        assert(views(dir_names@).take(0) =~= Seq::<Seq<char>>::empty());
        assert(views(out@) =~= Seq::<Seq<char>>::empty());
    }
    while i < dir_names.len()
        invariant
            i <= dir_names@.len(),
            views(out@) == variant_names_of(views(dir_names@).take(i as int)),
        decreases dir_names@.len() - i,
    {
        proof {
            assert(views(dir_names@).take(i + 1).drop_last() =~= views(dir_names@).take(i as int));
            assert(views(dir_names@).take(i + 1).last() == dir_names@[i as int]@);
        }
        match Variant::from_name(dir_names[i].as_str()) {
            Some(v) => {
                let ghost before = views(out@);
                let name = v.to_string();
                out.push(name);
                proof {
                    assert(views(out@) =~= before.push(name@));
                }
            },
            None => {},
        }
        i = i + 1;
    }
    proof {
        assert(views(dir_names@).take(dir_names@.len() as int) =~= views(dir_names@));
    }
    out
}

/// The build side of a repository's result.
#[derive(Debug, Clone)]
pub struct BuildStatus {
    pub summary: String,
    pub cuda: CudaStatus,
    pub rocm: Option<RocmStatus>,
}

/// One variant's verdict as it is reported.
#[derive(Debug, Clone)]
pub struct VariantCheckOutput {
    pub name: String,
    pub compatible: bool,
    pub has_shared_objects: bool,
    pub violations: Vec<String>,
}

/// The ABI side of a repository's result.
#[derive(Debug, Clone)]
pub struct AbiStatus {
    pub compatible: bool,
    pub manylinux_version: String,
    pub python_abi_version: String,
    pub variants: Vec<VariantCheckOutput>,
}

/// The result of a repository whose snapshot was checked.
#[derive(Debug, Clone)]
pub struct RepositoryCheckResult {
    pub repository: String,
    pub status: String,
    pub build_status: BuildStatus,
    pub abi_status: AbiStatus,
}

/// The reported form of a variant's verdict.
pub fn variant_output(v: &VariantResult) -> (r: VariantCheckOutput)
    ensures
        r.name@ == v.name@,
        r.compatible == v.is_compatible,
        r.has_shared_objects == v.has_shared_objects,
        views(r.violations@) == messages(v.violations@),
{
    let mut violations: Vec<String> = Vec::new();
    let mut i: usize = 0;
    while i < v.violations.len()
        invariant
            i <= v.violations@.len(),
            views(violations@) == messages(v.violations@).take(i as int),
        decreases v.violations@.len() - i,
    {
        let ghost before = views(violations@);
        let m = v.violations[i].message.clone();
        violations.push(m);
        proof {
            assert(views(violations@) =~= before.push(m@));
            assert(messages(v.violations@).take(i + 1) =~= messages(v.violations@).take(
                i as int,
            ).push(v.violations@[i as int].message@));
        }
        i = i + 1;
    }
    proof {
        assert(messages(v.violations@).take(v.violations@.len() as int) =~= messages(
            v.violations@,
        ));
    }
    VariantCheckOutput {
        name: v.name.clone(),
        compatible: v.is_compatible,
        has_shared_objects: v.has_shared_objects,
        violations,
    }
}

/// The reported form of a repository's ABI verdict.
pub fn abi_status(abi: &AbiCheckResult) -> (r: AbiStatus)
    ensures
        r.compatible == abi.overall_compatible,
        r.manylinux_version@ == abi.manylinux_version@,
        r.python_abi_version@ == abi.python_abi_version.text(),
        r.variants@.len() == abi.variants@.len(),
        forall|i: int|
            0 <= i < abi.variants@.len() ==> {
                &&& (#[trigger] r.variants@[i]).name@ == abi.variants@[i].name@
                &&& r.variants@[i].compatible == abi.variants@[i].is_compatible
                &&& r.variants@[i].has_shared_objects == abi.variants@[i].has_shared_objects
                &&& views(r.variants@[i].violations@) == messages(abi.variants@[i].violations@)
            },
{
    let mut variants: Vec<VariantCheckOutput> = Vec::new();
    let mut i: usize = 0;
    while i < abi.variants.len()
        invariant
            i <= abi.variants@.len(),
            variants@.len() == i,
            forall|k: int|
                0 <= k < i ==> {
                    &&& (#[trigger] variants@[k]).name@ == abi.variants@[k].name@
                    &&& variants@[k].compatible == abi.variants@[k].is_compatible
                    &&& variants@[k].has_shared_objects == abi.variants@[k].has_shared_objects
                    &&& views(variants@[k].violations@) == messages(abi.variants@[k].violations@)
                },
        decreases abi.variants@.len() - i,
    {
        let out = variant_output(&abi.variants[i]);
        variants.push(out);
        i = i + 1;
    }
    AbiStatus {
        compatible: abi.overall_compatible,
        manylinux_version: abi.manylinux_version.clone(),
        python_abi_version: abi.python_abi_version.to_string(),
        variants,
    }
}

/// Checks a resolved snapshot. A snapshot without a build directory is
/// refused with `BuildDirNotFound`. Otherwise the variant directories' names
/// that parse as variants are compared with the compliant-variant matrix,
/// those whose canonical name is a directory name are counted in the build
/// summary, and every variant directory gets an
/// ABI verdict from its scanned shared objects.
pub fn process_repository_snapshot(
    repo_id: &str,
    build_dir_exists: bool,
    scans: &Vec<VariantScan>,
    matrix: &CompliantMatrix,
    manylinux: &str,
    python_version: Version,
    show_violations: bool,
) -> (r: Result<RepositoryCheckResult, CompliantError>)
    ensures
        r is Err <==> !build_dir_exists,
        r matches Err(e) ==> e matches CompliantError::BuildDirNotFound(m) && m@ == repo_id@,
        r matches Ok(res) ==> {
            let names = variant_names_of(scan_names(scans@));
            &&& res.repository@ == repo_id@
            &&& res.status@ == "success"@
            &&& res.build_status.summary@ == summary_text(
                select(names, scan_names(scans@), true).len(),
                count_in(select(names, scan_names(scans@), true), views(matrix.cuda@)),
                count_in(select(names, scan_names(scans@), true), views(matrix.rocm@)),
                matrix.rocm_enabled,
            )
            &&& res.build_status.cuda.compatible == covers(names, views(matrix.cuda@))
            &&& views(res.build_status.cuda.present@) == select(views(matrix.cuda@), names, true)
            &&& views(res.build_status.cuda.missing@) == select(views(matrix.cuda@), names, false)
            &&& (res.build_status.rocm is None <==> !matrix.rocm_enabled)
            &&& (res.build_status.rocm matches Some(s) ==> {
                &&& s.compatible == covers(names, views(matrix.rocm@))
                &&& views(s.present@) == select(views(matrix.rocm@), names, true)
                &&& views(s.missing@) == select(views(matrix.rocm@), names, false)
            })
            &&& res.abi_status.compatible == forall|i: int|
                0 <= i < scans@.len() ==> all_passed(#[trigger] scans@[i].objects@)
            &&& res.abi_status.manylinux_version@ == manylinux@
            &&& res.abi_status.python_abi_version@ == python_version.text()
            &&& res.abi_status.variants@.len() == scans@.len()
            &&& forall|i: int|
                0 <= i < scans@.len() ==> {
                    &&& (#[trigger] res.abi_status.variants@[i]).name@ == scans@[i].name@
                    &&& res.abi_status.variants@[i].compatible == all_passed(scans@[i].objects@)
                    &&& res.abi_status.variants@[i].has_shared_objects == (
                    scans@[i].objects@.len() > 0)
                    &&& views(res.abi_status.variants@[i].violations@) == if show_violations {
                        failing_texts(scans@[i].objects@)
                    } else {
                        Seq::empty()
                    }
                }
        },
{
    if !build_dir_exists {
        return Err(CompliantError::BuildDirNotFound(String::from_str(repo_id)));
    }
    let mut dir_names: Vec<String> = Vec::new();
    let mut i: usize = 0;
    while i < scans.len()
        invariant
            i <= scans@.len(),
            views(dir_names@) == scan_names(scans@).take(i as int),
        decreases scans@.len() - i,
    {
        let ghost before = views(dir_names@);
        let n = scans[i].name.clone();
        dir_names.push(n);
        proof {
            assert(views(dir_names@) =~= before.push(n@));
            assert(scan_names(scans@).take(i + 1) =~= scan_names(scans@).take(i as int).push(
                scans@[i as int].name@,
            ));
        }
        i = i + 1;
    }
    proof {
        assert(scan_names(scans@).take(scans@.len() as int) =~= scan_names(scans@));
    }
    let variant_strings = get_build_variants(&dir_names);
    let summary = get_build_status_summary(
        &dir_names,
        &variant_strings,
        &matrix.cuda,
        &matrix.rocm,
        matrix.rocm_enabled,
    );
    let cuda = matrix.cuda_status(&variant_strings);
    let rocm = matrix.rocm_status(&variant_strings);
    let abi = check_abi_for_repository(scans, manylinux, python_version, show_violations);
    let status = abi_status(&abi);
    proof {
        assert forall|i: int| 0 <= i < scans@.len() implies abi.variants@[i].is_compatible
            == all_passed(#[trigger] scans@[i].objects@) by {
            assert(variant_verdict(scans@[i], show_violations, abi.variants@[i]));
        }
        assert forall|i: int| 0 <= i < scans@.len() implies messages(
            #[trigger] abi.variants@[i].violations@,
        ) == if show_violations {
            failing_texts(scans@[i].objects@)
        } else {
            Seq::empty()
        } by {
            assert(variant_verdict(scans@[i], show_violations, abi.variants@[i]));
        }
        assert(abi.overall_compatible == forall|i: int|
            0 <= i < scans@.len() ==> all_passed(#[trigger] scans@[i].objects@)) by {
            if abi.overall_compatible {
                assert forall|i: int| 0 <= i < scans@.len() implies all_passed(
                    #[trigger] scans@[i].objects@,
                ) by {
                    assert(abi.variants@[i].is_compatible);
                }
            } else {
                let k = choose|k: int|
                    0 <= k < abi.variants@.len() && !(#[trigger] abi.variants@[k]).is_compatible;
                assert(!all_passed(scans@[k].objects@));
            }
        }
    }
    Ok(
        RepositoryCheckResult {
            repository: String::from_str(repo_id),
            status: String::from_str("success"),
            build_status: BuildStatus { summary, cuda, rocm },
            abi_status: status,
        },
    )
}

} // verus!
