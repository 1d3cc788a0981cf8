//! Aggregation of per-binary policy results into per-variant and overall
//! compatibility verdicts.

use crate::version::Version;
use vstd::prelude::*;
use vstd::string::*;

verus! {

/// What the ABI policy checks found in one shared object, each violation
/// rendered as text.
#[derive(Debug, Clone)]
pub struct ObjectCheck {
    pub manylinux_violations: Vec<String>,
    pub python_abi_violations: Vec<String>,
}

impl ObjectCheck {
    /// Neither policy found a violation.
    pub open spec fn passed(&self) -> bool {
        self.manylinux_violations@.len() == 0 && self.python_abi_violations@.len() == 0
    }
}

/// The shared objects found in one variant directory, with their checks.
#[derive(Debug, Clone)]
pub struct VariantScan {
    /// The directory's name.
    pub name: String,
    pub objects: Vec<ObjectCheck>,
}

/// The kept detail of one failing shared object.
#[derive(Debug, Clone)]
pub struct SharedObjectViolation {
    pub message: String,
}

/// The verdict on one variant directory.
#[derive(Debug, Clone)]
pub struct VariantResult {
    pub name: String,
    pub is_compatible: bool,
    pub violations: Vec<SharedObjectViolation>,
    pub has_shared_objects: bool,
}

/// The verdict on all variant directories of a repository.
#[derive(Debug, Clone)]
pub struct AbiCheckResult {
    pub overall_compatible: bool,
    pub variants: Vec<VariantResult>,
    pub manylinux_version: String,
    pub python_abi_version: Version,
}

/// One line per violation, each introduced by `    - `.
pub open spec fn bullet_lines(items: Seq<String>) -> Seq<char>
    decreases items.len(),
{
    if items.len() == 0 {
        Seq::empty()
    } else {
        bullet_lines(items.drop_last()) + "    - "@ + items.last()@ + "\n"@
    }
}

/// The violation report of one shared object: a section for each policy
/// that found something.
pub open spec fn violation_text(c: ObjectCheck) -> Seq<char> {
    (if c.manylinux_violations@.len() > 0 {
        "\n  manylinux violations:\n"@ + bullet_lines(c.manylinux_violations@)
    } else {
        Seq::empty()
    }) + (if c.python_abi_violations@.len() > 0 {
        "\n  python abi violations:\n"@ + bullet_lines(c.python_abi_violations@)
    } else {
        Seq::empty()
    })
}

/// The reports of the failing objects, in order.
pub open spec fn failing_texts(objs: Seq<ObjectCheck>) -> Seq<Seq<char>>
    decreases objs.len(),
{
    if objs.len() == 0 {
        Seq::empty()
    } else {
        let p = failing_texts(objs.drop_last());
        if objs.last().passed() {
            p
        } else {
            p.push(violation_text(objs.last()))
        }
    }
}

/// Every object passed.
pub open spec fn all_passed(objs: Seq<ObjectCheck>) -> bool {
    forall|i: int| 0 <= i < objs.len() ==> (#[trigger] objs[i]).passed()
}

/// The messages of a list of violations.
pub open spec fn messages(v: Seq<SharedObjectViolation>) -> Seq<Seq<char>> {
    v.map_values(|x: SharedObjectViolation| x.message@)
}

/// The verdict that a variant directory's scan deserves: an empty directory
/// is vacuously compatible; otherwise it is compatible exactly when every
/// object passed, and the failing objects' reports are kept only on request.
pub open spec fn variant_verdict(scan: VariantScan, show: bool, r: VariantResult) -> bool {
    &&& r.name@ == scan.name@
    &&& r.has_shared_objects == (scan.objects@.len() > 0)
    &&& r.is_compatible == all_passed(scan.objects@)
    &&& messages(r.violations@) == if show {
        failing_texts(scan.objects@)
    } else {
        Seq::empty()
    }
}

fn append_bullets(s: &mut String, items: &Vec<String>)
    ensures
        final(s)@ == old(s)@ + bullet_lines(items@),
{
    let mut i: usize = 0;
    let ghost s0 = s@;
    proof {
        assert(items@.take(0) =~= Seq::<String>::empty());
        assert(s0 + bullet_lines(Seq::<String>::empty()) =~= s0);
    }
    while i < items.len()
        invariant
            i <= items@.len(),
            s@ == s0 + bullet_lines(items@.take(i as int)),
        decreases items@.len() - i,
    {
        proof {
            assert(items@.take(i + 1).drop_last() =~= items@.take(i as int));
            assert(items@.take(i + 1).last() == items@[i as int]);
        }
        s.append("    - ");
        s.append(items[i].as_str());
        s.append("\n");
        proof {
            assert(s@ =~= s0 + bullet_lines(items@.take(i + 1)));
        }
        i = i + 1;
    }
    proof {
        assert(items@.take(items@.len() as int) =~= items@);
    }
}

/// The verdict on one shared object: whether it passed both policies, and,
/// when it failed and violations are to be shown, its report (otherwise an
/// empty text).
pub fn check_shared_object(check: &ObjectCheck, show_violations: bool) -> (r: (bool, String))
    ensures
        r.0 == check.passed(),
        r.1@ == if !check.passed() && show_violations {
            violation_text(*check)
        } else {
            Seq::empty()
        },
{
    let passed = check.manylinux_violations.len() == 0 && check.python_abi_violations.len() == 0;
    let mut out = String::new();
    if !passed && show_violations {
        if check.manylinux_violations.len() > 0 {
            out.append("\n  manylinux violations:\n");
            append_bullets(&mut out, &check.manylinux_violations);
        }
        if check.python_abi_violations.len() > 0 {
            out.append("\n  python abi violations:\n");
            append_bullets(&mut out, &check.python_abi_violations);
        }
        proof {
            assert(out@ =~= violation_text(*check));
        }
    }
    (passed, out)
}

/// The verdict on one variant directory.
pub fn check_variant(scan: &VariantScan, show_violations: bool) -> (r: VariantResult)
    ensures
        variant_verdict(*scan, show_violations, r),
        scan.objects@.len() == 0 ==> r.is_compatible && !r.has_shared_objects
            && r.violations@.len() == 0,
{
    let mut violations: Vec<SharedObjectViolation> = Vec::new();
    let mut compatible = true;
    let mut i: usize = 0;
    proof {
        assert(scan.objects@.take(0) =~= Seq::<ObjectCheck>::empty());
        assert(messages(violations@) =~= Seq::<Seq<char>>::empty());
    }
    while i < scan.objects.len()
        invariant
            i <= scan.objects@.len(),
            compatible == all_passed(scan.objects@.take(i as int)),
            messages(violations@) == if show_violations {
                failing_texts(scan.objects@.take(i as int))
            } else {
                Seq::empty()
            },
        decreases scan.objects@.len() - i,
    {
        let ghost objs = scan.objects@.take(i + 1);
        proof {
            assert(objs.drop_last() =~= scan.objects@.take(i as int));
            assert(objs.last() == scan.objects@[i as int]);
        }
        let (passed, text) = check_shared_object(&scan.objects[i], show_violations);
        let ghost before = messages(violations@);
        if !passed && show_violations {
            violations.push(SharedObjectViolation { message: text });
            proof {
                assert(messages(violations@) =~= before.push(text@));
            }
        }
        proof {
            assert(all_passed(objs) == (all_passed(scan.objects@.take(i as int)) && passed)) by {
                if all_passed(objs) {
                    assert(objs[i as int] == scan.objects@[i as int]);
                    assert forall|k: int| 0 <= k < i implies (#[trigger] scan.objects@.take(
                        i as int,
                    )[k]).passed() by {
                        assert(objs[k] == scan.objects@.take(i as int)[k]);
                    }
                }
                if all_passed(scan.objects@.take(i as int)) && passed {
                    assert forall|k: int| 0 <= k < objs.len() implies (#[trigger] objs[k]).passed() by {
                        if k < i {
                            assert(objs[k] == scan.objects@.take(i as int)[k]);
                        }
                    }
                }
            }
        }
        compatible = compatible && passed;
        i = i + 1;
    }
    proof {
        assert(scan.objects@.take(scan.objects@.len() as int) =~= scan.objects@);
    }
    VariantResult {
        name: scan.name.clone(),
        is_compatible: compatible,
        violations,
        has_shared_objects: scan.objects.len() > 0,
    }
}

/// The verdict on all variant directories of a repository: one result per
/// directory, in order, and overall compatibility as their conjunction.
pub fn check_abi_for_repository(
    scans: &Vec<VariantScan>,
    manylinux_version: &str,
    python_abi_version: Version,
    show_violations: bool,
) -> (r: AbiCheckResult)
    ensures
        r.variants@.len() == scans@.len(),
        forall|i: int|
            0 <= i < scans@.len() ==> variant_verdict(
                #[trigger] scans@[i],
                show_violations,
                r.variants@[i],
            ),
        r.overall_compatible == forall|i: int|
            0 <= i < r.variants@.len() ==> (#[trigger] r.variants@[i]).is_compatible,
        r.manylinux_version@ == manylinux_version@,
        r.python_abi_version == python_abi_version,
{
    let mut variants: Vec<VariantResult> = Vec::new();
    let mut overall = true;
    let mut i: usize = 0;
    while i < scans.len()
        invariant
            i <= scans@.len(),
            variants@.len() == i,
            forall|k: int|
                0 <= k < i ==> variant_verdict(#[trigger] scans@[k], show_violations, variants@[k]),
            overall == forall|k: int| 0 <= k < i ==> (#[trigger] variants@[k]).is_compatible,
        decreases scans@.len() - i,
    {
        let v = check_variant(&scans[i], show_violations);
        let ghost before = variants@;
        overall = overall && v.is_compatible;
        variants.push(v);
        proof {
            assert forall|k: int| 0 <= k < i implies variants@[k] == before[k] by {}
            if overall {
                assert forall|k: int| 0 <= k < i + 1 implies (#[trigger] variants@[k]).is_compatible by {
                    if k < i {
                        assert(before[k].is_compatible);
                    }
                }
            } else if !variants@[i as int].is_compatible {
            } else {
                let k = choose|k: int| 0 <= k < i && !(#[trigger] before[k]).is_compatible;
                assert(!variants@[k].is_compatible);
            }
        }
        i = i + 1;
    }
    AbiCheckResult {
        overall_compatible: overall,
        variants,
        manylinux_version: String::from_str(manylinux_version),
        python_abi_version,
    }
}

} // verus!
