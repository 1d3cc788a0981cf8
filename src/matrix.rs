//! The compliant-variant matrix: the variant names that a compliant
//! repository is expected to publish, and how a repository's discovered
//! variants measure up to it.

use crate::text::{decimal, push_decimal, views};
use vstd::prelude::*;
use vstd::string::*;

verus! {

/// `s` with each repeated entry dropped, keeping first occurrences in order.
pub open spec fn dedup(s: Seq<Seq<char>>) -> Seq<Seq<char>>
    decreases s.len(),
{
    if s.len() == 0 {
        s
    } else {
        let d = dedup(s.drop_last());
        if d.contains(s.last()) {
            d
        } else {
            d.push(s.last())
        }
    }
}

/// The entries of `s` that `pool` holds (`keep`) or does not hold (`!keep`),
/// in order.
pub open spec fn select(s: Seq<Seq<char>>, pool: Seq<Seq<char>>, keep: bool) -> Seq<Seq<char>>
    decreases s.len(),
{
    if s.len() == 0 {
        s
    } else {
        let p = select(s.drop_last(), pool, keep);
        if pool.contains(s.last()) == keep {
            p.push(s.last())
        } else {
            p
        }
    }
}

/// How many entries of `s` `pool` holds.
pub open spec fn count_in(s: Seq<Seq<char>>, pool: Seq<Seq<char>>) -> nat
    decreases s.len(),
{
    if s.len() == 0 {
        0
    } else {
        count_in(s.drop_last(), pool) + if pool.contains(s.last()) {
            1nat
        } else {
            0nat
        }
    }
}

/// Every entry of `required` is in `pool`.
pub open spec fn covers(pool: Seq<Seq<char>>, required: Seq<Seq<char>>) -> bool {
    forall|i: int| 0 <= i < required.len() ==> pool.contains(#[trigger] required[i])
}

/// Whether `list` holds a string equal to `x`.
pub fn contains_string(list: &Vec<String>, x: &String) -> (r: bool)
    ensures
        r == views(list@).contains(x@),
{
    let mut i: usize = 0;
    while i < list.len()
        invariant
            i <= list@.len(),
            forall|k: int| 0 <= k < i ==> list@[k]@ != x@,
        decreases list@.len() - i,
    {
        if list[i] == *x {
            proof {
                assert(views(list@)[i as int] == x@);
            }
            return true;
        }
        i = i + 1;
    }
    proof {
        if views(list@).contains(x@) {
            let k = choose|k: int| 0 <= k < views(list@).len() && views(list@)[k] == x@;
            assert(list@[k]@ == x@);
        }
    }
    false
}

/// `v` with each repeated string dropped, keeping first occurrences.
pub fn dedup_strings(v: &Vec<String>) -> (r: Vec<String>)
    ensures
        views(r@) == dedup(views(v@)),
{
    let mut out: Vec<String> = Vec::new();
    let mut i: usize = 0;
    proof {
        assert(views(v@).take(0) =~= Seq::<Seq<char>>::empty());
        assert(views(out@) =~= Seq::<Seq<char>>::empty());
    }
    while i < v.len()
        invariant
            i <= v@.len(),
            views(out@) == dedup(views(v@).take(i as int)),
        decreases v@.len() - i,
    {
        proof {
            assert(views(v@).take(i + 1).drop_last() =~= views(v@).take(i as int));
            assert(views(v@).take(i + 1).last() == v@[i as int]@);
        }
        if !contains_string(&out, &v[i]) {
            let ghost before = views(out@);
            out.push(v[i].clone());
            proof {
                assert(views(out@) =~= before.push(v@[i as int]@));
            }
        }
        i = i + 1;
    }
    proof {
        assert(views(v@).take(v@.len() as int) =~= views(v@));
    }
    out
}

/// The variant names that one architecture's manifest entry lists.
#[derive(Debug, Clone)]
pub struct ArchVariants {
    pub cuda: Vec<String>,
    pub rocm: Vec<String>,
}

/// The CUDA lists of all architectures, one after the other.
pub open spec fn all_cuda(arches: Seq<ArchVariants>) -> Seq<Seq<char>>
    decreases arches.len(),
{
    if arches.len() == 0 {
        Seq::empty()
    } else {
        all_cuda(arches.drop_last()) + views(arches.last().cuda@)
    }
}

/// The ROCm lists of all architectures, one after the other.
pub open spec fn all_rocm(arches: Seq<ArchVariants>) -> Seq<Seq<char>>
    decreases arches.len(),
{
    if arches.len() == 0 {
        Seq::empty()
    } else {
        all_rocm(arches.drop_last()) + views(arches.last().rocm@)
    }
}

fn append_all(out: &mut Vec<String>, items: &Vec<String>)
    ensures
        views(final(out)@) == views(old(out)@) + views(items@),
{
    let mut j: usize = 0;
    let ghost start = views(out@);
    proof {
        assert(views(items@).take(0) =~= Seq::<Seq<char>>::empty());
        assert(start + Seq::<Seq<char>>::empty() =~= start);
    }
    while j < items.len()
        invariant
            j <= items@.len(),
            views(out@) == start + views(items@).take(j as int),
        decreases items@.len() - j,
    {
        let ghost before = views(out@);
        let item = items[j].clone();
        out.push(item);
        proof {
            assert(views(out@) =~= before.push(item@));
            assert(views(items@).take(j + 1) =~= views(items@).take(j as int).push(items@[j as int]@));
            assert(views(out@) =~= start + views(items@).take(j + 1));
        }
        j = j + 1;
    }
    proof {
        assert(views(items@).take(items@.len() as int) =~= views(items@));
    }
}

fn flatten(arches: &Vec<ArchVariants>, rocm: bool) -> (r: Vec<String>)
    ensures
        views(r@) == if rocm {
            all_rocm(arches@)
        } else {
            all_cuda(arches@)
        },
{
    let mut out: Vec<String> = Vec::new();
    let mut a: usize = 0;
    proof {
        assert(arches@.take(0) =~= Seq::<ArchVariants>::empty());
        assert(views(out@) =~= Seq::<Seq<char>>::empty());
    }
    while a < arches.len()
        invariant
            a <= arches@.len(),
            views(out@) == if rocm {
                all_rocm(arches@.take(a as int))
            } else {
                all_cuda(arches@.take(a as int))
            },
        decreases arches@.len() - a,
    {
        proof {
            assert(arches@.take(a + 1).drop_last() =~= arches@.take(a as int));
            assert(arches@.take(a + 1).last() == arches@[a as int]);
        }
        if rocm {
            append_all(&mut out, &arches[a].rocm);
        } else {
            append_all(&mut out, &arches[a].cuda);
        }
        a = a + 1;
    }
    proof {
        assert(arches@.take(arches@.len() as int) =~= arches@);
    }
    out
}

/// The variant names a compliant repository is expected to publish, built
/// once per run and passed to every repository check.
#[derive(Debug, Clone)]
pub struct CompliantMatrix {
    pub cuda: Vec<String>,
    pub rocm: Vec<String>,
    /// Whether ROCm variants are judged at all.
    pub rocm_enabled: bool,
}

impl CompliantMatrix {
    /// The matrix of a manifest: each framework's lists of all
    /// architectures flattened, with repeated names dropped; the ROCm list
    /// stays empty unless ROCm is enabled.
    pub fn from_manifest(arches: &Vec<ArchVariants>, rocm_enabled: bool) -> (r: CompliantMatrix)
        ensures
            views(r.cuda@) == dedup(all_cuda(arches@)),
            views(r.rocm@) == if rocm_enabled {
                dedup(all_rocm(arches@))
            } else {
                Seq::<Seq<char>>::empty()
            },
            r.rocm_enabled == rocm_enabled,
    {
        let cuda_all = flatten(arches, false);
        let cuda = dedup_strings(&cuda_all);
        let rocm = if rocm_enabled {
            let rocm_all = flatten(arches, true);
            dedup_strings(&rocm_all)
        } else {
            let e: Vec<String> = Vec::new();
            proof {
                assert(views(e@) =~= Seq::<Seq<char>>::empty());
            }
            e
        };
        CompliantMatrix { cuda, rocm, rocm_enabled }
    }
}

/// Which of the required variants a repository has: `compatible` holds
/// exactly when all of them are present.
pub fn partition_presence(required: &Vec<String>, discovered: &Vec<String>) -> (r: (
    bool,
    Vec<String>,
    Vec<String>,
))
    ensures
        r.0 == covers(views(discovered@), views(required@)),
        views(r.1@) == select(views(required@), views(discovered@), true),
        views(r.2@) == select(views(required@), views(discovered@), false),
{
    let ghost pool = views(discovered@);
    let mut compatible = true;
    let mut present: Vec<String> = Vec::new();
    let mut missing: Vec<String> = Vec::new();
    let mut i: usize = 0;
    proof {
        assert(views(required@).take(0) =~= Seq::<Seq<char>>::empty());
        assert(views(present@) =~= Seq::<Seq<char>>::empty());
        assert(views(missing@) =~= Seq::<Seq<char>>::empty());
    }
    while i < required.len()
        invariant
            i <= required@.len(),
            pool == views(discovered@),
            compatible == (forall|k: int| 0 <= k < i ==> pool.contains(#[trigger] required@[k]@)),
            views(present@) == select(views(required@).take(i as int), pool, true),
            views(missing@) == select(views(required@).take(i as int), pool, false),
        decreases required@.len() - i,
    {
        proof {
            assert(views(required@).take(i + 1).drop_last() =~= views(required@).take(i as int));
            assert(views(required@).take(i + 1).last() == required@[i as int]@);
        }
        let found = contains_string(discovered, &required[i]);
        let ghost p0 = views(present@);
        let ghost m0 = views(missing@);
        if found {
            present.push(required[i].clone());
            proof {
                assert(views(present@) =~= p0.push(required@[i as int]@));
                assert(views(missing@) =~= m0);
            }
        } else {
            missing.push(required[i].clone());
            compatible = false;
            proof {
                assert(views(missing@) =~= m0.push(required@[i as int]@));
                assert(views(present@) =~= p0);
            }
        }
        i = i + 1;
    }
    proof {
        assert(views(required@).take(required@.len() as int) =~= views(required@));
        assert(compatible == covers(pool, views(required@))) by {
            if compatible {
                assert forall|k: int| 0 <= k < views(required@).len() implies pool.contains(
                    #[trigger] views(required@)[k],
                ) by {
                    assert(views(required@)[k] == required@[k]@);
                }
            } else {
                let k = choose|k: int| 0 <= k < required@.len() && !pool.contains(required@[k]@);
                assert(views(required@)[k] == required@[k]@);
            }
        }
    }
    (compatible, present, missing)
}

/// The CUDA side of a repository's build status.
#[derive(Debug, Clone)]
pub struct CudaStatus {
    pub compatible: bool,
    pub present: Vec<String>,
    pub missing: Vec<String>,
}

/// The ROCm side of a repository's build status.
#[derive(Debug, Clone)]
pub struct RocmStatus {
    pub compatible: bool,
    pub present: Vec<String>,
    pub missing: Vec<String>,
}

impl CompliantMatrix {
    /// How the discovered variant names measure up to the CUDA list:
    /// compatible exactly when every listed name was discovered.
    pub fn cuda_status(&self, discovered: &Vec<String>) -> (r: CudaStatus)
        ensures
            r.compatible == covers(views(discovered@), views(self.cuda@)),
            views(r.present@) == select(views(self.cuda@), views(discovered@), true),
            views(r.missing@) == select(views(self.cuda@), views(discovered@), false),
    {
        let (compatible, present, missing) = partition_presence(&self.cuda, discovered);
        CudaStatus { compatible, present, missing }
    }

    /// How the discovered variant names measure up to the ROCm list, or
    /// nothing when ROCm is not enabled.
    pub fn rocm_status(&self, discovered: &Vec<String>) -> (r: Option<RocmStatus>)
        ensures
            r is None <==> !self.rocm_enabled,
            r matches Some(s) ==> s.compatible == covers(views(discovered@), views(self.rocm@))
                && views(s.present@) == select(views(self.rocm@), views(discovered@), true)
                && views(s.missing@) == select(views(self.rocm@), views(discovered@), false),
    {
        if !self.rocm_enabled {
            return None;
        }
        let (compatible, present, missing) = partition_presence(&self.rocm, discovered);
        Some(RocmStatus { compatible, present, missing })
    }
}

fn count_present(variants: &Vec<String>, pool: &Vec<String>) -> (r: usize)
    ensures
        r == count_in(views(variants@), views(pool@)),
        r <= variants@.len(),
{
    let mut c: usize = 0;
    let mut i: usize = 0;
    while i < variants.len()
        invariant
            i <= variants@.len(),
            c <= i,
            c == count_in(views(variants@).take(i as int), views(pool@)),
        decreases variants@.len() - i,
    {
        proof {
            assert(views(variants@).take(i + 1).drop_last() =~= views(variants@).take(i as int));
            assert(views(variants@).take(i + 1).last() == variants@[i as int]@);
        }
        if contains_string(pool, &variants[i]) {
            c = c + 1;
        }
        i = i + 1;
    }
    proof {
        assert(views(variants@).take(variants@.len() as int) =~= views(variants@));
    }
    c
}

/// The build-status line of a repository.
pub open spec fn summary_text(
    total: nat,
    cuda: nat,
    rocm: nat,
    rocm_enabled: bool,
) -> Seq<char> {
    "Total: "@ + decimal(total) + " (CUDA: "@ + decimal(cuda) + if rocm_enabled {
        ", ROCM: "@ + decimal(rocm) + ")"@
    } else {
        ")"@
    }
}

/// The build-status line of a repository. Of the declared variant names,
/// only those that are names of directories found under the build directory
/// count as built: the line gives how many there are, and how many of them
/// the CUDA list (and, with ROCm enabled, the ROCm list) holds.
pub fn get_build_status_summary(
    dir_names: &Vec<String>,
    variants: &Vec<String>,
    cuda_variants: &Vec<String>,
    rocm_variants: &Vec<String>,
    rocm_enabled: bool,
) -> (r: String)
    ensures
        r@ == summary_text(
            select(views(variants@), views(dir_names@), true).len(),
            count_in(select(views(variants@), views(dir_names@), true), views(cuda_variants@)),
            count_in(select(views(variants@), views(dir_names@), true), views(rocm_variants@)),
            rocm_enabled,
        ),
{
    let (_, built, _) = partition_presence(variants, dir_names);
    let cuda_built = count_present(&built, cuda_variants);
    let mut s = String::from_str("Total: ");
    push_decimal(&mut s, built.len());
    s.append(" (CUDA: ");
    push_decimal(&mut s, cuda_built);
    proof {
        assert(views(built@).len() == built@.len());
    }
    if rocm_enabled {
        let rocm_built = count_present(&built, rocm_variants);
        s.append(", ROCM: ");
        push_decimal(&mut s, rocm_built);
        s.append(")");
        proof {
            assert(s@ =~= summary_text(
                built@.len() as nat,
                cuda_built as nat,
                rocm_built as nat,
                rocm_enabled,
            ));
        }
    } else {
        s.append(")");
        proof {
            assert(s@ =~= summary_text(
                built@.len() as nat,
                cuda_built as nat,
                count_in(views(built@), views(rocm_variants@)),
                rocm_enabled,
            ));
        }
    }
    s
}

} // verus!
