//! The build-variant identifier: five fields joined by `-`, in the order
//! Torch version, C++ ABI, compute framework, architecture, OS.

use crate::text::{lemma_split_fields_nonempty, push_char, split_fields, split_on, views};
use vstd::prelude::*;
use vstd::string::*;

verus! {

/// The fields of a name between its `-` characters.
pub open spec fn dash_fields(s: Seq<char>) -> Seq<Seq<char>> {
    split_fields(s, '-')
}

/// `s` holds no `-`.
pub open spec fn dash_free(s: Seq<char>) -> bool {
    forall|i: int| 0 <= i < s.len() ==> s[i] != '-'
}

/// The five fields of a variant name joined with `-`.
pub open spec fn join_fields(f: Seq<Seq<char>>) -> Seq<char> {
    f[0] + seq!['-'] + f[1] + seq!['-'] + f[2] + seq!['-'] + f[3] + seq!['-'] + f[4]
}

/// What parsing a directory name gives: the first five of its fields when
/// there are at least five, nothing otherwise.
pub open spec fn parse_name(s: Seq<char>) -> Option<Seq<Seq<char>>> {
    if dash_fields(s).len() < 5 {
        None
    } else {
        Some(dash_fields(s).take(5))
    }
}

/// Appending a dash-free string extends the last field.
proof fn lemma_dash_fields_extend(p: Seq<char>, t: Seq<char>)
    requires
        dash_free(t),
    ensures
        dash_fields(p + t) == dash_fields(p).update(
            dash_fields(p).len() - 1,
            dash_fields(p).last() + t,
        ),
    decreases t.len(),
{
    lemma_split_fields_nonempty(p, '-');
    let d = dash_fields(p);
    if t.len() == 0 {
        assert(p + t =~= p);
        assert(d.last() + t =~= d.last());
        assert(d.update(d.len() - 1, d.last()) =~= d);
    } else {
        let t0 = t.drop_last();
        assert(dash_free(t0));
        lemma_dash_fields_extend(p, t0);
        assert((p + t).drop_last() =~= p + t0);
        assert((p + t).last() == t.last());
        let e = d.update(d.len() - 1, d.last() + t0);
        assert(e.last() == d.last() + t0);
        assert(e.last().push(t.last()) =~= d.last() + t);
        assert(e.update(e.len() - 1, e.last().push(t.last())) =~= d.update(
            d.len() - 1,
            d.last() + t,
        ));
    }
}

/// A name of five dash-free fields splits back into exactly those fields.
proof fn lemma_dash_fields_join(f: Seq<Seq<char>>)
    requires
        f.len() == 5,
        forall|k: int| 0 <= k < 5 ==> dash_free(#[trigger] f[k]),
    ensures
        dash_fields(join_fields(f)) == f,
{
    let dash = seq!['-'];
    let e = Seq::<char>::empty();
    assert(dash_free(f[0]) && dash_free(f[1]) && dash_free(f[2]) && dash_free(f[3]) && dash_free(
        f[4],
    ));
    assert(dash_fields(e) == seq![e]);
    lemma_dash_fields_extend(e, f[0]);
    assert(e + f[0] =~= f[0]);
    assert(dash_fields(f[0]) =~= seq![f[0]]);
    let s1 = f[0] + dash;
    assert(s1 =~= f[0].push('-'));
    assert(s1.drop_last() =~= f[0]);
    assert(dash_fields(s1) =~= seq![f[0], e]);
    lemma_dash_fields_extend(s1, f[1]);
    assert(dash_fields(s1 + f[1]) =~= seq![f[0], f[1]]);
    let s2 = s1 + f[1] + dash;
    assert(s2.drop_last() =~= s1 + f[1]);
    assert(dash_fields(s2) =~= seq![f[0], f[1], e]);
    lemma_dash_fields_extend(s2, f[2]);
    assert(dash_fields(s2 + f[2]) =~= seq![f[0], f[1], f[2]]);
    let s3 = s2 + f[2] + dash;
    assert(s3.drop_last() =~= s2 + f[2]);
    assert(dash_fields(s3) =~= seq![f[0], f[1], f[2], e]);
    lemma_dash_fields_extend(s3, f[3]);
    assert(dash_fields(s3 + f[3]) =~= seq![f[0], f[1], f[2], f[3]]);
    let s4 = s3 + f[3] + dash;
    assert(s4.drop_last() =~= s3 + f[3]);
    assert(dash_fields(s4) =~= seq![f[0], f[1], f[2], f[3], e]);
    lemma_dash_fields_extend(s4, f[4]);
    assert(dash_fields(s4 + f[4]) =~= f);
    assert(s4 + f[4] =~= join_fields(f));
}

/// Formatting a variant whose fields hold no `-`, parsing the name and
/// formatting the result again gives the first name back; the parse yields
/// the variant's own fields.
pub proof fn lemma_variant_name_round_trip(v: Variant)
    requires
        forall|k: int| 0 <= k < 5 ==> dash_free(#[trigger] v.fields()[k]),
    ensures
        parse_name(join_fields(v.fields())) == Some(v.fields()),
        join_fields(parse_name(join_fields(v.fields()))->Some_0) == join_fields(v.fields()),
{
    lemma_dash_fields_join(v.fields());
    assert(v.fields().take(5) =~= v.fields());
}

/// One build variant.
#[derive(Debug, Clone)]
pub struct Variant {
    pub torch_version: String,
    pub cxx_abi: String,
    pub compute_framework: String,
    pub arch: String,
    pub os: String,
}

impl Variant {
    /// The five fields, in the order of the canonical name.
    pub open spec fn fields(&self) -> Seq<Seq<char>> {
        seq![self.torch_version@, self.cxx_abi@, self.compute_framework@, self.arch@, self.os@]
    }

    /// Parses a directory name; fewer than five `-`-separated fields give
    /// `None`, and fields after the fifth are ignored.
    pub fn from_name(name: &str) -> (r: Option<Variant>)
        ensures
            r is None <==> parse_name(name@) is None,
            r matches Some(v) ==> Some(v.fields()) == parse_name(name@),
    {
        let parts = split_on(name, '-');
        if parts.len() < 5 {
            return None;
        }
        let v = Variant {
            torch_version: parts[0].clone(),
            cxx_abi: parts[1].clone(),
            compute_framework: parts[2].clone(),
            arch: parts[3].clone(),
            os: parts[4].clone(),
        };
        proof {
            assert(views(parts@)[0] == parts@[0]@);
            assert(views(parts@)[1] == parts@[1]@);
            assert(views(parts@)[2] == parts@[2]@);
            assert(views(parts@)[3] == parts@[3]@);
            assert(views(parts@)[4] == parts@[4]@);
            assert(v.fields() =~= views(parts@).take(5));
        }
        Some(v)
    }

    /// The canonical name: the five fields joined with `-`.
    pub fn to_string(&self) -> (r: String)
        ensures
            r@ == join_fields(self.fields()),
    {
        let mut s = String::new();
        s.append(self.torch_version.as_str());
        push_char(&mut s, '-');
        s.append(self.cxx_abi.as_str());
        push_char(&mut s, '-');
        s.append(self.compute_framework.as_str());
        push_char(&mut s, '-');
        s.append(self.arch.as_str());
        push_char(&mut s, '-');
        s.append(self.os.as_str());
        proof {
            assert(s@ =~= join_fields(self.fields()));
        }
        s
    }
}

} // verus!
