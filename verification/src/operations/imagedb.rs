//! Image-db lookups for queries: the installed `(name, version)` list and a
//! single package's `desc` metadata, from the `desc` texts read in traversal
//! order.
use crate::common::fmt::strings_view;
use crate::common::imagedb::{
    all_values, desc_blocks, desc_summary, entries_view, first_value, opt_view, parse_desc,
    parse_desc_fields, int_field, push_new,
};
use crate::text::{str_eq, to_owned};
use vstd::prelude::*;

verus! {

/// What an image-db `desc` carries for `-Qi` on a baked-in package.
pub struct ImagePackage {
    pub name: String,
    pub version: String,
    pub desc: Option<String>,
    pub url: Option<String>,
    pub arch: Option<String>,
    pub licenses: Vec<String>,
    pub groups: Vec<String>,
    pub provides: Vec<String>,
    pub depends: Vec<String>,
    pub isize: Option<i64>,
}

/// The `(name, version)` pairs of the `desc` texts read in order, keeping the
/// first of each name; entries without a name or version are skipped.
pub open spec fn installed_of(descs: Seq<Seq<char>>) -> Seq<(Seq<char>, Seq<char>)>
    decreases descs.len(),
{
    if descs.len() == 0 {
        seq![]
    } else {
        let before = installed_of(descs.drop_last());
        match desc_summary(descs.last()) {
            Some((n, v, _)) => if exists|k: int| 0 <= k < before.len() && #[trigger] before[k].0 == n {
                before
            } else {
                before.push((n, v))
            },
            None => before,
        }
    }
}

/// The view of name/version pairs.
pub open spec fn nv_view(v: Seq<(String, String)>) -> Seq<(Seq<char>, Seq<char>)> {
    v.map_values(|p: (String, String)| (p.0@, p.1@))
}

/// Every image-db package as `(name, version)`, for queries that union the
/// baked-in packages with the layered localdb.
pub fn installed_packages(descs: &Vec<String>) -> (r: Vec<(String, String)>)
    ensures
        nv_view(r@) == installed_of(strings_view(descs@)),
{
    let ghost dv = strings_view(descs@);
    let mut out: Vec<(String, String)> = Vec::new();
    let mut i: usize = 0;
    while i < descs.len()
        invariant
            0 <= i <= descs@.len(),
            dv == strings_view(descs@),
            nv_view(out@) == installed_of(dv.take(i as int)),
        decreases descs@.len() - i,
    {
        proof {
            assert(dv.take(i + 1).drop_last() =~= dv.take(i as int));
            assert(dv.take(i + 1).last() == descs@[i as int]@);
        }
        match parse_desc(descs[i].as_str()) {
            Some((name, version, _)) => {
                let mut seen = false;
                let mut k: usize = 0;
                while k < out.len()
                    invariant
                        0 <= k <= out@.len(),
                        seen == exists|q: int| 0 <= q < k && #[trigger] nv_view(out@)[q].0 == name@,
                    decreases out@.len() - k,
                {
                    if str_eq(out[k].0.as_str(), name.as_str()) {
                        seen = true;
                    }
                    proof {
                        if !seen {
                            assert forall|q: int| 0 <= q < k + 1 implies #[trigger] nv_view(out@)[q].0
                                != name@ by {
                                if q == k {
                                    assert(nv_view(out@)[q].0 == out@[q].0@);
                                }
                            }
                        } else {
                            assert(nv_view(out@)[k as int].0 == out@[k as int].0@);
                        }
                    }
                    k = k + 1;
                }
                if !seen {
                    let ghost before = out@;
                    out.push((name, version));
                    proof {
                        assert(nv_view(out@) =~= nv_view(before).push((out@.last().0@, out@.last().1@)));
                    }
                }
            },
            None => {},
        }
        i = i + 1;
    }
    proof {
        assert(dv.take(descs@.len() as int) =~= dv);
    }
    out
}

/// Whether `desc` names the package `want` (the first value of its last
/// `%NAME%` block).
pub open spec fn names(desc: Seq<char>, want: Seq<char>) -> bool {
    first_value(desc_blocks(desc), "NAME"@) == Some(want)
}

/// Index of the first of `descs` naming `want`, or `descs.len()`.
pub open spec fn first_named(descs: Seq<Seq<char>>, want: Seq<char>, i: int) -> int
    decreases descs.len() - i,
{
    if i < 0 || i >= descs.len() {
        descs.len() as int
    } else if names(descs[i], want) {
        i
    } else {
        first_named(descs, want, i + 1)
    }
}

/// `p` is package `want` as described by `desc` (a missing version reads as
/// empty).
pub open spec fn info_of(p: ImagePackage, desc: Seq<char>, want: Seq<char>) -> bool {
    let bs = desc_blocks(desc);
    &&& p.name@ == want
    &&& p.version@ == match first_value(bs, "VERSION"@) {
        Some(v) => v,
        None => seq![],
    }
    &&& opt_view(p.desc) == first_value(bs, "DESC"@)
    &&& opt_view(p.url) == first_value(bs, "URL"@)
    &&& opt_view(p.arch) == first_value(bs, "ARCH"@)
    &&& strings_view(p.licenses@) == all_values(bs, "LICENSE"@)
    &&& strings_view(p.groups@) == all_values(bs, "GROUPS"@)
    &&& strings_view(p.provides@) == all_values(bs, "PROVIDES"@)
    &&& strings_view(p.depends@) == all_values(bs, "DEPENDS"@)
    &&& p.isize == int_field(bs, "SIZE"@)
}

/// Look up package `want` among the image db's `desc` texts (traversal
/// order); the first entry with that name wins.
pub fn package_info(descs: &Vec<String>, want: &str) -> (r: Option<ImagePackage>)
    ensures
        first_named(strings_view(descs@), want@, 0) < descs@.len() ==> (r matches Some(p) && info_of(
            p,
            descs@[first_named(strings_view(descs@), want@, 0)]@,
            want@,
        )),
        first_named(strings_view(descs@), want@, 0) >= descs@.len() ==> r is None,
{
    let ghost dv = strings_view(descs@);
    let mut i: usize = 0;
    while i < descs.len()
        invariant
            0 <= i <= descs@.len(),
            dv == strings_view(descs@),
            first_named(dv, want@, i as int) == first_named(dv, want@, 0),
        decreases descs@.len() - i,
    {
        let fields = parse_desc_fields(descs[i].as_str());
        let name = fields.one("NAME");
        let hit = match &name {
            Some(n) => str_eq(n.as_str(), want),
            None => false,
        };
        proof {
            assert(dv[i as int] == descs@[i as int]@);
        }
        if hit {
            let version = match fields.one("VERSION") {
                Some(v) => v,
                None => String::new(),
            };
            let p = ImagePackage {
                name: to_owned(want),
                version,
                desc: fields.one("DESC"),
                url: fields.one("URL"),
                arch: fields.one("ARCH"),
                licenses: fields.many("LICENSE"),
                groups: fields.many("GROUPS"),
                provides: fields.many("PROVIDES"),
                depends: fields.many("DEPENDS"),
                isize: match fields.one("SIZE") {
                    Some(t) => crate::text::parse_i64(t.as_str()),
                    None => None,
                },
            };
            return Some(p);
        }
        i = i + 1;
    }
    None
}

} // verus!
