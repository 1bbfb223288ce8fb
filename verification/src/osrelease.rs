//! os-release parsing and the archive-snapshot date and URL derived from an
//! image version.
use crate::text::{opt_str, opt_string, 
    chars_of, lines_of, pieces, push_range, push_str, range_starts_with, spans_view, starts_with,
    string_of_range, to_owned, trim, trim_c, trim_char_range, trim_end_c, trim_end_char_range,
    trim_range, line_spans, next_char, find_char, lemma_next_char,
};
use vstd::prelude::*;

verus! {

/// Archive snapshot root used when `[archetype].archive_base` is not set.
pub const DEFAULT_ARCHIVE_BASE: &'static str = "https://archive.archlinux.org/repos";

/// The key that carries the image version in os-release.
pub open spec fn version_key() -> Seq<char> {
    "IMAGE_VERSION="@
}

/// The value of the first line among `ls` that starts with `IMAGE_VERSION=`:
/// what follows the key, trimmed, with surrounding `"` removed.
pub open spec fn version_in(ls: Seq<Seq<char>>) -> Option<Seq<char>>
    decreases ls.len(),
{
    if ls.len() == 0 {
        None
    } else if starts_with(ls[0], version_key()) {
        Some(trim_c(trim(ls[0].skip(version_key().len() as int)), '"'))
    } else {
        version_in(ls.drop_first())
    }
}

/// `IMAGE_VERSION=` in os-release text.
pub open spec fn image_version_of(text: Seq<char>) -> Option<Seq<char>> {
    version_in(pieces(text, line_spans(text, 0)))
}

/// Extract `IMAGE_VERSION=` from os-release text; `None` if the key is absent.
pub fn parse_image_version(text: &str) -> (r: Option<String>)
    ensures
        opt_string(r) == image_version_of(text@),
{
    let v = chars_of(text);
    let spans = lines_of(&v);
    let key = chars_of("IMAGE_VERSION=");
    let ghost ls = pieces(v@, spans_view(spans@));
    proof {
        assert(ls.skip(0) =~= ls);
        assert(image_version_of(text@) == version_in(ls));
    }
    let mut i: usize = 0;
    while i < spans.len()
        invariant
            0 <= i <= spans@.len(),
            v@ == text@,
            key@ == version_key(),
            ls == pieces(v@, spans_view(spans@)),
            ls.len() == spans@.len(),
            forall|k: int| 0 <= k < spans@.len() ==> #[trigger] spans@[k].0 <= spans@[k].1 <= v@.len(),
            version_in(ls.skip(i as int)) == version_in(ls),
            image_version_of(text@) == version_in(ls),
        decreases spans@.len() - i,
    {
        let (a, b) = spans[i];
        proof {
            assert(ls[i as int] == v@.subrange(a as int, b as int));
            assert(ls.skip(i as int)[0] == ls[i as int]);
            assert(ls.skip(i as int).drop_first() =~= ls.skip(i + 1));
        }
        if range_starts_with(&v, a, b, &key) {
            let (c, d) = trim_range(&v, a + key.len(), b);
            let (e, f) = trim_char_range(&v, c, d, '"');
            let r = string_of_range(&v, e, f);
            proof {
                assert(ls[i as int].skip(version_key().len() as int) =~= v@.subrange(
                    a + key@.len(),
                    b as int,
                ));
                assert(version_in(ls.skip(i as int)) == Some(
                    trim_c(trim(ls[i as int].skip(version_key().len() as int)), '"'),
                ));
                assert(r@ == trim_c(trim(ls[i as int].skip(version_key().len() as int)), '"'));
            }
            return Some(r);
        }
        i = i + 1;
    }
    proof {
        assert(ls.skip(i as int) =~= seq![]);
        assert(image_version_of(text@) == version_in(ls));
    }
    None
}

/// `image_date`: the text before the first `-`, with every `.` made a `/`.
pub open spec fn date_of_version(version: Seq<char>) -> Seq<char> {
    let head = version.take(next_char(version, '-', 0));
    head.map_values(|ch: char| if ch == '.' { '/' } else { ch })
}

/// Map an `IMAGE_VERSION` to its `YYYY/MM/DD` archive snapshot date, e.g.
/// `2026.06.17-2` to `2026/06/17`.
pub fn image_date(version: &str) -> (r: String)
    ensures
        r@ == date_of_version(version@),
{
    let v = chars_of(version);
    let end = find_char(&v, '-', 0);
    proof {
        lemma_next_char(v@, '-', 0);
    }
    let mut out = String::new();
    let mut i: usize = 0;
    let ghost head = v@.take(end as int);
    while i < end
        invariant
            0 <= i <= end <= v@.len(),
            head == v@.take(end as int),
            out@ == head.take(i as int).map_values(|ch: char| if ch == '.' { '/' } else { ch }),
        decreases end - i,
    {
        let ch = v[i];
        if ch == '.' {
            out.push('/');
        } else {
            out.push(ch);
        }
        proof {
            assert(out@ =~= head.take(i + 1).map_values(
                |ch: char|
                    if ch == '.' {
                        '/'
                    } else {
                        ch
                    },
            ));
        }
        i = i + 1;
    }
    proof {
        assert(head.take(end as int) =~= head);
    }
    out
}

/// The archive date: an explicit override wins, else the one derived from
/// the image version, else none.
pub open spec fn archive_date_of(explicit: Option<Seq<char>>, version: Option<Seq<char>>) -> Option<
    Seq<char>,
> {
    match explicit {
        Some(d) => Some(d),
        None => match version {
            Some(v) => Some(date_of_version(v)),
            None => None,
        },
    }
}

/// Resolve the archive snapshot date: an explicit `[archetype].archive_date`
/// override wins; otherwise derive it from `IMAGE_VERSION`.
pub fn resolve_archive_date(explicit: Option<&str>, version: Option<&str>) -> (r: Option<String>)
    ensures
        opt_string(r) == archive_date_of(opt_str(explicit), opt_str(version)),
{
    match explicit {
        Some(d) => Some(to_owned(d)),
        None => match version {
            Some(v) => Some(image_date(v)),
            None => None,
        },
    }
}

/// `{archive_base}/{date}/$repo/os/$arch`, with trailing `/` of the base
/// dropped and the default base used when none is given.
pub open spec fn archive_url_of(base: Option<Seq<char>>, date: Seq<char>) -> Seq<char> {
    let b = match base {
        Some(b) => b,
        None => DEFAULT_ARCHIVE_BASE@,
    };
    trim_end_c(b, '/') + "/"@ + date + "/$repo/os/$arch"@
}

/// Assemble the archive repo server URL for `date`. `$repo`/`$arch` stay
/// literal for server-URL expansion.
pub fn archive_url(archive_base: Option<&str>, date: &str) -> (r: String)
    ensures
        r@ == archive_url_of(opt_str(archive_base), date@),
{
    let base = match archive_base {
        Some(b) => b,
        None => DEFAULT_ARCHIVE_BASE,
    };
    let bv = chars_of(base);
    let end = trim_end_char_range(&bv, 0, bv.len(), '/');
    let mut out = String::new();
    push_range(&mut out, &bv, 0, end);
    push_str(&mut out, "/");
    push_str(&mut out, date);
    push_str(&mut out, "/$repo/os/$arch");
    proof {
        assert(bv@.subrange(0, bv@.len() as int) =~= base@);
    }
    out
}

} // verus!
