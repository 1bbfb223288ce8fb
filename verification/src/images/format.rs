//! What `-Il`, `-Ig`, `-Ii` and `-If` show: list rows, component rows, and the
//! label/value fields of a described version or feature, with the
//! `{:<19}: {}` text they render to.
use crate::common::fmt::{date_text, format_date, format_size, size_text};
use crate::images::describe::{
    extra_get, scalar_int, scalar_text, value_text, value_to_text, Describe, Feature,
};
use crate::report::InfoField;
use crate::text::{opt_string, push_str, to_owned};
use vstd::prelude::*;

verus! {

/// The `-Il` row text: the bare version when quiet, else
/// `{component} {version}` with ` [installed]` and ` [newest]` markers.
pub open spec fn list_text(
    component: Seq<char>,
    version: Seq<char>,
    installed: bool,
    newest: bool,
    quiet: bool,
) -> Seq<char> {
    if quiet {
        version
    } else {
        component + " "@ + version + (if installed {
            " [installed]"@
        } else {
            seq![]
        }) + (if newest {
            " [newest]"@
        } else {
            seq![]
        })
    }
}

/// One `-Il` row.
pub fn list_line(component: &str, version: &str, installed: bool, newest: bool, quiet: bool) -> (r:
    String)
    ensures
        r@ == list_text(component@, version@, installed, newest, quiet),
{
    if quiet {
        return to_owned(version);
    }
    let mut out = String::new();
    push_str(&mut out, component);
    push_str(&mut out, " ");
    push_str(&mut out, version);
    let ghost mid = out@;
    if installed {
        push_str(&mut out, " [installed]");
    }
    let ghost mid2 = out@;
    if newest {
        push_str(&mut out, " [newest]");
    }
    proof {
        assert(out@ =~= list_text(component@, version@, installed, newest, quiet));
    }
    out
}

/// One `-Ig` row: `class name`, or the bare name when quiet.
pub fn component_line(class: &str, name: &str, quiet: bool) -> (r: String)
    ensures
        r@ == if quiet {
            name@
        } else {
            class@ + " "@ + name@
        },
{
    if quiet {
        to_owned(name)
    } else {
        let mut out = String::new();
        push_str(&mut out, class);
        push_str(&mut out, " ");
        push_str(&mut out, name);
        proof {
            assert(out@ =~= class@ + " "@ + name@);
        }
        out
    }
}

/// `Yes`, `No`, or `Unknown` for an absent value.
pub open spec fn yesno_text(b: Option<bool>) -> Seq<char> {
    match b {
        Some(true) => "Yes"@,
        Some(false) => "No"@,
        None => "Unknown"@,
    }
}

pub fn yesno(b: Option<bool>) -> (r: &'static str)
    ensures
        r@ == yesno_text(b),
{
    match b {
        Some(true) => "Yes",
        Some(false) => "No",
        None => "Unknown",
    }
}

/// The text of an optional value, `None` when absent.
pub open spec fn text_or_none(o: Option<String>) -> Seq<char> {
    match o {
        Some(v) => v@,
        None => "None"@,
    }
}

/// `f` is the label field `key: value`.
pub open spec fn is_label(f: InfoField, key: Seq<char>, value: Seq<char>) -> bool {
    f matches InfoField::Label { key: k, value: v } && k@ == key && v@ == value
}

/// `fs` are exactly the label fields `ls`, in order.
pub open spec fn fields_are(fs: Seq<InfoField>, ls: Seq<(Seq<char>, Seq<char>)>) -> bool {
    fs.len() == ls.len() && forall|k: int|
        0 <= k < ls.len() ==> is_label(#[trigger] fs[k], ls[k].0, ls[k].1)
}

/// Append the label field `key: value`.
pub fn label(fields: &mut Vec<InfoField>, key: &str, value: &str)
    ensures
        final(fields)@.len() == old(fields)@.len() + 1,
        final(fields)@.take(old(fields)@.len() as int) == old(fields)@,
        is_label(final(fields)@.last(), key@, value@),
{
    fields.push(InfoField::Label { key: to_owned(key), value: to_owned(value) });
    proof {
        assert(final(fields)@.take(old(fields)@.len() as int) =~= old(fields)@);
    }
}

/// `ls` followed by `(key, value)` when `v` is present.
pub open spec fn opt_label(ls: Seq<(Seq<char>, Seq<char>)>, key: Seq<char>, v: Option<Seq<char>>) -> Seq<
    (Seq<char>, Seq<char>),
> {
    match v {
        Some(x) => ls.push((key, x)),
        None => ls,
    }
}

/// The `-Ii` label fields of a described version.
pub open spec fn describe_labels(component: Seq<char>, d: Describe, verbose: bool) -> Seq<
    (Seq<char>, Seq<char>),
> {
    let base = seq![
        ("Component"@, component),
        ("Version"@, text_or_none(d.version)),
        ("Newest"@, yesno_text(d.newest)),
        ("Available"@, yesno_text(d.available)),
        ("Installed"@, yesno_text(d.installed)),
        ("Obsolete"@, yesno_text(d.obsolete)),
        ("Incomplete"@, yesno_text(d.incomplete)),
    ];
    let with_type = opt_label(base, "Type"@, scalar_text(extra_get(d.extra@, "type"@)));
    let with_size = opt_label(
        with_type,
        "Download Size"@,
        match scalar_int(extra_get(d.extra@, "size"@)) {
            Some(n) => Some(size_text(n as int)),
            None => None,
        },
    );
    let with_date = opt_label(
        with_size,
        "Build Date"@,
        match scalar_int(extra_get(d.extra@, "timestamp"@)) {
            Some(t) => Some(date_text(t as int)),
            None => None,
        },
    );
    let with_log = opt_label(
        with_date,
        "Changelog"@,
        match d.changelog {
            Some(c) => if verbose {
                Some(value_text(c))
            } else {
                None
            },
            None => None,
        },
    );
    opt_label(
        with_log,
        "Contents"@,
        match d.contents {
            Some(c) => if verbose {
                Some(value_text(c))
            } else {
                None
            },
            None => None,
        },
    )
}

/// Pushing one label keeps the earlier ones.
proof fn lemma_fields_push(
    old_fs: Seq<InfoField>,
    new_fs: Seq<InfoField>,
    ls: Seq<(Seq<char>, Seq<char>)>,
    key: Seq<char>,
    value: Seq<char>,
)
    requires
        fields_are(old_fs, ls),
        new_fs.len() == old_fs.len() + 1,
        new_fs.take(old_fs.len() as int) == old_fs,
        is_label(new_fs.last(), key, value),
    ensures
        fields_are(new_fs, ls.push((key, value))),
{
    assert forall|k: int| 0 <= k < ls.len() + 1 implies is_label(
        #[trigger] new_fs[k],
        ls.push((key, value))[k].0,
        ls.push((key, value))[k].1,
    ) by {
        if k < ls.len() {
            assert(new_fs[k] == new_fs.take(old_fs.len() as int)[k]);
        }
    }
}

/// `-Ii` fields: component, version and the five status flags, then `Type`,
/// `Download Size` and `Build Date` when the payload carries them, then (when
/// `verbose`) the changelog and contents.
pub fn describe_fields(component: &str, d: &Describe, verbose: bool) -> (fields: Vec<InfoField>)
    ensures
        fields_are(fields@, describe_labels(component@, *d, verbose)),
{
    let mut fields: Vec<InfoField> = Vec::new();
    let ghost ls: Seq<(Seq<char>, Seq<char>)> = seq![];
    let version: &str = match &d.version {
        Some(v) => v.as_str(),
        None => "None",
    };
    proof {
        assert(fields_are(fields@, ls));
    }
    let ghost f0 = fields@;
    label(&mut fields, "Component", component);
    proof {
        lemma_fields_push(f0, fields@, ls, "Component"@, component@);
        ls = ls.push(("Component"@, component@));
    }
    let ghost f0 = fields@;
    label(&mut fields, "Version", version);
    proof {
        lemma_fields_push(f0, fields@, ls, "Version"@, version@);
        ls = ls.push(("Version"@, version@));
    }
    let ghost f0 = fields@;
    label(&mut fields, "Newest", yesno(d.newest));
    proof {
        lemma_fields_push(f0, fields@, ls, "Newest"@, yesno_text(d.newest));
        ls = ls.push(("Newest"@, yesno_text(d.newest)));
    }
    let ghost f0 = fields@;
    label(&mut fields, "Available", yesno(d.available));
    proof {
        lemma_fields_push(f0, fields@, ls, "Available"@, yesno_text(d.available));
        ls = ls.push(("Available"@, yesno_text(d.available)));
    }
    let ghost f0 = fields@;
    label(&mut fields, "Installed", yesno(d.installed));
    proof {
        lemma_fields_push(f0, fields@, ls, "Installed"@, yesno_text(d.installed));
        ls = ls.push(("Installed"@, yesno_text(d.installed)));
    }
    let ghost f0 = fields@;
    label(&mut fields, "Obsolete", yesno(d.obsolete));
    proof {
        lemma_fields_push(f0, fields@, ls, "Obsolete"@, yesno_text(d.obsolete));
        ls = ls.push(("Obsolete"@, yesno_text(d.obsolete)));
    }
    let ghost f0 = fields@;
    label(&mut fields, "Incomplete", yesno(d.incomplete));
    proof {
        lemma_fields_push(f0, fields@, ls, "Incomplete"@, yesno_text(d.incomplete));
        ls = ls.push(("Incomplete"@, yesno_text(d.incomplete)));
        let base = seq![
            ("Component"@, component@),
            ("Version"@, text_or_none(d.version)),
            ("Newest"@, yesno_text(d.newest)),
            ("Available"@, yesno_text(d.available)),
            ("Installed"@, yesno_text(d.installed)),
            ("Obsolete"@, yesno_text(d.obsolete)),
            ("Incomplete"@, yesno_text(d.incomplete)),
        ];
        assert(ls =~= base);
    }
    if let Some(t) = d.extra_str("type") {
        let ghost f0 = fields@;
        label(&mut fields, "Type", t.as_str());
        proof {
            lemma_fields_push(f0, fields@, ls, "Type"@, t@);
            ls = ls.push(("Type"@, t@));
        }
    }
    if let Some(size) = d.extra_i64("size") {
        let s = format_size(size);
        let ghost f0 = fields@;
        label(&mut fields, "Download Size", s.as_str());
        proof {
            lemma_fields_push(f0, fields@, ls, "Download Size"@, s@);
            ls = ls.push(("Download Size"@, s@));
        }
    }
    if let Some(ts) = d.extra_i64("timestamp") {
        let s = format_date(ts);
        let ghost f0 = fields@;
        label(&mut fields, "Build Date", s.as_str());
        proof {
            lemma_fields_push(f0, fields@, ls, "Build Date"@, s@);
            ls = ls.push(("Build Date"@, s@));
        }
    }
    if verbose {
        if let Some(cl) = &d.changelog {
            let s = value_to_text(cl);
            let ghost f0 = fields@;
            label(&mut fields, "Changelog", s.as_str());
            proof {
                lemma_fields_push(f0, fields@, ls, "Changelog"@, s@);
                ls = ls.push(("Changelog"@, s@));
            }
        }
        if let Some(c) = &d.contents {
            let s = value_to_text(c);
            let ghost f0 = fields@;
            label(&mut fields, "Contents", s.as_str());
            proof {
                lemma_fields_push(f0, fields@, ls, "Contents"@, s@);
                ls = ls.push(("Contents"@, s@));
            }
        }
    }
    proof {
        assert(ls =~= describe_labels(component@, *d, verbose));
    }
    fields
}

/// The `-If component/<feature>` label fields.
pub open spec fn feature_labels(id: Seq<char>, f: Feature) -> Seq<(Seq<char>, Seq<char>)> {
    let base = seq![
        ("Feature"@, id),
        ("Name"@, text_or_none(f.name)),
        ("Enabled"@, yesno_text(f.enabled)),
    ];
    let a = opt_label(base, "Description"@, opt_string(f.description));
    let b = opt_label(a, "Documentation"@, opt_string(f.documentation_url));
    let c = opt_label(b, "AppStream"@, opt_string(f.appstream_url));
    opt_label(
        c,
        "Transfers"@,
        match f.transfers {
            Some(t) => Some(value_text(t)),
            None => None,
        },
    )
}

/// `-If component/<feature>` fields: id, name, enabled, then description,
/// documentation and AppStream URLs and transfers when present.
pub fn feature_fields(id: &str, f: &Feature) -> (fields: Vec<InfoField>)
    ensures
        fields_are(fields@, feature_labels(id@, *f)),
{
    let mut fields: Vec<InfoField> = Vec::new();
    let ghost ls: Seq<(Seq<char>, Seq<char>)> = seq![];
    let name: &str = match &f.name {
        Some(n) => n.as_str(),
        None => "None",
    };
    let ghost f0 = fields@;
    label(&mut fields, "Feature", id);
    proof {
        lemma_fields_push(f0, fields@, ls, "Feature"@, id@);
        ls = ls.push(("Feature"@, id@));
    }
    let ghost f0 = fields@;
    label(&mut fields, "Name", name);
    proof {
        lemma_fields_push(f0, fields@, ls, "Name"@, name@);
        ls = ls.push(("Name"@, name@));
    }
    let ghost f0 = fields@;
    label(&mut fields, "Enabled", yesno(f.enabled));
    proof {
        lemma_fields_push(f0, fields@, ls, "Enabled"@, yesno_text(f.enabled));
        ls = ls.push(("Enabled"@, yesno_text(f.enabled)));
        let base = seq![
            ("Feature"@, id@),
            ("Name"@, text_or_none(f.name)),
            ("Enabled"@, yesno_text(f.enabled)),
        ];
        assert(ls =~= base);
    }
    if let Some(d) = &f.description {
        let ghost f0 = fields@;
        label(&mut fields, "Description", d.as_str());
        proof {
            lemma_fields_push(f0, fields@, ls, "Description"@, d@);
            ls = ls.push(("Description"@, d@));
        }
    }
    if let Some(u) = &f.documentation_url {
        let ghost f0 = fields@;
        label(&mut fields, "Documentation", u.as_str());
        proof {
            lemma_fields_push(f0, fields@, ls, "Documentation"@, u@);
            ls = ls.push(("Documentation"@, u@));
        }
    }
    if let Some(u) = &f.appstream_url {
        let ghost f0 = fields@;
        label(&mut fields, "AppStream", u.as_str());
        proof {
            lemma_fields_push(f0, fields@, ls, "AppStream"@, u@);
            ls = ls.push(("AppStream"@, u@));
        }
    }
    if let Some(t) = &f.transfers {
        let s = value_to_text(t);
        let ghost f0 = fields@;
        label(&mut fields, "Transfers", s.as_str());
        proof {
            lemma_fields_push(f0, fields@, ls, "Transfers"@, s@);
            ls = ls.push(("Transfers"@, s@));
        }
    }
    proof {
        assert(ls =~= feature_labels(id@, *f));
    }
    fields
}

/// `s` left-aligned in a field of `w` characters (`{:<w}`).
pub open spec fn pad_right(s: Seq<char>, w: nat) -> Seq<char> {
    if s.len() >= w {
        s
    } else {
        s + Seq::new((w - s.len()) as nat, |i: int| ' ')
    }
}

/// One `{:<19}: {}` line.
pub open spec fn label_text(key: Seq<char>, value: Seq<char>) -> Seq<char> {
    pad_right(key, 19) + ": "@ + value + "\n"@
}

/// The lines of a label list.
pub open spec fn block_text(ls: Seq<(Seq<char>, Seq<char>)>) -> Seq<char>
    decreases ls.len(),
{
    if ls.len() == 0 {
        seq![]
    } else {
        block_text(ls.drop_last()) + label_text(ls.last().0, ls.last().1)
    }
}

/// Append `key` padded with spaces to 19 characters.
pub fn push_key_padded(out: &mut String, key: &str)
    ensures
        final(out)@ == old(out)@ + pad_right(key@, 19),
{
    let ghost start = out@;
    push_str(out, key);
    let mut n: usize = crate::text::chars_of(key).len();
    let ghost pad_start = out@;
    while n < 19
        invariant
            n <= 19 || n == key@.len(),
            key@.len() <= n,
            out@ == pad_start + Seq::new((n - key@.len()) as nat, |i: int| ' '),
        decreases 19 - n,
    {
        out.push(' ');
        n = n + 1;
        proof {
            assert(out@ =~= pad_start + Seq::new((n - key@.len()) as nat, |i: int| ' '));
        }
    }
    proof {
        if key@.len() >= 19 {
            assert(out@ =~= pad_start);
            assert(out@ =~= start + pad_right(key@, 19));
        } else {
            assert(out@ =~= start + pad_right(key@, 19));
        }
    }
}

/// Append `{key:<19}: {value}` and a newline.
pub fn push_label_line(out: &mut String, key: &str, value: &str)
    ensures
        final(out)@ == old(out)@ + label_text(key@, value@),
{
    push_key_padded(out, key);
    push_str(out, ": ");
    push_str(out, value);
    push_str(out, "\n");
    proof {
        assert(final(out)@ =~= old(out)@ + label_text(key@, value@));
    }
}

/// The text of label fields, one `{:<19}: {}` line each.
fn render_fields(fields: &Vec<InfoField>, ls: Ghost<Seq<(Seq<char>, Seq<char>)>>) -> (r: String)
    requires
        fields_are(fields@, ls@),
    ensures
        r@ == block_text(ls@),
{
    let mut out = String::new();
    let mut i: usize = 0;
    while i < fields.len()
        invariant
            0 <= i <= fields@.len(),
            fields_are(fields@, ls@),
            out@ == block_text(ls@.take(i as int)),
        decreases fields@.len() - i,
    {
        proof {
            assert(is_label(fields@[i as int], ls@[i as int].0, ls@[i as int].1));
            assert(ls@.take(i + 1).drop_last() =~= ls@.take(i as int));
        }
        match &fields[i] {
            InfoField::Label { key, value } => {
                push_label_line(&mut out, key.as_str(), value.as_str());
            },
            InfoField::Backup(_) => {},
        }
        i = i + 1;
    }
    proof {
        assert(ls@.take(fields@.len() as int) =~= ls@);
    }
    out
}

/// The `-Ii` block: [`describe_fields`] rendered one line each.
pub fn info_block(component: &str, d: &Describe, verbose: bool) -> (r: String)
    ensures
        r@ == block_text(describe_labels(component@, *d, verbose)),
{
    let fields = describe_fields(component, d, verbose);
    render_fields(&fields, Ghost(describe_labels(component@, *d, verbose)))
}

/// The `-If component/<feature>` block: [`feature_fields`] rendered.
pub fn feature_block(id: &str, f: &Feature) -> (r: String)
    ensures
        r@ == block_text(feature_labels(id@, *f)),
{
    let fields = feature_fields(id, f);
    render_fields(&fields, Ghost(feature_labels(id@, *f)))
}

} // verus!
