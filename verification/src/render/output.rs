//! What each report writes, in order: text for stdout, text for stderr, a
//! stderr line after a styled `error:`/`warning:` tag, or raw bytes for
//! stdout. The caller writes each piece to its stream.
use crate::common::fmt::{dec, strings_view};
use crate::images::format::{label_text, list_text, push_label_line};
use crate::report::{
    CheckResult, DbReport, DeptestReport, FilePkg, FilesReport, ImageListRow,
    ImageUpgradeOutcome, ImagesReport, InfoBlock, InfoField, QueryBody, QueryReport,
    RelayReport, RemoveReport, SearchHit, SearchSource, SyncReport, UpgradeReport,
    VersionReport,
};
use crate::text::{push_str, to_owned};
use vstd::prelude::*;

verus! {

/// The styled tag in front of a diagnostic line.
#[derive(PartialEq, Eq, Structural, Clone, Copy, Debug)]
pub enum Tag {
    Error,
    Warning,
}

/// One piece of output.
pub enum Emit {
    /// Text for stdout, newlines included.
    Out(String),
    /// Text for stderr, newlines included.
    Stderr(String),
    /// A stderr line: the tag (`error:` or `warning:`, styled), a space, the
    /// text and a newline.
    Tagged(Tag, String),
    /// Bytes for stdout.
    RawOut(Vec<u8>),
}

/// The content of a piece of output.
pub enum Written {
    Out(Seq<char>),
    Stderr(Seq<char>),
    Tagged(Tag, Seq<char>),
    RawOut(Seq<u8>),
}

pub open spec fn written(e: Emit) -> Written {
    match e {
        Emit::Out(s) => Written::Out(s@),
        Emit::Stderr(s) => Written::Stderr(s@),
        Emit::Tagged(t, s) => Written::Tagged(t, s@),
        Emit::RawOut(b) => Written::RawOut(b@),
    }
}

/// The content of a sequence of output pieces.
pub open spec fn writes(es: Seq<Emit>) -> Seq<Written> {
    es.map_values(|e: Emit| written(e))
}

/// `ls` as stdout lines.
pub open spec fn out_lines(ls: Seq<Seq<char>>) -> Seq<Written> {
    ls.map_values(|l: Seq<char>| Written::Out(l + "\n"@))
}

/// `ls` as stderr lines.
pub open spec fn err_lines(ls: Seq<Seq<char>>) -> Seq<Written> {
    ls.map_values(|l: Seq<char>| Written::Stderr(l + "\n"@))
}

/// `ls` as tagged stderr lines.
pub open spec fn tagged_lines(t: Tag, ls: Seq<Seq<char>>) -> Seq<Written> {
    ls.map_values(|l: Seq<char>| Written::Tagged(t, l))
}

fn emit(out: &mut Vec<Emit>, e: Emit)
    ensures
        writes(final(out)@) == writes(old(out)@).push(written(e)),
{
    out.push(e);
    proof {
        assert(writes(final(out)@) =~= writes(old(out)@).push(written(e)));
    }
}

/// `s` and a newline on stdout.
fn out_line(out: &mut Vec<Emit>, s: &str)
    ensures
        writes(final(out)@) == writes(old(out)@).push(Written::Out(s@ + "\n"@)),
{
    let mut t = to_owned(s);
    push_str(&mut t, "\n");
    emit(out, Emit::Out(t));
}

/// `s` and a newline on stderr.
fn err_line(out: &mut Vec<Emit>, s: &str)
    ensures
        writes(final(out)@) == writes(old(out)@).push(Written::Stderr(s@ + "\n"@)),
{
    let mut t = to_owned(s);
    push_str(&mut t, "\n");
    emit(out, Emit::Stderr(t));
}

/// Each of `ls` as a line on stdout.
fn out_all(out: &mut Vec<Emit>, ls: &Vec<String>)
    ensures
        writes(final(out)@) == writes(old(out)@) + out_lines(strings_view(ls@)),
{
    let ghost start = writes(out@);
    let mut i: usize = 0;
    while i < ls.len()
        invariant
            0 <= i <= ls@.len(),
            writes(out@) == start + out_lines(strings_view(ls@).take(i as int)),
        decreases ls@.len() - i,
    {
        out_line(out, ls[i].as_str());
        proof {
            assert(out_lines(strings_view(ls@).take(i + 1)) =~= out_lines(
                strings_view(ls@).take(i as int),
            ).push(Written::Out(ls@[i as int]@ + "\n"@)));
        }
        i = i + 1;
    }
    proof {
        assert(strings_view(ls@).take(ls@.len() as int) =~= strings_view(ls@));
    }
}

/// Each of `ls` as a line on stderr.
fn err_all(out: &mut Vec<Emit>, ls: &Vec<String>)
    ensures
        writes(final(out)@) == writes(old(out)@) + err_lines(strings_view(ls@)),
{
    let ghost start = writes(out@);
    let mut i: usize = 0;
    while i < ls.len()
        invariant
            0 <= i <= ls@.len(),
            writes(out@) == start + err_lines(strings_view(ls@).take(i as int)),
        decreases ls@.len() - i,
    {
        err_line(out, ls[i].as_str());
        proof {
            assert(err_lines(strings_view(ls@).take(i + 1)) =~= err_lines(
                strings_view(ls@).take(i as int),
            ).push(Written::Stderr(ls@[i as int]@ + "\n"@)));
        }
        i = i + 1;
    }
    proof {
        assert(strings_view(ls@).take(ls@.len() as int) =~= strings_view(ls@));
    }
}

// ---------------------------------------------------------------------------
// Label blocks
// ---------------------------------------------------------------------------

/// What one info field writes: a `{:<19}: {}` line, or the backup header and
/// its lines.
pub open spec fn field_written(f: InfoField) -> Seq<Written> {
    match f {
        InfoField::Label { key, value } => seq![Written::Out(label_text(key@, value@))],
        InfoField::Backup(ls) => seq![Written::Out("Backup Files       :\n"@)] + out_lines(
            strings_view(ls@),
        ),
    }
}

/// What a list of fields writes.
pub open spec fn fields_written(fs: Seq<InfoField>) -> Seq<Written>
    decreases fs.len(),
{
    if fs.len() == 0 {
        seq![]
    } else {
        fields_written(fs.drop_last()) + field_written(fs.last())
    }
}

fn emit_fields(out: &mut Vec<Emit>, fs: &Vec<InfoField>)
    ensures
        writes(final(out)@) == writes(old(out)@) + fields_written(fs@),
{
    let ghost start = writes(out@);
    let mut i: usize = 0;
    while i < fs.len()
        invariant
            0 <= i <= fs@.len(),
            writes(out@) == start + fields_written(fs@.take(i as int)),
        decreases fs@.len() - i,
    {
        proof {
            assert(fs@.take(i + 1).drop_last() =~= fs@.take(i as int));
        }
        let ghost before = writes(out@);
        match &fs[i] {
            InfoField::Label { key, value } => {
                let mut t = String::new();
                push_label_line(&mut t, key.as_str(), value.as_str());
                emit(out, Emit::Out(t));
                proof {
                    assert(t@ =~= label_text(key@, value@));
                }
            },
            InfoField::Backup(ls) => {
                emit(out, Emit::Out(to_owned("Backup Files       :\n")));
                out_all(out, ls);
            },
        }
        proof {
            assert(writes(out@) =~= before + field_written(fs@[i as int]));
            assert(start + fields_written(fs@.take(i + 1)) =~= start + fields_written(
                fs@.take(i as int),
            ) + field_written(fs@[i as int]));
        }
        i = i + 1;
    }
    proof {
        assert(fs@.take(fs@.len() as int) =~= fs@);
    }
}

// ---------------------------------------------------------------------------
// -I
// ---------------------------------------------------------------------------

/// What a relay outcome writes.
pub open spec fn relay_written(r: RelayReport) -> Seq<Written> {
    match r {
        RelayReport::DryRun(plan) => seq![Written::Out(plan@)],
        RelayReport::Relayed { subvol, quiet } => if quiet {
            seq![]
        } else {
            seq![Written::Out("relayed layered packages onto "@ + subvol@ + "\n"@)]
        },
    }
}

/// What an `-Iu` outcome writes.
pub open spec fn upgrade_written(o: ImageUpgradeOutcome) -> Seq<Written> {
    match o {
        ImageUpgradeOutcome::AlreadyUpToDate { name, quiet } => if quiet {
            seq![]
        } else {
            seq![Written::Stderr(name@ + ": already up to date"@ + "\n"@)]
        },
        ImageUpgradeOutcome::Declined => seq![],
        ImageUpgradeOutcome::Done { name, version, host_changed, quiet, relay, .. } => (if quiet {
            seq![]
        } else if host_changed {
            seq![Written::Out(name@ + ": updated to "@ + version@ + "\n"@)]
        } else {
            seq![Written::Out(name@ + ": "@ + version@ + " completed (in place)"@ + "\n"@)]
        }) + match relay {
            Some(r) => relay_written(r),
            None => seq![],
        },
    }
}

/// The `-Il` row texts.
pub open spec fn row_texts(component: Seq<char>, quiet: bool, rows: Seq<ImageListRow>) -> Seq<Seq<char>> {
    rows.map_values(|r: ImageListRow| list_text(component, r.version@, r.installed, r.newest, quiet))
}

/// The `-Ig` row texts.
pub open spec fn component_texts(quiet: bool, rows: Seq<(String, String)>) -> Seq<Seq<char>> {
    rows.map_values(|r: (String, String)| if quiet {
        r.1@
    } else {
        r.0@ + " "@ + r.1@
    })
}

/// What an `-I` report writes.
pub open spec fn images_written(report: ImagesReport) -> Seq<Written> {
    match report {
        ImagesReport::List { component, quiet, rows } => out_lines(row_texts(component@, quiet, rows@)),
        ImagesReport::Json(p) => seq![Written::Out(p@ + "\n"@)],
        ImagesReport::Info(fields) => fields_written(fields@) + seq![Written::Out("\n"@)],
        ImagesReport::CheckNew { name, quiet, newest } => match newest {
            None => if quiet {
                seq![]
            } else {
                seq![Written::Stderr(name@ + ": no newer version available"@ + "\n"@)]
            },
            Some(v) => if quiet {
                seq![Written::Out(v@ + "\n"@)]
            } else {
                seq![Written::Out(name@ + ": "@ + v@ + " available"@ + "\n"@)]
            },
        },
        ImagesReport::Components { quiet, rows } => out_lines(component_texts(quiet, rows@)),
        ImagesReport::Pending { name, quiet, installed, booted_label, installed_label, reboot_due } =>
            if reboot_due {
            if quiet {
                seq![Written::Out(installed@ + "\n"@)]
            } else {
                seq![Written::Out(name@ + ": reboot pending: booted "@ + booted_label@ + ", installed "@
                    + installed_label@ + "\n"@)]
            }
        } else if quiet {
            seq![]
        } else {
            seq![Written::Stderr(name@ + ": no reboot pending (booted "@ + booted_label@ + ")"@ + "\n"@)]
        },
        ImagesReport::FeatureList(fs) => out_lines(strings_view(fs@)),
        ImagesReport::FeatureToggle { name, feature, enabled, quiet } => if quiet {
            seq![]
        } else if enabled {
            seq![Written::Out(name@ + ": enabled feature "@ + feature@ + " (run -Iu to apply)"@ + "\n"@)]
        } else {
            seq![Written::Out(name@ + ": disabled feature "@ + feature@ + " (run -Iu to apply)"@ + "\n"@)]
        },
        ImagesReport::AppStream(urls) => out_lines(strings_view(urls@)),
        ImagesReport::Upgrade(o) => upgrade_written(o),
        ImagesReport::Vacuum { name, quiet, instances, disabled } => if quiet {
            seq![]
        } else {
            seq![Written::Out(name@ + ": removed "@ + dec(instances as nat) + " version(s), disabled "@
                + dec(disabled as nat) + " transfer(s)"@ + "\n"@)]
        },
        ImagesReport::Relay(r) => relay_written(r),
        ImagesReport::Silent => seq![],
    }
}

fn emit_relay(out: &mut Vec<Emit>, r: &RelayReport)
    ensures
        writes(final(out)@) == writes(old(out)@) + relay_written(*r),
{
    let ghost start = writes(out@);
    match r {
        RelayReport::DryRun(plan) => emit(out, Emit::Out(plan.clone())),
        RelayReport::Relayed { subvol, quiet } => {
            if !*quiet {
                let mut t = to_owned("relayed layered packages onto ");
                push_str(&mut t, subvol.as_str());
                out_line(out, t.as_str());
            }
        },
    }
    proof {
        assert(writes(out@) =~= start + relay_written(*r));
    }
}

/// The output of an `-I` report.
pub fn images(report: &ImagesReport) -> (r: Vec<Emit>)
    ensures
        writes(r@) == images_written(*report),
{
    let mut out: Vec<Emit> = Vec::new();
    proof {
        assert(writes(out@) =~= seq![]);
    }
    match report {
        ImagesReport::List { component, quiet, rows } => {
            let mut i: usize = 0;
            while i < rows.len()
                invariant
                    0 <= i <= rows@.len(),
                    writes(out@) == out_lines(row_texts(component@, *quiet, rows@.take(i as int))),
                decreases rows@.len() - i,
            {
                let t = crate::images::format::list_line(
                    component.as_str(),
                    rows[i].version.as_str(),
                    rows[i].installed,
                    rows[i].newest,
                    *quiet,
                );
                out_line(&mut out, t.as_str());
                proof {
                    assert(out_lines(row_texts(component@, *quiet, rows@.take(i + 1))) =~= out_lines(
                        row_texts(component@, *quiet, rows@.take(i as int)),
                    ).push(Written::Out(t@ + "\n"@)));
                }
                i = i + 1;
            }
            proof {
                assert(rows@.take(rows@.len() as int) =~= rows@);
            }
        },
        ImagesReport::Json(p) => out_line(&mut out, p.as_str()),
        ImagesReport::Info(fields) => {
            emit_fields(&mut out, fields);
            emit(&mut out, Emit::Out(to_owned("\n")));
            proof {
                assert(writes(out@) =~= images_written(*report));
            }
        },
        ImagesReport::CheckNew { name, quiet, newest } => match newest {
            None => {
                if !*quiet {
                    let mut t = to_owned(name.as_str());
                    push_str(&mut t, ": no newer version available");
                    err_line(&mut out, t.as_str());
                }
            },
            Some(v) => {
                if *quiet {
                    out_line(&mut out, v.as_str());
                } else {
                    let mut t = to_owned(name.as_str());
                    push_str(&mut t, ": ");
                    push_str(&mut t, v.as_str());
                    push_str(&mut t, " available");
                    out_line(&mut out, t.as_str());
                }
            },
        },
        ImagesReport::Components { quiet, rows } => {
            let mut i: usize = 0;
            while i < rows.len()
                invariant
                    0 <= i <= rows@.len(),
                    writes(out@) == out_lines(component_texts(*quiet, rows@.take(i as int))),
                decreases rows@.len() - i,
            {
                let t = crate::images::format::component_line(
                    rows[i].0.as_str(),
                    rows[i].1.as_str(),
                    *quiet,
                );
                out_line(&mut out, t.as_str());
                proof {
                    assert(out_lines(component_texts(*quiet, rows@.take(i + 1))) =~= out_lines(
                        component_texts(*quiet, rows@.take(i as int)),
                    ).push(Written::Out(t@ + "\n"@)));
                }
                i = i + 1;
            }
            proof {
                assert(rows@.take(rows@.len() as int) =~= rows@);
            }
        },
        ImagesReport::Pending {
            name,
            quiet,
            installed,
            booted_label,
            installed_label,
            reboot_due,
        } => {
            if *reboot_due {
                if *quiet {
                    out_line(&mut out, installed.as_str());
                } else {
                    let mut t = to_owned(name.as_str());
                    push_str(&mut t, ": reboot pending: booted ");
                    push_str(&mut t, booted_label.as_str());
                    push_str(&mut t, ", installed ");
                    push_str(&mut t, installed_label.as_str());
                    out_line(&mut out, t.as_str());
                }
            } else if !*quiet {
                let mut t = to_owned(name.as_str());
                push_str(&mut t, ": no reboot pending (booted ");
                push_str(&mut t, booted_label.as_str());
                push_str(&mut t, ")");
                err_line(&mut out, t.as_str());
            }
            proof {
                assert(writes(out@) =~= images_written(*report));
            }
        },
        ImagesReport::FeatureList(fs) => out_all(&mut out, fs),
        ImagesReport::FeatureToggle { name, feature, enabled, quiet } => {
            if !*quiet {
                let mut t = to_owned(name.as_str());
                if *enabled {
                    push_str(&mut t, ": enabled feature ");
                } else {
                    push_str(&mut t, ": disabled feature ");
                }
                push_str(&mut t, feature.as_str());
                push_str(&mut t, " (run -Iu to apply)");
                out_line(&mut out, t.as_str());
            }
            proof {
                assert(writes(out@) =~= images_written(*report));
            }
        },
        ImagesReport::AppStream(urls) => out_all(&mut out, urls),
        ImagesReport::Upgrade(o) => {
            match o {
                ImageUpgradeOutcome::AlreadyUpToDate { name, quiet } => {
                    if !*quiet {
                        let mut t = to_owned(name.as_str());
                        push_str(&mut t, ": already up to date");
                        err_line(&mut out, t.as_str());
                    }
                },
                ImageUpgradeOutcome::Declined => {},
                ImageUpgradeOutcome::Done { name, version, host_changed, quiet, relay, .. } => {
                    if !*quiet {
                        let mut t = to_owned(name.as_str());
                        if *host_changed {
                            push_str(&mut t, ": updated to ");
                            push_str(&mut t, version.as_str());
                        } else {
                            push_str(&mut t, ": ");
                            push_str(&mut t, version.as_str());
                            push_str(&mut t, " completed (in place)");
                        }
                        out_line(&mut out, t.as_str());
                    }
                    let ghost mid = writes(out@);
                    if let Some(r) = relay {
                        emit_relay(&mut out, r);
                    }
                    proof {
                        assert(writes(out@) =~= mid + match *relay {
                            Some(r) => relay_written(r),
                            None => seq![],
                        });
                    }
                },
            }
        },
        ImagesReport::Vacuum { name, quiet, instances, disabled } => {
            if !*quiet {
                let mut t = to_owned(name.as_str());
                push_str(&mut t, ": removed ");
                crate::common::fmt::push_dec(&mut t, *instances as u64);
                push_str(&mut t, " version(s), disabled ");
                crate::common::fmt::push_dec(&mut t, *disabled as u64);
                push_str(&mut t, " transfer(s)");
                out_line(&mut out, t.as_str());
            }
            proof {
                assert(writes(out@) =~= images_written(*report));
            }
        },
        ImagesReport::Relay(r) => emit_relay(&mut out, r),
        ImagesReport::Silent => {},
    }
    proof {
        assert(writes(out@) =~= images_written(*report));
    }
    out
}

// ---------------------------------------------------------------------------
// -Q
// ---------------------------------------------------------------------------

/// What the info blocks write: each block's fields, then a blank line.
pub open spec fn blocks_written(bs: Seq<InfoBlock>) -> Seq<Written>
    decreases bs.len(),
{
    if bs.len() == 0 {
        seq![]
    } else {
        blocks_written(bs.drop_last()) + fields_written(bs.last().fields@) + seq![Written::Out("\n"@)]
    }
}

/// What the check results write: each result's problems on stderr, then
/// its summary on stdout.
pub open spec fn checks_written(rs: Seq<CheckResult>) -> Seq<Written>
    decreases rs.len(),
{
    if rs.len() == 0 {
        seq![]
    } else {
        checks_written(rs.drop_last()) + err_lines(strings_view(rs.last().problems@)) + seq![
            Written::Out(rs.last().summary@ + "\n"@),
        ]
    }
}

/// What one search hit writes.
pub open spec fn hit_written(quiet: bool, h: SearchHit) -> Seq<Written> {
    if quiet {
        seq![Written::Out(h.name@ + "\n"@)]
    } else {
        match h.source {
            SearchSource::Local => seq![
                Written::Out("local/"@ + h.name@ + " "@ + h.version@ + "\n"@),
                Written::Out("    "@ + h.desc@ + "\n"@),
            ],
            SearchSource::Image => seq![Written::Out("image/"@ + h.name@ + " "@ + h.version@ + "\n"@)]
                + if h.desc@.len() == 0 {
                seq![]
            } else {
                seq![Written::Out("    "@ + h.desc@ + "\n"@)]
            },
        }
    }
}

/// What the search hits write.
pub open spec fn hits_written(quiet: bool, hs: Seq<SearchHit>) -> Seq<Written>
    decreases hs.len(),
{
    if hs.len() == 0 {
        seq![]
    } else {
        hits_written(quiet, hs.drop_last()) + hit_written(quiet, hs.last())
    }
}

/// What a `-Q` body writes.
pub open spec fn query_body_written(body: QueryBody) -> Seq<Written> {
    match body {
        QueryBody::List { quiet, pkgs } => out_lines(
            pkgs@.map_values(|p: crate::report::PkgLine| if quiet {
                p.name@
            } else {
                p.name@ + " "@ + p.version@
            }),
        ),
        QueryBody::Info(blocks) => blocks_written(blocks@),
        QueryBody::Files { quiet, lines } => out_lines(
            lines@.map_values(|l: crate::report::FileLine| if quiet {
                l.file@
            } else {
                l.pkg@ + " "@ + l.file@
            }),
        ),
        QueryBody::Check(results) => checks_written(results@),
        QueryBody::Changelog(entries) => entries@.map_values(|e: String| Written::Out(e@)),
        QueryBody::Search { quiet, hits } => hits_written(quiet, hits@),
        QueryBody::Owns(ls) => out_lines(strings_view(ls@)),
        QueryBody::Groups(ls) => out_lines(strings_view(ls@)),
    }
}

/// What a `-Q` report writes: its body, then its diagnostics on stderr.
pub open spec fn query_written(r: QueryReport) -> Seq<Written> {
    query_body_written(r.body) + err_lines(strings_view(r.diagnostics@))
}

fn emit_hit(out: &mut Vec<Emit>, quiet: bool, h: &SearchHit)
    ensures
        writes(final(out)@) == writes(old(out)@) + hit_written(quiet, *h),
{
    let ghost start = writes(out@);
    if quiet {
        out_line(out, h.name.as_str());
    } else {
        match h.source {
            SearchSource::Local => {
                let mut t = to_owned("local/");
                push_str(&mut t, h.name.as_str());
                push_str(&mut t, " ");
                push_str(&mut t, h.version.as_str());
                out_line(out, t.as_str());
                let mut d = to_owned("    ");
                push_str(&mut d, h.desc.as_str());
                out_line(out, d.as_str());
            },
            SearchSource::Image => {
                let mut t = to_owned("image/");
                push_str(&mut t, h.name.as_str());
                push_str(&mut t, " ");
                push_str(&mut t, h.version.as_str());
                out_line(out, t.as_str());
                if crate::text::chars_of(h.desc.as_str()).len() > 0 {
                    let mut d = to_owned("    ");
                    push_str(&mut d, h.desc.as_str());
                    out_line(out, d.as_str());
                }
            },
        }
    }
    proof {
        assert(writes(out@) =~= start + hit_written(quiet, *h));
    }
}

/// The output of a `-Q` report.
pub fn query(report: &QueryReport) -> (r: Vec<Emit>)
    ensures
        writes(r@) == query_written(*report),
{
    let mut out: Vec<Emit> = Vec::new();
    proof {
        assert(writes(out@) =~= seq![]);
    }
    match &report.body {
        QueryBody::List { quiet, pkgs } => {
            let ghost ts = pkgs@.map_values(|p: crate::report::PkgLine| if *quiet {
                p.name@
            } else {
                p.name@ + " "@ + p.version@
            });
            let mut i: usize = 0;
            while i < pkgs.len()
                invariant
                    0 <= i <= pkgs@.len(),
                    ts == pkgs@.map_values(|p: crate::report::PkgLine| if *quiet {
                        p.name@
                    } else {
                        p.name@ + " "@ + p.version@
                    }),
                    writes(out@) == out_lines(ts.take(i as int)),
                decreases pkgs@.len() - i,
            {
                if *quiet {
                    out_line(&mut out, pkgs[i].name.as_str());
                } else {
                    let mut t = to_owned(pkgs[i].name.as_str());
                    push_str(&mut t, " ");
                    push_str(&mut t, pkgs[i].version.as_str());
                    out_line(&mut out, t.as_str());
                }
                proof {
                    assert(out_lines(ts.take(i + 1)) =~= out_lines(ts.take(i as int)).push(
                        Written::Out(ts[i as int] + "\n"@),
                    ));
                }
                i = i + 1;
            }
            proof {
                assert(ts.take(pkgs@.len() as int) =~= ts);
            }
        },
        QueryBody::Info(blocks) => {
            let mut i: usize = 0;
            while i < blocks.len()
                invariant
                    0 <= i <= blocks@.len(),
                    writes(out@) == blocks_written(blocks@.take(i as int)),
                decreases blocks@.len() - i,
            {
                proof {
                    assert(blocks@.take(i + 1).drop_last() =~= blocks@.take(i as int));
                }
                emit_fields(&mut out, &blocks[i].fields);
                emit(&mut out, Emit::Out(to_owned("\n")));
                i = i + 1;
            }
            proof {
                assert(blocks@.take(blocks@.len() as int) =~= blocks@);
            }
        },
        QueryBody::Files { quiet, lines } => {
            let ghost ts = lines@.map_values(|l: crate::report::FileLine| if *quiet {
                l.file@
            } else {
                l.pkg@ + " "@ + l.file@
            });
            let mut i: usize = 0;
            while i < lines.len()
                invariant
                    0 <= i <= lines@.len(),
                    ts == lines@.map_values(|l: crate::report::FileLine| if *quiet {
                        l.file@
                    } else {
                        l.pkg@ + " "@ + l.file@
                    }),
                    writes(out@) == out_lines(ts.take(i as int)),
                decreases lines@.len() - i,
            {
                if *quiet {
                    out_line(&mut out, lines[i].file.as_str());
                } else {
                    let mut t = to_owned(lines[i].pkg.as_str());
                    push_str(&mut t, " ");
                    push_str(&mut t, lines[i].file.as_str());
                    out_line(&mut out, t.as_str());
                }
                proof {
                    assert(out_lines(ts.take(i + 1)) =~= out_lines(ts.take(i as int)).push(
                        Written::Out(ts[i as int] + "\n"@),
                    ));
                }
                i = i + 1;
            }
            proof {
                assert(ts.take(lines@.len() as int) =~= ts);
            }
        },
        QueryBody::Check(results) => {
            let mut i: usize = 0;
            while i < results.len()
                invariant
                    0 <= i <= results@.len(),
                    writes(out@) == checks_written(results@.take(i as int)),
                decreases results@.len() - i,
            {
                proof {
                    assert(results@.take(i + 1).drop_last() =~= results@.take(i as int));
                }
                err_all(&mut out, &results[i].problems);
                out_line(&mut out, results[i].summary.as_str());
                i = i + 1;
            }
            proof {
                assert(results@.take(results@.len() as int) =~= results@);
            }
        },
        QueryBody::Changelog(entries) => {
            let mut i: usize = 0;
            while i < entries.len()
                invariant
                    0 <= i <= entries@.len(),
                    writes(out@) == entries@.take(i as int).map_values(|e: String| Written::Out(e@)),
                decreases entries@.len() - i,
            {
                emit(&mut out, Emit::Out(entries[i].clone()));
                proof {
                    assert(entries@.take(i + 1).map_values(|e: String| Written::Out(e@))
                        =~= entries@.take(i as int).map_values(|e: String| Written::Out(e@)).push(
                        Written::Out(entries@[i as int]@),
                    ));
                }
                i = i + 1;
            }
            proof {
                assert(entries@.take(entries@.len() as int) =~= entries@);
            }
        },
        QueryBody::Search { quiet, hits } => {
            let mut i: usize = 0;
            while i < hits.len()
                invariant
                    0 <= i <= hits@.len(),
                    writes(out@) == hits_written(*quiet, hits@.take(i as int)),
                decreases hits@.len() - i,
            {
                proof {
                    assert(hits@.take(i + 1).drop_last() =~= hits@.take(i as int));
                }
                emit_hit(&mut out, *quiet, &hits[i]);
                i = i + 1;
            }
            proof {
                assert(hits@.take(hits@.len() as int) =~= hits@);
            }
        },
        QueryBody::Owns(ls) => out_all(&mut out, ls),
        QueryBody::Groups(ls) => out_all(&mut out, ls),
    }
    err_all(&mut out, &report.diagnostics);
    out
}

// ---------------------------------------------------------------------------
// -F
// ---------------------------------------------------------------------------

/// The text `String::from_utf8_lossy` makes of `bytes`.
pub uninterp spec fn lossy_text(bytes: Seq<u8>) -> Seq<char>;

/// `String::from_utf8_lossy`: the text of `bytes`, invalid sequences
/// replaced; valid UTF-8 decodes to exactly its characters.
#[verifier::external_body]
pub(crate) fn utf8_lossy(bytes: &[u8]) -> (r: String)
    ensures
        r@ == lossy_text(bytes@),
        vstd::utf8::valid_utf8(bytes@) ==> r@ == vstd::utf8::decode_utf8(bytes@),
{
    String::from_utf8_lossy(bytes).into_owned()
}

/// One `--machinereadable` record: database, package, version and file
/// name, NUL-separated, then a newline.
pub open spec fn machine_record(db: Seq<char>, pkg: Seq<char>, version: Seq<char>, file: Seq<u8>) -> Seq<u8> {
    vstd::utf8::encode_utf8(db) + seq![0u8] + vstd::utf8::encode_utf8(pkg) + seq![0u8]
        + vstd::utf8::encode_utf8(version) + seq![0u8] + file + seq![10u8]
}

/// The machine records of a package's files.
pub open spec fn machine_written(p: FilePkg) -> Seq<Written> {
    p.files@.map_values(|f: Vec<u8>| Written::RawOut(machine_record(p.db@, p.pkg@, p.version@, f@)))
}

/// Each file as a stdout line: `prefix`, the file name's text, `suffix`.
pub open spec fn file_lines(fs: Seq<Vec<u8>>, prefix: Seq<char>, suffix: Seq<char>) -> Seq<Written> {
    fs.map_values(|f: Vec<u8>| Written::Out(prefix + lossy_text(f@) + suffix + "\n"@))
}

/// What one listed package writes (`-Fl`).
pub open spec fn listed_written(machine: bool, quiet: bool, p: FilePkg) -> Seq<Written> {
    if machine {
        machine_written(p)
    } else if quiet {
        file_lines(p.files@, seq![], seq![])
    } else {
        file_lines(p.files@, p.pkg@ + " "@, seq![])
    }
}

/// What one match writes (`-F`/`-Fx`).
pub open spec fn match_written(machine: bool, quiet: bool, p: FilePkg) -> Seq<Written> {
    if machine {
        machine_written(p)
    } else if quiet {
        seq![Written::Out(p.db@ + "/"@ + p.pkg@ + "\n"@)]
    } else if p.exact_file {
        file_lines(p.files@, seq![], " is owned by "@ + p.db@ + "/"@ + p.pkg@ + " "@ + p.version@)
    } else {
        seq![Written::Out(p.db@ + "/"@ + p.pkg@ + " "@ + p.version@ + "\n"@)] + file_lines(
            p.files@,
            "    "@,
            seq![],
        )
    }
}

/// What a sequence of packages writes, each by `f`.
pub open spec fn each_written(ps: Seq<FilePkg>, f: spec_fn(FilePkg) -> Seq<Written>) -> Seq<Written>
    decreases ps.len(),
{
    if ps.len() == 0 {
        seq![]
    } else {
        each_written(ps.drop_last(), f) + f(ps.last())
    }
}

/// What a `-F` report writes.
pub open spec fn files_written(r: FilesReport) -> Seq<Written> {
    match r {
        FilesReport::List { machine, quiet, pkgs, diagnostics, .. } => each_written(
            pkgs@,
            |p: FilePkg| listed_written(machine, quiet, p),
        ) + err_lines(strings_view(diagnostics@)),
        FilesReport::Search { machine, quiet, matches, .. } => each_written(
            matches@,
            |p: FilePkg| match_written(machine, quiet, p),
        ),
    }
}

fn push_bytes(out: &mut Vec<u8>, b: &[u8])
    ensures
        final(out)@ == old(out)@ + b@,
{
    let mut i: usize = 0;
    while i < b.len()
        invariant
            0 <= i <= b@.len(),
            out@ == old(out)@ + b@.take(i as int),
        decreases b@.len() - i,
    {
        out.push(b[i]);
        proof {
            assert(b@.take(i + 1) =~= b@.take(i as int).push(b@[i as int]));
        }
        i = i + 1;
    }
    proof {
        assert(b@.take(b@.len() as int) =~= b@);
    }
}

fn machine_bytes(db: &str, pkg: &str, version: &str, file: &Vec<u8>) -> (r: Vec<u8>)
    ensures
        r@ == machine_record(db@, pkg@, version@, file@),
{
    let mut v: Vec<u8> = Vec::new();
    push_bytes(&mut v, db.as_bytes());
    v.push(0u8);
    push_bytes(&mut v, pkg.as_bytes());
    v.push(0u8);
    push_bytes(&mut v, version.as_bytes());
    v.push(0u8);
    push_bytes(&mut v, file.as_slice());
    v.push(10u8);
    proof {
        assert(v@ =~= machine_record(db@, pkg@, version@, file@));
    }
    v
}

fn emit_machine(out: &mut Vec<Emit>, p: &FilePkg)
    ensures
        writes(final(out)@) == writes(old(out)@) + machine_written(*p),
{
    let ghost start = writes(out@);
    let mut i: usize = 0;
    while i < p.files.len()
        invariant
            0 <= i <= p.files@.len(),
            writes(out@) == start + p.files@.take(i as int).map_values(
                |f: Vec<u8>| Written::RawOut(machine_record(p.db@, p.pkg@, p.version@, f@)),
            ),
        decreases p.files@.len() - i,
    {
        let rec = machine_bytes(p.db.as_str(), p.pkg.as_str(), p.version.as_str(), &p.files[i]);
        emit(out, Emit::RawOut(rec));
        proof {
            assert(p.files@.take(i + 1).map_values(
                |f: Vec<u8>| Written::RawOut(machine_record(p.db@, p.pkg@, p.version@, f@)),
            ) =~= p.files@.take(i as int).map_values(
                |f: Vec<u8>| Written::RawOut(machine_record(p.db@, p.pkg@, p.version@, f@)),
            ).push(Written::RawOut(machine_record(p.db@, p.pkg@, p.version@, p.files@[i as int]@))));
        }
        i = i + 1;
    }
    proof {
        assert(p.files@.take(p.files@.len() as int) =~= p.files@);
    }
}

/// Each file of `p`, as `prefix`, the file's text, `suffix` and a newline.
fn emit_file_lines(out: &mut Vec<Emit>, p: &FilePkg, prefix: &str, suffix: &str)
    ensures
        writes(final(out)@) == writes(old(out)@) + file_lines(p.files@, prefix@, suffix@),
{
    let ghost start = writes(out@);
    let mut i: usize = 0;
    while i < p.files.len()
        invariant
            0 <= i <= p.files@.len(),
            writes(out@) == start + p.files@.take(i as int).map_values(
                |f: Vec<u8>| Written::Out(prefix@ + lossy_text(f@) + suffix@ + "\n"@),
            ),
        decreases p.files@.len() - i,
    {
        let name = utf8_lossy(p.files[i].as_slice());
        let mut t = to_owned(prefix);
        push_str(&mut t, name.as_str());
        push_str(&mut t, suffix);
        out_line(out, t.as_str());
        proof {
            assert(p.files@.take(i + 1).map_values(
                |f: Vec<u8>| Written::Out(prefix@ + lossy_text(f@) + suffix@ + "\n"@),
            ) =~= p.files@.take(i as int).map_values(
                |f: Vec<u8>| Written::Out(prefix@ + lossy_text(f@) + suffix@ + "\n"@),
            ).push(Written::Out(prefix@ + lossy_text(p.files@[i as int]@) + suffix@ + "\n"@)));
        }
        i = i + 1;
    }
    proof {
        assert(p.files@.take(p.files@.len() as int) =~= p.files@);
        assert(writes(out@) =~= start + file_lines(p.files@, prefix@, suffix@));
    }
}

fn emit_listed(out: &mut Vec<Emit>, machine: bool, quiet: bool, p: &FilePkg)
    ensures
        writes(final(out)@) == writes(old(out)@) + listed_written(machine, quiet, *p),
{
    if machine {
        emit_machine(out, p);
    } else if quiet {
        let none = String::new();
        emit_file_lines(out, p, none.as_str(), none.as_str());
    } else {
        let prefix = crate::text::concat2(p.pkg.as_str(), " ");
        let none = String::new();
        emit_file_lines(out, p, prefix.as_str(), none.as_str());
    }
}

fn emit_match(out: &mut Vec<Emit>, machine: bool, quiet: bool, p: &FilePkg)
    ensures
        writes(final(out)@) == writes(old(out)@) + match_written(machine, quiet, *p),
{
    let ghost start = writes(out@);
    if machine {
        emit_machine(out, p);
    } else if quiet {
        let mut t = to_owned(p.db.as_str());
        push_str(&mut t, "/");
        push_str(&mut t, p.pkg.as_str());
        out_line(out, t.as_str());
        proof {
            assert(writes(out@) =~= start + match_written(machine, quiet, *p));
        }
    } else if p.exact_file {
        let mut t = to_owned(" is owned by ");
        push_str(&mut t, p.db.as_str());
        push_str(&mut t, "/");
        push_str(&mut t, p.pkg.as_str());
        push_str(&mut t, " ");
        push_str(&mut t, p.version.as_str());
        let none = String::new();
        emit_file_lines(out, p, none.as_str(), t.as_str());
    } else {
        let mut t = to_owned(p.db.as_str());
        push_str(&mut t, "/");
        push_str(&mut t, p.pkg.as_str());
        push_str(&mut t, " ");
        push_str(&mut t, p.version.as_str());
        out_line(out, t.as_str());
        let none = String::new();
        emit_file_lines(out, p, "    ", none.as_str());
        proof {
            assert(writes(out@) =~= start + match_written(machine, quiet, *p));
        }
    }
}

/// The output of a `-F` report.
pub fn files(report: &FilesReport) -> (r: Vec<Emit>)
    ensures
        writes(r@) == files_written(*report),
{
    let mut out: Vec<Emit> = Vec::new();
    proof {
        assert(writes(out@) =~= seq![]);
    }
    match report {
        FilesReport::List { machine, quiet, pkgs, diagnostics, .. } => {
            let ghost f = |p: FilePkg| listed_written(*machine, *quiet, p);
            let mut i: usize = 0;
            while i < pkgs.len()
                invariant
                    0 <= i <= pkgs@.len(),
                    f == (|p: FilePkg| listed_written(*machine, *quiet, p)),
                    writes(out@) == each_written(pkgs@.take(i as int), f),
                decreases pkgs@.len() - i,
            {
                proof {
                    assert(pkgs@.take(i + 1).drop_last() =~= pkgs@.take(i as int));
                }
                emit_listed(&mut out, *machine, *quiet, &pkgs[i]);
                i = i + 1;
            }
            proof {
                assert(pkgs@.take(pkgs@.len() as int) =~= pkgs@);
            }
            err_all(&mut out, diagnostics);
        },
        FilesReport::Search { machine, quiet, matches, .. } => {
            let ghost f = |p: FilePkg| match_written(*machine, *quiet, p);
            let mut i: usize = 0;
            while i < matches.len()
                invariant
                    0 <= i <= matches@.len(),
                    f == (|p: FilePkg| match_written(*machine, *quiet, p)),
                    writes(out@) == each_written(matches@.take(i as int), f),
                decreases matches@.len() - i,
            {
                proof {
                    assert(matches@.take(i + 1).drop_last() =~= matches@.take(i as int));
                }
                emit_match(&mut out, *machine, *quiet, &matches[i]);
                i = i + 1;
            }
            proof {
                assert(matches@.take(matches@.len() as int) =~= matches@);
            }
        },
    }
    out
}

// ---------------------------------------------------------------------------
// -S, -R, -U, -D, -T, -V
// ---------------------------------------------------------------------------

/// What a `-S` report writes.
pub open spec fn sync_written(r: SyncReport) -> Seq<Written> {
    match r {
        SyncReport::Search { lines } => out_lines(strings_view(lines@)),
        SyncReport::Listing { lines, diagnostics, .. } => out_lines(strings_view(lines@))
            + tagged_lines(Tag::Error, strings_view(diagnostics@)),
        SyncReport::Clean { removed } => seq![
            Written::Stderr("removed "@ + dec(removed as nat) + " package file(s) from cache"@ + "\n"@),
        ],
        SyncReport::Print { lines, release_warning } => out_lines(strings_view(lines@)) + match release_warning {
            Some(w) => seq![Written::Tagged(Tag::Warning, w@)],
            None => seq![],
        },
        SyncReport::Done => seq![],
    }
}

fn emit_tagged_all(out: &mut Vec<Emit>, t: Tag, ls: &Vec<String>)
    ensures
        writes(final(out)@) == writes(old(out)@) + tagged_lines(t, strings_view(ls@)),
{
    let ghost start = writes(out@);
    let mut i: usize = 0;
    while i < ls.len()
        invariant
            0 <= i <= ls@.len(),
            writes(out@) == start + tagged_lines(t, strings_view(ls@).take(i as int)),
        decreases ls@.len() - i,
    {
        emit(out, Emit::Tagged(t, ls[i].clone()));
        proof {
            assert(tagged_lines(t, strings_view(ls@).take(i + 1)) =~= tagged_lines(
                t,
                strings_view(ls@).take(i as int),
            ).push(Written::Tagged(t, ls@[i as int]@)));
        }
        i = i + 1;
    }
    proof {
        assert(strings_view(ls@).take(ls@.len() as int) =~= strings_view(ls@));
    }
}

/// The output of a `-S` report.
pub fn sync(report: &SyncReport) -> (r: Vec<Emit>)
    ensures
        writes(r@) == sync_written(*report),
{
    let mut out: Vec<Emit> = Vec::new();
    proof {
        assert(writes(out@) =~= seq![]);
    }
    match report {
        SyncReport::Search { lines } => out_all(&mut out, lines),
        SyncReport::Listing { lines, diagnostics, .. } => {
            out_all(&mut out, lines);
            emit_tagged_all(&mut out, Tag::Error, diagnostics);
        },
        SyncReport::Clean { removed } => {
            let mut t = to_owned("removed ");
            crate::common::fmt::push_dec(&mut t, *removed);
            push_str(&mut t, " package file(s) from cache");
            err_line(&mut out, t.as_str());
        },
        SyncReport::Print { lines, release_warning } => {
            out_all(&mut out, lines);
            if let Some(w) = release_warning {
                emit(&mut out, Emit::Tagged(Tag::Warning, w.clone()));
            }
        },
        SyncReport::Done => {},
    }
    proof {
        assert(writes(out@) =~= sync_written(*report));
    }
    out
}

/// What the `--print` lines and the release warning of `-R`/`-U` write
/// (the warning untagged, as `warning: ` text).
pub open spec fn print_written(lines: Seq<String>, release_warning: Option<String>) -> Seq<Written> {
    out_lines(strings_view(lines)) + match release_warning {
        Some(w) => seq![Written::Stderr("warning: "@ + w@ + "\n"@)],
        None => seq![],
    }
}

fn emit_print(out: &mut Vec<Emit>, lines: &Vec<String>, release_warning: &Option<String>)
    ensures
        writes(final(out)@) == writes(old(out)@) + print_written(lines@, *release_warning),
{
    let ghost start = writes(out@);
    out_all(out, lines);
    if let Some(w) = release_warning {
        let t = crate::text::concat2("warning: ", w.as_str());
        err_line(out, t.as_str());
    }
    proof {
        assert(writes(out@) =~= start + print_written(lines@, *release_warning));
    }
}

/// What a `-R` report writes.
pub open spec fn remove_written(r: RemoveReport) -> Seq<Written> {
    match r {
        RemoveReport::Print { lines, release_warning } => print_written(lines@, release_warning),
        RemoveReport::Done => seq![],
    }
}

/// The output of a `-R` report.
pub fn remove(report: &RemoveReport) -> (r: Vec<Emit>)
    ensures
        writes(r@) == remove_written(*report),
{
    let mut out: Vec<Emit> = Vec::new();
    proof {
        assert(writes(out@) =~= seq![]);
    }
    match report {
        RemoveReport::Print { lines, release_warning } => emit_print(&mut out, lines, release_warning),
        RemoveReport::Done => {},
    }
    proof {
        assert(writes(out@) =~= remove_written(*report));
    }
    out
}

/// What a `-U` report writes.
pub open spec fn upgrade_report_written(r: UpgradeReport) -> Seq<Written> {
    match r {
        UpgradeReport::Print { lines, release_warning } => print_written(lines@, release_warning),
        UpgradeReport::Done => seq![],
    }
}

/// The output of a `-U` report.
pub fn upgrade(report: &UpgradeReport) -> (r: Vec<Emit>)
    ensures
        writes(r@) == upgrade_report_written(*report),
{
    let mut out: Vec<Emit> = Vec::new();
    proof {
        assert(writes(out@) =~= seq![]);
    }
    match report {
        UpgradeReport::Print { lines, release_warning } => emit_print(&mut out, lines, release_warning),
        UpgradeReport::Done => {},
    }
    proof {
        assert(writes(out@) =~= upgrade_report_written(*report));
    }
    out
}

/// What a `-D` report writes.
pub open spec fn database_written(r: DbReport) -> Seq<Written> {
    match r {
        DbReport::Check { problems, count, quiet } => err_lines(strings_view(problems@)) + if count
            == 0 && !quiet {
            seq![Written::Out("No database errors have been found!"@ + "\n"@)]
        } else {
            seq![]
        },
        DbReport::SetReason { confirmations, .. } => err_lines(strings_view(confirmations@)),
    }
}

/// The output of a `-D` report.
pub fn database(report: &DbReport) -> (r: Vec<Emit>)
    ensures
        writes(r@) == database_written(*report),
{
    let mut out: Vec<Emit> = Vec::new();
    proof {
        assert(writes(out@) =~= seq![]);
    }
    match report {
        DbReport::Check { problems, count, quiet } => {
            err_all(&mut out, problems);
            if *count == 0 && !*quiet {
                out_line(&mut out, "No database errors have been found!");
            }
        },
        DbReport::SetReason { confirmations, .. } => err_all(&mut out, confirmations),
    }
    proof {
        assert(writes(out@) =~= database_written(*report));
    }
    out
}

/// The output of a `-T` report: each missing dependency on stdout.
pub fn deptest(report: &DeptestReport) -> (r: Vec<Emit>)
    ensures
        writes(r@) == out_lines(strings_view(report.missing@)),
{
    let mut out: Vec<Emit> = Vec::new();
    proof {
        assert(writes(out@) =~= seq![]);
    }
    out_all(&mut out, &report.missing);
    out
}

/// The `-V` banner.
pub open spec fn version_text(miz: Seq<char>, alpm: Seq<char>) -> Seq<char> {
    " .--.                  miz v"@ + miz + " - libalpm v"@ + alpm
        + "\n/ _.-' .-.  .-.  .-.   Archetype Linux package manager\n\\  '-. '-'  '-'  '-'\n '--'\n                       This program may be freely redistributed under\n                       the terms of the GNU General Public License.\n"@
}

/// The output of `-V`.
pub fn version(report: &VersionReport) -> (r: Vec<Emit>)
    ensures
        writes(r@) == seq![Written::Out(version_text(report.miz@, report.alpm@))],
{
    let mut t = to_owned(" .--.                  miz v");
    push_str(&mut t, report.miz.as_str());
    push_str(&mut t, " - libalpm v");
    push_str(&mut t, report.alpm.as_str());
    push_str(
        &mut t,
        "\n/ _.-' .-.  .-.  .-.   Archetype Linux package manager\n\\  '-. '-'  '-'  '-'\n '--'\n                       This program may be freely redistributed under\n                       the terms of the GNU General Public License.\n",
    );
    let mut out: Vec<Emit> = Vec::new();
    emit(&mut out, Emit::Out(t));
    proof {
        assert(writes(out@) =~= seq![Written::Out(version_text(report.miz@, report.alpm@))]);
    }
    out
}


// ---------------------------------------------------------------------------
// Laws of the listings
// ---------------------------------------------------------------------------

/// `-Q` lists one stdout line per package, in order, then the diagnostics:
/// the package's name alone with `-q`, else its name, one space and its
/// version.
pub proof fn law_query_list_lines(r: QueryReport)
    requires
        r.body is List,
    ensures
        ({
            let quiet = r.body->List_quiet;
            let pkgs = r.body->List_pkgs@;
            &&& query_written(r).len() == pkgs.len() + r.diagnostics@.len()
            &&& forall|i: int|
                0 <= i < pkgs.len() ==> #[trigger] query_written(r)[i] == Written::Out(
                    if quiet {
                        pkgs[i].name@ + "\n"@
                    } else {
                        pkgs[i].name@ + " "@ + pkgs[i].version@ + "\n"@
                    },
                )
            &&& quiet ==> forall|i: int|
                0 <= i < pkgs.len() ==> query_written(r)[i] == Written::Out(pkgs[i].name@ + "\n"@)
            &&& !quiet ==> forall|i: int|
                0 <= i < pkgs.len() ==> query_written(r)[i] == Written::Out(
                    pkgs[i].name@ + " "@ + pkgs[i].version@ + "\n"@,
                )
        }),
{
    let quiet = r.body->List_quiet;
    let pkgs = r.body->List_pkgs@;
    let body = query_body_written(r.body);
    assert(body.len() == pkgs.len());
    assert forall|i: int| 0 <= i < pkgs.len() implies #[trigger] query_written(r)[i] == Written::Out(
        if quiet {
            pkgs[i].name@ + "\n"@
        } else {
            pkgs[i].name@ + " "@ + pkgs[i].version@ + "\n"@
        },
    ) by {
        assert(query_written(r)[i] == body[i]);
    }
}

/// A `-Qs` report with one more local hit, and no diagnostics before,
/// writes what it wrote before, then `local/<name> <version>` and the
/// description indented by four spaces, then its diagnostics.
pub proof fn law_query_search_local_hit(r1: QueryReport, r2: QueryReport, h: SearchHit)
    requires
        r1.body matches QueryBody::Search { quiet, hits } && !quiet,
        r2.body matches QueryBody::Search { quiet, hits } && !quiet,
        r2.body->Search_hits@ == r1.body->Search_hits@.push(h),
        h.source == SearchSource::Local,
        r1.diagnostics@.len() == 0,
    ensures
        query_written(r2) == query_written(r1) + seq![
            Written::Out("local/"@ + h.name@ + " "@ + h.version@ + "\n"@),
            Written::Out("    "@ + h.desc@ + "\n"@),
        ] + err_lines(strings_view(r2.diagnostics@)),
{
    let hs = r2.body->Search_hits@;
    assert(hs.drop_last() =~= r1.body->Search_hits@);
    assert(err_lines(strings_view(r1.diagnostics@)) =~= seq![]);
    assert(query_written(r1) =~= hits_written(false, r1.body->Search_hits@));
}

/// A `-F` search report (not machine-readable, not quiet) with one more
/// match on an exact path writes what it wrote before, then one line per
/// file of the match: the file name, ` is owned by `, the database, `/`,
/// the package, one space and its version.
pub proof fn law_files_owned_by(r1: FilesReport, r2: FilesReport, p: FilePkg)
    requires
        r1 matches FilesReport::Search { machine, quiet, .. } && !machine && !quiet,
        r2 matches FilesReport::Search { machine, quiet, .. } && !machine && !quiet,
        r2->Search_matches@ == r1->Search_matches@.push(p),
        p.exact_file,
    ensures
        files_written(r2) == files_written(r1) + p.files@.map_values(
            |f: Vec<u8>|
                Written::Out(
                    lossy_text(f@) + " is owned by "@ + p.db@ + "/"@ + p.pkg@ + " "@ + p.version@ + "\n"@,
                ),
        ),
{
    let ms = r2->Search_matches@;
    assert(ms.drop_last() =~= r1->Search_matches@);
    let lines = p.files@.map_values(
        |f: Vec<u8>|
            Written::Out(
                lossy_text(f@) + " is owned by "@ + p.db@ + "/"@ + p.pkg@ + " "@ + p.version@ + "\n"@,
            ),
    );
    let mine = file_lines(p.files@, seq![], " is owned by "@ + p.db@ + "/"@ + p.pkg@ + " "@ + p.version@);
    assert forall|i: int| 0 <= i < lines.len() implies lines[i] == mine[i] by {
        assert(seq![] + lossy_text(p.files@[i]@) + (" is owned by "@ + p.db@ + "/"@ + p.pkg@ + " "@ + p.version@)
            + "\n"@ =~= lossy_text(p.files@[i]@) + " is owned by "@ + p.db@ + "/"@ + p.pkg@ + " "@ + p.version@
            + "\n"@);
    }
    assert(lines =~= mine);
}

/// A `-Fl` report (not machine-readable, not quiet) with one more package,
/// and no diagnostics before, writes what it wrote before, then one line per
/// file of the package: the package's name, one space and the file name;
/// then its diagnostics.
pub proof fn law_files_list_lines(r1: FilesReport, r2: FilesReport, p: FilePkg)
    requires
        r1 matches FilesReport::List { machine, quiet, .. } && !machine && !quiet,
        r2 matches FilesReport::List { machine, quiet, .. } && !machine && !quiet,
        r2->List_pkgs@ == r1->List_pkgs@.push(p),
        r1->List_diagnostics@.len() == 0,
    ensures
        files_written(r2) == files_written(r1) + p.files@.map_values(
            |f: Vec<u8>| Written::Out(p.pkg@ + " "@ + lossy_text(f@) + "\n"@),
        ) + err_lines(strings_view(r2->List_diagnostics@)),
{
    let ps = r2->List_pkgs@;
    assert(ps.drop_last() =~= r1->List_pkgs@);
    assert(err_lines(strings_view(r1->List_diagnostics@)) =~= seq![]);
    let lines = p.files@.map_values(|f: Vec<u8>| Written::Out(p.pkg@ + " "@ + lossy_text(f@) + "\n"@));
    let mine = file_lines(p.files@, p.pkg@ + " "@, seq![]);
    assert forall|i: int| 0 <= i < lines.len() implies lines[i] == mine[i] by {
        assert((p.pkg@ + " "@) + lossy_text(p.files@[i]@) + seq![] + "\n"@ =~= p.pkg@ + " "@ + lossy_text(
            p.files@[i]@,
        ) + "\n"@);
    }
    assert(lines =~= mine);
}


/// A `-Qs` report with one more hit, and no diagnostics before, writes what
/// it wrote before, then the hit: with `-q` its name alone; else
/// `local/<name> <version>` (or `image/...` for a package of the image) and
/// the description indented by four spaces (an image package's only when it
/// has one); then its diagnostics.
pub proof fn law_query_search_hit(r1: QueryReport, r2: QueryReport, h: SearchHit)
    requires
        r1.body is Search,
        r2.body is Search,
        r1.body->Search_quiet == r2.body->Search_quiet,
        r2.body->Search_hits@ == r1.body->Search_hits@.push(h),
        r1.diagnostics@.len() == 0,
    ensures
        query_written(r2) == query_written(r1) + (if r1.body->Search_quiet {
            seq![Written::Out(h.name@ + "\n"@)]
        } else if h.source == SearchSource::Local {
            seq![
                Written::Out("local/"@ + h.name@ + " "@ + h.version@ + "\n"@),
                Written::Out("    "@ + h.desc@ + "\n"@),
            ]
        } else if h.desc@.len() == 0 {
            seq![Written::Out("image/"@ + h.name@ + " "@ + h.version@ + "\n"@)]
        } else {
            seq![
                Written::Out("image/"@ + h.name@ + " "@ + h.version@ + "\n"@),
                Written::Out("    "@ + h.desc@ + "\n"@),
            ]
        }) + err_lines(strings_view(r2.diagnostics@)),
{
    let hs = r2.body->Search_hits@;
    assert(hs.drop_last() =~= r1.body->Search_hits@);
    assert(err_lines(strings_view(r1.diagnostics@)) =~= seq![]);
    assert(query_written(r1) =~= hits_written(r1.body->Search_quiet, r1.body->Search_hits@));
    if !r1.body->Search_quiet && h.source == SearchSource::Image && h.desc@.len() > 0 {
        assert(seq![Written::Out("image/"@ + h.name@ + " "@ + h.version@ + "\n"@)] + seq![
            Written::Out("    "@ + h.desc@ + "\n"@),
        ] =~= seq![
            Written::Out("image/"@ + h.name@ + " "@ + h.version@ + "\n"@),
            Written::Out("    "@ + h.desc@ + "\n"@),
        ]);
    }
    if !r1.body->Search_quiet && h.source == SearchSource::Image && h.desc@.len() == 0 {
        assert(seq![Written::Out("image/"@ + h.name@ + " "@ + h.version@ + "\n"@)] + seq![] =~= seq![
            Written::Out("image/"@ + h.name@ + " "@ + h.version@ + "\n"@),
        ]);
    }
}

/// A `-F` search report with one more match writes what it wrote before,
/// then the match: machine-readable, one record per file (database,
/// package, version, file name, NUL-separated, then a newline); with `-q`,
/// `<db>/<pkg>`; for an exact path, `<file> is owned by <db>/<pkg>
/// <version>` per file; else `<db>/<pkg> <version>` and each file indented
/// by four spaces.
pub proof fn law_files_search_match(r1: FilesReport, r2: FilesReport, p: FilePkg)
    requires
        r1 is Search,
        r2 is Search,
        r1->Search_machine == r2->Search_machine,
        r1->Search_quiet == r2->Search_quiet,
        r2->Search_matches@ == r1->Search_matches@.push(p),
    ensures
        files_written(r2) == files_written(r1) + (if r1->Search_machine {
            p.files@.map_values(
                |f: Vec<u8>|
                    Written::RawOut(
                        vstd::utf8::encode_utf8(p.db@) + seq![0u8] + vstd::utf8::encode_utf8(p.pkg@) + seq![0u8]
                            + vstd::utf8::encode_utf8(p.version@) + seq![0u8] + f@ + seq![10u8],
                    ),
            )
        } else if r1->Search_quiet {
            seq![Written::Out(p.db@ + "/"@ + p.pkg@ + "\n"@)]
        } else if p.exact_file {
            p.files@.map_values(
                |f: Vec<u8>|
                    Written::Out(
                        lossy_text(f@) + " is owned by "@ + p.db@ + "/"@ + p.pkg@ + " "@ + p.version@ + "\n"@,
                    ),
            )
        } else {
            seq![Written::Out(p.db@ + "/"@ + p.pkg@ + " "@ + p.version@ + "\n"@)] + p.files@.map_values(
                |f: Vec<u8>| Written::Out("    "@ + lossy_text(f@) + "\n"@),
            )
        }),
{
    let ms = r2->Search_matches@;
    assert(ms.drop_last() =~= r1->Search_matches@);
    let m = match_written(r1->Search_machine, r1->Search_quiet, p);
    if r1->Search_machine {
        let e = p.files@.map_values(
            |f: Vec<u8>|
                Written::RawOut(
                    vstd::utf8::encode_utf8(p.db@) + seq![0u8] + vstd::utf8::encode_utf8(p.pkg@) + seq![0u8]
                        + vstd::utf8::encode_utf8(p.version@) + seq![0u8] + f@ + seq![10u8],
                ),
        );
        assert(e =~= m);
    } else if !r1->Search_quiet && p.exact_file {
        let e = p.files@.map_values(
            |f: Vec<u8>|
                Written::Out(
                    lossy_text(f@) + " is owned by "@ + p.db@ + "/"@ + p.pkg@ + " "@ + p.version@ + "\n"@,
                ),
        );
        assert forall|i: int| 0 <= i < e.len() implies e[i] == m[i] by {
            assert(seq![] + lossy_text(p.files@[i]@) + (" is owned by "@ + p.db@ + "/"@ + p.pkg@ + " "@
                + p.version@) + "\n"@ =~= lossy_text(p.files@[i]@) + " is owned by "@ + p.db@ + "/"@ + p.pkg@
                + " "@ + p.version@ + "\n"@);
        }
        assert(e =~= m);
    } else if !r1->Search_quiet {
        let e = p.files@.map_values(|f: Vec<u8>| Written::Out("    "@ + lossy_text(f@) + "\n"@));
        let fl = file_lines(p.files@, "    "@, seq![]);
        assert forall|i: int| 0 <= i < e.len() implies e[i] == fl[i] by {
            assert("    "@ + lossy_text(p.files@[i]@) + seq![] + "\n"@ =~= "    "@ + lossy_text(p.files@[i]@)
                + "\n"@);
        }
        assert(e =~= fl);
    }
}

/// A `-Fl` report with one more package, and no diagnostics before, writes
/// what it wrote before, then the package's files: machine-readable, one
/// record per file; with `-q`, each file name alone; else the package's
/// name, one space and the file name; then its diagnostics.
pub proof fn law_files_list_package(r1: FilesReport, r2: FilesReport, p: FilePkg)
    requires
        r1 is List,
        r2 is List,
        r1->List_machine == r2->List_machine,
        r1->List_quiet == r2->List_quiet,
        r2->List_pkgs@ == r1->List_pkgs@.push(p),
        r1->List_diagnostics@.len() == 0,
    ensures
        files_written(r2) == files_written(r1) + (if r1->List_machine {
            p.files@.map_values(
                |f: Vec<u8>|
                    Written::RawOut(
                        vstd::utf8::encode_utf8(p.db@) + seq![0u8] + vstd::utf8::encode_utf8(p.pkg@) + seq![0u8]
                            + vstd::utf8::encode_utf8(p.version@) + seq![0u8] + f@ + seq![10u8],
                    ),
            )
        } else if r1->List_quiet {
            p.files@.map_values(|f: Vec<u8>| Written::Out(lossy_text(f@) + "\n"@))
        } else {
            p.files@.map_values(|f: Vec<u8>| Written::Out(p.pkg@ + " "@ + lossy_text(f@) + "\n"@))
        }) + err_lines(strings_view(r2->List_diagnostics@)),
{
    let ps = r2->List_pkgs@;
    assert(ps.drop_last() =~= r1->List_pkgs@);
    assert(err_lines(strings_view(r1->List_diagnostics@)) =~= seq![]);
    let m = listed_written(r1->List_machine, r1->List_quiet, p);
    if r1->List_machine {
        let e = p.files@.map_values(
            |f: Vec<u8>|
                Written::RawOut(
                    vstd::utf8::encode_utf8(p.db@) + seq![0u8] + vstd::utf8::encode_utf8(p.pkg@) + seq![0u8]
                        + vstd::utf8::encode_utf8(p.version@) + seq![0u8] + f@ + seq![10u8],
                ),
        );
        assert(e =~= m);
    } else if r1->List_quiet {
        let e = p.files@.map_values(|f: Vec<u8>| Written::Out(lossy_text(f@) + "\n"@));
        assert forall|i: int| 0 <= i < e.len() implies e[i] == m[i] by {
            assert(seq![] + lossy_text(p.files@[i]@) + seq![] + "\n"@ =~= lossy_text(p.files@[i]@) + "\n"@);
        }
        assert(e =~= m);
    } else {
        let e = p.files@.map_values(|f: Vec<u8>| Written::Out(p.pkg@ + " "@ + lossy_text(f@) + "\n"@));
        assert forall|i: int| 0 <= i < e.len() implies e[i] == m[i] by {
            assert((p.pkg@ + " "@) + lossy_text(p.files@[i]@) + seq![] + "\n"@ =~= p.pkg@ + " "@ + lossy_text(
                p.files@[i]@,
            ) + "\n"@);
        }
        assert(e =~= m);
    }
}

} // verus!
