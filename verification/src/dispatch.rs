//! The rebuild dispatcher and the watch-loop step: which rebuild a change
//! kind demands, which reload notification a finished rebuild emits, how the
//! last good site state is retained across a failed reconfiguration, and the
//! filter chain an observed filesystem event runs through.

use vstd::prelude::*;
use vstd::string::StrSliceExecFns;
use vstd::string::StringExecFns;
use crate::classify::ChangeKind;
use crate::classify::canonical_path_spec;
use crate::classify::classify_spec;
use crate::classify::is_temp_spec;
use crate::classify::is_temp_file;
use crate::classify::detect_change_kind;
use crate::protocol::reload_message_spec;
use crate::protocol::reload_message;

verus! {

/// The operation a change kind selects: an incremental rebuild, one file
/// copied into the output, a stylesheet recompilation, or — for a
/// configuration change — discarding and recreating the site from scratch.
#[derive(Debug, Clone, Copy, PartialEq, Eq, Structural)]
pub enum RebuildOperation {
    RebuildContent,
    RebuildTemplates,
    CopyStaticFile,
    CompileSass,
    RecreateSite,
}

/// The rebuild strategy each change kind selects.
pub open spec fn operation_for_spec(kind: ChangeKind) -> RebuildOperation {
    match kind {
        ChangeKind::Content => RebuildOperation::RebuildContent,
        ChangeKind::Templates => RebuildOperation::RebuildTemplates,
        ChangeKind::StaticFiles => RebuildOperation::CopyStaticFile,
        ChangeKind::Sass => RebuildOperation::CompileSass,
        ChangeKind::Config => RebuildOperation::RecreateSite,
    }
}

/// Map a change kind to the rebuild operation it demands.
pub fn operation_for(kind: ChangeKind) -> (r: RebuildOperation)
    ensures
        r == operation_for_spec(kind),
{
    match kind {
        ChangeKind::Content => RebuildOperation::RebuildContent,
        ChangeKind::Templates => RebuildOperation::RebuildTemplates,
        ChangeKind::StaticFiles => RebuildOperation::CopyStaticFile,
        ChangeKind::Sass => RebuildOperation::CompileSass,
        ChangeKind::Config => RebuildOperation::RecreateSite,
    }
}

/// The forced-refresh sentinel: a path distinct from every real asset path,
/// telling the browser to reload the whole page rather than swap one asset.
pub open spec fn forced_refresh_spec() -> Seq<char> {
    "/x.js"@
}

/// The forced-refresh sentinel path.
pub fn forced_refresh_path() -> (r: String)
    ensures
        r@ == forced_refresh_spec(),
{
    String::from_str("/x.js")
}

/// The reload frame a finished rebuild emits: none on failure; the
/// forced-refresh frame after a content or template rebuild; a frame
/// carrying the changed asset's canonical path after a static-file copy or
/// a stylesheet recompilation; and none after a configuration reload, whose
/// asset identities a browser cannot trust across the swap.
pub open spec fn reload_after_spec(kind: ChangeKind, canon: Seq<char>, success: bool) -> Option<
    Seq<char>,
> {
    if !success {
        None
    } else {
        match kind {
            ChangeKind::Content => Some(reload_message_spec(forced_refresh_spec())),
            ChangeKind::Templates => Some(reload_message_spec(forced_refresh_spec())),
            ChangeKind::StaticFiles => Some(reload_message_spec(canon)),
            ChangeKind::Sass => Some(reload_message_spec(canon)),
            ChangeKind::Config => None,
        }
    }
}

/// The reload frame to broadcast once a rebuild for `kind` finished with
/// `success`, `canonical` being the changed path's canonical root-relative
/// form.
pub fn reload_after(kind: ChangeKind, canonical: &str, success: bool) -> (r: Option<String>)
    ensures
        ({
            let s = reload_after_spec(kind, canonical@, success);
            match r {
                Some(m) => s matches Some(v) && m@ == v,
                None => s is None,
            }
        }),
{
    if !success {
        return None;
    }
    match kind {
        ChangeKind::Content => {
            let sentinel = forced_refresh_path();
            Some(reload_message(sentinel.as_str()))
        },
        ChangeKind::Templates => {
            let sentinel = forced_refresh_path();
            Some(reload_message(sentinel.as_str()))
        },
        ChangeKind::StaticFiles => Some(reload_message(canonical)),
        ChangeKind::Sass => Some(reload_message(canonical)),
        ChangeKind::Config => None,
    }
}

/// The reload policy, spelled out per change kind: a successful content or
/// template rebuild emits exactly the forced-refresh frame, a successful
/// static-file or stylesheet rebuild a frame carrying the changed path, a
/// successful configuration reload no frame at all — and a failed rebuild
/// never emits one.
pub proof fn lemma_reload_policy(kind: ChangeKind, canon: Seq<char>)
    ensures
        kind == ChangeKind::Content || kind == ChangeKind::Templates ==> reload_after_spec(
            kind,
            canon,
            true,
        ) == Some(reload_message_spec(forced_refresh_spec())),
        kind == ChangeKind::StaticFiles || kind == ChangeKind::Sass ==> reload_after_spec(
            kind,
            canon,
            true,
        ) == Some(reload_message_spec(canon)),
        kind == ChangeKind::Config ==> reload_after_spec(kind, canon, true) is None,
        reload_after_spec(kind, canon, false) is None,
{
}

/// The site state kept after a rebuild cycle: only a successful
/// configuration reload replaces the running site with the freshly created
/// one; every other outcome — any failure included — retains the last good
/// site, so a failed rebuild can never tear the loop down or leave it
/// half-replaced.
pub fn retained_site<T>(current: T, kind: ChangeKind, rebuilt: Option<T>) -> (r: T)
    ensures
        kind == ChangeKind::Config && rebuilt is Some ==> r == rebuilt.unwrap(),
        !(kind == ChangeKind::Config && rebuilt is Some) ==> r == current,
{
    match kind {
        ChangeKind::Config => match rebuilt {
            Some(fresh) => fresh,
            None => current,
        },
        _ => current,
    }
}

/// One debounced filesystem notification, as the watch mechanism reports it.
pub enum RawEvent {
    NoticeWrite(String),
    NoticeRemove(String),
    Create(String),
    Write(String),
    Chmod(String),
    Remove(String),
    Rename(String, String),
    Rescan,
}

/// The path on which an event can trigger a rebuild: creates, writes and
/// removals carry their own path, a rename counts for its destination, and
/// every other notification triggers nothing.
pub open spec fn triggering_path_spec(e: RawEvent) -> Option<Seq<char>> {
    match e {
        RawEvent::Create(p) => Some(p@),
        RawEvent::Write(p) => Some(p@),
        RawEvent::Remove(p) => Some(p@),
        RawEvent::Rename(_, dest) => Some(dest@),
        _ => None,
    }
}

/// The path on which `e` can trigger a rebuild, if any.
pub fn triggering_path(e: &RawEvent) -> (r: Option<&String>)
    ensures
        ({
            match r {
                Some(p) => triggering_path_spec(*e) matches Some(v) && p@ == v,
                None => triggering_path_spec(*e) is None,
            }
        }),
{
    match e {
        RawEvent::Create(p) => Some(p),
        RawEvent::Write(p) => Some(p),
        RawEvent::Remove(p) => Some(p),
        RawEvent::Rename(_, dest) => Some(dest),
        _ => None,
    }
}

/// What the watch loop does with one event.
pub enum EventAction {
    /// Drop the event: no triggering path, a directory, or a temp file.
    Ignore,
    /// Run the rebuild for this kind; the `String` is the canonical path.
    Dispatch(ChangeKind, String),
    /// The canonical path matched no watched root: report, rebuild nothing.
    ReportUnclassified(String),
}

/// Run one observed event through the watch loop's filter chain: keep only
/// the event kinds that can trigger a rebuild, drop directory events and
/// temp files, then classify the surviving path against the project root.
/// `is_dir` says whether the triggering path names a directory on disk.
pub fn watch_step(pwd: &str, event: &RawEvent, is_dir: bool) -> (r: EventAction)
    ensures
        ({
            match triggering_path_spec(*event) {
                None => r is Ignore,
                Some(p) => if is_dir || is_temp_spec(p) {
                    r is Ignore
                } else {
                    let canon = canonical_path_spec(pwd@, p);
                    match classify_spec(canon) {
                        Some(k) => r matches EventAction::Dispatch(k2, c) && k2 == k && c@
                            == canon,
                        None => r matches EventAction::ReportUnclassified(c) && c@ == canon,
                    }
                },
            }
        }),
{
    let path: &String = match triggering_path(event) {
        Some(p) => p,
        None => {
            return EventAction::Ignore;
        },
    };
    if is_dir || is_temp_file(path.as_str()) {
        return EventAction::Ignore;
    }
    match detect_change_kind(pwd, path.as_str()) {
        Ok((kind, canon)) => EventAction::Dispatch(kind, canon),
        Err(un) => EventAction::ReportUnclassified(un.path),
    }
}

/// The roots the watch set holds, in registration order: the content and
/// template directories and the configuration file always; the static
/// directory exactly when it exists on disk; the stylesheet directory
/// exactly when the build configuration enables its compilation.
pub open spec fn watch_roots_spec(
    config_file: Seq<char>,
    static_exists: bool,
    compile_sass: bool,
) -> Seq<Seq<char>> {
    seq!["content"@, "templates"@, config_file] + (if static_exists {
        seq!["static"@]
    } else {
        Seq::empty()
    }) + (if compile_sass {
        seq!["sass"@]
    } else {
        Seq::empty()
    })
}

/// The watched roots, computed once at startup and fixed for the process
/// lifetime.
pub fn watch_roots(config_file: &str, static_exists: bool, compile_sass: bool) -> (v: Vec<String>)
    ensures
        v@.map_values(|s: String| s@) == watch_roots_spec(config_file@, static_exists, compile_sass),
{
    let mut v: Vec<String> = Vec::new();
    v.push(String::from_str("content"));
    v.push(String::from_str("templates"));
    v.push(String::from_str(config_file));
    if static_exists {
        v.push(String::from_str("static"));
    }
    if compile_sass {
        v.push(String::from_str("sass"));
    }
    proof {
        assert(v@.map_values(|s: String| s@) =~= watch_roots_spec(
            config_file@,
            static_exists,
            compile_sass,
        ));
    }
    v
}

} // verus!
