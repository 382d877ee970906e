//! The layouts a config holds, as operations on the config: capturing the latest probe
//! as a layout, finding a layout by id, which scripts need rendering again, and what an
//! import keeps and removes. The caller does the reading and writing around them.

use vstd::prelude::*;
use crate::config::layouts::{
    folder_name, folder_of, lemma_hex_id_cut, is_lower_hex, names_match, new_id, name_rule,
    same_name, script_state, script_state_of, short_id_cut, summarise, summary_monitor_of,
    connected, validate_name, Layout, ScriptState, ScriptStatus,
};
use crate::config::steps::{
    edits_problem, validate_edits, ApplyFailure, LayoutEdits, Step, StepKind,
    DEFAULT_AVAILABLE_WAIT_SECONDS, DEFAULT_DROP_WAIT_SECONDS,
};
use crate::config::{Config, WindowSize};
use crate::error::AppError;
use crate::hardware::{ArrangementBlob, Inventory};
use crate::script::render::TEMPLATE_VERSION;
use crate::text::{append_str, chars_of, same_str, string_of};
use vstd::string::StrSliceExecFns;

verus! {

/// What a capture comes to before anything is written.
#[derive(Debug, Clone, PartialEq, Eq)]
pub enum Capture {
    /// Another layout already has this name (compared without case): nothing is stored.
    NameTaken { id: String, name: String },
    /// The layout to store, and the index of the layout it replaces, if any.
    Ready { layout: Layout, replaces: Option<usize> },
}

fn copy_strings(v: &Vec<String>) -> (r: Vec<String>)
    ensures
        r@ == v@,
{
    let mut r: Vec<String> = Vec::new();
    let mut i: usize = 0;
    while i < v.len()
        invariant
            i <= v.len(),
            r@ == v@.take(i as int),
        decreases v.len() - i,
    {
        r.push(v[i].clone());
        assert(v@.take(i + 1) == v@.take(i as int).push(v@[i as int]));
        i = i + 1;
    }
    assert(v@.take(v.len() as int) == v@);
    r
}

/// Two blobs hold the same arrays and adapter lists.
pub open spec fn same_blob(a: ArrangementBlob, b: ArrangementBlob) -> bool {
    &&& a.paths == b.paths
    &&& a.modes == b.modes
    &&& a.source_adapters@ == b.source_adapters@
    &&& a.target_adapters@ == b.target_adapters@
    &&& a.mode_adapters@ == b.mode_adapters@
}

fn copy_blob(b: &ArrangementBlob) -> (r: ArrangementBlob)
    ensures
        same_blob(r, *b),
{
    ArrangementBlob {
        paths: b.paths.clone(),
        modes: b.modes.clone(),
        source_adapters: copy_strings(&b.source_adapters),
        target_adapters: copy_strings(&b.target_adapters),
        mode_adapters: copy_strings(&b.mode_adapters),
    }
}

fn copy_step(s: &Step) -> (r: Step)
    ensures
        r == *s,
{
    let kind = match &s.kind {
        StepKind::Wait { seconds } => StepKind::Wait { seconds: *seconds },
        StepKind::SendInput { device_path, input_source, wait } => StepKind::SendInput {
            device_path: device_path.clone(),
            input_source: *input_source,
            wait: *wait,
        },
    };
    Step { id: s.id.clone(), side: s.side, kind }
}

fn copy_steps(v: &Vec<Step>) -> (r: Vec<Step>)
    ensures
        r@ == v@,
{
    let mut r: Vec<Step> = Vec::new();
    let mut i: usize = 0;
    while i < v.len()
        invariant
            i <= v.len(),
            r@ == v@.take(i as int),
        decreases v.len() - i,
    {
        r.push(copy_step(&v[i]));
        assert(v@.take(i + 1) == v@.take(i as int).push(v@[i as int]));
        i = i + 1;
    }
    assert(v@.take(v.len() as int) == v@);
    r
}

/// Layout `j` is another layout with the name: the same name without regard to case,
/// and not the layout being replaced.
pub open spec fn name_taken_by(
    layouts: Seq<Layout>,
    name: Seq<char>,
    replace_id: Option<Seq<char>>,
    j: int,
) -> bool {
    names_match(layouts[j].name@, name) && match replace_id {
        Some(id) => layouts[j].id@ != id,
        None => true,
    }
}

/// Some other layout holds the name.
pub open spec fn name_held(layouts: Seq<Layout>, name: Seq<char>, replace_id: Option<Seq<char>>) -> bool {
    exists|j: int| 0 <= j < layouts.len() && name_taken_by(layouts, name, replace_id, j)
}

/// `j` is the first layout that holds the name.
pub open spec fn first_taken(
    layouts: Seq<Layout>,
    name: Seq<char>,
    replace_id: Option<Seq<char>>,
    j: int,
) -> bool {
    &&& 0 <= j < layouts.len()
    &&& name_taken_by(layouts, name, replace_id, j)
    &&& forall|k: int| 0 <= k < j ==> !name_taken_by(layouts, name, replace_id, k)
}

/// `j` is the first layout with the id.
pub open spec fn first_with_id(layouts: Seq<Layout>, id: Seq<char>, j: int) -> bool {
    &&& 0 <= j < layouts.len()
    &&& layouts[j].id@ == id
    &&& forall|k: int| 0 <= k < j ==> layouts[k].id@ != id
}

/// Some layout has the id.
pub open spec fn has_id(layouts: Seq<Layout>, id: Seq<char>) -> bool {
    exists|j: int| 0 <= j < layouts.len() && layouts[j].id@ == id
}

/// The folders the layouts use, in order.
pub open spec fn folder_views(layouts: Seq<Layout>) -> Seq<Seq<char>> {
    layouts.map_values(|l: Layout| l.folder@)
}

/// `l` is the probe `inv` captured as a layout with these identity fields, steps and
/// timings: the probe's arrangement, the summary of its connected monitors, updated when
/// captured, and no script yet.
pub open spec fn captured_as(
    l: Layout,
    id: Seq<char>,
    name: Seq<char>,
    folder: Seq<char>,
    captured_at: Seq<char>,
    inv: Inventory,
    steps: Seq<Step>,
    drop_wait_seconds: u32,
    available_wait_seconds: u32,
    on_apply_failure: ApplyFailure,
) -> bool {
    &&& l.id@ == id
    &&& l.name@ == name
    &&& l.folder@ == folder
    &&& l.captured_at@ == captured_at
    &&& l.updated_at@ == captured_at
    &&& same_blob(l.arrangement, inv.arrangement)
    &&& l.summary.monitors.len() == connected(inv.monitors@).len()
    &&& forall|k: int|
        0 <= k < l.summary.monitors.len() ==> summary_monitor_of(
            connected(inv.monitors@)[k],
            #[trigger] l.summary.monitors@[k],
        )
    &&& l.steps@ == steps
    &&& l.drop_wait_seconds == drop_wait_seconds
    &&& l.available_wait_seconds == available_wait_seconds
    &&& l.on_apply_failure == on_apply_failure
    &&& l.script is None
}

/// What a capture of the raw name comes to. The name rules come first, then the probe
/// must exist, then another layout with the name is reported rather than overwritten.
/// A replace keeps the replaced layout's id, folder, steps and timings; a new layout
/// gets `fresh` as its id, its slug as its folder (with the short id appended when the
/// slug is taken), no steps and the default timings.
pub open spec fn capture_spec(
    r: Result<Capture, AppError>,
    layouts: Seq<Layout>,
    raw: Seq<char>,
    replace_id: Option<Seq<char>>,
    inventory: Option<Inventory>,
    captured_at: Seq<char>,
    fresh: Seq<char>,
) -> bool {
    match name_rule(raw) {
        Err(reason) => r matches Err(AppError::InvalidLayoutName { reason: got }) && got@ == reason,
        Ok(name) => match inventory {
            None => r == Err::<Capture, AppError>(AppError::NoProbeYet),
            Some(inv) => if name_held(layouts, name, replace_id) {
                r matches Ok(Capture::NameTaken { id, name: held }) && (exists|j: int|
                    first_taken(layouts, name, replace_id, j) && id@ == layouts[j].id@ && held@
                        == layouts[j].name@)
            } else {
                match replace_id {
                    Some(rid) => if has_id(layouts, rid) {
                        r matches Ok(Capture::Ready { layout, replaces: Some(j) }) && first_with_id(
                            layouts,
                            rid,
                            j as int,
                        ) && captured_as(
                            layout,
                            rid,
                            name,
                            layouts[j as int].folder@,
                            captured_at,
                            inv,
                            layouts[j as int].steps@,
                            layouts[j as int].drop_wait_seconds,
                            layouts[j as int].available_wait_seconds,
                            layouts[j as int].on_apply_failure,
                        )
                    } else {
                        r matches Err(AppError::LayoutNotFound { id }) && id@ == rid
                    },
                    None => r matches Ok(Capture::Ready { layout, replaces: None }) && (exists|k: int|
                        short_id_cut(fresh, k) && captured_as(
                            layout,
                            fresh,
                            name,
                            folder_of(name, fresh.take(k), folder_views(layouts)),
                            captured_at,
                            inv,
                            Seq::empty(),
                            DEFAULT_DROP_WAIT_SECONDS,
                            DEFAULT_AVAILABLE_WAIT_SECONDS,
                            ApplyFailure::Stop,
                        )),
                }
            },
        },
    }
}

pub open spec fn opt_view(o: Option<&str>) -> Option<Seq<char>> {
    match o {
        Some(s) => Some(s@),
        None => None,
    }
}

pub open spec fn opt_inventory(o: Option<&Inventory>) -> Option<Inventory> {
    match o {
        Some(i) => Some(*i),
        None => None,
    }
}

/// The first layout with the id, or `LayoutNotFound` naming it.
pub fn find_layout(layouts: &Vec<Layout>, id: &str) -> (r: Result<usize, AppError>)
    ensures
        match r {
            Ok(j) => first_with_id(layouts@, id@, j as int),
            Err(e) => !has_id(layouts@, id@) && (e matches AppError::LayoutNotFound { id: got } && got@
                == id@),
        },
{
    let mut j: usize = 0;
    while j < layouts.len()
        invariant
            j <= layouts.len(),
            forall|k: int| 0 <= k < j ==> layouts@[k].id@ != id@,
        decreases layouts.len() - j,
    {
        if same_str(layouts[j].id.as_str(), id) {
            return Ok(j);
        }
        j = j + 1;
    }
    Err(AppError::LayoutNotFound { id: string_of(&chars_of(id)) })
}

fn folders_of(layouts: &Vec<Layout>) -> (r: Vec<&str>)
    ensures
        r@.map_values(|t: &str| t@) == folder_views(layouts@),
{
    let mut r: Vec<&str> = Vec::new();
    let mut i: usize = 0;
    while i < layouts.len()
        invariant
            i <= layouts.len(),
            r@.map_values(|t: &str| t@) == folder_views(layouts@).take(i as int),
        decreases layouts.len() - i,
    {
        let ghost prev = r@;
        r.push(layouts[i].folder.as_str());
        assert(r@.map_values(|t: &str| t@) =~= prev.map_values(|t: &str| t@).push(layouts@[i as int].folder@));
        assert(folder_views(layouts@).take(i + 1) =~= folder_views(layouts@).take(i as int).push(
            layouts@[i as int].folder@,
        ));
        i = i + 1;
    }
    assert(folder_views(layouts@).take(layouts.len() as int) =~= folder_views(layouts@));
    r
}

/// Capture with a given fresh id for a new layout: see [`capture_spec`].
pub fn capture_plan_with(
    config: &Config,
    raw_name: &str,
    replace_id: Option<&str>,
    inventory: Option<&Inventory>,
    captured_at: &str,
    fresh_id: &str,
) -> (r: Result<Capture, AppError>)
    requires
        exists|k: int| short_id_cut(fresh_id@, k),
    ensures
        capture_spec(
            r,
            config.layouts@,
            raw_name@,
            opt_view(replace_id),
            opt_inventory(inventory),
            captured_at@,
            fresh_id@,
        ),
{
    let layouts = &config.layouts;
    let name = match validate_name(raw_name) {
        Ok(n) => n,
        Err(e) => return Err(e),
    };
    let inv = match inventory {
        Some(i) => i,
        None => return Err(AppError::NoProbeYet),
    };
    let ghost rid = opt_view(replace_id);
    assert(name_rule(raw_name@) == Ok::<Seq<char>, Seq<char>>(name@));
    let mut j: usize = 0;
    while j < layouts.len()
        invariant
            j <= layouts.len(),
            rid == opt_view(replace_id),
            layouts@ == config.layouts@,
            name_rule(raw_name@) == Ok::<Seq<char>, Seq<char>>(name@),
            opt_inventory(inventory) == Some(*inv),
            forall|k: int| 0 <= k < j ==> !name_taken_by(layouts@, name@, rid, k),
        decreases layouts.len() - j,
    {
        let other = match replace_id {
            Some(id) => !same_str(layouts[j].id.as_str(), id),
            None => true,
        };
        if other && same_name(layouts[j].name.as_str(), name.as_str()) {
            assert(first_taken(layouts@, name@, rid, j as int));
            assert(name_taken_by(layouts@, name@, rid, j as int));
            return Ok(Capture::NameTaken { id: layouts[j].id.clone(), name: layouts[j].name.clone() });
        }
        j = j + 1;
    }
    let summary = summarise(inv);
    let arrangement = copy_blob(&inv.arrangement);
    let stamp = string_of(&chars_of(captured_at));
    let updated = string_of(&chars_of(captured_at));
    match replace_id {
        Some(id) => {
            let j = match find_layout(layouts, id) {
                Ok(j) => j,
                Err(e) => return Err(e),
            };
            let old = &layouts[j];
            let layout = Layout {
                id: string_of(&chars_of(id)),
                name,
                folder: old.folder.clone(),
                captured_at: stamp,
                updated_at: updated,
                arrangement,
                summary,
                steps: copy_steps(&old.steps),
                drop_wait_seconds: old.drop_wait_seconds,
                available_wait_seconds: old.available_wait_seconds,
                on_apply_failure: old.on_apply_failure,
                script: None,
            };
            Ok(Capture::Ready { layout, replaces: Some(j) })
        },
        None => {
            let taken = folders_of(layouts);
            let folder = folder_name(name.as_str(), fresh_id, taken.as_slice());
            let layout = Layout {
                id: string_of(&chars_of(fresh_id)),
                name,
                folder,
                captured_at: stamp,
                updated_at: updated,
                arrangement,
                summary,
                steps: Vec::new(),
                drop_wait_seconds: DEFAULT_DROP_WAIT_SECONDS,
                available_wait_seconds: DEFAULT_AVAILABLE_WAIT_SECONDS,
                on_apply_failure: ApplyFailure::Stop,
                script: None,
            };
            assert(layout.steps@ =~= Seq::<Step>::empty());
            Ok(Capture::Ready { layout, replaces: None })
        },
    }
}

/// A random version 4 id in simple form: 32 lowercase hexadecimal digits.
pub open spec fn fresh_id_shape(id: Seq<char>) -> bool {
    id.len() == 32 && forall|i: int| 0 <= i < 32 ==> is_lower_hex(#[trigger] id[i])
}

/// Capture: the latest probe becomes a layout with the given name. With `replace_id` the
/// layout with that id is captured again under the same id; without it, a name another
/// layout already has (compared without case) is reported, not overwritten, and a new
/// layout gets a random id.
pub fn capture_plan(
    config: &Config,
    raw_name: &str,
    replace_id: Option<&str>,
    inventory: Option<&Inventory>,
    captured_at: &str,
) -> (r: Result<Capture, AppError>)
    ensures
        exists|fresh: Seq<char>|
            fresh_id_shape(fresh) && capture_spec(
                r,
                config.layouts@,
                raw_name@,
                opt_view(replace_id),
                opt_inventory(inventory),
                captured_at@,
                fresh,
            ),
{
    let fresh = new_id();
    proof {
        lemma_hex_id_cut(fresh@);
    }
    let r = capture_plan_with(config, raw_name, replace_id, inventory, captured_at, fresh.as_str());
    assert(fresh_id_shape(fresh@));
    r
}

/// Stores a captured layout: in place of the one it replaces, else after the others.
pub fn store_layout(config: &mut Config, layout: Layout, replaces: Option<usize>)
    requires
        match replaces {
            Some(j) => j < old(config).layouts.len(),
            None => true,
        },
    ensures
        final(config).layouts@ == match replaces {
            Some(j) => old(config).layouts@.update(j as int, layout),
            None => old(config).layouts@.push(layout),
        },
        final(config).schema_version == old(config).schema_version,
        final(config).window == old(config).window,
        final(config).aliases == old(config).aliases,
        final(config).capabilities == old(config).capabilities,
        final(config).keyed_once() == old(config).keyed_once(),
{
    match replaces {
        Some(j) => {
            config.layouts.set(j, layout);
        },
        None => {
            config.layouts.push(layout);
        },
    }
}

/// The indices of the layouts whose script is missing or stale, in order: the scripts
/// an app start renders again. `exists[k]` says whether layout `k`'s script is on disk.
pub open spec fn stale_indices(layouts: Seq<Layout>, exists: Seq<bool>, n: int) -> Seq<int>
    decreases n,
{
    if n <= 0 {
        Seq::empty()
    } else {
        let prev = stale_indices(layouts, exists, n - 1);
        if script_state_of(layouts[n - 1], TEMPLATE_VERSION, exists[n - 1]) != ScriptState::Current {
            prev.push(n - 1)
        } else {
            prev
        }
    }
}

/// The layouts whose script needs rendering again.
pub fn stale_layouts(layouts: &Vec<Layout>, exists: &Vec<bool>) -> (r: Vec<usize>)
    requires
        exists.len() == layouts.len(),
    ensures
        r@.map_values(|k: usize| k as int) == stale_indices(layouts@, exists@, layouts.len() as int),
{
    let mut r: Vec<usize> = Vec::new();
    let mut k: usize = 0;
    while k < layouts.len()
        invariant
            k <= layouts.len(),
            exists.len() == layouts.len(),
            r@.map_values(|q: usize| q as int) == stale_indices(layouts@, exists@, k as int),
        decreases layouts.len() - k,
    {
        let ghost prev = r@;
        if script_state(&layouts[k], TEMPLATE_VERSION, exists[k]) != ScriptState::Current {
            r.push(k);
            assert(r@.map_values(|q: usize| q as int) =~= prev.map_values(|q: usize| q as int).push(k as int));
        }
        k = k + 1;
    }
    r
}

/// The script state of every layout, with the path the app would open.
pub fn script_statuses(layouts: &Vec<Layout>, paths: &Vec<String>, exists: &Vec<bool>) -> (r: Vec<ScriptStatus>)
    requires
        paths.len() == layouts.len(),
        exists.len() == layouts.len(),
    ensures
        r.len() == layouts.len(),
        forall|k: int|
            0 <= k < r.len() ==> (#[trigger] r[k]).layout_id@ == layouts[k].id@ && r[k].state
                == script_state_of(layouts[k], TEMPLATE_VERSION, exists[k]) && r[k].path@
                == paths[k]@,
{
    let mut r: Vec<ScriptStatus> = Vec::new();
    let mut k: usize = 0;
    while k < layouts.len()
        invariant
            k <= layouts.len(),
            paths.len() == layouts.len(),
            exists.len() == layouts.len(),
            r.len() == k,
            forall|q: int|
                0 <= q < k ==> (#[trigger] r[q]).layout_id@ == layouts[q].id@ && r[q].state
                    == script_state_of(layouts[q], TEMPLATE_VERSION, exists[q]) && r[q].path@
                    == paths[q]@,
        decreases layouts.len() - k,
    {
        r.push(ScriptStatus {
            layout_id: layouts[k].id.clone(),
            state: script_state(&layouts[k], TEMPLATE_VERSION, exists[k]),
            path: paths[k].clone(),
        });
        k = k + 1;
    }
    r
}

/// The folders of the current layouts that an import replaces: every layout that does
/// not come back under its own id, in order. A layout that comes back keeps its folder
/// and its log.
pub open spec fn replaced_folder_views(current: Seq<Layout>, imported: Seq<Layout>) -> Seq<Seq<char>> {
    current.filter(|l: Layout| !has_id(imported, l.id@)).map_values(|l: Layout| l.folder@)
}

/// The folders an import removes.
pub fn replaced_folders(current: &Vec<Layout>, imported: &Vec<Layout>) -> (r: Vec<String>)
    ensures
        r@.map_values(|f: String| f@) == replaced_folder_views(current@, imported@),
{
    let ghost gone = |l: Layout| !has_id(imported@, l.id@);
    let mut r: Vec<String> = Vec::new();
    let mut k: usize = 0;
    assert(current@.take(0).filter(gone) =~= Seq::<Layout>::empty()) by {
        reveal_with_fuel(Seq::<_>::filter, 1);
    }
    while k < current.len()
        invariant
            k <= current.len(),
            gone == (|l: Layout| !has_id(imported@, l.id@)),
            r@.map_values(|f: String| f@) == current@.take(k as int).filter(gone).map_values(
                |l: Layout| l.folder@,
            ),
        decreases current.len() - k,
    {
        assert(current@.take(k + 1).drop_last() =~= current@.take(k as int));
        assert(current@.take(k + 1).filter(gone) == (if gone(current@[k as int]) {
            current@.take(k as int).filter(gone).push(current@[k as int])
        } else {
            current@.take(k as int).filter(gone)
        })) by {
            reveal_with_fuel(Seq::<_>::filter, 1);
        }
        let kept = match find_layout(imported, current[k].id.as_str()) {
            Ok(_) => true,
            Err(_) => false,
        };
        let ghost prev = r@;
        if !kept {
            r.push(current[k].folder.clone());
            assert(r@.map_values(|f: String| f@) =~= prev.map_values(|f: String| f@).push(
                current@[k as int].folder@,
            ));
            assert(current@.take(k + 1).filter(gone).map_values(|l: Layout| l.folder@) =~= current@.take(
                k as int,
            ).filter(gone).map_values(|l: Layout| l.folder@).push(current@[k as int].folder@));
        }
        k = k + 1;
    }
    assert(current@.take(current.len() as int) =~= current@);
    r
}

/// An import removes exactly the folders of the layouts it drops: the folder of every
/// current layout whose id the imported config lacks is removed, every removed folder is
/// such a layout's, and, with each current layout in a folder of its own, the folder of a
/// layout that comes back under its id stays with its log.
pub proof fn lemma_import_removes_dropped_folders(current: Seq<Layout>, imported: Seq<Layout>)
    requires
        forall|i: int, j: int|
            0 <= i < current.len() && 0 <= j < current.len() && i != j ==> #[trigger] current[i].folder@
                != #[trigger] current[j].folder@,
    ensures
        forall|k: int|
            0 <= k < current.len() ==> (replaced_folder_views(current, imported).contains(
                (#[trigger] current[k]).folder@,
            ) <==> !has_id(imported, current[k].id@)),
        forall|f: Seq<char>|
            #[trigger] replaced_folder_views(current, imported).contains(f) ==> exists|k: int|
                0 <= k < current.len() && (#[trigger] current[k]).folder@ == f && !has_id(
                    imported,
                    current[k].id@,
                ),
{
    let gone = |l: Layout| !has_id(imported, l.id@);
    let dropped = current.filter(gone);
    let folders = dropped.map_values(|l: Layout| l.folder@);
    assert forall|f: Seq<char>| #[trigger] folders.contains(f) implies exists|k: int|
        0 <= k < current.len() && (#[trigger] current[k]).folder@ == f && !has_id(imported, current[k].id@) by {
        let w = choose|w: int| 0 <= w < folders.len() && folders[w] == f;
        current.lemma_filter_pred(gone, w);
        let l = dropped[w];
        assert(dropped.contains(l));
        current.lemma_filter_contains_rev(gone, l);
        assert(current.contains(l));
        let k = choose|k: int| 0 <= k < current.len() && current[k] == l;
        assert(current[k].folder@ == f);
    }
    assert forall|k: int| 0 <= k < current.len() implies (folders.contains((#[trigger] current[k]).folder@)
        <==> !has_id(imported, current[k].id@)) by {
        if !has_id(imported, current[k].id@) {
            current.lemma_filter_contains(gone, k);
            let w = choose|w: int| 0 <= w < dropped.len() && dropped[w] == current[k];
            assert(folders[w] == current[k].folder@);
        }
        if folders.contains(current[k].folder@) {
            let f = current[k].folder@;
            let j = choose|j: int|
                0 <= j < current.len() && (#[trigger] current[j]).folder@ == f && !has_id(imported, current[j].id@);
            assert(j == k);
        }
    }
}

/// The config an import stores: the file's, except that the window size stays this
/// machine's when this machine has saved a config; on a fresh install the file's size
/// is restored with everything else.
pub fn imported_config(current_window: WindowSize, saved_before: bool, imported: Config) -> (r: Config)
    ensures
        r.window == (if saved_before {
            current_window
        } else {
            imported.window
        }),
        r.schema_version == imported.schema_version,
        r.aliases == imported.aliases,
        r.capabilities == imported.capabilities,
        r.keyed_once() == imported.keyed_once(),
        r.layouts == imported.layouts,
{
    let mut r = imported;
    if saved_before {
        r.window = current_window;
    }
    r
}

/// The name an export suggests: `layoutswap-config-<date>.json`.
pub fn export_file_name(date: &str) -> (r: String)
    ensures
        r@ == "layoutswap-config-"@ + date@ + ".json"@,
{
    let mut o: Vec<char> = Vec::new();
    append_str(&mut o, "layoutswap-config-");
    append_str(&mut o, date);
    append_str(&mut o, ".json");
    string_of(&o)
}

/// `layoutswap-diagnostics-<layout folder>-<stamp>.zip`: the folder is already a safe
/// file name, and the stamp comes from the caller.
pub fn diagnostics_file_name(layout: &Layout, stamp: &str) -> (r: String)
    ensures
        r@ == "layoutswap-diagnostics-"@ + layout.folder@ + "-"@ + stamp@ + ".zip"@,
{
    let mut o: Vec<char> = Vec::new();
    append_str(&mut o, "layoutswap-diagnostics-");
    append_str(&mut o, layout.folder.as_str());
    append_str(&mut o, "-");
    append_str(&mut o, stamp);
    append_str(&mut o, ".zip");
    string_of(&o)
}

/// The member names of a diagnostics zip, in the order they are written: the app log,
/// the layout's switch log, the last probe output, the switch script and the config.
pub open spec fn diagnostics_members() -> Seq<Seq<char>> {
    seq!["layoutswap.log"@, "switch.log"@, "last-probe.json"@, "switch.ps1"@, "config.json"@]
}

/// The member names of a diagnostics zip.
pub fn diagnostics_member_names() -> (r: Vec<String>)
    ensures
        r@.map_values(|m: String| m@) == diagnostics_members(),
{
    let mut r: Vec<String> = Vec::new();
    r.push(string_of(&chars_of("layoutswap.log")));
    r.push(string_of(&chars_of("switch.log")));
    r.push(string_of(&chars_of("last-probe.json")));
    r.push(string_of(&chars_of("switch.ps1")));
    r.push(string_of(&chars_of("config.json")));
    assert(r@.map_values(|m: String| m@) =~= diagnostics_members());
    r
}

/// What a diagnostics member holds: the file's bytes, or, for a file that is not on
/// disk, a one-line note under the same name, so the reader learns it was missing.
pub fn member_content(name: &str, path: &str, file: Option<Vec<u8>>) -> (r: Vec<u8>)
    ensures
        match file {
            Some(bytes) => r@ == bytes@,
            None => r@ == vstd::utf8::encode_utf8("layoutswap: "@ + name@ + " was not present at "@ + path@ + "\n"@),
        },
{
    match file {
        Some(bytes) => bytes,
        None => {
            let mut o: Vec<char> = Vec::new();
            append_str(&mut o, "layoutswap: ");
            append_str(&mut o, name);
            append_str(&mut o, " was not present at ");
            append_str(&mut o, path);
            append_str(&mut o, "\n");
            let note = string_of(&o);
            note.as_str().as_bytes_vec()
        },
    }
}

/// No two layouts share a name, compared trimmed and without case.
pub open spec fn unique_names(layouts: Seq<Layout>) -> bool {
    forall|i: int, j: int|
        0 <= i < layouts.len() && 0 <= j < layouts.len() && i != j ==> !names_match(
            #[trigger] layouts[i].name@,
            #[trigger] layouts[j].name@,
        )
}

/// No two layouts share an id.
pub open spec fn unique_ids(layouts: Seq<Layout>) -> bool {
    forall|i: int, j: int|
        0 <= i < layouts.len() && 0 <= j < layouts.len() && i != j ==> #[trigger] layouts[i].id@
            != #[trigger] layouts[j].id@
}

/// The layouts after a captured layout is stored, as [`store_layout`] stores it.
pub open spec fn stored(layouts: Seq<Layout>, layout: Layout, replaces: Option<usize>) -> Seq<Layout> {
    match replaces {
        Some(j) => layouts.update(j as int, layout),
        None => layouts.push(layout),
    }
}

/// A capture stored as [`store_layout`] stores it: a new layout, under the valid name and
/// the fresh id, comes after all the others; a replace puts the layout in the place of
/// the layout with the id, keeping that layout's id and folder and the number of layouts;
/// a replace of an id no layout has is refused, naming the id.
pub proof fn lemma_capture_then_store(
    r: Result<Capture, AppError>,
    layouts: Seq<Layout>,
    raw: Seq<char>,
    replace_id: Option<Seq<char>>,
    inventory: Option<Inventory>,
    captured_at: Seq<char>,
    fresh: Seq<char>,
)
    requires
        capture_spec(r, layouts, raw, replace_id, inventory, captured_at, fresh),
    ensures
        match r {
            Ok(Capture::Ready { layout, replaces: None }) => {
                &&& replace_id is None
                &&& name_rule(raw) == Ok::<Seq<char>, Seq<char>>(layout.name@)
                &&& layout.id@ == fresh
                &&& stored(layouts, layout, None) == layouts.push(layout)
            },
            Ok(Capture::Ready { layout, replaces: Some(j) }) => {
                &&& j < layouts.len()
                &&& replace_id == Some(layouts[j as int].id@)
                &&& name_rule(raw) == Ok::<Seq<char>, Seq<char>>(layout.name@)
                &&& layout.id@ == layouts[j as int].id@
                &&& layout.folder@ == layouts[j as int].folder@
                &&& stored(layouts, layout, Some(j)).len() == layouts.len()
                &&& stored(layouts, layout, Some(j))[j as int] == layout
                &&& forall|k: int|
                    0 <= k < layouts.len() && k != j ==> #[trigger] stored(layouts, layout, Some(j))[k]
                        == layouts[k]
            },
            Err(AppError::LayoutNotFound { id }) => replace_id == Some(id@) && !has_id(layouts, id@),
            _ => true,
        },
{
}

/// Names are unique regardless of letter case: a capture that comes out ready to store
/// never gives a layout a name another layout holds, so storing it keeps the names
/// unique (given unique ids, so that a replace replaces one layout).
pub proof fn lemma_capture_keeps_names_unique(
    r: Result<Capture, AppError>,
    layouts: Seq<Layout>,
    raw: Seq<char>,
    replace_id: Option<Seq<char>>,
    inventory: Option<Inventory>,
    captured_at: Seq<char>,
    fresh: Seq<char>,
)
    requires
        capture_spec(r, layouts, raw, replace_id, inventory, captured_at, fresh),
        unique_names(layouts),
        unique_ids(layouts),
    ensures
        match r {
            Ok(Capture::Ready { layout, replaces }) => unique_names(stored(layouts, layout, replaces)),
            _ => true,
        },
{
    match r {
        Ok(Capture::Ready { layout, replaces }) => {
            let name = name_rule(raw)->Ok_0;
            assert(layout.name@ == name);
            assert(!name_held(layouts, name, replace_id));
            let out = stored(layouts, layout, replaces);
            match replaces {
                Some(j) => {
                    let rid = replace_id->0;
                    assert forall|a: int, b: int|
                        0 <= a < out.len() && 0 <= b < out.len() && a != b implies !names_match(
                        #[trigger] out[a].name@,
                        #[trigger] out[b].name@,
                    ) by {
                        if a == j {
                            assert(!name_taken_by(layouts, name, replace_id, b));
                            assert(layouts[b].id@ != layouts[j as int].id@);
                        } else if b == j {
                            assert(!name_taken_by(layouts, name, replace_id, a));
                            assert(layouts[a].id@ != layouts[j as int].id@);
                        } else {
                            assert(out[a] == layouts[a] && out[b] == layouts[b]);
                        }
                    }
                },
                None => {
                    let n = layouts.len() as int;
                    assert forall|a: int, b: int|
                        0 <= a < out.len() && 0 <= b < out.len() && a != b implies !names_match(
                        #[trigger] out[a].name@,
                        #[trigger] out[b].name@,
                    ) by {
                        if a == n {
                            assert(!name_taken_by(layouts, name, replace_id, b));
                        } else if b == n {
                            assert(!name_taken_by(layouts, name, replace_id, a));
                        } else {
                            assert(out[a] == layouts[a] && out[b] == layouts[b]);
                        }
                    }
                },
            }
        },
        _ => {},
    }
}

/// A save from the layout editor: refused with the first problem when the edits are
/// out of bounds, else the layout takes the steps, the timings and the fallback, and is
/// marked updated at `updated_at`. Everything else stays.
pub fn apply_edits(layout: &mut Layout, edits: LayoutEdits, updated_at: String) -> (r: Result<(), AppError>)
    ensures
        match edits_problem(edits) {
            Some(reason) => r matches Err(AppError::InvalidLayoutEdit { reason: got }) && got@ == reason
                && *final(layout) == *old(layout),
            None => {
                &&& r is Ok
                &&& final(layout).steps == edits.steps
                &&& final(layout).drop_wait_seconds == edits.drop_wait_seconds
                &&& final(layout).available_wait_seconds == edits.available_wait_seconds
                &&& final(layout).on_apply_failure == edits.on_apply_failure
                &&& final(layout).updated_at == updated_at
                &&& final(layout).id == old(layout).id
                &&& final(layout).name == old(layout).name
                &&& final(layout).folder == old(layout).folder
                &&& final(layout).captured_at == old(layout).captured_at
                &&& final(layout).arrangement == old(layout).arrangement
                &&& final(layout).summary == old(layout).summary
                &&& final(layout).script == old(layout).script
            },
        },
{
    match validate_edits(&edits) {
        Err(e) => Err(e),
        Ok(()) => {
            layout.steps = edits.steps;
            layout.drop_wait_seconds = edits.drop_wait_seconds;
            layout.available_wait_seconds = edits.available_wait_seconds;
            layout.on_apply_failure = edits.on_apply_failure;
            layout.updated_at = updated_at;
            Ok(())
        },
    }
}

} // verus!
