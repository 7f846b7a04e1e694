//! What the user is told.

use vstd::prelude::*;
use vstd::string::*;

use crate::bridge::pinned::unpin_notice;
use crate::bridge::proto::{Op, WorkspaceRef};
use crate::bridge::server::OpError;
use crate::json::{field, Json, JsonView};
use crate::pin::{list_rows, off_summary, toggle_summary, toggle_target, PinRow};
use crate::seqs::{lemma_first_index, lemma_no_first_index};
use crate::snapshot::hooks::HookError;
use crate::snapshot::load::{describe_op, match_summary, respawn_summary};
use crate::snapshot::save::{save_summary, TargetError};
use crate::snapshot::store::NameError;
use crate::snapshot::template::TemplateError;
use crate::text::{debug_text, decimal, signed_decimal};

verus! {

// ------------------------------------------------------------------------ pins

/// The window to toggle is the one that has the focus; its application is
/// the one that its record names, or a question mark.
pub proof fn law_focused_window_is_toggled(
    state: Json,
    id: u64,
    items: Seq<JsonView>,
    k: int,
    r: Result<(u64, String), String>,
)
    requires
        call_ensures(toggle_target, (&state,), r),
        field(state@, "focused_window_id"@) == JsonView::Num(id as int),
        field(state@, "windows"@) == JsonView::Arr(items),
        0 <= k < items.len(),
        field(items[k], "id"@) == JsonView::Num(id as int),
        forall|j: int|
            0 <= j < k ==> field(#[trigger] items[j], "id"@) != JsonView::Num(id as int),
    ensures
        r matches Ok(t) && t.0 == id,
        field(items[k], "app_id"@) matches JsonView::Str(a) ==> r->Ok_0.1@ == a,
        !(field(items[k], "app_id"@) is Str) ==> r->Ok_0.1@ == "?"@,
{
    lemma_first_index(
        items,
        |w: JsonView| crate::json::as_id(field(w, "id"@)) == Some(id),
        k,
    );
}

/// Without a focused window there is nothing to toggle.
pub proof fn law_nothing_to_toggle(state: Json, r: Result<(u64, String), String>)
    requires
        call_ensures(toggle_target, (&state,), r),
        field(state@, "focused_window_id"@) == JsonView::Null,
    ensures
        r matches Err(e) && e@ == "no focused window"@,
{
}

/// After a toggle the user is told what the bridge answered.
pub proof fn law_toggle_is_told(app: &str, id: u64, answer: Json, b: bool, r: (String, String))
    requires
        call_ensures(toggle_summary, (app, id, &answer), r),
        field(answer@, "pinned"@) == JsonView::Bool(b),
    ensures
        b ==> r.0@ == "pinned"@ + " "@ + app@ + " ("@ + decimal(id as nat) + ")"@ && r.1@ == app@
            + ": "@ + "pinned"@,
        !b ==> r.0@ == "unpinned"@ + " "@ + app@ + " ("@ + decimal(id as nat) + ")"@ && r.1@ == app@
            + ": "@ + "unpinned"@,
{
}

/// Each record of an answer is one row, with its application and its title.
pub proof fn law_rows_tell_records(answer: Json, items: Seq<JsonView>, r: Vec<PinRow>, k: int)
    requires
        call_ensures(list_rows, (&answer,), r),
        answer@ == JsonView::Arr(items),
        0 <= k < items.len(),
    ensures
        r@.len() == items.len(),
        field(items[k], "app_id"@) matches JsonView::Str(a) ==> r@[k].app_id@ == a,
        !(field(items[k], "app_id"@) is Str) ==> r@[k].app_id@ == "?"@,
        field(items[k], "title"@) matches JsonView::Str(t) ==> r@[k].title@ == t,
        !(field(items[k], "title"@) is Str) ==> r@[k].title@.len() == 0,
{
    reveal_strlit("");
    assert(crate::pin::is_row_of(r@[k], items[k]));
}

/// The user is told how many windows were unpinned; a notice is shown only
/// where there was one.
pub proof fn law_unpinned_windows_are_told(answer: Json, n: u64, r: (String, Option<String>))
    requires
        call_ensures(off_summary, (&answer,), r),
        field(answer@, "n_unpinned"@) == JsonView::Num(n as int),
    ensures
        r.0@ == "unpinned "@ + decimal(n as nat) + " windows"@,
        r.1 is Some <==> n > 0,
        r.1 matches Some(s) ==> s@ == decimal(n as nat) + " windows"@,
{
}

/// A notice about a pin that was given up names the application.
pub proof fn law_lost_pin_is_told(app: &str, r: String)
    requires
        call_ensures(unpin_notice, (app,), r),
    ensures
        r@ == app@ + ": window left floating mode"@,
{
}

// ------------------------------------------------------------------- snapshots

/// A step of a layout is described by what it does and the window it is
/// about.
pub proof fn law_steps_are_described(
    id: u64,
    w: i32,
    h: i32,
    x: u64,
    y: u64,
    index: u32,
    workspace: WorkspaceRef,
    op: Op,
    r: String,
)
    requires
        call_ensures(describe_op, (&op,), r),
    ensures
        op == (Op::WindowMoveToWorkspace { id, workspace }) ==> r@ == "move id="@ + decimal(
            id as nat,
        ) + " to workspace"@,
        op == (Op::WindowToggleFloating { id }) ==> r@ == "toggle floating id="@ + decimal(
            id as nat,
        ),
        op == (Op::WindowMoveColumnToIndex { id, index }) ==> r@ == "move column id="@ + decimal(
            id as nat,
        ) + " to first"@,
        op == (Op::WindowSetSize { id, w, h }) ==> r@ == "size id="@ + decimal(id as nat),
        op == (Op::WindowSetFloatingPosition { id, x, y }) ==> r@ == "floating-position id="@
            + decimal(id as nat),
        op == (Op::WindowFocus { id }) ==> r@ == "focus id="@ + decimal(id as nat),
        op == (Op::WindowClose { id }) ==> r@ == "closing window "@ + decimal(id as nat)
            + " for --clear"@,
{
}

/// After a snapshot was saved the user is told its name, how many windows it
/// holds and of which workspace they are.
pub proof fn law_saving_is_told(name: &str, windows: usize, index: u8, r: String)
    requires
        call_ensures(save_summary, (name, windows, index), r),
    ensures
        r@ == "saved snapshot "@ + name@ + " ("@ + decimal(windows as nat)
            + " windows from workspace idx "@ + decimal(index as nat) + ")"@,
{
}

/// After windows were rearranged the user is told how many of how many; those
/// that are missing are mentioned where there are any, and only there.
pub proof fn law_rearranging_is_told(name: &str, placed: usize, total: usize, r: (String, String))
    requires
        call_ensures(match_summary, (name, placed, total), r),
        placed <= total,
    ensures
        ({
            let head = "loaded snapshot "@ + name@ + " (no-respawn): "@ + (decimal(placed as nat)
                + "/"@ + decimal(total as nat)) + " windows placed"@;
            &&& placed == total ==> r.0@ == head
            &&& placed < total ==> r.0@ == head + (", "@ + decimal((total - placed) as nat)
                + " unmatched"@)
        }),
        r.1@ == name@ + " ("@ + (decimal(placed as nat) + "/"@ + decimal(total as nat))
            + " placed)"@,
{
    if placed == total {
        let head = "loaded snapshot "@ + name@ + " (no-respawn): "@ + (decimal(placed as nat) + "/"@
            + decimal(total as nat)) + " windows placed"@;
        assert(head + Seq::<char>::empty() =~= head);
    }
}

/// After windows were started again the user is told how many of how many;
/// those that did not appear are mentioned where there are any, and only
/// there.
pub proof fn law_restarting_is_told(
    name: &str,
    placed: usize,
    appeared: usize,
    total: usize,
    r: (String, String),
)
    requires
        call_ensures(respawn_summary, (name, placed, appeared, total), r),
        appeared <= total,
    ensures
        ({
            let share = decimal(placed as nat) + "/"@ + decimal(total as nat);
            let head = "loaded snapshot "@ + name@ + ": "@ + share + " respawned"@;
            let notice = name@ + " ("@ + share + " respawned"@;
            let late = ", "@ + decimal((total - appeared) as nat) + " timed out"@;
            &&& appeared == total ==> r.0@ == head && r.1@ == notice + ")"@
            &&& appeared < total ==> r.0@ == head + late && r.1@ == notice + late + ")"@
        }),
{
    if appeared == total {
        let share = decimal(placed as nat) + "/"@ + decimal(total as nat);
        let head = "loaded snapshot "@ + name@ + ": "@ + share + " respawned"@;
        let notice = name@ + " ("@ + share + " respawned"@;
        assert(head + Seq::<char>::empty() =~= head);
        assert(notice + Seq::<char>::empty() =~= notice);
    }
}

// --------------------------------------------------------------------- errors

/// Why an operation was refused is told in words that name what it was about.
pub proof fn law_refused_operations_are_told(e: OpError, r: String)
    requires
        call_ensures(OpError::message, (&e,), r),
    ensures
        e matches OpError::NoWindow(id) ==> r@ == "no window with id "@ + decimal(id as nat),
        e is NotFloating ==> r@
            == "only floating windows can be pinned; toggle floating first with Mod+V"@,
        e matches OpError::NoAppId(id) ==> r@ == "cannot pin window "@ + decimal(id as nat)
            + ": it reports no app_id, so we couldn't restore the pin across bridge restarts"@,
        e matches OpError::PinDropped(id) ==> r@ == "pin on "@ + decimal(id as nat)
            + " dropped: window is no longer floating"@,
        e is EmptyArgv ==> r@ == "spawn requires non-empty argv"@,
        e is NoBroker ==> r@
            == "activation broker unavailable; bridge not started with Wayland support"@,
        e is NoPid ==> r@ == "spawned child has no pid"@,
        e matches OpError::PidTooLarge(raw) ==> r@ == "spawned child pid "@ + decimal(raw as nat)
            + " doesn't fit in i32"@,
        e matches OpError::UnexpectedReply(s) ==> r@ == "unexpected niri response: "@ + s@,
        e matches OpError::Outside(s) ==> r@ == s@,
{
}

/// Why no workspace could be chosen is told in words that name the one that
/// was asked for.
pub proof fn law_missing_workspace_is_told(e: TargetError, r: String)
    requires
        call_ensures(TargetError::message, (&e,), r),
    ensures
        e is NoFocus ==> r@
            == "no workspace is currently focused; pass --workspace explicitly"@,
        e matches TargetError::NotCached(id) ==> r@ == "focused workspace id "@ + decimal(id as nat)
            + " not in cache"@,
        e matches TargetError::NoIdx(idx) ==> r@ == "no workspace with idx "@ + decimal(idx as nat),
        e matches TargetError::NoName(s) ==> r@ == "no workspace named "@ + debug_text(s@),
        e matches TargetError::SavedIdxAbsent(idx) ==> r@ == "workspace idx "@ + decimal(idx as nat)
            + " from snapshot not present on this niri"@,
{
}

/// Why a name was refused is told.
pub proof fn law_refused_names_are_told(e: NameError, r: String)
    requires
        call_ensures(NameError::message, (&e,), r),
    ensures
        e is Empty ==> r@ == "snapshot name cannot be empty"@,
        e is LeadingDot ==> r@ == "snapshot name cannot start with '.'"@,
        e matches NameError::BadCharacter(s) ==> r@ == "snapshot name "@ + debug_text(s@)
            + " contains characters outside [A-Za-z0-9_.-]"@,
{
}

/// A variable of which nothing is known is named, with how to give it.
pub proof fn law_unknown_variable_is_told(name: String, r: String)
    requires
        call_ensures(TemplateError::message, (&TemplateError::UnknownVariable(name),), r),
    ensures
        r@ == "unknown variable {{"@ + name@ + "}} (pass --var "@ + name@ + "=...)"@,
{
}

/// Why a hook failed is told.
pub proof fn law_failed_hooks_are_told(e: HookError, r: String)
    requires
        call_ensures(HookError::message, (&e,), r),
    ensures
        e matches HookError::WrongVariant { hook, expects } ==> r@ == hook@
            + " can't build argv from "@ + expects@ + " variant"@,
        e matches HookError::EmptyArgv(s) ==> r@ == s@,
        e matches HookError::NoBinary { kind, app_id, edited } ==> (!edited ==> r@ == "no "@ + kind@
            + " binary mapping for app_id "@ + app_id@),
        e matches HookError::NoBinary { kind, app_id, edited } ==> (edited ==> r@ == "no "@ + kind@
            + " binary mapping for app_id "@ + app_id@ + "; HookData was hand-edited?"@),
        e matches HookError::NoAppId(hook) ==> r@ == hook@ + "::capture called with app_id=None"@,
        e matches HookError::NoPid(s) ==> r@ == s@,
        e matches HookError::EmptyCmdline(pid) ==> r@ == "/proc/"@ + signed_decimal(pid as int)
            + "/cmdline is empty (kernel thread or zombie?)"@,
        e matches HookError::Outside(s) ==> r@ == s@,
{
    reveal_strlit("");
    if let HookError::NoBinary { kind, app_id, edited } = e {
        let head = "no "@ + kind@ + " binary mapping for app_id "@ + app_id@;
        assert(""@ =~= Seq::<char>::empty());
        assert(head + ""@ =~= head);
    }
}

// --------------------------------------------------------------- bare answers

/// An answer that does not say what it should counts as the lesser thing: a
/// window is unpinned, no window was, none is listed, and none has the focus.
pub proof fn law_bare_answers_say_little(
    app: &str,
    id: u64,
    answer: Json,
    toggled: (String, String),
    off: (String, Option<String>),
    rows: Vec<PinRow>,
    target: Result<(u64, String), String>,
)
    requires
        call_ensures(toggle_summary, (app, id, &answer), toggled),
        call_ensures(off_summary, (&answer,), off),
        call_ensures(list_rows, (&answer,), rows),
        call_ensures(toggle_target, (&answer,), target),
    ensures
        !(field(answer@, "pinned"@) is Bool) ==> toggled.1@ == app@ + ": "@ + "unpinned"@
            && toggled.0@ == "unpinned"@ + " "@ + app@ + " ("@ + decimal(id as nat) + ")"@,
        !(field(answer@, "n_unpinned"@) is Num) ==> off.1 is None && off.0@ == "unpinned "@
            + decimal(0) + " windows"@,
        !(answer@ is Arr) ==> rows@.len() == 0,
        !(field(answer@, "focused_window_id"@) is Num) ==> (target matches Err(e) && e@
            == "no focused window"@),
{
}

/// The focused window is toggled though nothing is known of its application:
/// a question mark stands for it where no record has its id, or there are no
/// records at all.
pub proof fn law_unknown_application_is_a_question_mark(
    state: Json,
    id: u64,
    r: Result<(u64, String), String>,
)
    requires
        call_ensures(toggle_target, (&state,), r),
        field(state@, "focused_window_id"@) == JsonView::Num(id as int),
        field(state@, "windows"@) matches JsonView::Arr(items) ==> forall|j: int|
            0 <= j < items.len() ==> field(#[trigger] items[j], "id"@) != JsonView::Num(id as int),
    ensures
        r matches Ok(t) && t.0 == id && t.1@ == "?"@,
{
    if let JsonView::Arr(items) = field(state@, "windows"@) {
        let p = |w: JsonView| crate::json::as_id(field(w, "id"@)) == Some(id);
        assert forall|j: int| 0 <= j < items.len() implies !p(#[trigger] items[j]) by {
            assert(field(items[j], "id"@) != JsonView::Num(id as int));
        }
        lemma_no_first_index(items, p);
    }
}

} // verus!
