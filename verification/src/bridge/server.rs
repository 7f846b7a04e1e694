//! What the bridge does with each operation of a client.
//!
//! Each connection reads requests line by line, answers them, and receives
//! the events that its client subscribed to. Reading, writing, asking the
//! compositor and starting processes happen outside: the functions here
//! decide what is to be done and what is answered.

use vstd::prelude::*;
use vstd::string::*;

use crate::bridge::proto::{topics, window_view, workspace_view, Event, Op, Response, Window, Workspace, WorkspaceRef};
use crate::bridge::state::{
    enumerates, lists_windows, lists_workspaces, members_of, texts_json, texts_view, windows_json,
    windows_of, windows_view, workspaces_json, workspaces_of, workspaces_view, ClientSubs, Inner,
};
use crate::json::{opt_number, opt_text, put, Json, JsonView};
use crate::table::lists;
use crate::text::{clone_strings, decimal, decimal_string, opt_view, views};

verus! {

broadcast use vstd::std_specs::hash::group_hash_axioms;

/// Why an operation was not carried out.
#[derive(Debug)]
pub enum OpError {
    NoWindow(u64),
    NotFloating,
    NoAppId(u64),
    PinDropped(u64),
    EmptyArgv,
    NoBroker,
    NoPid,
    PidTooLarge(u32),
    /// The compositor answered something else than that it did the action.
    UnexpectedReply(String),
    /// A failure outside of the bridge, in its own words.
    Outside(String),
}

impl OpError {
    /// The text that the client is told.
    pub open spec fn text(&self) -> Seq<char> {
        match self {
            OpError::NoWindow(id) => "no window with id "@ + decimal(*id as nat),
            OpError::NotFloating =>
                "only floating windows can be pinned; toggle floating first with Mod+V"@,
            OpError::NoAppId(id) => "cannot pin window "@ + decimal(*id as nat)
                + ": it reports no app_id, so we couldn't restore the pin across bridge restarts"@,
            OpError::PinDropped(id) => "pin on "@ + decimal(*id as nat)
                + " dropped: window is no longer floating"@,
            OpError::EmptyArgv => "spawn requires non-empty argv"@,
            OpError::NoBroker =>
                "activation broker unavailable; bridge not started with Wayland support"@,
            OpError::NoPid => "spawned child has no pid"@,
            OpError::PidTooLarge(raw) => "spawned child pid "@ + decimal(*raw as nat)
                + " doesn't fit in i32"@,
            OpError::UnexpectedReply(reply) => "unexpected niri response: "@ + reply@,
            OpError::Outside(words) => words@,
        }
    }

    /// The text that the client is told.
    pub fn message(&self) -> (r: String)
        ensures
            r@ == self.text(),
    {
        match self {
            OpError::NoWindow(id) => {
                let mut s = "no window with id ".to_owned();
                s.append(decimal_string(*id).as_str());
                s
            },
            OpError::NotFloating =>
                "only floating windows can be pinned; toggle floating first with Mod+V".to_owned(),
            OpError::NoAppId(id) => {
                let mut s = "cannot pin window ".to_owned();
                s.append(decimal_string(*id).as_str());
                s.append(
                    ": it reports no app_id, so we couldn't restore the pin across bridge restarts",
                );
                s
            },
            OpError::PinDropped(id) => {
                let mut s = "pin on ".to_owned();
                s.append(decimal_string(*id).as_str());
                s.append(" dropped: window is no longer floating");
                s
            },
            OpError::EmptyArgv => "spawn requires non-empty argv".to_owned(),
            OpError::NoBroker =>
                "activation broker unavailable; bridge not started with Wayland support".to_owned(),
            OpError::NoPid => "spawned child has no pid".to_owned(),
            OpError::PidTooLarge(raw) => {
                let mut s = "spawned child pid ".to_owned();
                s.append(decimal_string(*raw as u64).as_str());
                s.append(" doesn't fit in i32");
                s
            },
            OpError::UnexpectedReply(reply) => {
                let mut s = "unexpected niri response: ".to_owned();
                s.append(reply.as_str());
                s
            },
            OpError::Outside(words) => words.clone(),
        }
    }
}

/// An action that the compositor is asked to do.
#[derive(Debug)]
pub enum NiriAction {
    FocusWindow { id: u64 },
    CloseWindow { id: u64 },
    MoveWindowToWorkspace { window_id: u64, reference: WorkspaceRef, focus: bool },
    ToggleWindowFloating { id: u64 },
    /// Acts on the focused column; `index` counts from one.
    MoveColumnToIndex { index: usize },
    SetWindowWidth { id: u64, width: i32 },
    SetWindowHeight { id: u64, height: i32 },
    /// `x` and `y` are bit patterns of doubles.
    MoveFloatingWindow { id: u64, x: u64, y: u64 },
}

/// The column after `index`, counted from one; at most the largest number.
pub open spec fn one_based(index: u32) -> usize {
    if index < usize::MAX {
        (index + 1) as usize
    } else {
        usize::MAX
    }
}

/// The actions that an operation stands for, in order; none where the
/// operation is not one that the compositor carries out.
pub open spec fn op_actions(op: Op) -> Seq<NiriAction> {
    match op {
        Op::WindowFocus { id } => seq![NiriAction::FocusWindow { id }],
        Op::WindowClose { id } => seq![NiriAction::CloseWindow { id }],
        Op::WindowMoveToWorkspace { id, workspace } => seq![
            NiriAction::MoveWindowToWorkspace { window_id: id, reference: workspace, focus: true },
        ],
        Op::WindowToggleFloating { id } => seq![NiriAction::ToggleWindowFloating { id }],
        Op::WindowMoveColumnToIndex { id, index } => seq![
            NiriAction::FocusWindow { id },
            NiriAction::MoveColumnToIndex { index: one_based(index) },
        ],
        Op::WindowSetSize { id, w, h } => seq![
            NiriAction::SetWindowWidth { id, width: w },
            NiriAction::SetWindowHeight { id, height: h },
        ],
        Op::WindowSetFloatingPosition { id, x, y } => seq![
            NiriAction::MoveFloatingWindow { id, x, y },
        ],
        _ => seq![],
    }
}

// ---------------------------------------------------------------------- pins

/// What became of a request to pin. `mutated` tells whether the set of pins
/// changed, which it may have done where the request was refused too.
pub struct PinOutcome {
    pub mutated: bool,
    pub result: Result<bool, OpError>,
}

/// Why a window that is not pinned cannot be pinned, if it cannot.
pub open spec fn pin_refusal(s: Inner, id: u64) -> Option<OpError> {
    if !s.windows@.contains_key(id) {
        Some(OpError::NoWindow(id))
    } else if !s.windows@[id].is_floating {
        Some(OpError::NotFloating)
    } else if !has_app_id(s.windows@[id]) {
        Some(OpError::NoAppId(id))
    } else {
        None
    }
}

/// The window names the application that it belongs to.
pub open spec fn has_app_id(w: Window) -> bool {
    opt_view(w.app_id) matches Some(name) && name.len() > 0
}

fn names_app(w: &Window) -> (r: bool)
    ensures
        r == has_app_id(*w),
{
    match &w.app_id {
        Some(name) => name.as_str().unicode_len() > 0,
        None => false,
    }
}

fn refusal(s: &Inner, id: u64) -> (r: Option<OpError>)
    ensures
        r == pin_refusal(*s, id),
{
    match s.windows.get(&id) {
        None => Some(OpError::NoWindow(id)),
        Some(w) => if !w.is_floating {
            Some(OpError::NotFloating)
        } else if !names_app(w) {
            Some(OpError::NoAppId(id))
        } else {
            None
        },
    }
}

/// Everything but the set of pins is as it was.
pub open spec fn same_cache(a: Inner, b: Inner) -> bool {
    &&& a.windows == b.windows
    &&& a.workspaces == b.workspaces
    &&& a.focused_window == b.focused_window
    &&& a.focused_workspace == b.focused_workspace
}

/// Pins a window. A pin on a window that no longer floats is dropped and the
/// request refused; a pin that stands is left as it is.
pub fn try_pin(s: &mut Inner, id: u64) -> (r: PinOutcome)
    ensures
        same_cache(*old(s), *final(s)),
        old(s).pinned_windows@.contains(id) && !old(s).floats(id) ==> {
            &&& r.mutated
            &&& r.result == Err::<bool, OpError>(OpError::PinDropped(id))
            &&& final(s).pinned_windows@ == old(s).pinned_windows@.remove(id)
        },
        old(s).pinned_windows@.contains(id) && old(s).floats(id) ==> {
            &&& !r.mutated
            &&& r.result == Ok::<bool, OpError>(false)
            &&& final(s).pinned_windows@ == old(s).pinned_windows@
        },
        !old(s).pinned_windows@.contains(id) ==> (match pin_refusal(*old(s), id) {
            Some(e) => {
                &&& !r.mutated
                &&& r.result == Err::<bool, OpError>(e)
                &&& final(s).pinned_windows@ == old(s).pinned_windows@
            },
            None => {
                &&& r.mutated
                &&& r.result == Ok::<bool, OpError>(true)
                &&& final(s).pinned_windows@ == old(s).pinned_windows@.insert(id)
            },
        }),
{
    let live_floating = match s.windows.get(&id) {
        Some(w) => w.is_floating,
        None => false,
    };
    let already_pinned = s.pinned_windows.contains(&id);
    if already_pinned && !live_floating {
        s.pinned_windows.remove(&id);
        return PinOutcome { mutated: true, result: Err(OpError::PinDropped(id)) };
    }
    if already_pinned {
        return PinOutcome { mutated: false, result: Ok(false) };
    }
    match refusal(s, id) {
        Some(e) => PinOutcome { mutated: false, result: Err(e) },
        None => {
            s.pinned_windows.insert(id);
            PinOutcome { mutated: true, result: Ok(true) }
        },
    }
}

/// Drops the pin on a window where there is one, and pins it otherwise. The
/// result tells whether the window is pinned now.
pub fn toggle_pin(s: &mut Inner, id: u64) -> (r: Result<bool, OpError>)
    ensures
        same_cache(*old(s), *final(s)),
        old(s).pinned_windows@.contains(id) ==> {
            &&& r == Ok::<bool, OpError>(false)
            &&& final(s).pinned_windows@ == old(s).pinned_windows@.remove(id)
        },
        !old(s).pinned_windows@.contains(id) ==> (match pin_refusal(*old(s), id) {
            Some(e) => {
                &&& r == Err::<bool, OpError>(e)
                &&& final(s).pinned_windows@ == old(s).pinned_windows@
            },
            None => {
                &&& r == Ok::<bool, OpError>(true)
                &&& final(s).pinned_windows@ == old(s).pinned_windows@.insert(id)
            },
        }),
{
    if s.pinned_windows.remove(&id) {
        return Ok(false);
    }
    assert(s.pinned_windows@ =~= old(s).pinned_windows@);
    match refusal(s, id) {
        Some(e) => Err(e),
        None => {
            s.pinned_windows.insert(id);
            Ok(true)
        },
    }
}

/// The records of the pinned windows that are cached.
pub fn pinned_records(s: &Inner) -> (r: Vec<Window>)
    ensures
        lists_windows(r@, s.windows@.restrict(s.pinned_windows@)),
{
    let ids = members_of(&s.pinned_windows);
    let ghost live = s.windows@.restrict(s.pinned_windows@);
    let ghost mut kept: Seq<u64> = Seq::empty();
    let mut r: Vec<Window> = Vec::new();
    let mut i: usize = 0;
    while i < ids.len()
        invariant
            i <= ids@.len(),
            enumerates(ids@, s.pinned_windows@),
            live == s.windows@.restrict(s.pinned_windows@),
            kept.no_duplicates(),
            forall|k: int| 0 <= k < kept.len() ==> {
                &&& live.contains_key(#[trigger] kept[k])
                &&& ids@.take(i as int).contains(kept[k])
            },
            forall|k: int| 0 <= k < i && live.contains_key(#[trigger] ids@[k]) ==> kept.contains(ids@[k]),
            r@ == kept.map_values(|id: u64| live[id]),
        decreases ids@.len() - i,
    {
        let ghost before = kept;
        let id: u64 = ids[i];
        assert(ids@.to_set().contains(id));
        match s.windows.get(&id) {
            Some(w) => {
                r.push(w.clone());
                proof {
                    kept = kept.push(id);
                    assert(!before.contains(id)) by {
                        if before.contains(id) {
                            let k = choose|k: int| 0 <= k < before.len() && before[k] == id;
                            assert(ids@.take(i as int).contains(before[k]));
                            let earlier = ids@.take(i as int);
                            let m = choose|m: int| 0 <= m < earlier.len() && earlier[m] == id;
                            assert(ids@[m] == ids@[i as int]);
                        }
                    }
                    assert(r@ =~= kept.map_values(|id: u64| live[id]));
                    assert(kept[before.len() as int] == id);
                }
            },
            None => {},
        }
        i += 1;
        proof {
            assert forall|k: int| 0 <= k < kept.len() implies ids@.take(i as int).contains(
                #[trigger] kept[k],
            ) by {
                if k < before.len() {
                    assert(kept[k] == before[k]);
                    assert(ids@.take(i - 1).contains(before[k]));
                    let earlier = ids@.take(i - 1);
                    let m = choose|m: int| 0 <= m < earlier.len() && earlier[m] == before[k];
                    assert(ids@.take(i as int)[m] == before[k]);
                } else {
                    assert(ids@.take(i as int)[i - 1] == id);
                }
            }
            assert forall|k: int| 0 <= k < i && live.contains_key(#[trigger] ids@[k]) implies kept.contains(
                ids@[k],
            ) by {
                if k < i - 1 {
                    assert(before.contains(ids@[k]));
                    let m = choose|m: int| 0 <= m < before.len() && before[m] == ids@[k];
                    assert(kept[m] == ids@[k]);
                }
            }
        }
    }
    proof {
        assert forall|id: u64| kept.to_set().contains(id) == #[trigger] live.dom().contains(id) by {
            if live.dom().contains(id) {
                assert(ids@.to_set().contains(id));
                let k = choose|k: int| 0 <= k < ids@.len() && ids@[k] == id;
                assert(live.contains_key(ids@[k]));
            }
        }
        assert(kept.to_set() =~= live.dom());
        assert(enumerates(kept, live.dom()));
    }
    r
}

// -------------------------------------------------------------------- spawns

/// A process that is to be started.
#[derive(Debug)]
pub struct SpawnPlan {
    pub argv: Vec<String>,
    pub env: Vec<(String, String)>,
    /// An activation token is minted first and planted in the environment.
    pub mint: bool,
}

/// A process to start: its program, its arguments, and the variables that
/// are set on top of the inherited environment, in order.
#[derive(Debug)]
pub struct SpawnCommand {
    pub program: String,
    pub args: Vec<String>,
    pub env: Vec<(String, String)>,
}

/// What a variable is set to after all settings were applied in order.
pub open spec fn env_value(env: Seq<(String, String)>, key: Seq<char>) -> Option<Seq<char>>
    decreases env.len(),
{
    if env.len() == 0 {
        None
    } else if env.last().0@ == key {
        Some(env.last().1@)
    } else {
        env_value(env.drop_last(), key)
    }
}

/// A copy of a list of settings.
pub fn clone_pairs(v: &Vec<(String, String)>) -> (r: Vec<(String, String)>)
    ensures
        r@ == v@,
{
    let mut r: Vec<(String, String)> = Vec::new();
    let mut i: usize = 0;
    while i < v.len()
        invariant
            i <= v@.len(),
            r@ == v@.take(i as int),
        decreases v@.len() - i,
    {
        r.push((v[i].0.clone(), v[i].1.clone()));
        i += 1;
        assert(v@.take(i as int) =~= v@.take(i - 1).push(v@[i - 1]));
    }
    assert(v@.take(v@.len() as int) =~= v@);
    r
}

/// Checks a request to start a process, before a token is minted for it.
pub fn plan_spawn(
    has_broker: bool,
    argv: &Vec<String>,
    env: &Vec<(String, String)>,
    request_activation_token: bool,
) -> (r: Result<SpawnPlan, OpError>)
    ensures
        argv@.len() == 0 ==> r == Err::<SpawnPlan, OpError>(OpError::EmptyArgv),
        argv@.len() > 0 && request_activation_token && !has_broker ==> r == Err::<
            SpawnPlan,
            OpError,
        >(OpError::NoBroker),
        argv@.len() > 0 && (has_broker || !request_activation_token) ==> (r matches Ok(plan)
            && plan.argv@ == argv@ && plan.env@ == env@ && plan.mint == request_activation_token),
{
    if argv.len() == 0 {
        return Err(OpError::EmptyArgv);
    }
    if request_activation_token && !has_broker {
        return Err(OpError::NoBroker);
    }
    Ok(
        SpawnPlan {
            argv: clone_strings(argv),
            env: clone_pairs(env),
            mint: request_activation_token,
        },
    )
}

/// The command for a process: the caller's environment first, then the
/// activation token.
pub fn build_spawn_command(
    argv: &Vec<String>,
    env: &Vec<(String, String)>,
    token: Option<&str>,
) -> (r: SpawnCommand)
    requires
        argv@.len() > 0,
    ensures
        r.program@ == argv@[0]@,
        r.args@ == argv@.skip(1),
        token is None ==> r.env@ == env@,
        token matches Some(t) ==> {
            &&& r.env@.len() == env@.len() + 1
            &&& r.env@.drop_last() == env@
            &&& r.env@.last().0@ == "XDG_ACTIVATION_TOKEN"@
            &&& r.env@.last().1@ == t@
        },
{
    let program = argv[0].clone();
    let mut args: Vec<String> = Vec::new();
    let mut i: usize = 1;
    while i < argv.len()
        invariant
            1 <= i <= argv@.len(),
            args@ == argv@.subrange(1, i as int),
        decreases argv@.len() - i,
    {
        args.push(argv[i].clone());
        i += 1;
        assert(argv@.subrange(1, i as int) =~= argv@.subrange(1, i - 1).push(argv@[i - 1]));
    }
    assert(args@ =~= argv@.skip(1));
    let mut all = clone_pairs(env);
    match token {
        Some(t) => {
            all.push(("XDG_ACTIVATION_TOKEN".to_owned(), t.to_owned()));
            assert(all@.drop_last() =~= env@);
        },
        None => {},
    }
    SpawnCommand { program, args, env: all }
}

/// The process id of a started child, as the protocol carries it.
pub fn child_pid(raw: Option<u32>) -> (r: Result<i32, OpError>)
    ensures
        r == (match raw {
            None => Err::<i32, OpError>(OpError::NoPid),
            Some(n) => if n <= i32::MAX {
                Ok(n as i32)
            } else {
                Err(OpError::PidTooLarge(n))
            },
        }),
{
    match raw {
        None => Err(OpError::NoPid),
        Some(n) => if n <= 0x7fff_ffff {
            Ok(n as i32)
        } else {
            Err(OpError::PidTooLarge(n))
        },
    }
}

/// What the client is told of a process that was started.
pub fn spawn_reply(pid: i32, token: &Option<String>) -> (r: Json)
    ensures
        r@ == JsonView::Obj(
            map!["pid"@ => JsonView::Num(pid as int), "activation_token"@ => opt_text(opt_view(*token))],
        ),
{
    let mut e: Vec<(String, Json)> = Vec::new();
    put(&mut e, "pid", Json::signed(pid));
    put(&mut e, "activation_token", Json::text_or_null(token));
    Json::Obj(e)
}

// ---------------------------------------------------------------- operations

/// What an operation comes to.
pub enum Reply {
    /// It is answered with this.
    Data(Json),
    /// It is refused.
    Fail(OpError),
    /// The compositor is asked to do these, one after another.
    Forward(Vec<NiriAction>),
    /// A process is started.
    Spawn(SpawnPlan),
}

/// What an operation comes to, and whether the pins are written to disk
/// before it is answered.
pub struct Planned {
    pub reply: Reply,
    pub persist: bool,
}

/// The operation is answered with a value.
pub open spec fn answers(p: Planned, j: JsonView) -> bool {
    p.reply matches Reply::Data(d) && d@ == j
}

/// The operation is refused.
pub open spec fn refuses(p: Planned, e: OpError) -> bool {
    p.reply == Reply::Fail(e)
}

/// The pins are as they were and are not written.
pub open spec fn pins_untouched(pre: Inner, post: Inner, p: Planned) -> bool {
    post.pinned_windows@ == pre.pinned_windows@ && !p.persist
}

/// The object that tells whether a window is pinned.
pub open spec fn pinned_view(b: bool) -> JsonView {
    JsonView::Obj(map!["pinned"@ => JsonView::Bool(b)])
}

/// A window record, or null.
pub open spec fn opt_window_view(m: Map<u64, Window>, id: u64) -> JsonView {
    if m.contains_key(id) {
        window_view(m[id])
    } else {
        JsonView::Null
    }
}

/// The focused workspace's record, or null.
pub open spec fn focused_workspace_view(s: Inner) -> JsonView {
    match s.focused_workspace {
        Some(id) => if s.workspaces@.contains_key(id) {
            workspace_view(s.workspaces@[id])
        } else {
            JsonView::Null
        },
        None => JsonView::Null,
    }
}

/// The answer to a request for the whole state.
pub open spec fn snapshot_view(s: Inner, w: Seq<Window>, ws: Seq<Workspace>) -> JsonView {
    JsonView::Obj(
        map![
            "windows"@ => windows_view(w),
            "workspaces"@ => workspaces_view(ws),
            "focused_window_id"@ => opt_number(s.focused_window),
            "focused_workspace_id"@ => opt_number(s.focused_workspace),
        ],
    )
}

/// What an operation that reads the cache answers. Records come in no
/// particular order.
pub open spec fn query_effect(s: Inner, op: Op, p: Planned) -> bool {
    match op {
        Op::WindowsList => exists|v: Seq<Window>| #[trigger]
            lists_windows(v, s.windows@) && answers(p, windows_view(v)),
        Op::WindowsGet { id } => answers(p, opt_window_view(s.windows@, id)),
        Op::WorkspacesList => exists|v: Seq<Workspace>| #[trigger]
            lists_workspaces(v, s.workspaces@) && answers(p, workspaces_view(v)),
        Op::WorkspacesFocused => answers(p, focused_workspace_view(s)),
        Op::StateSnapshot => exists|w: Seq<Window>, ws: Seq<Workspace>|
            {
                &&& #[trigger] lists_windows(w, s.windows@)
                &&& #[trigger] lists_workspaces(ws, s.workspaces@)
                &&& answers(p, snapshot_view(s, w, ws))
            },
        Op::PinList => exists|v: Seq<Window>| #[trigger]
            lists_windows(v, s.windows@.restrict(s.pinned_windows@)) && answers(p, windows_view(v)),
        Op::ScratchpadList => answers(p, JsonView::Arr(Seq::empty())),
        Op::Noop => answers(p, JsonView::Obj(Map::empty())),
        _ => false,
    }
}

/// What an operation on the pins does and answers.
pub open spec fn pin_effect(pre: Inner, post: Inner, op: Op, p: Planned) -> bool {
    match op {
        Op::PinAdd { window_id: id } => if pre.pinned_windows@.contains(id) {
            if pre.floats(id) {
                pins_untouched(pre, post, p) && answers(p, pinned_view(true))
            } else {
                &&& post.pinned_windows@ == pre.pinned_windows@.remove(id)
                &&& p.persist
                &&& refuses(p, OpError::PinDropped(id))
            }
        } else {
            match pin_refusal(pre, id) {
                Some(e) => pins_untouched(pre, post, p) && refuses(p, e),
                None => {
                    &&& post.pinned_windows@ == pre.pinned_windows@.insert(id)
                    &&& p.persist
                    &&& answers(p, pinned_view(true))
                },
            }
        },
        Op::PinRemove { window_id: id } => {
            &&& post.pinned_windows@ == pre.pinned_windows@.remove(id)
            &&& p.persist == pre.pinned_windows@.contains(id)
            &&& answers(p, pinned_view(false))
        },
        Op::PinToggle { window_id: id } => if pre.pinned_windows@.contains(id) {
            &&& post.pinned_windows@ == pre.pinned_windows@.remove(id)
            &&& p.persist
            &&& answers(p, pinned_view(false))
        } else {
            match pin_refusal(pre, id) {
                Some(e) => pins_untouched(pre, post, p) && refuses(p, e),
                None => {
                    &&& post.pinned_windows@ == pre.pinned_windows@.insert(id)
                    &&& p.persist
                    &&& answers(p, pinned_view(true))
                },
            }
        },
        Op::PinOff => {
            &&& post.pinned_windows@ == Set::<u64>::empty()
            &&& p.persist
            &&& answers(
                p,
                JsonView::Obj(
                    map!["n_unpinned"@ => JsonView::Num(pre.pinned_windows@.len() as int)],
                ),
            )
        },
        _ => false,
    }
}

/// The operation changes the set of pins, or may.
pub open spec fn is_pin_op(op: Op) -> bool {
    op is PinAdd || op is PinRemove || op is PinToggle || op is PinOff
}

/// The operation only reads the cache.
pub open spec fn is_query(op: Op) -> bool {
    ||| op is WindowsList
    ||| op is WindowsGet
    ||| op is WorkspacesList
    ||| op is WorkspacesFocused
    ||| op is StateSnapshot
    ||| op is PinList
    ||| op is ScratchpadList
    ||| op is Noop
}

/// What an operation that starts a process comes to.
pub open spec fn spawn_effect(
    has_broker: bool,
    argv: Seq<String>,
    env: Seq<(String, String)>,
    mint: bool,
    p: Planned,
) -> bool {
    if argv.len() == 0 {
        refuses(p, OpError::EmptyArgv)
    } else if mint && !has_broker {
        refuses(p, OpError::NoBroker)
    } else {
        p.reply matches Reply::Spawn(plan) && plan.argv@ == argv && plan.env@ == env && plan.mint
            == mint
    }
}

/// The topics after an operation.
pub open spec fn topics_after(topics: Set<Seq<char>>, op: Op) -> Set<Seq<char>> {
    match op {
        Op::Subscribe { topics: t } => topics.union(views(t@).to_set()),
        Op::Unsubscribe { topics: t } => topics.difference(views(t@).to_set()),
        _ => topics,
    }
}

/// The answer to a change of the subscription: all topics, in some order.
pub open spec fn subscription_effect(topics: Set<Seq<char>>, p: Planned) -> bool {
    exists|v: Seq<String>| #[trigger]
        lists(v, topics) && answers(
            p,
            JsonView::Obj(map!["subscribed"@ => texts_view(views(v))]),
        )
}

/// What an operation does to the pins and the subscription, and what it
/// comes to.
pub open spec fn op_effect(
    pre: Inner,
    post: Inner,
    topics: Set<Seq<char>>,
    has_broker: bool,
    op: Op,
    p: Planned,
) -> bool {
    if is_pin_op(op) {
        pin_effect(pre, post, op, p)
    } else {
        &&& pins_untouched(pre, post, p)
        &&& if is_query(op) {
            query_effect(pre, op, p)
        } else {
            match op {
                Op::Spawn { argv, env, request_activation_token } => spawn_effect(
                    has_broker,
                    argv@,
                    env@,
                    request_activation_token,
                    p,
                ),
                Op::Subscribe { .. } | Op::Unsubscribe { .. } => subscription_effect(
                    topics_after(topics, op),
                    p,
                ),
                _ => p.reply matches Reply::Forward(actions) && actions@ == op_actions(op),
            }
        }
    }
}

fn data(j: Json) -> (r: Planned)
    ensures
        r.reply == Reply::Data(j),
        !r.persist,
{
    Planned { reply: Reply::Data(j), persist: false }
}

fn forward(action: NiriAction) -> (r: Planned)
    ensures
        r.reply matches Reply::Forward(v) && v@ == seq![action],
        !r.persist,
{
    Planned { reply: Reply::Forward(vec![action]), persist: false }
}

fn forward_both(first: NiriAction, second: NiriAction) -> (r: Planned)
    ensures
        r.reply matches Reply::Forward(v) && v@ == seq![first, second],
        !r.persist,
{
    Planned { reply: Reply::Forward(vec![first, second]), persist: false }
}

fn snapshot_json(s: &Inner) -> (r: Json)
    ensures
        exists|w: Seq<Window>, ws: Seq<Workspace>|
            {
                &&& #[trigger] lists_windows(w, s.windows@)
                &&& #[trigger] lists_workspaces(ws, s.workspaces@)
                &&& r@ == snapshot_view(*s, w, ws)
            },
{
    let w = windows_of(&s.windows);
    let ws = workspaces_of(&s.workspaces);
    let mut e: Vec<(String, Json)> = Vec::new();
    put(&mut e, "windows", windows_json(&w));
    put(&mut e, "workspaces", workspaces_json(&ws));
    put(&mut e, "focused_window_id", Json::number_or_null(s.focused_window));
    put(&mut e, "focused_workspace_id", Json::number_or_null(s.focused_workspace));
    let r = Json::Obj(e);
    assert(r@ == snapshot_view(*s, w@, ws@));
    r
}

fn subscription_json(subs: &ClientSubs) -> (r: Planned)
    requires
        subs.topics.wf(),
    ensures
        subscription_effect(subs.topics@, r),
        !r.persist,
{
    let v = subs.topics.to_vec();
    let r = data(Json::single("subscribed", texts_json(&v)));
    assert(lists(v@, subs.topics@));
    r
}

/// Decides what is done about an operation.
pub fn handle_op(state: &mut Inner, subs: &mut ClientSubs, has_broker: bool, op: &Op) -> (r:
    Planned)
    requires
        old(subs).topics.wf(),
    ensures
        final(subs).topics.wf(),
        final(subs).topics@ == topics_after(old(subs).topics@, *op),
        same_cache(*old(state), *final(state)),
        op_effect(*old(state), *final(state), old(subs).topics@, has_broker, *op, r),
{
    match op {
        Op::Noop => data(Json::empty_object()),
        Op::WindowsList => {
            let v = windows_of(&state.windows);
            data(windows_json(&v))
        },
        Op::WindowsGet { id } => match state.windows.get(id) {
            Some(w) => data(w.to_json()),
            None => data(Json::Null),
        },
        Op::WorkspacesList => {
            let v = workspaces_of(&state.workspaces);
            data(workspaces_json(&v))
        },
        Op::WorkspacesFocused => match state.focused_workspace {
            Some(id) => match state.workspaces.get(&id) {
                Some(w) => data(w.to_json()),
                None => data(Json::Null),
            },
            None => data(Json::Null),
        },
        Op::StateSnapshot => data(snapshot_json(state)),
        Op::WindowFocus { id } => forward(NiriAction::FocusWindow { id: *id }),
        Op::WindowClose { id } => forward(NiriAction::CloseWindow { id: *id }),
        Op::WindowMoveToWorkspace { id, workspace } => forward(
            NiriAction::MoveWindowToWorkspace {
                window_id: *id,
                reference: workspace.clone(),
                focus: true,
            },
        ),
        Op::WindowToggleFloating { id } => forward(NiriAction::ToggleWindowFloating { id: *id }),
        Op::WindowMoveColumnToIndex { id, index } => forward_both(
            NiriAction::FocusWindow { id: *id },
            NiriAction::MoveColumnToIndex { index: (*index as usize).saturating_add(1) },
        ),
        Op::WindowSetSize { id, w, h } => forward_both(
            NiriAction::SetWindowWidth { id: *id, width: *w },
            NiriAction::SetWindowHeight { id: *id, height: *h },
        ),
        Op::WindowSetFloatingPosition { id, x, y } => forward(
            NiriAction::MoveFloatingWindow { id: *id, x: *x, y: *y },
        ),
        Op::PinAdd { window_id } => {
            let outcome = try_pin(state, *window_id);
            let reply = match outcome.result {
                Ok(_) => Reply::Data(Json::single("pinned", Json::Bool(true))),
                Err(e) => Reply::Fail(e),
            };
            Planned { reply, persist: outcome.mutated }
        },
        Op::PinRemove { window_id } => {
            let was = state.pinned_windows.remove(window_id);
            assert(state.pinned_windows@ =~= old(state).pinned_windows@.remove(*window_id));
            Planned {
                reply: Reply::Data(Json::single("pinned", Json::Bool(false))),
                persist: was,
            }
        },
        Op::PinToggle { window_id } => match toggle_pin(state, *window_id) {
            Ok(b) => Planned {
                reply: Reply::Data(Json::single("pinned", Json::Bool(b))),
                persist: true,
            },
            Err(e) => Planned { reply: Reply::Fail(e), persist: false },
        },
        Op::PinOff => {
            let n: usize = state.pinned_windows.len();
            state.pinned_windows.clear();
            Planned {
                reply: Reply::Data(Json::single("n_unpinned", Json::Uint(n as u64))),
                persist: true,
            }
        },
        Op::PinList => {
            let v = pinned_records(state);
            data(windows_json(&v))
        },
        Op::ScratchpadList => {
            let none: Vec<Json> = Vec::new();
            data(Json::Arr(none))
        },
        Op::Spawn { argv, env, request_activation_token } => match plan_spawn(
            has_broker,
            argv,
            env,
            *request_activation_token,
        ) {
            Ok(plan) => Planned { reply: Reply::Spawn(plan), persist: false },
            Err(e) => Planned { reply: Reply::Fail(e), persist: false },
        },
        Op::Subscribe { topics } => {
            subs.subscribe(topics);
            subscription_json(subs)
        },
        Op::Unsubscribe { topics } => {
            subs.unsubscribe(topics);
            subscription_json(subs)
        },
    }
}

// ---------------------------------------------------------------- forwarding

/// How the compositor took an action.
#[derive(Debug)]
pub enum NiriOutcome {
    /// It was done.
    Handled,
    /// Another answer came, given here in words.
    Other(String),
    /// There was no answer, or a refusal, given here in words.
    Error(String),
}

/// Actions that are sent one after another: each only after the one before
/// it was done.
#[derive(Debug)]
pub struct Forwarding {
    pub actions: Vec<NiriAction>,
    pub done: usize,
}

impl Forwarding {
    /// At least one action is left.
    pub open spec fn wf(&self) -> bool {
        self.done < self.actions@.len()
    }

    /// The action to send now.
    pub fn current(&self) -> (r: &NiriAction)
        requires
            self.wf(),
        ensures
            *r == self.actions@[self.done as int],
    {
        &self.actions[self.done]
    }

    /// Takes how the current action went. The result is what the operation
    /// is answered, once that is settled.
    pub fn on_outcome(&mut self, outcome: NiriOutcome) -> (r: Option<Result<Json, OpError>>)
        requires
            old(self).wf(),
        ensures
            final(self).actions@ == old(self).actions@,
            match outcome {
                NiriOutcome::Handled => {
                    &&& final(self).done == old(self).done + 1
                    &&& if final(self).done == old(self).actions@.len() {
                        r matches Some(Ok(j)) && j@ == JsonView::Obj(Map::empty())
                    } else {
                        r is None && final(self).wf()
                    }
                },
                NiriOutcome::Other(words) => {
                    &&& final(self).done == old(self).done
                    &&& r == Some(Err::<Json, OpError>(OpError::UnexpectedReply(words)))
                },
                NiriOutcome::Error(words) => {
                    &&& final(self).done == old(self).done
                    &&& r == Some(Err::<Json, OpError>(OpError::Outside(words)))
                },
            },
    {
        match outcome {
            NiriOutcome::Handled => {
                let n: usize = self.actions.len();
                self.done = self.done + 1;
                if self.done == n {
                    Some(Ok(Json::empty_object()))
                } else {
                    None
                }
            },
            NiriOutcome::Other(words) => Some(Err(OpError::UnexpectedReply(words))),
            NiriOutcome::Error(words) => Some(Err(OpError::Outside(words))),
        }
    }
}

// ------------------------------------------------------------------- clients

/// The answer to a request: its id is the request's own.
pub fn respond(id: &str, result: Result<Json, OpError>) -> (r: Response)
    ensures
        r.id@ == id@,
        match result {
            Ok(j) => r.ok && r.data == Some(j) && r.error is None,
            Err(e) => !r.ok && r.data is None && opt_view(r.error) == Some(e.text()),
        },
{
    match result {
        Ok(j) => Response::ok(id, j),
        Err(e) => {
            let text = e.message();
            Response::err(id, text.as_str())
        },
    }
}

/// The answer to a line that is no request; `why` is the parser's complaint.
pub fn unparsed(why: &str) -> (r: Response)
    ensures
        r.id@ == "<unparsed>"@,
        !r.ok,
        r.data is None,
        opt_view(r.error) == Some("invalid request JSON: "@ + why@),
{
    let mut text = "invalid request JSON: ".to_owned();
    text.append(why);
    Response::err("<unparsed>", text.as_str())
}

/// What the event channel of a client gives.
pub enum Received {
    Event(Event),
    /// So many events were dropped because the client was too slow.
    Lagged(u64),
    Closed,
}

/// What is done about it.
pub enum PumpStep {
    Write(Event),
    Skip,
    Stop,
}

/// Passes on an event that the client subscribed to; after a lag tells the
/// client, whatever it subscribed to, so that it fetches the state anew.
pub fn pump(subs: &ClientSubs, received: Received, now_ms: i64) -> (r: PumpStep)
    ensures
        match received {
            Received::Event(ev) => r == (if subs.topics@.contains(ev.event@) {
                PumpStep::Write(ev)
            } else {
                PumpStep::Skip
            }),
            Received::Lagged(n) => {
                &&& r matches PumpStep::Write(ev)
                &&& ev.event@ == topics::STATE@
                &&& ev.ts == now_ms
                &&& ev.data@ == JsonView::Obj(map!["lagged"@ => JsonView::Num(n as int)])
            },
            Received::Closed => r is Stop,
        },
{
    match received {
        Received::Event(ev) => if subs.matches(ev.event.as_str()) {
            PumpStep::Write(ev)
        } else {
            PumpStep::Skip
        },
        Received::Lagged(n) => PumpStep::Write(
            Event {
                event: topics::STATE.to_owned(),
                ts: now_ms,
                data: Json::single("lagged", Json::Uint(n)),
            },
        ),
        Received::Closed => PumpStep::Stop,
    }
}

/// The number of a new client: the counter's, which moves on by one and
/// starts over after the largest.
pub fn next_client_id(counter: &mut u64) -> (r: u64)
    ensures
        r == *old(counter),
        *final(counter) == (if *old(counter) == u64::MAX {
            0u64
        } else {
            (*old(counter) + 1) as u64
        }),
{
    let id: u64 = *counter;
    if id == u64::MAX {
        *counter = 0;
    } else {
        *counter = id + 1;
    }
    id
}

// ---------------------------------------------------------------------- laws

/// Whatever the operation, only floating windows are pinned after it if that
/// was so before it.
pub proof fn law_pins_stay_on_floating_windows(
    pre: Inner,
    post: Inner,
    topics: Set<Seq<char>>,
    has_broker: bool,
    op: Op,
    p: Planned,
)
    requires
        pre.pins_float(),
        same_cache(pre, post),
        op_effect(pre, post, topics, has_broker, op, p),
    ensures
        post.pins_float(),
{
    assert forall|id: u64| #[trigger] post.pinned_windows@.contains(id) implies post.floats(id) by {
        if pre.pinned_windows@.contains(id) {
            assert(pre.floats(id));
        }
    }
}

/// Toggling the pin on a window twice leaves the pins as they were, unless
/// the window is pinned and could not be pinned anew.
pub proof fn law_toggle_twice_restores(pre: Inner, mid: Inner, post: Inner, id: u64, p: Planned, q: Planned)
    requires
        pre.pinned_windows@.contains(id) ==> pin_refusal(pre, id) is None,
        same_cache(pre, mid),
        pin_effect(pre, mid, Op::PinToggle { window_id: id }, p),
        pin_effect(mid, post, Op::PinToggle { window_id: id }, q),
    ensures
        post.pinned_windows@ == pre.pinned_windows@,
{
    assert(pin_refusal(mid, id) == pin_refusal(pre, id));
    assert(post.pinned_windows@ =~= pre.pinned_windows@);
}

/// After a pin was removed, removing it again is answered the same, changes
/// nothing and writes nothing.
pub proof fn law_remove_is_idempotent(pre: Inner, mid: Inner, post: Inner, id: u64, p: Planned, q: Planned)
    requires
        pin_effect(pre, mid, Op::PinRemove { window_id: id }, p),
        pin_effect(mid, post, Op::PinRemove { window_id: id }, q),
    ensures
        post.pinned_windows@ == mid.pinned_windows@,
        !q.persist,
        answers(p, pinned_view(false)),
        answers(q, pinned_view(false)),
{
    assert(post.pinned_windows@ =~= mid.pinned_windows@);
}

/// Adding a pin that was just added is answered the same and changes nothing.
pub proof fn law_add_is_idempotent(pre: Inner, mid: Inner, post: Inner, id: u64, p: Planned, q: Planned)
    requires
        same_cache(pre, mid),
        pin_effect(pre, mid, Op::PinAdd { window_id: id }, p),
        answers(p, pinned_view(true)),
        pin_effect(mid, post, Op::PinAdd { window_id: id }, q),
    ensures
        answers(q, pinned_view(true)),
        post.pinned_windows@ == mid.pinned_windows@,
        !q.persist,
{
    assert(mid.pinned_windows@.contains(id));
    assert(mid.floats(id));
}

/// Whenever an operation changes the pins, they are written to disk; and an
/// operation that is none of the pin operations leaves them alone.
pub proof fn law_changed_pins_are_written(
    pre: Inner,
    post: Inner,
    topics: Set<Seq<char>>,
    has_broker: bool,
    op: Op,
    p: Planned,
)
    requires
        op_effect(pre, post, topics, has_broker, op, p),
    ensures
        post.pinned_windows@ != pre.pinned_windows@ ==> p.persist,
        !is_pin_op(op) ==> post.pinned_windows@ == pre.pinned_windows@,
{
    if op is PinRemove && !p.persist {
        assert(post.pinned_windows@ =~= pre.pinned_windows@);
    }
}

/// A client that subscribes to topics receives their events, and one that
/// then gives them up does not; other topics are not affected by either.
pub proof fn law_subscription(topics: Set<Seq<char>>, named: Vec<String>, topic: Seq<char>)
    ensures
        topics_after(topics, Op::Subscribe { topics: named }).contains(topic) <==> topics.contains(
            topic,
        ) || views(named@).contains(topic),
        topics_after(topics, Op::Unsubscribe { topics: named }).contains(topic)
            <==> topics.contains(topic) && !views(named@).contains(topic),
{
}

/// The activation token that was minted for a process is what the process
/// finds in its environment, whatever the caller set; every other variable
/// is what the caller set it to.
pub proof fn law_token_wins(
    env: Seq<(String, String)>,
    with_token: Seq<(String, String)>,
    token: Seq<char>,
    key: Seq<char>,
)
    requires
        with_token.len() == env.len() + 1,
        with_token.drop_last() == env,
        with_token.last().0@ == "XDG_ACTIVATION_TOKEN"@,
        with_token.last().1@ == token,
    ensures
        env_value(with_token, "XDG_ACTIVATION_TOKEN"@) == Some(token),
        key != "XDG_ACTIVATION_TOKEN"@ ==> env_value(with_token, key) == env_value(env, key),
{
}

} // verus!
