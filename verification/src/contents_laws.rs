//! What holds of the contents of values: each part is told as it is.
use crate::app::effect::{effect_views, Effect, EffectModel};
use crate::app::mode::{AppMode, ConfirmKind, ConfirmModel, ModeModel, StartMode, StartModel};
use crate::app::session::{PanelModel, PanelState, SessionInfo};
use crate::app::state::{flash_model, last_model, App};
use crate::claude::message::{step_views, ParseStep, StepModel};
use crate::claude::reader::{ReaderStep, ReaderStepModel};
use crate::json::{canonical, compact, json_compact, json_pretty, pretty, Json, JsonModel};
use crate::picker::handler::{PickerAction, PickerActionModel};
use crate::picker::state::PickerState;
use crate::providers::TranscriptEntry;
use crate::text::views;
use crate::tree::{
    blank, leaf, message_views, op_views, reader_op_views, text_opt, MessageModel, MessageState,
    MessageType, OpModel, ReaderOp, ReaderOpModel, TreeOperation,
};
use vstd::prelude::*;

verus! {

/// The contents of a JSON value are its own, part by part.
pub proof fn law_contents_of_json(j: Json)
    ensures
        j is Null <==> j@ is Null,
        j is Bool ==> j@ == JsonModel::Bool(j->Bool_0),
        j is Unsigned ==> j@ == JsonModel::Unsigned(j->Unsigned_0),
        j is Negative ==> j@ == JsonModel::Negative(j->Negative_0),
        j is Str ==> j@ == JsonModel::Str(j->Str_0@),
        j is Array ==> j@ is Array && j@->Array_0.len() == j->Array_0@.len() && forall|i: int|
            0 <= i < j->Array_0@.len() ==> #[trigger] j@->Array_0[i] == j->Array_0@[i]@,
        j is Object ==> j@ is Object && j@->Object_0.len() == j->Object_0@.len() && forall|i: int|
            0 <= i < j->Object_0@.len() ==> #[trigger] j@->Object_0[i] == (
                j->Object_0@[i].0@,
                j->Object_0@[i].1@,
            ),
{
}

/// The text of a value on one line and the indented one are those of the value in its tidy form,
/// which leaves strings and truth values as they are and takes lists part by part.
pub proof fn law_texts_of_json(m: JsonModel)
    ensures
        compact(m) == json_compact(canonical(m)),
        pretty(m) == json_pretty(canonical(m)),
        m is Str || m is Bool || m is Null || m is Unsigned || m is Float ==> canonical(m) == m,
        m is Array ==> canonical(m) is Array && canonical(m)->Array_0.len() == m->Array_0.len()
            && forall|i: int|
            0 <= i < m->Array_0.len() ==> #[trigger] canonical(m)->Array_0[i] == canonical(
                m->Array_0[i],
            ),
{
}

/// The contents of a node are its own, part by part.
pub proof fn law_contents_of_nodes(m: MessageState)
    ensures
        m@.id == m.id@,
        m@.message_type == m.message_type,
        m@.text == text_opt(m.text),
        m@.data == m.data@,
        m@.hidden == m.hidden,
        m@.tag == text_opt(m.tag),
        m@.brief == text_opt(m.brief),
        m.props is Some ==> m@.props == Some(m.props->0@),
        m.props is None ==> m@.props is None,
        m@.timestamp == m.timestamp,
        m@.indent_children == m.indent_children,
        m@.expanded == m.expanded,
        m@.show_more == m.show_more,
        m@.group == m.group,
        m@.is_terminal == m.is_terminal,
        m@.ui_state == text_opt(m.ui_state),
        m@.children.len() == m.children@.len(),
        forall|i: int|
            0 <= i < m.children@.len() ==> #[trigger] m@.children[i] == m.children@[i]@,
        m.text is Some ==> text_opt(m.text) == Some(m.text->0@),
        m.text is None ==> text_opt(m.text) is None,
{
}

/// A blank node has its id and nothing else; a leaf has a text, data and a type besides.
pub proof fn law_blank_nodes(id: Seq<char>, text: Seq<char>, data: Seq<char>, t: MessageType)
    ensures
        ({
            let b = blank(id);
            let l = leaf(id, text, data, t);
            &&& b.id == id && b.message_type is Other && b.text is None && b.data.len() == 0
            &&& l.id == id && l.message_type == t && l.text == Some(text) && l.data == data
            &&& b.hidden is NotHidden && b.tag is None && b.brief is None && b.props is None
            &&& b.timestamp is None && !b.indent_children && !b.expanded && !b.show_more
            &&& !b.group && !b.is_terminal && b.ui_state is None && b.children.len() == 0
            &&& l == (MessageModel { message_type: t, text: Some(text), data, ..b })
        }),
{
}

/// The contents of a change are its own: what it does, to which node, and with which.
pub proof fn law_contents_of_changes(op: TreeOperation, ops: Seq<TreeOperation>)
    ensures
        op is Append ==> op@ == (OpModel::Append {
            parent_id: text_opt(op->parent_id),
            message: op->Append_message@,
        }),
        op is Replace ==> op@ == (OpModel::Replace {
            id: op->Replace_id@,
            message: op->Replace_message@,
        }),
        op is Remove ==> op@ == (OpModel::Remove { id: op->Remove_id@ }),
        op is Update ==> op@ == (OpModel::Update {
            id: op->Update_id@,
            message: op->Update_message@,
        }),
        op_views(ops).len() == ops.len(),
        forall|i: int| 0 <= i < ops.len() ==> #[trigger] op_views(ops)[i] == ops[i]@,
{
}

/// The contents of what a reader hands on, and of the steps of an entry, are their own.
pub proof fn law_contents_of_steps(
    op: ReaderOp,
    step: ParseStep,
    steps: Seq<ParseStep>,
    ops: Seq<ReaderOp>,
    nodes: Seq<MessageState>,
)
    ensures
        op is Tree ==> op@ == ReaderOpModel::Tree(op->Tree_0@),
        op is Reset ==> op@ == (ReaderOpModel::Reset { id: text_opt(op->id) }),
        op is ResetDone ==> op@ is ResetDone,
        step is Op ==> step@ == StepModel::Op(step->Op_0@),
        step is AgentTool ==> step@ == (StepModel::AgentTool {
            tool_use_id: step->tool_use_id@,
            value: step->value@,
            is_result: step->is_result,
        }),
        step_views(steps).len() == steps.len(),
        forall|i: int| 0 <= i < steps.len() ==> #[trigger] step_views(steps)[i] == steps[i]@,
        reader_op_views(ops).len() == ops.len(),
        forall|i: int| 0 <= i < ops.len() ==> #[trigger] reader_op_views(ops)[i] == ops[i]@,
        message_views(nodes).len() == nodes.len(),
        forall|i: int| 0 <= i < nodes.len() ==> #[trigger] message_views(nodes)[i] == nodes[i]@,
{
}

/// The contents of a reader's steps are their own.
pub proof fn law_contents_of_reader_steps(step: ReaderStep)
    ensures
        step is Emit ==> step@ == ReaderStepModel::Emit(step->Emit_0@),
        step is AgentTool ==> step@ == (ReaderStepModel::AgentTool {
            tool_use_id: step->tool_use_id@,
            value: step->value@,
            is_result: step->is_result,
            quiet: step->quiet,
        }),
        step is ClearAgents ==> step@ is ClearAgents,
        step is ScanAgents ==> step@ is ScanAgents,
{
}

/// The contents of an entry of the list are its own.
pub proof fn law_contents_of_entries(e: TranscriptEntry)
    ensures
        e@.path == e.path@,
        e@.id == e.id@,
        e@.title == e.title@,
        e@.mtime == e.mtime,
        e@.updated_at == e.updated_at,
        e@.size == e.size,
        e@.last_user_message == text_opt(e.last_user_message),
        e@.message_count == e.message_count,
        e@.workspace_path == text_opt(e.workspace_path),
        e@.provider == e.provider,
{
}

/// The contents of the list are its own.
pub proof fn law_contents_of_the_list(s: PickerState, action: PickerAction)
    ensures
        s@.tab == s.tab,
        s@.all.len() == s.all_entries@.len(),
        forall|i: int| 0 <= i < s.all_entries@.len() ==> #[trigger] s@.all[i] == s.all_entries@[i]@,
        s@.filtered.len() == s.filtered@.len(),
        forall|i: int| 0 <= i < s.filtered@.len() ==> #[trigger] s@.filtered[i] == s.filtered@[i]@,
        s@.selected == s.selected,
        s@.offset == s.offset,
        s@.show_all == s.show_all,
        s@.is_loading == s.is_loading,
        s@.cwd == text_opt(s.cwd),
        s.flash_message is None <==> s@.flash is None,
        s.flash_message is Some ==> s@.flash == Some(
            (s.flash_message->0.message@, s.flash_message->0.since_ms),
        ),
        s@.list_height == s.list_height,
        action is Select ==> action@ == PickerActionModel::Select(action->Select_0@),
        action is OpenAndResume ==> action@ == PickerActionModel::OpenAndResume(
            action->OpenAndResume_0@,
        ),
        action is NewSession ==> action@ == PickerActionModel::NewSession(action->NewSession_0),
        action is Nothing <==> action@ is Nothing,
        action is Quit <==> action@ is Quit,
        action is ToggleShowAll <==> action@ is ToggleShowAll,
{
}

/// The contents of a session and of the panel are their own.
pub proof fn law_contents_of_the_panel(info: SessionInfo, panel: PanelState)
    ensures
        info@.provider == info.provider,
        info@.session_id == text_opt(info.session_id),
        info@.directory == info.directory@,
        info@.binary == info.binary@,
        info@.extra_args == views(info.extra_args@),
        info@.disable_plugin == info.disable_plugin,
        panel is Absent <==> panel@ is Absent,
        panel is Uninitialized ==> panel@ == PanelModel::Uninitialized(panel->Uninitialized_0@),
        panel is Live ==> panel@ == PanelModel::Live(panel->Live_0@),
        panel is Exited ==> panel@ == (PanelModel::Exited { info: panel->info@, code: panel->code }),
        panel@.info() is None <==> panel is Absent,
        panel is Live ==> panel@.info() == Some(panel->Live_0@),
        panel is Uninitialized ==> panel@.info() == Some(panel->Uninitialized_0@),
        panel is Exited ==> panel@.info() == Some(panel->info@),
{
}

/// The contents of the application are its own.
pub proof fn law_contents_of_the_application(app: App)
    ensures
        app@.running == app.running,
        app@.screen == app.screen,
        app@.mode == app.mode@,
        app@.panel == app.panel@,
        app@.expanded == app.expanded,
        app@.picker == app.picker@,
        app@.transcript_open == app.transcript_open,
        app@.quit_intent == app.quit_intent,
        app@.data_view_open == app.data_view_open,
        app@.terminal_id == app.terminal_id,
        app@.status_bar_debug == app.status_bar_debug,
        app@.pending_app_key == app.pending_app_key,
        app@.names == app.names,
        app@.agents == app.agents,
        app.flash is None <==> app@.flash is None,
        app.flash is Some ==> app@.flash == Some(
            (app.flash->0.message@, app.flash->0.warning, app.flash->0.since_ms),
        ),
        app.last_session is None <==> app@.last_session is None,
        app.last_session is Some ==> app@.last_session->0.provider == app.last_session->0.provider
            && app@.last_session->0.path == app.last_session->0.path@
            && app@.last_session->0.workspace == text_opt(app.last_session->0.workspace),
{
}

/// The contents of what the user is asked, and of what keys are for, are their own.
pub proof fn law_contents_of_modes(mode: AppMode, kind: ConfirmKind, start: StartMode)
    ensures
        mode is Normal <==> mode@ is Normal,
        mode is Terminal <==> mode@ is Terminal,
        mode is MessageInteraction <==> mode@ is MessageInteraction,
        mode is SearchInput ==> mode@ == (ModeModel::SearchInput {
            query: mode->query@,
            backward: mode->backward,
        }),
        mode is Confirm ==> mode@ == ModeModel::Confirm(mode->Confirm_0@),
        kind is Kill <==> kind@ is Kill,
        kind is ReaderRestart <==> kind@ is ReaderRestart,
        kind is DebugLog <==> kind@ is DebugLog,
        kind is SessionSwitch ==> kind@ == ConfirmModel::SessionSwitch(kind->SessionSwitch_0@),
        kind is SessionSwitchAndResume ==> kind@ == ConfirmModel::SessionSwitchAndResume(
            kind->SessionSwitchAndResume_0@,
        ),
        kind is NewSession ==> kind@ == ConfirmModel::NewSession(kind->NewSession_0),
        start is Picker <==> start@ is Picker,
        start is Session ==> start@ == (StartModel::Session {
            provider: start->Session_provider,
            id: start->id@,
            resume: start->resume,
        }),
        start is NewSession ==> start@ == (StartModel::NewSession {
            provider: start->NewSession_provider,
        }),
{
}

/// The contents of what is to be done outside are its own.
pub proof fn law_contents_of_effects(e: Effect, effects: Seq<Effect>)
    ensures
        e is StartRefresh ==> e@ == EffectModel::StartRefresh(text_opt(e->StartRefresh_0)),
        e is AbortRefresh <==> e@ is AbortRefresh,
        e is LoadSession ==> e@ == (EffectModel::LoadSession {
            provider: e->LoadSession_provider,
            path: e->path@,
            workspace: text_opt(e->LoadSession_workspace),
        }),
        e is ClearTranscript <==> e@ is ClearTranscript,
        e is KillTerminal <==> e@ is KillTerminal,
        e is Launch ==> e@ == (EffectModel::Launch { info: e->info@, id: e->Launch_id }),
        e is Relaunch ==> e@ == (EffectModel::Relaunch {
            id: e->Relaunch_id,
            always_focus: e->always_focus,
        }),
        e is FocusTerminal <==> e@ is FocusTerminal,
        e is RestoreCursor <==> e@ is RestoreCursor,
        e is SendKey <==> e@ is SendKey,
        e is SendBytes ==> e@ == EffectModel::SendBytes(e->SendBytes_0@),
        e is TreeKey <==> e@ is TreeKey,
        e is TreeApply <==> e@ is TreeApply,
        e is MessageKey <==> e@ is MessageKey,
        e is HoldSelection <==> e@ is HoldSelection,
        e is FocusMessage <==> e@ is FocusMessage,
        e is SyncTerminal <==> e@ is SyncTerminal,
        e is OpenRaw <==> e@ is OpenRaw,
        e is OpenInfo <==> e@ is OpenInfo,
        e is OpenShortcuts <==> e@ is OpenShortcuts,
        e is OpenLogs <==> e@ is OpenLogs,
        e is ViewKey <==> e@ is ViewKey,
        e is ToggleDisplay <==> e@ is ToggleDisplay,
        e is EnableLog <==> e@ is EnableLog,
        e is Copy ==> e@ == EffectModel::Copy(e->Copy_0@),
        e is FindTranscript ==> e@ == (EffectModel::FindTranscript {
            provider: e->FindTranscript_provider,
            session_id: e->session_id@,
            workspace: text_opt(e->FindTranscript_workspace),
        }),
        effect_views(effects).len() == effects.len(),
        forall|i: int| 0 <= i < effects.len() ==> #[trigger] effect_views(effects)[i] == effects[i]@,
{
}

} // verus!
