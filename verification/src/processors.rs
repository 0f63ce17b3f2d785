//! Rules for spawned and async tasks and for channel endpoints: what a task
//! may be, which routines may be spawned, and which bindings a channel
//! endpoint may be reached through.
use crate::apparent::result_view;
use crate::errors::{TypecheckError, TypecheckErrorKind, TypecheckErrorView};
use crate::ids::{ScopeId, SymbolId, SyntaxNodeId, SyntaxOrigin, SyntaxOriginView};
use crate::model::TypedProgram;
use crate::rejections::{error_at, origin_view};
use crate::resolution::{
    nearest_routine, nearest_routine_scope, resolve_use, resolved_use, routine_search_ends,
    ReferenceKind, Resolution, SymbolKind,
};
use crate::text::{owned, push_text};
use vstd::prelude::*;

verus! {

/// The expression a task is made of, as far as the task rules read it.
pub enum TaskCall {
    /// `name(args)`: the syntax node of the call, if known, and whether it
    /// is written as a plain call.
    Function { syntax_id: Option<SyntaxNodeId>, name: String, plain: bool },
    /// `path::name(args)`: the syntax node of the path, if known, and the
    /// path as written.
    Qualified { syntax_id: Option<SyntaxNodeId>, path: String },
    /// `object.method(args)`: the syntax node of the call, if known.
    Method { syntax_id: Option<SyntaxNodeId>, method: String },
    /// An anonymous routine, and whether it declares parameters.
    Anonymous { has_params: bool },
    /// Any other expression.
    Other,
}

/// The call whose arguments cross a task boundary: the syntax node of a
/// direct routine call.
pub open spec fn processor_call_node(task: TaskCall) -> Option<SyntaxNodeId> {
    match task {
        TaskCall::Function { syntax_id, .. } => syntax_id,
        TaskCall::Qualified { syntax_id, .. } => syntax_id,
        _ => None,
    }
}

/// The syntax node of the direct routine call a task makes, if any.
pub fn processor_call_syntax_id(task: &TaskCall) -> (r: Option<SyntaxNodeId>)
    ensures
        r == processor_call_node(*task),
{
    match task {
        TaskCall::Function { syntax_id, .. } => *syntax_id,
        TaskCall::Qualified { syntax_id, .. } => *syntax_id,
        _ => None,
    }
}

/// What may be spawned: a plain call of a named routine, a qualified call,
/// or an anonymous routine without parameters.
pub open spec fn spawn_surface_outcome(task: TaskCall, origin: Option<SyntaxOriginView>) -> Result<
    (),
    TypecheckErrorView,
> {
    match task {
        TaskCall::Function { plain: true, .. } => Ok(()),
        TaskCall::Qualified { .. } => Ok(()),
        TaskCall::Anonymous { has_params: false } => Ok(()),
        TaskCall::Anonymous { has_params: true } => Err(
            error_at(
                TypecheckErrorKind::Unsupported,
                "a directly spawned anonymous routine cannot declare call parameters"@,
                origin,
            ),
        ),
        _ => Err(
            error_at(
                TypecheckErrorKind::Unsupported,
                "spawn requires a direct named routine call or a zero-parameter anonymous routine in V3; method calls and other expressions are not supported"@,
                origin,
            ),
        ),
    }
}

/// Refuses spawning anything but a plain routine call or an anonymous
/// routine without parameters, written at `origin`.
pub fn reject_unsupported_spawn_task_surface(task: &TaskCall, origin: Option<SyntaxOrigin>) -> (r:
    Result<(), TypecheckError>)
    ensures
        result_view(r) == spawn_surface_outcome(*task, origin_view(origin)),
{
    match task {
        TaskCall::Function { plain: true, .. } => Ok(()),
        TaskCall::Qualified { .. } => Ok(()),
        TaskCall::Anonymous { has_params: false } => Ok(()),
        TaskCall::Anonymous { has_params: true } => Err(
            TypecheckError::at(
                TypecheckErrorKind::Unsupported,
                "a directly spawned anonymous routine cannot declare call parameters",
                origin,
            ),
        ),
        _ => Err(
            TypecheckError::at(
                TypecheckErrorKind::Unsupported,
                "spawn requires a direct named routine call or a zero-parameter anonymous routine in V3; method calls and other expressions are not supported",
                origin,
            ),
        ),
    }
}

/// The routine a direct call of a task resolved to, by the name use of its
/// call.
pub open spec fn call_target(resolution: &Resolution, task: TaskCall) -> Option<SymbolId> {
    match task {
        TaskCall::Function { syntax_id: Some(id), .. } => resolved_use(
            resolution,
            id,
            ReferenceKind::FunctionCall,
        ),
        TaskCall::Qualified { syntax_id: Some(id), .. } => resolved_use(
            resolution,
            id,
            ReferenceKind::QualifiedFunctionCall,
        ),
        _ => None,
    }
}

/// The diagnostic for a task that calls something other than a named
/// routine.
pub open spec fn named_target_error(surface: Seq<char>, origin: Option<SyntaxOriginView>) -> TypecheckErrorView {
    error_at(
        TypecheckErrorKind::Unsupported,
        surface
            + " requires a direct call to a named routine declaration in V3; indirect routine values, stored anonymous routines, and routine parameters are not supported"@,
        origin,
    )
}

/// What `surface` (a spawn or an async call) asks of the routine its task
/// calls: a direct call whose target resolved must target a routine
/// declaration.
pub open spec fn named_target_outcome(
    resolution: &Resolution,
    task: TaskCall,
    origin: Option<SyntaxOriginView>,
    surface: Seq<char>,
) -> Result<(), TypecheckErrorView> {
    match call_target(resolution, task) {
        Some(symbol) => {
            if resolution.symbols.as_map().contains_key(symbol)
                && resolution.symbols.as_map()[symbol].kind != SymbolKind::Routine {
                Err(named_target_error(surface, origin))
            } else {
                Ok(())
            }
        },
        None => Ok(()),
    }
}

/// The routine a direct call of a task resolved to.
fn target_of(resolution: &Resolution, task: &TaskCall) -> (r: Option<SymbolId>)
    ensures
        r == call_target(resolution, *task),
{
    match task {
        TaskCall::Function { syntax_id: Some(id), .. } => resolve_use(
            resolution,
            *id,
            ReferenceKind::FunctionCall,
        ),
        TaskCall::Qualified { syntax_id: Some(id), .. } => resolve_use(
            resolution,
            *id,
            ReferenceKind::QualifiedFunctionCall,
        ),
        _ => None,
    }
}

/// Refuses a task of `surface` whose direct call resolves to something
/// other than a named routine declaration.
pub fn require_named_processor_call_target(
    resolution: &Resolution,
    task: &TaskCall,
    origin: Option<SyntaxOrigin>,
    surface: &str,
) -> (r: Result<(), TypecheckError>)
    ensures
        result_view(r) == named_target_outcome(resolution, *task, origin_view(origin), surface@),
{
    let symbol = match target_of(resolution, task) {
        Some(s) => s,
        None => {
            return Ok(());
        },
    };
    match resolution.symbol(symbol) {
        Some(declaration) => {
            if declaration.kind != SymbolKind::Routine {
                let mut message = owned(surface);
                push_text(
                    &mut message,
                    " requires a direct call to a named routine declaration in V3; indirect routine values, stored anonymous routines, and routine parameters are not supported",
                );
                return Err(TypecheckError::at(TypecheckErrorKind::Unsupported, message.as_str(), origin));
            }
            Ok(())
        },
        None => Ok(()),
    }
}

/// The routine a task calls and the name it is called by, when the task is
/// a direct or method call with a known syntax node.
pub open spec fn spawned_routine(
    facts: crate::ownership::FactsView,
    resolution: &Resolution,
    task: TaskCall,
) -> Option<(Option<SymbolId>, Seq<char>)> {
    match task {
        TaskCall::Function { syntax_id: Some(id), name, .. } => Some(
            (resolved_use(resolution, id, ReferenceKind::FunctionCall), name@),
        ),
        TaskCall::Qualified { syntax_id: Some(id), path } => Some(
            (resolved_use(resolution, id, ReferenceKind::QualifiedFunctionCall), path@),
        ),
        TaskCall::Method { syntax_id: Some(id), method } => Some(
            (
                if facts.method_call_targets.contains_key(id) {
                    Some(facts.method_call_targets[id])
                } else {
                    None
                },
                method@,
            ),
        ),
        _ => None,
    }
}

/// What spawning `task` directly comes to: a routine that receives from a
/// channel parameter cannot be spawned, since the single receiver must stay
/// in the owning routine.
pub open spec fn spawn_receiver_outcome(
    facts: crate::ownership::FactsView,
    symbols: Map<SymbolId, crate::model::TypedSymbol>,
    resolution: &Resolution,
    task: TaskCall,
    origin: Option<SyntaxOriginView>,
) -> Result<(), TypecheckErrorView> {
    match spawned_routine(facts, resolution, task) {
        Some((Some(target), name)) => {
            if symbols.contains_key(target) && symbols[target].channel_receiver_params.entries().len()
                > 0 {
                Err(
                    error_at(
                        TypecheckErrorKind::Unsupported,
                        "routine '"@ + name
                            + "' receives from a channel and cannot be spawned directly; keep the single receiver in the owning routine and spawn sender-only producers"@,
                        origin,
                    ),
                )
            } else {
                Ok(())
            }
        },
        _ => Ok(()),
    }
}

/// Refuses spawning directly a routine that receives from a channel.
pub fn reject_direct_spawn_channel_receiver(
    typed: &TypedProgram,
    resolution: &Resolution,
    task: &TaskCall,
    origin: Option<SyntaxOrigin>,
) -> (r: Result<(), TypecheckError>)
    ensures
        result_view(r) == spawn_receiver_outcome(
            typed.facts(),
            typed.symbol_facts(),
            resolution,
            *task,
            origin_view(origin),
        ),
{
    let (target, name) = match task {
        TaskCall::Function { syntax_id: Some(id), name, .. } => (
            resolve_use(resolution, *id, ReferenceKind::FunctionCall),
            name.as_str(),
        ),
        TaskCall::Qualified { syntax_id: Some(id), path } => (
            resolve_use(resolution, *id, ReferenceKind::QualifiedFunctionCall),
            path.as_str(),
        ),
        TaskCall::Method { syntax_id: Some(id), method } => (
            typed.method_call_target(*id),
            method.as_str(),
        ),
        _ => {
            return Ok(());
        },
    };
    let target = match target {
        Some(t) => t,
        None => {
            return Ok(());
        },
    };
    let receives = match typed.typed_symbol(target) {
        Some(ts) => !ts.channel_receiver_params.is_empty(),
        None => false,
    };
    if !receives {
        return Ok(());
    }
    let mut message = owned("routine '");
    push_text(&mut message, name);
    push_text(
        &mut message,
        "' receives from a channel and cannot be spawned directly; keep the single receiver in the owning routine and spawn sender-only producers",
    );
    Err(TypecheckError::at(TypecheckErrorKind::Unsupported, message.as_str(), origin))
}

/// A channel expression, as far as the endpoint rules read it: a bare
/// identifier used at a syntax node, or anything else.
pub enum ChannelOperand {
    Identifier { syntax_id: SyntaxNodeId, name: String },
    Other,
}

/// What receiving through `channel` comes to: a capture that exposes only
/// the sender endpoint cannot receive.
pub open spec fn sender_capture_outcome(
    symbols: Map<SymbolId, crate::model::TypedSymbol>,
    resolution: &Resolution,
    channel: ChannelOperand,
    origin: Option<SyntaxOriginView>,
) -> Result<(), TypecheckErrorView> {
    match channel {
        ChannelOperand::Identifier { syntax_id, name } => match resolved_use(
            resolution,
            syntax_id,
            ReferenceKind::Identifier,
        ) {
            Some(s) => {
                if symbols.contains_key(s) && symbols[s].is_channel_sender_capture {
                    Err(
                        error_at(
                            TypecheckErrorKind::Unsupported,
                            "captured endpoint '"@ + name@ + "[tx]' is sender-only; keep '"@ + name@
                                + "[rx]' in the owning receiving routine"@,
                            origin,
                        ),
                    )
                } else {
                    Ok(())
                }
            },
            None => Ok(()),
        },
        ChannelOperand::Other => Ok(()),
    }
}

/// Refuses receiving through a captured sender-only endpoint.
pub fn reject_sender_capture_receive(
    typed: &TypedProgram,
    resolution: &Resolution,
    channel: &ChannelOperand,
    origin: Option<SyntaxOrigin>,
) -> (r: Result<(), TypecheckError>)
    ensures
        result_view(r) == sender_capture_outcome(
            typed.symbol_facts(),
            resolution,
            *channel,
            origin_view(origin),
        ),
{
    let (syntax_id, name) = match channel {
        ChannelOperand::Identifier { syntax_id, name } => (*syntax_id, name.as_str()),
        ChannelOperand::Other => {
            return Ok(());
        },
    };
    let sender_only = match resolve_use(resolution, syntax_id, ReferenceKind::Identifier) {
        Some(s) => match typed.typed_symbol(s) {
            Some(ts) => ts.is_channel_sender_capture,
            None => false,
        },
        None => false,
    };
    if !sender_only {
        return Ok(());
    }
    let mut message = owned("captured endpoint '");
    push_text(&mut message, name);
    push_text(&mut message, "[tx]' is sender-only; keep '");
    push_text(&mut message, name);
    push_text(&mut message, "[rx]' in the owning receiving routine");
    Err(TypecheckError::at(TypecheckErrorKind::Unsupported, message.as_str(), origin))
}

/// The kinds of symbols that are routine-local bindings.
pub open spec fn is_local_kind(kind: SymbolKind) -> bool {
    match kind {
        SymbolKind::ValueBinding | SymbolKind::LabelBinding | SymbolKind::DestructureBinding
        | SymbolKind::Parameter | SymbolKind::Capture | SymbolKind::LoopBinder
        | SymbolKind::RollingBinder => true,
        _ => false,
    }
}

/// What reaching a channel endpoint through `channel`, from a use in scope
/// `reference_scope`, comes to: the channel must be a bare identifier
/// naming a resolved local binding of the routine the use is in.
pub open spec fn channel_binding_outcome(
    resolution: &Resolution,
    reference_scope: ScopeId,
    channel: ChannelOperand,
    origin: Option<SyntaxOriginView>,
) -> Result<(), TypecheckErrorView> {
    match channel {
        ChannelOperand::Other => Err(
            error_at(
                TypecheckErrorKind::Unsupported,
                "channel endpoint access requires a direct local, parameter, or capture binding in V3; projected fields and container elements are not supported"@,
                origin,
            ),
        ),
        ChannelOperand::Identifier { syntax_id, .. } => {
            let symbols = resolution.symbols.as_map();
            match resolved_use(resolution, syntax_id, ReferenceKind::Identifier) {
                Some(s) if symbols.contains_key(s) => {
                    let scopes = resolution.scopes.as_map();
                    let own = nearest_routine(scopes, symbols[s].scope);
                    if is_local_kind(symbols[s].kind) && own is Some && own == nearest_routine(
                        scopes,
                        reference_scope,
                    ) {
                        Ok(())
                    } else {
                        Err(
                            error_at(
                                TypecheckErrorKind::Unsupported,
                                "channel endpoint access requires a direct binding owned by the current routine in V3; outer-routine and global channel values are not supported"@,
                                origin,
                            ),
                        )
                    }
                },
                _ => Err(
                    error_at(
                        TypecheckErrorKind::Unsupported,
                        "channel endpoint access requires a resolved routine-local binding in V3"@,
                        origin,
                    ),
                ),
            }
        },
    }
}

/// Walking up from any scope reaches a routine body or ends.
pub open spec fn routine_walks_end(resolution: &Resolution) -> bool {
    forall|s: ScopeId| #[trigger] routine_search_ends(resolution.scopes.as_map(), s)
}

/// Refuses reaching a channel endpoint through anything but a local binding
/// of the current routine, named directly.
pub fn require_direct_channel_binding(
    resolution: &Resolution,
    reference_scope: ScopeId,
    channel: &ChannelOperand,
    origin: Option<SyntaxOrigin>,
) -> (r: Result<(), TypecheckError>)
    requires
        routine_walks_end(resolution),
    ensures
        result_view(r) == channel_binding_outcome(
            resolution,
            reference_scope,
            *channel,
            origin_view(origin),
        ),
{
    let syntax_id = match channel {
        ChannelOperand::Identifier { syntax_id, .. } => *syntax_id,
        ChannelOperand::Other => {
            return Err(
                TypecheckError::at(
                    TypecheckErrorKind::Unsupported,
                    "channel endpoint access requires a direct local, parameter, or capture binding in V3; projected fields and container elements are not supported",
                    origin,
                ),
            );
        },
    };
    let declaration = match resolve_use(resolution, syntax_id, ReferenceKind::Identifier) {
        Some(s) => resolution.symbol(s),
        None => None,
    };
    let declaration = match declaration {
        Some(d) => d,
        None => {
            return Err(
                TypecheckError::at(
                    TypecheckErrorKind::Unsupported,
                    "channel endpoint access requires a resolved routine-local binding in V3",
                    origin,
                ),
            );
        },
    };
    let local_kind = match declaration.kind {
        SymbolKind::ValueBinding | SymbolKind::LabelBinding | SymbolKind::DestructureBinding
        | SymbolKind::Parameter | SymbolKind::Capture | SymbolKind::LoopBinder
        | SymbolKind::RollingBinder => true,
        _ => false,
    };
    proof {
        assert(routine_search_ends(resolution.scopes.as_map(), declaration.scope));
        assert(routine_search_ends(resolution.scopes.as_map(), reference_scope));
    }
    let symbol_routine = nearest_routine_scope(resolution, declaration.scope);
    let reference_routine = nearest_routine_scope(resolution, reference_scope);
    let same = match (symbol_routine, reference_routine) {
        (Some(a), Some(b)) => a == b,
        _ => false,
    };
    if local_kind && same {
        return Ok(());
    }
    Err(
        TypecheckError::at(
            TypecheckErrorKind::Unsupported,
            "channel endpoint access requires a direct binding owned by the current routine in V3; outer-routine and global channel values are not supported",
            origin,
        ),
    )
}

} // verus!
