//! Binding the arguments written at a call site to the parameters of the
//! routine called: positional and named arguments, call-site unpacking,
//! variadic packs and parameter defaults.
use crate::errors::{TypecheckError, TypecheckErrorKind, TypecheckErrorView};
use crate::generics::{arity_error, call_arity_error};
use crate::ids::{SyntaxNodeId, SyntaxOrigin, SyntaxOriginView};
use crate::rejections::origin_view;
use crate::text::{decimal, decimal_text, owned, push_text, str_eq};
use crate::types::{default_flags, names_view, RoutineType, RoutineTypeView};
use vstd::prelude::*;

verus! {

/// An argument as written at a call site.
#[derive(Debug, Clone, PartialEq, Eq)]
pub enum CallArgument {
    /// `value`
    Positional,
    /// `name = value`
    Named(String),
    /// `...values`: a sequence unpacked into a variadic parameter.
    Unpack,
}

/// What one parameter of the called routine is bound to. Argument positions
/// index the call's argument list.
#[derive(Debug, PartialEq, Eq)]
pub enum BoundCallArg {
    /// The argument at this position.
    Explicit(usize),
    /// The parameter's default.
    Default,
    /// The arguments at these positions, packed into the variadic parameter.
    VariadicPack(Vec<usize>),
    /// The sequence unpacked by the argument at this position.
    VariadicUnpack(usize),
}

/// The value of a `BoundCallArg`.
pub enum BoundArgView {
    Explicit(usize),
    Default,
    VariadicPack(Seq<usize>),
    VariadicUnpack(usize),
}

impl View for BoundCallArg {
    type V = BoundArgView;

    open spec fn view(&self) -> BoundArgView {
        match self {
            BoundCallArg::Explicit(a) => BoundArgView::Explicit(*a),
            BoundCallArg::Default => BoundArgView::Default,
            BoundCallArg::VariadicPack(v) => BoundArgView::VariadicPack(v@),
            BoundCallArg::VariadicUnpack(a) => BoundArgView::VariadicUnpack(*a),
        }
    }
}

/// The values of a list of bindings.
pub open spec fn bound_view(b: Seq<BoundCallArg>) -> Seq<BoundArgView> {
    b.map_values(|x: BoundCallArg| x@)
}

/// What binding asks of a signature: its parameter names name parameters,
/// and its variadic parameter is one of its parameters.
pub open spec fn well_shaped(s: RoutineTypeView) -> bool {
    &&& s.param_names.len() <= s.params.len()
    &&& match s.variadic_index {
        Some(index) => index < s.params.len(),
        None => true,
    }
}

/// `i` is the first position of `name` in `names`.
pub open spec fn is_first_position(names: Seq<Seq<char>>, name: Seq<char>, i: int) -> bool {
    &&& 0 <= i < names.len()
    &&& names[i] == name
    &&& forall|j: int| 0 <= j < i ==> names[j] != name
}

/// The first position of `name` in `names`, if it occurs.
pub open spec fn first_position(names: Seq<Seq<char>>, name: Seq<char>) -> Option<int> {
    if exists|i: int| is_first_position(names, name, i) {
        Some(choose|i: int| is_first_position(names, name, i))
    } else {
        None
    }
}

/// The length in bytes of the text `s`.
pub open spec fn byte_len(s: Seq<char>) -> usize {
    vstd::utf8::encode_utf8(s).len() as usize
}

/// `origin`, or else the start of the program with the given length.
pub open spec fn or_fallback(origin: Option<SyntaxOriginView>, length: usize) -> SyntaxOriginView {
    match origin {
        Some(o) => o,
        None => SyntaxOriginView { file: None, line: 1, column: 1, length },
    }
}

/// An invalid-input diagnostic about a call.
pub open spec fn binding_error(
    message: Seq<char>,
    origin: Option<SyntaxOriginView>,
    length: usize,
) -> TypecheckErrorView {
    TypecheckErrorView {
        kind: TypecheckErrorKind::InvalidInput,
        message,
        origin: Some(or_fallback(origin, length)),
        related: seq![],
    }
}

/// Where the arguments read so far have gone: the argument bound to each
/// parameter, the positional arguments past the variadic parameter, the
/// next parameter a positional argument binds, and whether a named argument
/// was seen.
pub struct ArgumentScan {
    pub ordered: Seq<Option<usize>>,
    pub trailing: Seq<usize>,
    pub next: usize,
    pub seen_named: bool,
}

/// Whether a positional argument read while `next` is the next parameter
/// goes into the variadic pack.
pub open spec fn into_pack(s: RoutineTypeView, next: usize) -> bool {
    match s.variadic_index {
        Some(index) => next >= index,
        None => false,
    }
}

/// Reading argument `i` of the call in scan state `st`.
pub open spec fn scan_step(
    s: RoutineTypeView,
    args: Seq<CallArgument>,
    callee: &str,
    origin: Option<SyntaxOriginView>,
    allow_named: bool,
    i: int,
    st: ArgumentScan,
) -> Result<ArgumentScan, TypecheckErrorView> {
    match args[i] {
        CallArgument::Named(name) => {
            if !allow_named {
                Err(
                    binding_error(
                        "named arguments are not supported for call to '"@ + callee@ + "'"@,
                        origin,
                        byte_len(name@),
                    ),
                )
            } else {
                match first_position(s.param_names, name@) {
                    None => Err(
                        binding_error(
                            "call to '"@ + callee@ + "' does not have a parameter named '"@
                                + name@ + "'"@,
                            origin,
                            byte_len(name@),
                        ),
                    ),
                    Some(index) => {
                        if st.ordered[index] is Some {
                            Err(
                                binding_error(
                                    "call to '"@ + callee@ + "' supplies parameter '"@ + name@
                                        + "' more than once"@,
                                    origin,
                                    byte_len(name@),
                                ),
                            )
                        } else {
                            Ok(
                                ArgumentScan {
                                    ordered: st.ordered.update(index, Some(i as usize)),
                                    trailing: st.trailing,
                                    next: st.next,
                                    seen_named: true,
                                },
                            )
                        }
                    },
                }
            }
        },
        CallArgument::Unpack => match s.variadic_index {
            None => Err(
                binding_error(
                    "call-site unpack is only supported for variadic calls in V1"@,
                    origin,
                    3,
                ),
            ),
            Some(index) => {
                if index + 1 != s.params.len() || st.ordered[index as int] is Some
                    || st.trailing.len() > 0 {
                    Err(
                        binding_error(
                            "call-site unpack cannot be combined with other variadic arguments in V1"@,
                            origin,
                            3,
                        ),
                    )
                } else {
                    Ok(
                        ArgumentScan {
                            ordered: st.ordered.update(index as int, Some(i as usize)),
                            trailing: st.trailing,
                            next: st.next,
                            seen_named: st.seen_named,
                        },
                    )
                }
            },
        },
        CallArgument::Positional => {
            if st.seen_named {
                Err(
                    binding_error(
                        "call to '"@ + callee@
                            + "' cannot place positional arguments after named arguments"@,
                        origin,
                        callee.len(),
                    ),
                )
            } else if into_pack(s, st.next) {
                Ok(
                    ArgumentScan {
                        ordered: st.ordered,
                        trailing: st.trailing.push(i as usize),
                        next: st.next,
                        seen_named: st.seen_named,
                    },
                )
            } else if st.next >= st.ordered.len() {
                Err(arity_error(s.params.len(), args.len(), callee, origin))
            } else {
                Ok(
                    ArgumentScan {
                        ordered: st.ordered.update(st.next as int, Some(i as usize)),
                        trailing: st.trailing,
                        next: (st.next + 1) as usize,
                        seen_named: st.seen_named,
                    },
                )
            }
        },
    }
}

/// The scan state before any argument is read.
pub open spec fn initial_scan(n: nat) -> ArgumentScan {
    ArgumentScan { ordered: Seq::new(n, |j: int| None), trailing: seq![], next: 0, seen_named: false }
}

/// The scan state after reading the first `k` arguments, or the first
/// diagnostic met on the way.
pub open spec fn argument_scan(
    s: RoutineTypeView,
    args: Seq<CallArgument>,
    callee: &str,
    origin: Option<SyntaxOriginView>,
    allow_named: bool,
    k: nat,
) -> Result<ArgumentScan, TypecheckErrorView>
    decreases k,
{
    if k == 0 {
        Ok(initial_scan(s.params.len()))
    } else {
        match argument_scan(s, args, callee, origin, allow_named, (k - 1) as nat) {
            Ok(st) => scan_step(s, args, callee, origin, allow_named, k - 1, st),
            Err(e) => Err(e),
        }
    }
}

/// The argument bound to each parameter once the scan is over: an empty
/// variadic parameter takes the first trailing positional argument.
pub open spec fn settled(s: RoutineTypeView, st: ArgumentScan) -> Seq<Option<usize>> {
    match s.variadic_index {
        Some(index) => {
            if st.ordered[index as int] is None && st.trailing.len() > 0 {
                st.ordered.update(index as int, Some(st.trailing[0]))
            } else {
                st.ordered
            }
        },
        None => st.ordered,
    }
}

/// What parameter `j` is bound to, or `None` when a required argument is
/// missing.
pub open spec fn bound_at(
    s: RoutineTypeView,
    args: Seq<CallArgument>,
    allow_defaults: bool,
    trailing: Seq<usize>,
    ordered: Seq<Option<usize>>,
    j: int,
) -> Option<BoundArgView> {
    let variadic = s.variadic_index == Some(j as usize);
    match ordered[j] {
        Some(a) => {
            if variadic && args[a as int] is Unpack {
                Some(BoundArgView::VariadicUnpack(a))
            } else if variadic && trailing.len() > 0 {
                Some(BoundArgView::VariadicPack(seq![a] + trailing.skip(1)))
            } else {
                Some(BoundArgView::Explicit(a))
            }
        },
        None => {
            if variadic {
                Some(BoundArgView::VariadicPack(seq![]))
            } else if allow_defaults && j < s.default_flags.len() && s.default_flags[j] {
                Some(BoundArgView::Default)
            } else {
                None
            }
        },
    }
}

/// How a missing parameter is named: by its name, or by `#` and its position
/// when it has none.
pub open spec fn missing_name(names: Seq<Seq<char>>, j: int) -> Seq<char> {
    if j < names.len() && names[j].len() > 0 {
        names[j]
    } else {
        "#"@ + decimal_text(j as nat)
    }
}

/// The diagnostic for a call that leaves parameter `j` without an argument.
pub open spec fn missing_argument_error(
    s: RoutineTypeView,
    callee: &str,
    origin: Option<SyntaxOriginView>,
    j: int,
) -> TypecheckErrorView {
    binding_error(
        "call to '"@ + callee@ + "' is missing required argument '"@ + missing_name(
            s.param_names,
            j,
        ) + "'"@,
        origin,
        callee.len(),
    )
}

/// The bindings of the first `k` parameters, or the diagnostic for the first
/// of them left without an argument.
pub open spec fn bound_prefix(
    s: RoutineTypeView,
    args: Seq<CallArgument>,
    callee: &str,
    origin: Option<SyntaxOriginView>,
    allow_defaults: bool,
    trailing: Seq<usize>,
    ordered: Seq<Option<usize>>,
    k: nat,
) -> Result<Seq<BoundArgView>, TypecheckErrorView>
    decreases k,
{
    if k == 0 {
        Ok(seq![])
    } else {
        match bound_prefix(s, args, callee, origin, allow_defaults, trailing, ordered, (k - 1) as nat) {
            Ok(p) => match bound_at(s, args, allow_defaults, trailing, ordered, k - 1) {
                Some(b) => Ok(p.push(b)),
                None => Err(missing_argument_error(s, callee, origin, k - 1)),
            },
            Err(e) => Err(e),
        }
    }
}

/// Some argument of the call is named.
pub open spec fn has_named_argument(args: Seq<CallArgument>) -> bool {
    exists|i: int| 0 <= i < args.len() && args[i] is Named
}

/// Some parameter from position `from` on has no default.
pub open spec fn lacks_default_from(flags: Seq<bool>, from: int) -> bool {
    exists|j: int| from <= j < flags.len() && !flags[j]
}

/// What binding the arguments `args` of a call to `callee` to the parameters
/// of signature `s` comes to: a binding for each parameter, or the first
/// diagnostic. A call without named arguments must supply every parameter,
/// unless defaults are allowed, and may only leave out parameters that have
/// defaults, unless the routine is variadic.
pub open spec fn call_binding(
    s: RoutineTypeView,
    args: Seq<CallArgument>,
    callee: &str,
    origin: Option<SyntaxOriginView>,
    allow_named: bool,
    allow_defaults: bool,
) -> Result<Seq<BoundArgView>, TypecheckErrorView> {
    let n = s.params.len();
    let named = has_named_argument(args);
    if n != args.len() && !named && !allow_defaults {
        Err(arity_error(n, args.len(), callee, origin))
    } else if args.len() < n && !named && s.variadic_index is None && lacks_default_from(
        s.default_flags,
        args.len() as int,
    ) {
        Err(arity_error(n, args.len(), callee, origin))
    } else {
        match argument_scan(s, args, callee, origin, allow_named, args.len()) {
            Ok(st) => bound_prefix(
                s,
                args,
                callee,
                origin,
                allow_defaults,
                st.trailing,
                settled(s, st),
                n,
            ),
            Err(e) => Err(e),
        }
    }
}

/// A diagnostic of the scan stays the outcome however many more arguments
/// there are.
proof fn lemma_scan_error_stays(
    s: RoutineTypeView,
    args: Seq<CallArgument>,
    callee: &str,
    origin: Option<SyntaxOriginView>,
    allow_named: bool,
    k: nat,
    m: nat,
)
    requires
        k <= m,
        argument_scan(s, args, callee, origin, allow_named, k) is Err,
    ensures
        argument_scan(s, args, callee, origin, allow_named, m) == argument_scan(
            s,
            args,
            callee,
            origin,
            allow_named,
            k,
        ),
    decreases m - k,
{
    if k < m {
        lemma_scan_error_stays(s, args, callee, origin, allow_named, k, (m - 1) as nat);
    }
}

/// A missing argument stays the outcome however many more parameters there
/// are.
proof fn lemma_missing_stays(
    s: RoutineTypeView,
    args: Seq<CallArgument>,
    callee: &str,
    origin: Option<SyntaxOriginView>,
    allow_defaults: bool,
    trailing: Seq<usize>,
    ordered: Seq<Option<usize>>,
    k: nat,
    m: nat,
)
    requires
        k <= m,
        bound_prefix(s, args, callee, origin, allow_defaults, trailing, ordered, k) is Err,
    ensures
        bound_prefix(s, args, callee, origin, allow_defaults, trailing, ordered, m) == bound_prefix(
            s,
            args,
            callee,
            origin,
            allow_defaults,
            trailing,
            ordered,
            k,
        ),
    decreases m - k,
{
    if k < m {
        lemma_missing_stays(s, args, callee, origin, allow_defaults, trailing, ordered, k, (m - 1) as nat);
    }
}

/// Whether some argument of the call is named.
fn has_named(args: &Vec<CallArgument>) -> (r: bool)
    ensures
        r == has_named_argument(args@),
{
    let mut i: usize = 0;
    while i < args.len()
        invariant
            i <= args.len(),
            forall|j: int| 0 <= j < i ==> !(args@[j] is Named),
        decreases args.len() - i,
    {
        match &args[i] {
            CallArgument::Named(_) => {
                return true;
            },
            _ => {},
        }
        i = i + 1;
    }
    false
}

/// Whether some parameter from position `from` on has no default.
fn default_missing_from(defaults: &Vec<Option<SyntaxNodeId>>, from: usize) -> (r: bool)
    ensures
        r == lacks_default_from(default_flags(defaults@), from as int),
{
    let mut j: usize = from;
    while j < defaults.len()
        invariant
            from <= j,
            forall|t: int| from <= t < j && t < defaults.len() ==> defaults@[t] is Some,
        decreases defaults.len() - j,
    {
        if defaults[j].is_none() {
            proof {
                assert(!default_flags(defaults@)[j as int]);
                assert(from <= j < default_flags(defaults@).len());
            }
            return true;
        }
        j = j + 1;
    }
    proof {
        assert forall|t: int| from <= t < default_flags(defaults@).len() implies default_flags(
            defaults@,
        )[t] by {
            assert(defaults@[t] is Some);
        }
    }
    false
}

/// The position of the parameter called `name`, the first one if several
/// are.
fn parameter_position(names: &Vec<String>, name: &String) -> (r: Option<usize>)
    ensures
        match r {
            Some(i) => first_position(names_view(names@), name@) == Some(i as int),
            None => first_position(names_view(names@), name@) is None,
        },
{
    let ghost nv = names_view(names@);
    let mut i: usize = 0;
    while i < names.len()
        invariant
            i <= names.len(),
            nv == names_view(names@),
            forall|j: int| 0 <= j < i ==> nv[j] != name@,
        decreases names.len() - i,
    {
        if str_eq(&names[i], name) {
            proof {
                assert(is_first_position(nv, name@, i as int));
                let c = choose|c: int| is_first_position(nv, name@, c);
                assert(c == i as int) by {
                    if c < i as int {
                        assert(nv[c] != name@);
                    } else if c > i as int {
                        assert(nv[i as int] != name@);
                    }
                }
            }
            return Some(i);
        }
        i = i + 1;
    }
    proof {
        assert(!exists|c: int| is_first_position(nv, name@, c));
    }
    None
}

/// The scan state of an ongoing binding.
struct ScanState {
    ordered: Vec<Option<usize>>,
    trailing: Vec<usize>,
    next: usize,
    seen_named: bool,
}

impl View for ScanState {
    type V = ArgumentScan;

    closed spec fn view(&self) -> ArgumentScan {
        ArgumentScan {
            ordered: self.ordered@,
            trailing: self.trailing@,
            next: self.next,
            seen_named: self.seen_named,
        }
    }
}

/// Every argument the scan state refers to is one of the first `k`.
pub open spec fn refers_below(st: ArgumentScan, k: int) -> bool {
    &&& forall|j: int| 0 <= j < st.ordered.len() && (#[trigger] st.ordered[j]) is Some ==> (
    st.ordered[j]->0 as int) < k
    &&& forall|t: int| 0 <= t < st.trailing.len() ==> (#[trigger] st.trailing[t] as int) < k
}

/// An invalid-input diagnostic at `origin`, or at the start of the program
/// with the given length.
fn binding_failure(message: &str, origin: &Option<SyntaxOrigin>, length: usize) -> (r:
    TypecheckError)
    ensures
        r@ == binding_error(message@, origin_view(*origin), length),
{
    let at = match origin {
        Some(o) => o.copy(),
        None => SyntaxOrigin { file: None, line: 1, column: 1, length },
    };
    TypecheckError::with_origin(TypecheckErrorKind::InvalidInput, message, at)
}

/// Reads argument `i` of the call into the scan state.
fn scan_argument(
    signature: &RoutineType,
    args: &Vec<CallArgument>,
    i: usize,
    callee: &str,
    origin: &Option<SyntaxOrigin>,
    allow_named: bool,
    st: &mut ScanState,
) -> (r: Result<(), TypecheckError>)
    requires
        well_shaped(signature@),
        i < args.len(),
        old(st).ordered.len() == signature.params.len(),
        refers_below(old(st)@, i as int),
    ensures
        match r {
            Ok(()) => {
                &&& scan_step(
                    signature@,
                    args@,
                    callee,
                    origin_view(*origin),
                    allow_named,
                    i as int,
                    old(st)@,
                ) == Ok::<ArgumentScan, TypecheckErrorView>(final(st)@)
                &&& final(st).ordered.len() == old(st).ordered.len()
                &&& refers_below(final(st)@, i + 1)
            },
            Err(e) => scan_step(
                signature@,
                args@,
                callee,
                origin_view(*origin),
                allow_named,
                i as int,
                old(st)@,
            ) == Err::<ArgumentScan, TypecheckErrorView>(e@),
        },
{
    match &args[i] {
        CallArgument::Named(name) => {
            let length = name.as_str().len();
            if !allow_named {
                let mut message = owned("named arguments are not supported for call to '");
                push_text(&mut message, callee);
                push_text(&mut message, "'");
                return Err(binding_failure(message.as_str(), origin, length));
            }
            match parameter_position(&signature.param_names, name) {
                None => {
                    let mut message = owned("call to '");
                    push_text(&mut message, callee);
                    push_text(&mut message, "' does not have a parameter named '");
                    push_text(&mut message, name.as_str());
                    push_text(&mut message, "'");
                    Err(binding_failure(message.as_str(), origin, length))
                },
                Some(index) => {
                    if st.ordered[index].is_some() {
                        let mut message = owned("call to '");
                        push_text(&mut message, callee);
                        push_text(&mut message, "' supplies parameter '");
                        push_text(&mut message, name.as_str());
                        push_text(&mut message, "' more than once");
                        return Err(binding_failure(message.as_str(), origin, length));
                    }
                    st.ordered.set(index, Some(i));
                    st.seen_named = true;
                    Ok(())
                },
            }
        },
        CallArgument::Unpack => match signature.variadic_index {
            None => Err(
                binding_failure(
                    "call-site unpack is only supported for variadic calls in V1",
                    origin,
                    3,
                ),
            ),
            Some(index) => {
                if index + 1 != signature.params.len() || st.ordered[index].is_some()
                    || st.trailing.len() > 0 {
                    return Err(
                        binding_failure(
                            "call-site unpack cannot be combined with other variadic arguments in V1",
                            origin,
                            3,
                        ),
                    );
                }
                st.ordered.set(index, Some(i));
                Ok(())
            },
        },
        CallArgument::Positional => {
            if st.seen_named {
                let mut message = owned("call to '");
                push_text(&mut message, callee);
                push_text(
                    &mut message,
                    "' cannot place positional arguments after named arguments",
                );
                return Err(binding_failure(message.as_str(), origin, callee.len()));
            }
            let packs = match signature.variadic_index {
                Some(index) => st.next >= index,
                None => false,
            };
            if packs {
                st.trailing.push(i);
                return Ok(());
            }
            if st.next >= st.ordered.len() {
                return Err(
                    call_arity_error(signature.params.len(), args.len(), callee, copy_of(origin)),
                );
            }
            let next = st.next;
            st.ordered.set(next, Some(i));
            st.next = next + 1;
            Ok(())
        },
    }
}

/// An exact copy of an optional position.
fn copy_of(origin: &Option<SyntaxOrigin>) -> (r: Option<SyntaxOrigin>)
    ensures
        r == *origin,
{
    crate::ids::copy_origin(origin)
}

/// Binds the arguments `args` of a call to `callee` to the parameters of
/// `signature`: positional arguments in order, named arguments by name
/// (when `allow_named`), a call-site unpack to the variadic parameter, the
/// positional arguments past the variadic parameter into its pack, and the
/// parameters left over to their defaults (when `allow_defaults`).
pub fn bind_call_arguments(
    signature: &RoutineType,
    args: &Vec<CallArgument>,
    callee: &str,
    origin: Option<SyntaxOrigin>,
    allow_named: bool,
    allow_defaults: bool,
) -> (r: Result<Vec<BoundCallArg>, TypecheckError>)
    requires
        well_shaped(signature@),
    ensures
        match r {
            Ok(bound) => call_binding(
                signature@,
                args@,
                callee,
                origin_view(origin),
                allow_named,
                allow_defaults,
            ) == Ok::<Seq<BoundArgView>, TypecheckErrorView>(bound_view(bound@)),
            Err(e) => call_binding(
                signature@,
                args@,
                callee,
                origin_view(origin),
                allow_named,
                allow_defaults,
            ) == Err::<Seq<BoundArgView>, TypecheckErrorView>(e@),
        },
{
    let ghost s = signature@;
    let ghost ov = origin_view(origin);
    let n = signature.params.len();
    let named = has_named(args);
    if n != args.len() && !named && !allow_defaults {
        return Err(call_arity_error(n, args.len(), callee, origin));
    }
    if args.len() < n && !named && signature.variadic_index.is_none() && default_missing_from(
        &signature.param_defaults,
        args.len(),
    ) {
        return Err(call_arity_error(n, args.len(), callee, origin));
    }
    let mut ordered: Vec<Option<usize>> = Vec::new();
    while ordered.len() < n
        invariant
            ordered.len() <= n,
            forall|j: int| 0 <= j < ordered.len() ==> ordered@[j] is None,
        decreases n - ordered.len(),
    {
        ordered.push(None);
    }
    let mut st = ScanState { ordered, trailing: Vec::new(), next: 0, seen_named: false };
    proof {
        assert(st@.ordered =~= initial_scan(n as nat).ordered);
        assert(st@.trailing =~= initial_scan(n as nat).trailing);
        assert(argument_scan(s, args@, callee, ov, allow_named, 0) == Ok::<ArgumentScan, TypecheckErrorView>(st@));
    }
    let mut i: usize = 0;
    while i < args.len()
        invariant
            s == signature@,
            ov == origin_view(origin),
            n == signature.params.len(),
            well_shaped(s),
            i <= args.len(),
            st.ordered.len() == n,
            !(n != args.len() && !has_named_argument(args@) && !allow_defaults),
            !(args.len() < n && !has_named_argument(args@) && s.variadic_index is None
                && lacks_default_from(s.default_flags, args.len() as int)),
            refers_below(st@, i as int),
            argument_scan(s, args@, callee, ov, allow_named, i as nat) == Ok::<ArgumentScan, TypecheckErrorView>(st@),
        decreases args.len() - i,
    {
        match scan_argument(signature, args, i, callee, &origin, allow_named, &mut st) {
            Ok(()) => {},
            Err(e) => {
                proof {
                    assert(argument_scan(s, args@, callee, ov, allow_named, (i + 1) as nat)
                        == Err::<ArgumentScan, TypecheckErrorView>(e@));
                    lemma_scan_error_stays(
                        s,
                        args@,
                        callee,
                        ov,
                        allow_named,
                        (i + 1) as nat,
                        args.len() as nat,
                    );
                }
                return Err(e);
            },
        }
        i = i + 1;
    }
    let ghost scanned = st@;
    if let Some(index) = signature.variadic_index {
        if st.ordered[index].is_none() && st.trailing.len() > 0 {
            let first = st.trailing[0];
            st.ordered.set(index, Some(first));
        }
    }
    proof {
        assert(st.ordered@ =~= settled(s, scanned));
    }
    let ghost ordered_view = st.ordered@;
    let ghost trailing_view = st.trailing@;
    let mut bound: Vec<BoundCallArg> = Vec::new();
    proof {
        assert(bound_view(bound@) =~= seq![]);
    }
    let mut j: usize = 0;
    while j < n
        invariant
            s == signature@,
            ov == origin_view(origin),
            n == signature.params.len(),
            well_shaped(s),
            j <= n,
            !(n != args.len() && !has_named_argument(args@) && !allow_defaults),
            !(args.len() < n && !has_named_argument(args@) && s.variadic_index is None
                && lacks_default_from(s.default_flags, args.len() as int)),
            argument_scan(s, args@, callee, ov, allow_named, args.len() as nat)
                == Ok::<ArgumentScan, TypecheckErrorView>(scanned),
            ordered_view == settled(s, scanned),
            trailing_view == scanned.trailing,
            st.ordered@ == ordered_view,
            st.trailing@ == trailing_view,
            ordered_view.len() == n,
            forall|t: int|
                0 <= t < ordered_view.len() && (#[trigger] ordered_view[t]) is Some ==> (
                ordered_view[t]->0 as int) < args.len(),
            forall|t: int| 0 <= t < trailing_view.len() ==> (#[trigger] trailing_view[t] as int) < args.len(),
            bound_prefix(s, args@, callee, ov, allow_defaults, trailing_view, ordered_view, j as nat)
                == Ok::<Seq<BoundArgView>, TypecheckErrorView>(bound_view(bound@)),
        decreases n - j,
    {
        let variadic = match signature.variadic_index {
            Some(index) => index == j,
            None => false,
        };
        let b = match st.ordered[j] {
            Some(a) => {
                let unpacks = match &args[a] {
                    CallArgument::Unpack => true,
                    _ => false,
                };
                if variadic && unpacks {
                    BoundCallArg::VariadicUnpack(a)
                } else if variadic && st.trailing.len() > 0 {
                    let mut packed: Vec<usize> = vec![a];
                    let mut k: usize = 1;
                    while k < st.trailing.len()
                        invariant
                            1 <= k <= trailing_view.len(),
                            st.trailing@ == trailing_view,
                            packed@ == seq![a] + trailing_view.subrange(1, k as int),
                        decreases trailing_view.len() - k,
                    {
                        packed.push(st.trailing[k]);
                        proof {
                            assert(trailing_view.subrange(1, k + 1) =~= trailing_view.subrange(
                                1,
                                k as int,
                            ).push(trailing_view[k as int]));
                        }
                        k = k + 1;
                    }
                    proof {
                        assert(trailing_view.subrange(1, trailing_view.len() as int)
                            =~= trailing_view.skip(1));
                    }
                    BoundCallArg::VariadicPack(packed)
                } else {
                    BoundCallArg::Explicit(a)
                }
            },
            None => {
                if variadic {
                    BoundCallArg::VariadicPack(Vec::new())
                } else if allow_defaults && j < signature.param_defaults.len()
                    && signature.param_defaults[j].is_some() {
                    BoundCallArg::Default
                } else {
                    let mut message = owned("call to '");
                    push_text(&mut message, callee);
                    push_text(&mut message, "' is missing required argument '");
                    let named_param = j < signature.param_names.len()
                        && !signature.param_names[j].as_str().is_empty();
                    let missing = if named_param {
                        owned(signature.param_names[j].as_str())
                    } else {
                        let mut position = owned("#");
                        let digits = decimal(j as u64);
                        push_text(&mut position, digits.as_str());
                        position
                    };
                    proof {
                        assert(missing@ == missing_name(s.param_names, j as int));
                    }
                    push_text(&mut message, missing.as_str());
                    push_text(&mut message, "'");
                    let e = binding_failure(message.as_str(), &origin, callee.len());
                    proof {
                        assert(bound_at(s, args@, allow_defaults, trailing_view, ordered_view, j as int)
                            is None);
                        assert(e@ == missing_argument_error(s, callee, ov, j as int));
                        lemma_missing_stays(
                            s,
                            args@,
                            callee,
                            ov,
                            allow_defaults,
                            trailing_view,
                            ordered_view,
                            (j + 1) as nat,
                            n as nat,
                        );
                    }
                    return Err(e);
                }
            },
        };
        proof {
            assert(Some(b@) == bound_at(s, args@, allow_defaults, trailing_view, ordered_view, j as int));
        }
        let ghost before = bound@;
        bound.push(b);
        proof {
            assert(bound_view(bound@) =~= bound_view(before).push(b@));
        }
        j = j + 1;
    }
    Ok(bound)
}

/// Each parameter bound by a successful binding of the first `k` parameters
/// is bound as `bound_at` says.
proof fn lemma_bound_prefix_entries(
    s: RoutineTypeView,
    args: Seq<CallArgument>,
    callee: &str,
    origin: Option<SyntaxOriginView>,
    allow_defaults: bool,
    trailing: Seq<usize>,
    ordered: Seq<Option<usize>>,
    k: nat,
)
    requires
        bound_prefix(s, args, callee, origin, allow_defaults, trailing, ordered, k) is Ok,
    ensures
        ({
            let b = bound_prefix(s, args, callee, origin, allow_defaults, trailing, ordered, k)->Ok_0;
            &&& b.len() == k
            &&& forall|j: int|
                0 <= j < k ==> bound_at(s, args, allow_defaults, trailing, ordered, j) == Some(
                    #[trigger] b[j],
                )
        }),
    decreases k,
{
    if k > 0 {
        lemma_bound_prefix_entries(
            s,
            args,
            callee,
            origin,
            allow_defaults,
            trailing,
            ordered,
            (k - 1) as nat,
        );
    }
}

/// The scan state after `k` positional arguments of a routine that is not
/// variadic: they bind the first `k` parameters in order.
pub open spec fn positional_scan(n: nat, k: nat) -> ArgumentScan {
    ArgumentScan {
        ordered: Seq::new(n, |j: int| if j < k { Some(j as usize) } else { None }),
        trailing: seq![],
        next: k as usize,
        seen_named: false,
    }
}

proof fn lemma_positional_scan(
    s: RoutineTypeView,
    args: Seq<CallArgument>,
    callee: &str,
    origin: Option<SyntaxOriginView>,
    allow_named: bool,
    k: nat,
)
    requires
        s.variadic_index is None,
        k <= args.len(),
        k <= s.params.len(),
        s.params.len() <= usize::MAX,
        forall|i: int| 0 <= i < args.len() ==> #[trigger] args[i] is Positional,
    ensures
        argument_scan(s, args, callee, origin, allow_named, k) == Ok::<
            ArgumentScan,
            TypecheckErrorView,
        >(positional_scan(s.params.len(), k)),
    decreases k,
{
    if k == 0 {
        assert(initial_scan(s.params.len()).ordered =~= positional_scan(s.params.len(), 0).ordered);
    } else {
        lemma_positional_scan(s, args, callee, origin, allow_named, (k - 1) as nat);
        let before = positional_scan(s.params.len(), (k - 1) as nat);
        assert(args[k - 1] is Positional);
        assert(before.ordered.update(k - 1, Some((k - 1) as usize)) =~= positional_scan(
            s.params.len(),
            k,
        ).ordered);
    }
}

/// Binding a call whose arguments are all positional to a routine that is
/// not variadic binds argument `j` to parameter `j`, and every parameter
/// past the arguments to its default.
pub proof fn law_positional_arguments_bind_in_order(
    s: RoutineTypeView,
    args: Seq<CallArgument>,
    callee: &str,
    origin: Option<SyntaxOriginView>,
    allow_named: bool,
    allow_defaults: bool,
)
    requires
        s.variadic_index is None,
        s.params.len() <= usize::MAX,
        args.len() <= usize::MAX,
        forall|i: int| 0 <= i < args.len() ==> #[trigger] args[i] is Positional,
        call_binding(s, args, callee, origin, allow_named, allow_defaults) is Ok,
    ensures
        ({
            let b = call_binding(s, args, callee, origin, allow_named, allow_defaults)->Ok_0;
            &&& args.len() <= s.params.len()
            &&& b.len() == s.params.len()
            &&& forall|j: int| 0 <= j < args.len() ==> #[trigger] b[j] == BoundArgView::Explicit(j as usize)
            &&& forall|j: int| args.len() <= j < s.params.len() ==> #[trigger] b[j] == BoundArgView::Default
        }),
{
    let n = s.params.len();
    assert(!has_named_argument(args)) by {
        if has_named_argument(args) {
            let i = choose|i: int| 0 <= i < args.len() && args[i] is Named;
            assert(args[i] is Positional);
        }
    }
    if args.len() > n {
        lemma_positional_scan(s, args, callee, origin, allow_named, n);
        assert(args[n as int] is Positional);
        assert(argument_scan(s, args, callee, origin, allow_named, n + 1) is Err);
        lemma_scan_error_stays(s, args, callee, origin, allow_named, n + 1, args.len());
    }
    lemma_positional_scan(s, args, callee, origin, allow_named, args.len());
    let st = positional_scan(n, args.len());
    lemma_bound_prefix_entries(s, args, callee, origin, allow_defaults, st.trailing, st.ordered, n);
}

/// What the scan has recorded of the named arguments among the first `k`:
/// each is bound to the parameter of its name, and a named argument was
/// seen exactly when one of them is named.
pub open spec fn named_recorded(
    s: RoutineTypeView,
    args: Seq<CallArgument>,
    st: ArgumentScan,
    k: int,
) -> bool {
    &&& st.ordered.len() == s.params.len()
    &&& st.seen_named == exists|i: int| 0 <= i < k && #[trigger] args[i] is Named
    &&& forall|i: int|
        0 <= i < k ==> match #[trigger] args[i] {
            CallArgument::Named(name) => match first_position(s.param_names, name@) {
                Some(p) => st.ordered[p] == Some(i as usize),
                None => false,
            },
            _ => true,
        }
}

proof fn lemma_scan_records_named(
    s: RoutineTypeView,
    args: Seq<CallArgument>,
    callee: &str,
    origin: Option<SyntaxOriginView>,
    allow_named: bool,
    k: nat,
)
    requires
        well_shaped(s),
        s.variadic_index is None,
        k <= args.len(),
        argument_scan(s, args, callee, origin, allow_named, k) is Ok,
    ensures
        named_recorded(s, args, argument_scan(s, args, callee, origin, allow_named, k)->Ok_0, k as int),
    decreases k,
{
    if k > 0 {
        lemma_scan_records_named(s, args, callee, origin, allow_named, (k - 1) as nat);
        let st = argument_scan(s, args, callee, origin, allow_named, (k - 1) as nat)->Ok_0;
        let next = argument_scan(s, args, callee, origin, allow_named, k)->Ok_0;
        let last = k - 1;
        match args[last] {
            CallArgument::Named(name) => {
                let index = first_position(s.param_names, name@)->Some_0;
                let c = choose|c: int| is_first_position(s.param_names, name@, c);
                assert(index < s.params.len());
                assert(next.seen_named);
                assert forall|i: int| 0 <= i < k implies match #[trigger] args[i] {
                    CallArgument::Named(name) => match first_position(s.param_names, name@) {
                        Some(p) => next.ordered[p] == Some(i as usize),
                        None => false,
                    },
                    _ => true,
                } by {
                    if i < last {
                        match args[i] {
                            CallArgument::Named(other) => {
                                let p = first_position(s.param_names, other@)->Some_0;
                                assert(st.ordered[p] == Some(i as usize));
                                assert(p != index);
                            },
                            _ => {},
                        }
                    }
                }
            },
            CallArgument::Unpack => {},
            CallArgument::Positional => {
                assert(!st.seen_named);
                assert forall|i: int| 0 <= i < k implies match #[trigger] args[i] {
                    CallArgument::Named(name) => match first_position(s.param_names, name@) {
                        Some(p) => next.ordered[p] == Some(i as usize),
                        None => false,
                    },
                    _ => true,
                } by {
                    if i < last {
                        assert(!(args[i] is Named));
                    }
                }
                assert(!next.seen_named) by {
                    if exists|i: int| 0 <= i < k && #[trigger] args[i] is Named {
                        let i = choose|i: int| 0 <= i < k && #[trigger] args[i] is Named;
                        assert(i < last);
                    }
                }
            },
        }
    }
}

/// A named argument binds the parameter of its name, the first one so
/// named: after a successful binding to a routine that is not variadic,
/// that parameter is bound to exactly that argument.
pub proof fn law_named_argument_binds_its_parameter(
    s: RoutineTypeView,
    args: Seq<CallArgument>,
    callee: &str,
    origin: Option<SyntaxOriginView>,
    allow_named: bool,
    allow_defaults: bool,
    i: int,
)
    requires
        well_shaped(s),
        s.variadic_index is None,
        0 <= i < args.len(),
        call_binding(s, args, callee, origin, allow_named, allow_defaults) is Ok,
    ensures
        match args[i] {
            CallArgument::Named(name) => match first_position(s.param_names, name@) {
                Some(p) => call_binding(s, args, callee, origin, allow_named, allow_defaults)->Ok_0[p]
                    == BoundArgView::Explicit(i as usize),
                None => false,
            },
            _ => true,
        },
{
    if args[i] is Named {
        assert(has_named_argument(args));
        let st = argument_scan(s, args, callee, origin, allow_named, args.len())->Ok_0;
        lemma_scan_records_named(s, args, callee, origin, allow_named, args.len());
        assert(named_recorded(s, args, st, args.len() as int));
        lemma_bound_prefix_entries(
            s,
            args,
            callee,
            origin,
            allow_defaults,
            st.trailing,
            settled(s, st),
            s.params.len(),
        );
        match args[i] {
            CallArgument::Named(name) => {
                let p = first_position(s.param_names, name@)->Some_0;
                let c = choose|c: int| is_first_position(s.param_names, name@, c);
                assert(p < s.params.len());
            },
            _ => {},
        }
    }
}

/// Every argument position a scan state holds is one of the first `k`
/// arguments, and it holds one entry per parameter.
pub open spec fn scan_within(st: ArgumentScan, n: nat, k: int) -> bool {
    &&& st.ordered.len() == n
    &&& forall|j: int| 0 <= j < st.ordered.len() && (#[trigger] st.ordered[j]) is Some ==> st.ordered[j]->0 < k
    &&& forall|j: int| 0 <= j < st.trailing.len() ==> #[trigger] st.trailing[j] < k
}

/// The scan only records arguments it has read.
proof fn lemma_scan_within(
    s: RoutineTypeView,
    args: Seq<CallArgument>,
    callee: &str,
    origin: Option<SyntaxOriginView>,
    allow_named: bool,
    k: nat,
)
    requires
        well_shaped(s),
        k <= args.len(),
        argument_scan(s, args, callee, origin, allow_named, k) is Ok,
    ensures
        scan_within(argument_scan(s, args, callee, origin, allow_named, k)->Ok_0, s.params.len(), k as int),
    decreases k,
{
    if k > 0 {
        lemma_scan_within(s, args, callee, origin, allow_named, (k - 1) as nat);
    }
}

/// The first `k` parameters are bound only to arguments of the call.
proof fn lemma_prefix_within(
    s: RoutineTypeView,
    args: Seq<CallArgument>,
    callee: &str,
    origin: Option<SyntaxOriginView>,
    allow_defaults: bool,
    trailing: Seq<usize>,
    ordered: Seq<Option<usize>>,
    k: nat,
)
    requires
        k <= ordered.len(),
        forall|j: int| 0 <= j < ordered.len() && (#[trigger] ordered[j]) is Some ==> ordered[j]->0 < args.len(),
        forall|j: int| 0 <= j < trailing.len() ==> #[trigger] trailing[j] < args.len(),
        bound_prefix(s, args, callee, origin, allow_defaults, trailing, ordered, k) is Ok,
    ensures
        crate::call_checks::within(
            bound_prefix(s, args, callee, origin, allow_defaults, trailing, ordered, k)->Ok_0,
            args.len() as int,
        ),
        bound_prefix(s, args, callee, origin, allow_defaults, trailing, ordered, k)->Ok_0.len() == k,
    decreases k,
{
    if k > 0 {
        lemma_prefix_within(s, args, callee, origin, allow_defaults, trailing, ordered, (k - 1) as nat);
        let b = bound_at(s, args, allow_defaults, trailing, ordered, k - 1)->Some_0;
        match b {
            BoundArgView::VariadicPack(list) => {
                assert forall|j: int| 0 <= j < list.len() implies list[j] < args.len() by {
                    if j > 0 {
                        assert(list[j] == trailing.skip(1)[j - 1]);
                    }
                }
            },
            _ => {},
        }
    }
}

/// Binding a call's arguments binds each parameter, and only to arguments
/// of the call.
pub proof fn lemma_binding_within(
    s: RoutineTypeView,
    args: Seq<CallArgument>,
    callee: &str,
    origin: Option<SyntaxOriginView>,
    allow_named: bool,
    allow_defaults: bool,
)
    requires
        well_shaped(s),
        call_binding(s, args, callee, origin, allow_named, allow_defaults) is Ok,
    ensures
        crate::call_checks::within(
            call_binding(s, args, callee, origin, allow_named, allow_defaults)->Ok_0,
            args.len() as int,
        ),
        call_binding(s, args, callee, origin, allow_named, allow_defaults)->Ok_0.len() == s.params.len(),
{
    lemma_scan_within(s, args, callee, origin, allow_named, args.len());
    let st = argument_scan(s, args, callee, origin, allow_named, args.len())->Ok_0;
    let ordered = settled(s, st);
    assert forall|j: int| 0 <= j < ordered.len() && (#[trigger] ordered[j]) is Some implies ordered[j]->0
        < args.len() by {
        assert(st.ordered.len() == s.params.len());
    }
    lemma_prefix_within(s, args, callee, origin, allow_defaults, st.trailing, ordered, s.params.len());
}

} // verus!
