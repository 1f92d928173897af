//! The table of bootstrap methods of a class, with the dynamic constants
//! among their arguments resolved.

use crate::buffer::spec_read_u16;
use crate::constant_pool::{
    spec_get, spec_get_method_handle, spec_get_type, ConstantPool, ConstantPoolEntry,
    ConstantPoolEntryView, ConstantPoolTag, DynamicEntry, DynamicEntryView, Pool,
};
use crate::error::{ClassFileError, ClassFileResult};
use crate::handle::{
    arguments_view, clone_arguments, lemma_constant_dynamic_view, BootstrapMethodArgument,
    BootstrapMethodArgumentView, ConstantDynamic, ConstantDynamicView, Handle, HandleKind,
    HandleView,
};
use crate::text::JavaText;
use vstd::prelude::*;

verus! {

/// A bootstrap method: its handle and its static arguments.
#[derive(Debug, PartialEq, Eq)]
pub struct BootstrapMethod {
    pub handle: Handle,
    pub args: Vec<BootstrapMethodArgument>,
}

pub struct BootstrapMethodView {
    pub handle: HandleView,
    pub args: Seq<BootstrapMethodArgumentView>,
}

impl DeepView for BootstrapMethod {
    type V = BootstrapMethodView;

    open spec fn deep_view(&self) -> BootstrapMethodView {
        BootstrapMethodView { handle: self.handle.deep_view(), args: arguments_view(self.args@) }
    }
}

impl Clone for BootstrapMethod {
    fn clone(&self) -> (r: Self)
        ensures
            r.deep_view() == self.deep_view(),
    {
        BootstrapMethod { handle: self.handle.clone(), args: clone_arguments(&self.args) }
    }
}

/// An argument of a bootstrap method as the class file gives it: a dynamic
/// constant still names its own bootstrap method by index.
#[derive(Debug)]
pub enum UnresolvedArgument {
    Integer(i32),
    Float(u32),
    Long(i64),
    Double(u64),
    String(JavaText),
    Class(JavaText),
    Handle(Handle),
    ConstantDynamic(DynamicEntry),
}

pub enum UnresolvedArgumentView {
    Integer(i32),
    Float(u32),
    Long(i64),
    Double(u64),
    String(Seq<u8>),
    Class(Seq<u8>),
    Handle(HandleView),
    ConstantDynamic(DynamicEntryView),
}

impl DeepView for UnresolvedArgument {
    type V = UnresolvedArgumentView;

    open spec fn deep_view(&self) -> UnresolvedArgumentView {
        match self {
            UnresolvedArgument::Integer(v) => UnresolvedArgumentView::Integer(*v),
            UnresolvedArgument::Float(v) => UnresolvedArgumentView::Float(*v),
            UnresolvedArgument::Long(v) => UnresolvedArgumentView::Long(*v),
            UnresolvedArgument::Double(v) => UnresolvedArgumentView::Double(*v),
            UnresolvedArgument::String(v) => UnresolvedArgumentView::String(v@),
            UnresolvedArgument::Class(v) => UnresolvedArgumentView::Class(v@),
            UnresolvedArgument::Handle(v) => UnresolvedArgumentView::Handle(v.deep_view()),
            UnresolvedArgument::ConstantDynamic(v) => UnresolvedArgumentView::ConstantDynamic(
                v.deep_view(),
            ),
        }
    }
}

/// A bootstrap method as the class file gives it.
#[derive(Debug)]
pub struct UnresolvedMethod {
    pub handle: Handle,
    pub args: Vec<UnresolvedArgument>,
}

pub struct UnresolvedMethodView {
    pub handle: HandleView,
    pub args: Seq<UnresolvedArgumentView>,
}

impl DeepView for UnresolvedMethod {
    type V = UnresolvedMethodView;

    open spec fn deep_view(&self) -> UnresolvedMethodView {
        UnresolvedMethodView { handle: self.handle.deep_view(), args: self.args.deep_view() }
    }
}

/// How far the resolution of one bootstrap method has come.
#[derive(Debug, Copy, Clone, PartialEq, Eq, Structural)]
pub enum ResolvedState {
    Unresolved,
    /// Its arguments are being resolved: to meet it again is to have gone
    /// round a circle.
    Resolving,
    Resolved,
}

/// The argument that the entry in slot `index` gives, where an argument of
/// a bootstrap method may name that entry.
#[verifier::opaque]
pub open spec fn spec_unresolved_argument(pool: Pool, index: u16) -> ClassFileResult<UnresolvedArgumentView> {
    match spec_get(pool, index) {
        Err(e) => Err(e),
        Ok(entry) => match entry {
            ConstantPoolEntryView::Integer(v) => Ok(UnresolvedArgumentView::Integer(v)),
            ConstantPoolEntryView::Float(v) => Ok(UnresolvedArgumentView::Float(v)),
            ConstantPoolEntryView::Long(v) => Ok(UnresolvedArgumentView::Long(v)),
            ConstantPoolEntryView::Double(v) => Ok(UnresolvedArgumentView::Double(v)),
            ConstantPoolEntryView::String(v) => Ok(UnresolvedArgumentView::String(v)),
            ConstantPoolEntryView::Class(v) => Ok(UnresolvedArgumentView::Class(v)),
            ConstantPoolEntryView::MethodHandle(v) => Ok(UnresolvedArgumentView::Handle(v)),
            ConstantPoolEntryView::Dynamic(v) => Ok(UnresolvedArgumentView::ConstantDynamic(v)),
            _ => match spec_get_type(pool, index) {
                Err(e) => Err(e),
                Ok(tag) => Err(ClassFileError::BadConstantPoolTypeExpectedBootstrapMethodArgument(tag)),
            },
        },
    }
}

/// The `remaining` arguments whose slot numbers start at `offset`, behind
/// those found so far.
pub open spec fn spec_arguments_from(
    pool: Pool,
    offset: int,
    remaining: int,
    found: Seq<UnresolvedArgumentView>,
) -> ClassFileResult<(Seq<UnresolvedArgumentView>, int)>
    decreases remaining,
{
    if remaining <= 0 {
        Ok((found, offset))
    } else {
        match spec_read_u16(pool.data, offset) {
            Err(e) => Err(e),
            Ok(index) => match spec_unresolved_argument(pool, index) {
                Err(e) => Err(e),
                Ok(argument) => spec_arguments_from(pool, offset + 2, remaining - 1, found.push(argument)),
            },
        }
    }
}

/// The bootstrap method that starts at `offset`: the slot of its handle, the
/// number of its arguments and the slot of each.
pub open spec fn spec_unresolved_method(pool: Pool, offset: int) -> ClassFileResult<
    (UnresolvedMethodView, int),
> {
    match spec_read_u16(pool.data, offset) {
        Err(e) => Err(e),
        Ok(handle_index) => match spec_get_method_handle(pool, handle_index) {
            Err(e) => Err(e),
            Ok(handle) => match spec_read_u16(pool.data, offset + 2) {
                Err(e) => Err(e),
                Ok(count) => match spec_arguments_from(pool, offset + 4, count as int, Seq::empty()) {
                    Err(e) => Err(e),
                    Ok(found) => Ok((UnresolvedMethodView { handle, args: found.0 }, found.1)),
                },
            },
        },
    }
}

/// The `remaining` bootstrap methods that start at `offset`, behind those
/// found so far.
pub open spec fn spec_methods_from(
    pool: Pool,
    offset: int,
    remaining: int,
    found: Seq<UnresolvedMethodView>,
) -> ClassFileResult<Seq<UnresolvedMethodView>>
    decreases remaining,
{
    if remaining <= 0 {
        Ok(found)
    } else {
        match spec_unresolved_method(pool, offset) {
            Err(e) => Err(e),
            Ok(method) => spec_methods_from(pool, method.1, remaining - 1, found.push(method.0)),
        }
    }
}

/// The bootstrap methods of the attribute whose payload starts at `offset`,
/// as the class file gives them. Offset zero stands for a class without the
/// attribute, which has no bootstrap methods.
pub open spec fn spec_unresolved(pool: Pool, offset: int) -> ClassFileResult<Seq<UnresolvedMethodView>> {
    if offset == 0 {
        Ok(Seq::empty())
    } else {
        match spec_read_u16(pool.data, offset) {
            Err(e) => Err(e),
            Ok(count) => spec_methods_from(pool, offset + 2, count as int, Seq::empty()),
        }
    }
}

/// The state of a resolution: how far each bootstrap method has come, and
/// what has been resolved. The entry of a method that is not yet resolved
/// holds a placeholder.
pub struct Resolution {
    pub states: Seq<ResolvedState>,
    pub resolved: Seq<BootstrapMethodView>,
}

/// The number of bootstrap methods that no one has begun to resolve.
pub open spec fn untouched(states: Seq<ResolvedState>) -> nat
    decreases states.len(),
{
    if states.len() == 0 {
        0
    } else {
        untouched(states.drop_last()) + (if states.last() == ResolvedState::Unresolved {
            1nat
        } else {
            0nat
        })
    }
}

/// Resolves bootstrap method `i`, depth first. A method that is resolved
/// stays as it is; one that is being resolved has been reached from itself,
/// which is the circle error. Else its arguments are resolved in order and
/// the method is entered as resolved. `fuel` bounds the depth: it is at
/// least the number of methods that no one has begun to resolve.
pub open spec fn spec_resolve(
    unresolved: Seq<UnresolvedMethodView>,
    i: int,
    at: Resolution,
    fuel: nat,
) -> ClassFileResult<Resolution>
    decreases fuel, 0int, 0int,
{
    if at.states[i] == ResolvedState::Resolved {
        Ok(at)
    } else if at.states[i] == ResolvedState::Resolving || fuel == 0 {
        Err(ClassFileError::BootstrapMethodCircularDependency)
    } else {
        match spec_resolve_arguments(
            unresolved,
            unresolved[i].args,
            0,
            Resolution { states: at.states.update(i, ResolvedState::Resolving), resolved: at.resolved },
            Seq::empty(),
            (fuel - 1) as nat,
        ) {
            Err(e) => Err(e),
            Ok(found) => Ok(
                Resolution {
                    states: found.1.states.update(i, ResolvedState::Resolved),
                    resolved: found.1.resolved.update(
                        i,
                        BootstrapMethodView { handle: unresolved[i].handle, args: found.0 },
                    ),
                },
            ),
        }
    }
}

/// An argument that needs no resolution, as it comes out.
pub open spec fn spec_plain_argument(argument: UnresolvedArgumentView) -> BootstrapMethodArgumentView {
    match argument {
        UnresolvedArgumentView::Integer(v) => BootstrapMethodArgumentView::Integer(v),
        UnresolvedArgumentView::Float(v) => BootstrapMethodArgumentView::Float(v),
        UnresolvedArgumentView::Long(v) => BootstrapMethodArgumentView::Long(v),
        UnresolvedArgumentView::Double(v) => BootstrapMethodArgumentView::Double(v),
        UnresolvedArgumentView::String(v) => BootstrapMethodArgumentView::String(v),
        UnresolvedArgumentView::Class(v) => BootstrapMethodArgumentView::Class(v),
        UnresolvedArgumentView::Handle(v) => BootstrapMethodArgumentView::Handle(v),
        UnresolvedArgumentView::ConstantDynamic(v) => arbitrary(),
    }
}

/// The dynamic constant `entry` with its bootstrap method filled in.
pub open spec fn spec_dynamic_argument(entry: DynamicEntryView, method: BootstrapMethodView) -> BootstrapMethodArgumentView {
    BootstrapMethodArgumentView::ConstantDynamic(
        ConstantDynamicView {
            name: entry.name,
            desc: entry.desc,
            bootstrap_method: method.handle,
            bootstrap_method_arguments: method.args,
        },
    )
}

/// Resolves the arguments `args` from the one with index `k` on, behind
/// those found so far. A dynamic constant must name a bootstrap method that
/// exists; that method is resolved first and then copied into the constant.
pub open spec fn spec_resolve_arguments(
    unresolved: Seq<UnresolvedMethodView>,
    args: Seq<UnresolvedArgumentView>,
    k: int,
    at: Resolution,
    found: Seq<BootstrapMethodArgumentView>,
    fuel: nat,
) -> ClassFileResult<(Seq<BootstrapMethodArgumentView>, Resolution)>
    decreases fuel, 1int, args.len() - k,
{
    if k >= args.len() || k < 0 {
        Ok((found, at))
    } else {
        match args[k] {
            UnresolvedArgumentView::ConstantDynamic(entry) => if entry.bootstrap_method_attr_index
                >= unresolved.len() {
                Err(
                    ClassFileError::BootstrapMethodOutOfBounds {
                        index: entry.bootstrap_method_attr_index,
                        len: unresolved.len() as u16,
                    },
                )
            } else {
                match spec_resolve(unresolved, entry.bootstrap_method_attr_index as int, at, fuel) {
                    Err(e) => Err(e),
                    Ok(next) => spec_resolve_arguments(
                        unresolved,
                        args,
                        k + 1,
                        next,
                        found.push(
                            spec_dynamic_argument(
                                entry,
                                next.resolved[entry.bootstrap_method_attr_index as int],
                            ),
                        ),
                        fuel,
                    ),
                }
            },
            plain => spec_resolve_arguments(
                unresolved,
                args,
                k + 1,
                at,
                found.push(spec_plain_argument(plain)),
                fuel,
            ),
        }
    }
}

/// The entry of a method that is not yet resolved.
pub open spec fn placeholder() -> BootstrapMethodView {
    BootstrapMethodView {
        handle: HandleView {
            kind: HandleKind::GetField,
            owner: Seq::empty(),
            name: Seq::empty(),
            desc: Seq::empty(),
            is_interface: false,
        },
        args: Seq::empty(),
    }
}

/// Resolves the methods from the one with index `i` on, each in its turn.
pub open spec fn spec_resolve_from(unresolved: Seq<UnresolvedMethodView>, i: int, at: Resolution) -> ClassFileResult<
    Resolution,
>
    decreases unresolved.len() - i,
{
    if i >= unresolved.len() || i < 0 {
        Ok(at)
    } else {
        match spec_resolve(unresolved, i, at, unresolved.len()) {
            Err(e) => Err(e),
            Ok(next) => spec_resolve_from(unresolved, i + 1, next),
        }
    }
}

/// The table of resolved bootstrap methods that `unresolved` gives.
pub open spec fn spec_resolve_all(unresolved: Seq<UnresolvedMethodView>) -> ClassFileResult<
    Seq<BootstrapMethodView>,
> {
    match spec_resolve_from(
        unresolved,
        0,
        Resolution {
            states: Seq::new(unresolved.len(), |k: int| ResolvedState::Unresolved),
            resolved: Seq::new(unresolved.len(), |k: int| placeholder()),
        },
    ) {
        Err(e) => Err(e),
        Ok(done) => Ok(done.resolved),
    }
}

/// The table of bootstrap methods of the attribute whose payload starts at
/// `offset`.
pub open spec fn spec_compute(pool: Pool, offset: int) -> ClassFileResult<Seq<BootstrapMethodView>> {
    match spec_unresolved(pool, offset) {
        Err(e) => Err(e),
        Ok(unresolved) => spec_resolve_all(unresolved),
    }
}

/// Changing one state changes the count of untouched methods by what the
/// old and the new state count.
pub proof fn lemma_untouched_update(states: Seq<ResolvedState>, i: int, state: ResolvedState)
    requires
        0 <= i < states.len(),
    ensures
        untouched(states.update(i, state)) + (if states[i] == ResolvedState::Unresolved {
            1nat
        } else {
            0nat
        }) == untouched(states) + (if state == ResolvedState::Unresolved {
            1nat
        } else {
            0nat
        }),
    decreases states.len(),
{
    let changed = states.update(i, state);
    if i == states.len() - 1 {
        assert(changed.drop_last() =~= states.drop_last());
    } else {
        assert(changed.drop_last() =~= states.drop_last().update(i, state));
        lemma_untouched_update(states.drop_last(), i, state);
    }
}

/// No more methods are untouched than there are methods.
pub proof fn lemma_untouched_bound(states: Seq<ResolvedState>)
    ensures
        untouched(states) <= states.len(),
    decreases states.len(),
{
    if states.len() > 0 {
        lemma_untouched_bound(states.drop_last());
    }
}

/// The argument that the entry in slot `index` gives.
fn read_unresolved_argument(pool: &ConstantPool, index: u16) -> (r: ClassFileResult<UnresolvedArgument>)
    ensures
        crate::error::deep(r) == spec_unresolved_argument(pool@, index),
{
    reveal(spec_unresolved_argument);
    match pool.get(index)? {
        ConstantPoolEntry::Integer(v) => Ok(UnresolvedArgument::Integer(v)),
        ConstantPoolEntry::Float(v) => Ok(UnresolvedArgument::Float(v)),
        ConstantPoolEntry::Long(v) => Ok(UnresolvedArgument::Long(v)),
        ConstantPoolEntry::Double(v) => Ok(UnresolvedArgument::Double(v)),
        ConstantPoolEntry::String(v) => Ok(UnresolvedArgument::String(v)),
        ConstantPoolEntry::Class(v) => Ok(UnresolvedArgument::Class(v)),
        ConstantPoolEntry::MethodHandle(v) => Ok(UnresolvedArgument::Handle(v)),
        ConstantPoolEntry::Dynamic(v) => Ok(UnresolvedArgument::ConstantDynamic(v)),
        _ => Err(
            ClassFileError::BadConstantPoolTypeExpectedBootstrapMethodArgument(pool.get_type(index)?),
        ),
    }
}

/// Decodes the bootstrap method that starts at `offset`.
fn read_unresolved_method(pool: &ConstantPool, offset: usize) -> (r: ClassFileResult<
    (UnresolvedMethod, usize),
>)
    ensures
        crate::error::parsed(r) == spec_unresolved_method(pool@, offset as int),
        r is Ok ==> r->Ok_0.1 <= pool@.data.len() <= usize::MAX,
{
    let buffer = pool.buffer();
    let handle = pool.get_method_handle(buffer.read_u16(offset)?)?;
    let arg_count: u16 = buffer.read_u16(offset + 2)?;
    let mut args: Vec<UnresolvedArgument> = Vec::new();
    let mut at: usize = offset + 4;
    let mut i: u16 = 0;
    assert(args.deep_view() =~= Seq::empty());
    while i < arg_count
        invariant
            i <= arg_count,
            buffer@ == pool@.data,
            at <= pool@.data.len() <= usize::MAX,
            spec_unresolved_method(pool@, offset as int) == match spec_arguments_from(
                pool@,
                at as int,
                arg_count - i,
                args.deep_view(),
            ) {
                Err(e) => Err::<(UnresolvedMethodView, int), ClassFileError>(e),
                Ok(found) => Ok((UnresolvedMethodView { handle: handle.deep_view(), args: found.0 }, found.1)),
            },
        decreases arg_count - i,
    {
        let cp_index: u16 = buffer.read_u16(at)?;
        let arg = read_unresolved_argument(pool, cp_index)?;
        let ghost before = args.deep_view();
        let ghost added = arg.deep_view();
        args.push(arg);
        assert(args.deep_view() =~= before.push(added));
        at = at + 2;
        i = i + 1;
    }
    Ok((UnresolvedMethod { handle, args }, at))
}

/// Decodes the bootstrap methods of the attribute whose payload starts at
/// `offset`, or none for offset zero.
fn read_unresolved(pool: &ConstantPool, offset: usize) -> (r: ClassFileResult<Vec<UnresolvedMethod>>)
    ensures
        crate::error::deep(r) == spec_unresolved(pool@, offset as int),
        r is Ok ==> r->Ok_0@.len() <= 0xffff,
{
    let mut methods: Vec<UnresolvedMethod> = Vec::new();
    assert(methods.deep_view() =~= Seq::empty());
    if offset == 0 {
        return Ok(methods);
    }
    let bsm_count: u16 = pool.buffer().read_u16(offset)?;
    let mut at: usize = offset + 2;
    let mut i: u16 = 0;
    while i < bsm_count
        invariant
            i <= bsm_count,
            methods@.len() == i,
            offset != 0,
            at <= pool@.data.len() <= usize::MAX,
            spec_unresolved(pool@, offset as int) == spec_methods_from(
                pool@,
                at as int,
                bsm_count - i,
                methods.deep_view(),
            ),
        decreases bsm_count - i,
    {
        let (method, end) = read_unresolved_method(pool, at)?;
        let ghost before = methods.deep_view();
        let ghost added = method.deep_view();
        methods.push(method);
        assert(methods.deep_view() =~= before.push(added));
        at = end;
        i = i + 1;
    }
    Ok(methods)
}

/// Resolves the arguments of bootstrap method `i`, which is being resolved.
fn resolve_arguments(
    i: usize,
    unresolved: &Vec<UnresolvedMethod>,
    states: &mut Vec<ResolvedState>,
    resolved: &mut Vec<BootstrapMethod>,
    Ghost(fuel): Ghost<nat>,
) -> (r: ClassFileResult<Vec<BootstrapMethodArgument>>)
    requires
        i < unresolved@.len(),
        unresolved@.len() == old(states)@.len(),
        unresolved@.len() == old(resolved)@.len(),
        unresolved@.len() <= 0xffff,
        untouched(old(states)@) <= fuel,
    ensures
        final(states)@.len() == old(states)@.len(),
        final(resolved)@.len() == old(resolved)@.len(),
        untouched(final(states)@) <= untouched(old(states)@),
        r is Ok ==> spec_resolve_arguments(
            unresolved.deep_view(),
            unresolved.deep_view()[i as int].args,
            0,
            Resolution { states: old(states)@, resolved: old(resolved).deep_view() },
            Seq::empty(),
            fuel,
        ) == Ok::<(Seq<BootstrapMethodArgumentView>, Resolution), ClassFileError>(
            (
                arguments_view(r->Ok_0@),
                Resolution { states: final(states)@, resolved: final(resolved).deep_view() },
            ),
        ),
        r is Err ==> spec_resolve_arguments(
            unresolved.deep_view(),
            unresolved.deep_view()[i as int].args,
            0,
            Resolution { states: old(states)@, resolved: old(resolved).deep_view() },
            Seq::empty(),
            fuel,
        ) == Err::<(Seq<BootstrapMethodArgumentView>, Resolution), ClassFileError>(r->Err_0),
    decreases fuel, 1int, 0int,
{
    let ghost all = unresolved.deep_view();
    let ghost args = all[i as int].args;
    let ghost start = Resolution { states: states@, resolved: resolved.deep_view() };
    let mut found: Vec<BootstrapMethodArgument> = Vec::new();
    let count: usize = unresolved[i].args.len();
    let mut k: usize = 0;
    assert(arguments_view(found@) =~= Seq::empty());
    while k < count
        invariant
            i < unresolved@.len(),
            unresolved@.len() == states@.len(),
            unresolved@.len() == resolved@.len(),
            unresolved@.len() <= 0xffff,
            states@.len() == old(states)@.len(),
            resolved@.len() == old(resolved)@.len(),
            start == (Resolution { states: old(states)@, resolved: old(resolved).deep_view() }),
            all == unresolved.deep_view(),
            all.len() == unresolved@.len(),
            args == all[i as int].args,
            count == unresolved@[i as int].args@.len(),
            count == args.len(),
            k <= count,
            untouched(states@) <= untouched(start.states),
            untouched(start.states) <= fuel,
            spec_resolve_arguments(all, args, 0, start, Seq::empty(), fuel) == spec_resolve_arguments(
                all,
                args,
                k as int,
                Resolution { states: states@, resolved: resolved.deep_view() },
                arguments_view(found@),
                fuel,
            ),
        decreases count - k,
    {
        let ghost before = arguments_view(found@);
        assert(args[k as int] == unresolved@[i as int].args@[k as int].deep_view());
        let argument = match &unresolved[i].args[k] {
            UnresolvedArgument::Integer(v) => BootstrapMethodArgument::Integer(*v),
            UnresolvedArgument::Float(v) => BootstrapMethodArgument::Float(*v),
            UnresolvedArgument::Long(v) => BootstrapMethodArgument::Long(*v),
            UnresolvedArgument::Double(v) => BootstrapMethodArgument::Double(*v),
            UnresolvedArgument::String(v) => BootstrapMethodArgument::String(v.clone()),
            UnresolvedArgument::Class(v) => BootstrapMethodArgument::Class(v.clone()),
            UnresolvedArgument::Handle(v) => BootstrapMethodArgument::Handle(v.clone()),
            UnresolvedArgument::ConstantDynamic(d) => {
                let index: usize = d.bootstrap_method_attr_index as usize;
                if index >= unresolved.len() {
                    return Err(
                        ClassFileError::BootstrapMethodOutOfBounds {
                            index: d.bootstrap_method_attr_index,
                            len: unresolved.len() as u16,
                        },
                    );
                }
                resolve(index, unresolved, states, resolved, Ghost(fuel))?;
                let method = resolved[index].clone();
                let constant = ConstantDynamic {
                    name: d.name.clone(),
                    desc: d.desc.clone(),
                    bootstrap_method: method.handle,
                    bootstrap_method_arguments: method.args,
                };
                proof {
                    lemma_constant_dynamic_view(constant);
                }
                BootstrapMethodArgument::ConstantDynamic(constant)
            },
        };
        let ghost added = argument.deep_view();
        found.push(argument);
        assert(arguments_view(found@) =~= before.push(added));
        k = k + 1;
    }
    Ok(found)
}

/// Resolves bootstrap method `i`, and before it the methods that the
/// dynamic constants among its arguments name.
fn resolve(
    i: usize,
    unresolved: &Vec<UnresolvedMethod>,
    states: &mut Vec<ResolvedState>,
    resolved: &mut Vec<BootstrapMethod>,
    Ghost(fuel): Ghost<nat>,
) -> (r: ClassFileResult<()>)
    requires
        i < unresolved@.len(),
        unresolved@.len() == old(states)@.len(),
        unresolved@.len() == old(resolved)@.len(),
        unresolved@.len() <= 0xffff,
        untouched(old(states)@) <= fuel,
    ensures
        final(states)@.len() == old(states)@.len(),
        final(resolved)@.len() == old(resolved)@.len(),
        untouched(final(states)@) <= untouched(old(states)@),
        r is Ok ==> spec_resolve(
            unresolved.deep_view(),
            i as int,
            Resolution { states: old(states)@, resolved: old(resolved).deep_view() },
            fuel,
        ) == Ok::<Resolution, ClassFileError>(
            Resolution { states: final(states)@, resolved: final(resolved).deep_view() },
        ),
        r is Err ==> spec_resolve(
            unresolved.deep_view(),
            i as int,
            Resolution { states: old(states)@, resolved: old(resolved).deep_view() },
            fuel,
        ) == Err::<Resolution, ClassFileError>(r->Err_0),
    decreases fuel, 0int, 0int,
{
    match states[i] {
        ResolvedState::Resolved => {
            return Ok(());
        },
        ResolvedState::Resolving => {
            return Err(ClassFileError::BootstrapMethodCircularDependency);
        },
        ResolvedState::Unresolved => {},
    }
    proof {
        lemma_untouched_update(states@, i as int, ResolvedState::Resolving);
    }
    states[i] = ResolvedState::Resolving;
    let args = resolve_arguments(i, unresolved, states, resolved, Ghost((fuel - 1) as nat))?;
    let ghost before = resolved.deep_view();
    let method = BootstrapMethod { handle: unresolved[i].handle.clone(), args };
    let ghost added = method.deep_view();
    resolved[i] = method;
    assert(resolved.deep_view() =~= before.update(i as int, added));
    proof {
        lemma_untouched_update(states@, i as int, ResolvedState::Resolved);
    }
    states[i] = ResolvedState::Resolved;
    Ok(())
}

/// The entry of a method that is not yet resolved.
fn make_placeholder() -> (r: BootstrapMethod)
    ensures
        r.deep_view() == placeholder(),
{
    let method = BootstrapMethod {
        handle: Handle {
            kind: HandleKind::GetField,
            owner: JavaText::empty(),
            name: JavaText::empty(),
            desc: JavaText::empty(),
            is_interface: false,
        },
        args: Vec::new(),
    };
    assert(arguments_view(method.args@) =~= Seq::empty());
    method
}

/// Resolves every bootstrap method of `unresolved`.
pub(crate) fn resolve_all(unresolved: &Vec<UnresolvedMethod>) -> (r: ClassFileResult<Vec<BootstrapMethod>>)
    requires
        unresolved@.len() <= 0xffff,
    ensures
        crate::error::deep(r) == spec_resolve_all(unresolved.deep_view()),
{
    let count: usize = unresolved.len();
    let mut states: Vec<ResolvedState> = Vec::new();
    let mut resolved: Vec<BootstrapMethod> = Vec::new();
    let mut k: usize = 0;
    while k < count
        invariant
            k <= count,
            states@.len() == k,
            resolved@.len() == k,
            forall|j: int| 0 <= j < k ==> states@[j] == ResolvedState::Unresolved,
            forall|j: int| 0 <= j < k ==> (#[trigger] resolved@[j]).deep_view() == placeholder(),
        decreases count - k,
    {
        states.push(ResolvedState::Unresolved);
        resolved.push(make_placeholder());
        k = k + 1;
    }
    assert(states@ =~= Seq::new(unresolved.deep_view().len(), |k: int| ResolvedState::Unresolved));
    assert(resolved.deep_view() =~= Seq::new(unresolved.deep_view().len(), |k: int| placeholder()));
    let ghost all = unresolved.deep_view();
    let mut i: usize = 0;
    while i < count
        invariant
            i <= count,
            count == unresolved@.len(),
            count <= 0xffff,
            all == unresolved.deep_view(),
            states@.len() == count,
            resolved@.len() == count,
            spec_resolve_all(all) == match spec_resolve_from(
                all,
                i as int,
                Resolution { states: states@, resolved: resolved.deep_view() },
            ) {
                Err(e) => Err::<Seq<BootstrapMethodView>, ClassFileError>(e),
                Ok(done) => Ok(done.resolved),
            },
        decreases count - i,
    {
        proof {
            lemma_untouched_bound(states@);
        }
        resolve(i, unresolved, &mut states, &mut resolved, Ghost(count as nat))?;
        i = i + 1;
    }
    Ok(resolved)
}

/// Decodes and resolves the table of bootstrap methods of the attribute
/// whose payload starts at `offset`. Offset zero stands for a class without
/// the attribute: its table is empty.
pub fn compute(pool: &ConstantPool, offset: usize) -> (r: ClassFileResult<Vec<BootstrapMethod>>)
    ensures
        crate::error::deep(r) == spec_compute(pool@, offset as int),
{
    let unresolved = read_unresolved(pool, offset)?;
    resolve_all(&unresolved)
}

/// The bootstrap method that argument `k` of bootstrap method `a` names, if
/// that argument is a dynamic constant.
pub open spec fn spec_reference(unresolved: Seq<UnresolvedMethodView>, a: int, k: int) -> Option<u16> {
    match unresolved[a].args[k] {
        UnresolvedArgumentView::ConstantDynamic(entry) => Some(entry.bootstrap_method_attr_index),
        _ => None,
    }
}

/// Whether bootstrap method `a` has a dynamic constant among its arguments
/// that names bootstrap method `b`.
pub open spec fn spec_refers(unresolved: Seq<UnresolvedMethodView>, a: int, b: int) -> bool {
    &&& 0 <= a < unresolved.len()
    &&& exists|k: int|
        0 <= k < unresolved[a].args.len() && #[trigger] spec_reference(unresolved, a, k) == Some(b as u16)
            && 0 <= b <= 0xffff
}

/// Whether `path` goes round a circle: it comes back to where it started,
/// and each bootstrap method on it refers to the next.
pub open spec fn spec_is_circle(unresolved: Seq<UnresolvedMethodView>, path: Seq<int>) -> bool {
    &&& path.len() >= 2
    &&& path.first() == path.last()
    &&& forall|t: int| 0 <= t < path.len() - 1 ==> spec_refers(unresolved, #[trigger] path[t], path[t + 1])
}

/// Whether every dynamic constant among the arguments names a bootstrap
/// method that is there.
pub open spec fn spec_all_in_range(unresolved: Seq<UnresolvedMethodView>) -> bool {
    forall|a: int, k: int|
        0 <= a < unresolved.len() && 0 <= k < unresolved[a].args.len() && (#[trigger] spec_reference(
            unresolved,
            a,
            k,
        )) is Some ==> spec_reference(unresolved, a, k)->Some_0 < unresolved.len()
}

/// How deep dynamic constants nest in an argument.
pub open spec fn spec_argument_depth(argument: BootstrapMethodArgumentView) -> nat
    decreases argument, 0int,
{
    match argument {
        BootstrapMethodArgumentView::ConstantDynamic(constant) => 1 + spec_arguments_depth(
            constant.bootstrap_method_arguments,
        ),
        _ => 0,
    }
}

/// How deep dynamic constants nest in the deepest of some arguments.
pub open spec fn spec_arguments_depth(arguments: Seq<BootstrapMethodArgumentView>) -> nat
    decreases arguments, arguments.len(),
{
    if arguments.len() == 0 {
        0
    } else {
        let rest = spec_arguments_depth(arguments.drop_last());
        let last = spec_argument_depth(arguments.last());
        if last > rest {
            last
        } else {
            rest
        }
    }
}

/// Arguments nest at least as deep as each of them.
pub proof fn lemma_depth_of_one(arguments: Seq<BootstrapMethodArgumentView>, k: int)
    requires
        0 <= k < arguments.len(),
    ensures
        spec_arguments_depth(arguments) >= spec_argument_depth(arguments[k]),
    decreases arguments.len(),
{
    if k < arguments.len() - 1 {
        lemma_depth_of_one(arguments.drop_last(), k);
    }
}

/// Whether what is resolved is settled: a resolved bootstrap method refers
/// to resolved ones only, and nests deeper than each of them.
pub open spec fn spec_settled(unresolved: Seq<UnresolvedMethodView>, at: Resolution) -> bool {
    &&& at.states.len() == unresolved.len()
    &&& at.resolved.len() == unresolved.len()
    &&& forall|a: int, k: int|
        0 <= a < unresolved.len() && at.states[a] == ResolvedState::Resolved && 0 <= k
            < unresolved[a].args.len() && (#[trigger] spec_reference(unresolved, a, k)) is Some ==> {
            let b = spec_reference(unresolved, a, k)->Some_0 as int;
            &&& b < unresolved.len()
            &&& at.states[b] == ResolvedState::Resolved
            &&& spec_arguments_depth(at.resolved[a].args) > spec_arguments_depth(at.resolved[b].args)
        }
}

/// Whether `after` keeps what `before` had come to: what was resolved stays
/// as it was, and what was being resolved is still being resolved.
pub open spec fn spec_keeps(before: Resolution, after: Resolution) -> bool {
    &&& after.states.len() == before.states.len()
    &&& after.resolved.len() == before.resolved.len()
    &&& forall|a: int|
        0 <= a < before.states.len() && #[trigger] before.states[a] == ResolvedState::Resolved
            ==> after.states[a] == ResolvedState::Resolved && after.resolved[a] == before.resolved[a]
    &&& forall|a: int|
        0 <= a < before.states.len() && #[trigger] before.states[a] == ResolvedState::Resolving
            ==> after.states[a] == ResolvedState::Resolving
}

/// Whether the first `k` arguments of bootstrap method `owner` are resolved
/// into `found`: each dynamic constant among them names a resolved bootstrap
/// method and nests deeper than it.
pub open spec fn spec_arguments_settled(
    unresolved: Seq<UnresolvedMethodView>,
    owner: int,
    k: int,
    at: Resolution,
    found: Seq<BootstrapMethodArgumentView>,
) -> bool {
    &&& found.len() == k
    &&& forall|j: int|
        0 <= j < k && (#[trigger] spec_reference(unresolved, owner, j)) is Some ==> {
            let b = spec_reference(unresolved, owner, j)->Some_0 as int;
            &&& b < unresolved.len()
            &&& at.states[b] == ResolvedState::Resolved
            &&& spec_argument_depth(found[j]) > spec_arguments_depth(at.resolved[b].args)
        }
}

/// Resolving a bootstrap method keeps what is resolved settled, and leaves
/// the method resolved.
pub proof fn lemma_resolve_settles(unresolved: Seq<UnresolvedMethodView>, i: int, at: Resolution, fuel: nat)
    requires
        0 <= i < unresolved.len(),
        spec_settled(unresolved, at),
        spec_resolve(unresolved, i, at, fuel) is Ok,
    ensures
        spec_settled(unresolved, spec_resolve(unresolved, i, at, fuel)->Ok_0),
        spec_keeps(at, spec_resolve(unresolved, i, at, fuel)->Ok_0),
        spec_resolve(unresolved, i, at, fuel)->Ok_0.states[i] == ResolvedState::Resolved,
    decreases fuel, 0int, 0int,
{
    if at.states[i] != ResolvedState::Resolved {
        let begun = Resolution { states: at.states.update(i, ResolvedState::Resolving), resolved: at.resolved };
        assert(spec_settled(unresolved, begun)) by {
            assert forall|a: int, k: int|
                0 <= a < unresolved.len() && begun.states[a] == ResolvedState::Resolved && 0 <= k
                    < unresolved[a].args.len() && (#[trigger] spec_reference(unresolved, a, k)) is Some implies {
                let b = spec_reference(unresolved, a, k)->Some_0 as int;
                &&& b < unresolved.len()
                &&& begun.states[b] == ResolvedState::Resolved
                &&& spec_arguments_depth(begun.resolved[a].args) > spec_arguments_depth(begun.resolved[b].args)
            } by {
                assert(at.states[a] == ResolvedState::Resolved);
            }
        }
        lemma_arguments_settle(unresolved, i, 0, begun, Seq::empty(), (fuel - 1) as nat);
        let found = spec_resolve_arguments(
            unresolved,
            unresolved[i].args,
            0,
            begun,
            Seq::empty(),
            (fuel - 1) as nat,
        )->Ok_0;
        let done = spec_resolve(unresolved, i, at, fuel)->Ok_0;
        assert(found.1.states[i] == ResolvedState::Resolving) by {
            assert(begun.states[i] == ResolvedState::Resolving);
        }
        assert(spec_keeps(at, done)) by {
            assert forall|a: int|
                0 <= a < at.states.len() && #[trigger] at.states[a] == ResolvedState::Resolved implies done.states[a]
                == ResolvedState::Resolved && done.resolved[a] == at.resolved[a] by {
                assert(begun.states[a] == ResolvedState::Resolved);
            }
            assert forall|a: int|
                0 <= a < at.states.len() && #[trigger] at.states[a] == ResolvedState::Resolving implies done.states[a]
                == ResolvedState::Resolving by {
                assert(begun.states[a] == ResolvedState::Resolving);
            }
        }
        assert(spec_settled(unresolved, done)) by {
            assert forall|a: int, k: int|
                0 <= a < unresolved.len() && done.states[a] == ResolvedState::Resolved && 0 <= k
                    < unresolved[a].args.len() && (#[trigger] spec_reference(unresolved, a, k)) is Some implies {
                let b = spec_reference(unresolved, a, k)->Some_0 as int;
                &&& b < unresolved.len()
                &&& done.states[b] == ResolvedState::Resolved
                &&& spec_arguments_depth(done.resolved[a].args) > spec_arguments_depth(done.resolved[b].args)
            } by {
                let b = spec_reference(unresolved, a, k)->Some_0 as int;
                if a == i {
                    assert(found.1.states[b] == ResolvedState::Resolved);
                    assert(b != i);
                    lemma_depth_of_one(found.0, k);
                } else {
                    assert(found.1.states[a] == ResolvedState::Resolved);
                    assert(found.1.states[b] == ResolvedState::Resolved);
                    assert(b != i);
                }
            }
        }
    } else {
        assert(spec_keeps(at, at));
    }
}

/// Resolving the arguments of a bootstrap method that is being resolved
/// keeps what is resolved settled, and settles the arguments.
pub proof fn lemma_arguments_settle(
    unresolved: Seq<UnresolvedMethodView>,
    owner: int,
    k: int,
    at: Resolution,
    found: Seq<BootstrapMethodArgumentView>,
    fuel: nat,
)
    requires
        0 <= owner < unresolved.len(),
        0 <= k <= unresolved[owner].args.len(),
        spec_settled(unresolved, at),
        spec_arguments_settled(unresolved, owner, k, at, found),
        spec_resolve_arguments(unresolved, unresolved[owner].args, k, at, found, fuel) is Ok,
    ensures
        ({
            let out = spec_resolve_arguments(unresolved, unresolved[owner].args, k, at, found, fuel)->Ok_0;
            &&& spec_settled(unresolved, out.1)
            &&& spec_keeps(at, out.1)
            &&& spec_arguments_settled(unresolved, owner, unresolved[owner].args.len() as int, out.1, out.0)
        }),
    decreases fuel, 1int, unresolved[owner].args.len() - k,
{
    let args = unresolved[owner].args;
    if k < args.len() {
        match args[k] {
            UnresolvedArgumentView::ConstantDynamic(entry) => {
                let j = entry.bootstrap_method_attr_index as int;
                lemma_resolve_settles(unresolved, j, at, fuel);
                let next = spec_resolve(unresolved, j, at, fuel)->Ok_0;
                let added = spec_dynamic_argument(entry, next.resolved[j]);
                let more = found.push(added);
                assert(spec_arguments_settled(unresolved, owner, k + 1, next, more)) by {
                    assert forall|t: int|
                        0 <= t < k + 1 && (#[trigger] spec_reference(unresolved, owner, t)) is Some implies {
                        let b = spec_reference(unresolved, owner, t)->Some_0 as int;
                        &&& b < unresolved.len()
                        &&& next.states[b] == ResolvedState::Resolved
                        &&& spec_argument_depth(more[t]) > spec_arguments_depth(next.resolved[b].args)
                    } by {
                        let b = spec_reference(unresolved, owner, t)->Some_0 as int;
                        if t < k {
                            assert(at.states[b] == ResolvedState::Resolved);
                            assert(more[t] == found[t]);
                        }
                    }
                }
                lemma_arguments_settle(unresolved, owner, k + 1, next, more, fuel);
                let out = spec_resolve_arguments(unresolved, args, k + 1, next, more, fuel)->Ok_0;
                lemma_keeps_on(at, next, out.1);
            },
            plain => {
                let more = found.push(spec_plain_argument(plain));
                assert(spec_arguments_settled(unresolved, owner, k + 1, at, more)) by {
                    assert forall|t: int|
                        0 <= t < k + 1 && (#[trigger] spec_reference(unresolved, owner, t)) is Some implies {
                        let b = spec_reference(unresolved, owner, t)->Some_0 as int;
                        &&& b < unresolved.len()
                        &&& at.states[b] == ResolvedState::Resolved
                        &&& spec_argument_depth(more[t]) > spec_arguments_depth(at.resolved[b].args)
                    } by {
                        if t < k {
                            assert(more[t] == found[t]);
                        }
                    }
                }
                lemma_arguments_settle(unresolved, owner, k + 1, at, more, fuel);
            },
        }
    } else {
        assert(spec_keeps(at, at));
    }
}

/// What is kept over two stretches is kept over both.
pub proof fn lemma_keeps_on(first: Resolution, second: Resolution, third: Resolution)
    requires
        spec_keeps(first, second),
        spec_keeps(second, third),
    ensures
        spec_keeps(first, third),
{
    assert forall|a: int|
        0 <= a < first.states.len() && #[trigger] first.states[a] == ResolvedState::Resolved implies third.states[a]
        == ResolvedState::Resolved && third.resolved[a] == first.resolved[a] by {
        assert(second.states[a] == ResolvedState::Resolved);
    }
    assert forall|a: int|
        0 <= a < first.states.len() && #[trigger] first.states[a] == ResolvedState::Resolving implies third.states[a]
        == ResolvedState::Resolving by {
        assert(second.states[a] == ResolvedState::Resolving);
    }
}

/// Resolving the bootstrap methods one after the other leaves all of them
/// resolved and settled.
pub proof fn lemma_all_settle(unresolved: Seq<UnresolvedMethodView>, i: int, at: Resolution)
    requires
        0 <= i <= unresolved.len(),
        spec_settled(unresolved, at),
        forall|a: int| 0 <= a < i ==> #[trigger] at.states[a] == ResolvedState::Resolved,
        spec_resolve_from(unresolved, i, at) is Ok,
    ensures
        spec_settled(unresolved, spec_resolve_from(unresolved, i, at)->Ok_0),
        forall|a: int|
            0 <= a < unresolved.len() ==> #[trigger] spec_resolve_from(unresolved, i, at)->Ok_0.states[a]
                == ResolvedState::Resolved,
    decreases unresolved.len() - i,
{
    if i < unresolved.len() {
        lemma_resolve_settles(unresolved, i, at, unresolved.len());
        let next = spec_resolve(unresolved, i, at, unresolved.len())->Ok_0;
        assert forall|a: int| 0 <= a < i + 1 implies #[trigger] next.states[a] == ResolvedState::Resolved by {
            if a < i {
                assert(at.states[a] == ResolvedState::Resolved);
            }
        }
        lemma_all_settle(unresolved, i + 1, next);
    }
}

/// Along a path of references the bootstrap methods nest less and less
/// deep, where all are resolved and settled.
pub proof fn lemma_depth_along(unresolved: Seq<UnresolvedMethodView>, at: Resolution, path: Seq<int>, t: int)
    requires
        spec_settled(unresolved, at),
        forall|a: int| 0 <= a < unresolved.len() ==> #[trigger] at.states[a] == ResolvedState::Resolved,
        path.len() >= 1,
        0 <= t < path.len(),
        forall|s: int| 0 <= s < path.len() - 1 ==> spec_refers(unresolved, #[trigger] path[s], path[s + 1]),
        0 <= path[0] < unresolved.len(),
    ensures
        0 <= path[t] < unresolved.len(),
        spec_arguments_depth(at.resolved[path[0]].args) >= spec_arguments_depth(at.resolved[path[t]].args) + t,
    decreases t,
{
    if t > 0 {
        lemma_depth_along(unresolved, at, path, t - 1);
        let a = path[t - 1];
        assert(spec_refers(unresolved, a, path[t]));
        let k = choose|k: int|
            0 <= k < unresolved[a].args.len() && #[trigger] spec_reference(unresolved, a, k) == Some(
                path[t] as u16,
            ) && 0 <= path[t] <= 0xffff;
        assert(at.states[a] == ResolvedState::Resolved);
        assert(spec_reference(unresolved, a, k) is Some);
    }
}

/// Bootstrap methods that refer to one another round a circle are not
/// resolved: the resolution fails.
pub proof fn law_circle_fails(unresolved: Seq<UnresolvedMethodView>, path: Seq<int>)
    requires
        spec_is_circle(unresolved, path),
    ensures
        spec_resolve_all(unresolved) is Err,
{
    if spec_resolve_all(unresolved) is Ok {
        let start = Resolution {
            states: Seq::new(unresolved.len(), |k: int| ResolvedState::Unresolved),
            resolved: Seq::new(unresolved.len(), |k: int| placeholder()),
        };
        assert(spec_settled(unresolved, start));
        lemma_all_settle(unresolved, 0, start);
        let done = spec_resolve_from(unresolved, 0, start)->Ok_0;
        assert(spec_refers(unresolved, path[0], path[1]));
        lemma_depth_along(unresolved, done, path, path.len() - 1);
    }
}

/// Whether `e` is the error of a dynamic constant that names a bootstrap
/// method that is not there.
pub open spec fn spec_is_dangling(unresolved: Seq<UnresolvedMethodView>, e: ClassFileError) -> bool {
    &&& e matches ClassFileError::BootstrapMethodOutOfBounds { index, len }
    &&& index >= unresolved.len()
    &&& len == unresolved.len() as u16
    &&& exists|a: int, k: int|
        0 <= a < unresolved.len() && 0 <= k < unresolved[a].args.len() && #[trigger] spec_reference(
            unresolved,
            a,
            k,
        ) == Some(index)
}

/// The resolution of a bootstrap method fails only for a circle or for a
/// dynamic constant that names a bootstrap method that is not there.
pub proof fn lemma_resolve_errors(unresolved: Seq<UnresolvedMethodView>, i: int, at: Resolution, fuel: nat)
    requires
        0 <= i < unresolved.len(),
        spec_resolve(unresolved, i, at, fuel) is Err,
    ensures
        spec_resolve(unresolved, i, at, fuel)->Err_0 == ClassFileError::BootstrapMethodCircularDependency
            || spec_is_dangling(unresolved, spec_resolve(unresolved, i, at, fuel)->Err_0),
    decreases fuel, 0int, 0int,
{
    if at.states[i] != ResolvedState::Resolved && at.states[i] != ResolvedState::Resolving && fuel != 0 {
        lemma_arguments_errors(
            unresolved,
            i,
            0,
            Resolution { states: at.states.update(i, ResolvedState::Resolving), resolved: at.resolved },
            Seq::empty(),
            (fuel - 1) as nat,
        );
    }
}

/// The resolution of the arguments of a bootstrap method fails only for a
/// circle or for a dynamic constant that names a bootstrap method that is
/// not there.
pub proof fn lemma_arguments_errors(
    unresolved: Seq<UnresolvedMethodView>,
    owner: int,
    k: int,
    at: Resolution,
    found: Seq<BootstrapMethodArgumentView>,
    fuel: nat,
)
    requires
        0 <= owner < unresolved.len(),
        0 <= k,
        spec_resolve_arguments(unresolved, unresolved[owner].args, k, at, found, fuel) is Err,
    ensures
        ({
            let e = spec_resolve_arguments(unresolved, unresolved[owner].args, k, at, found, fuel)->Err_0;
            e == ClassFileError::BootstrapMethodCircularDependency || spec_is_dangling(unresolved, e)
        }),
    decreases fuel, 1int, unresolved[owner].args.len() - k,
{
    let args = unresolved[owner].args;
    if k < args.len() {
        match args[k] {
            UnresolvedArgumentView::ConstantDynamic(entry) => {
                let j = entry.bootstrap_method_attr_index;
                if j >= unresolved.len() {
                    assert(spec_reference(unresolved, owner, k) == Some(j));
                } else {
                    if spec_resolve(unresolved, j as int, at, fuel) is Err {
                        lemma_resolve_errors(unresolved, j as int, at, fuel);
                    } else {
                        let next = spec_resolve(unresolved, j as int, at, fuel)->Ok_0;
                        lemma_arguments_errors(
                            unresolved,
                            owner,
                            k + 1,
                            next,
                            found.push(spec_dynamic_argument(entry, next.resolved[j as int])),
                            fuel,
                        );
                    }
                }
            },
            plain => {
                lemma_arguments_errors(
                    unresolved,
                    owner,
                    k + 1,
                    at,
                    found.push(spec_plain_argument(plain)),
                    fuel,
                );
            },
        }
    }
}

/// The resolution of all bootstrap methods fails only for a circle or for a
/// dynamic constant that names a bootstrap method that is not there.
pub proof fn lemma_all_errors(unresolved: Seq<UnresolvedMethodView>, i: int, at: Resolution)
    requires
        0 <= i,
        spec_resolve_from(unresolved, i, at) is Err,
    ensures
        spec_resolve_from(unresolved, i, at)->Err_0 == ClassFileError::BootstrapMethodCircularDependency
            || spec_is_dangling(unresolved, spec_resolve_from(unresolved, i, at)->Err_0),
    decreases unresolved.len() - i,
{
    if i < unresolved.len() {
        if spec_resolve(unresolved, i, at, unresolved.len()) is Err {
            lemma_resolve_errors(unresolved, i, at, unresolved.len());
        } else {
            lemma_all_errors(unresolved, i + 1, spec_resolve(unresolved, i, at, unresolved.len())->Ok_0);
        }
    }
}

/// Where every dynamic constant names a bootstrap method that is there, and
/// bootstrap methods refer to one another round a circle, the resolution
/// fails with the error of the circle.
pub proof fn law_circle_gives_circular_dependency(unresolved: Seq<UnresolvedMethodView>, path: Seq<int>)
    requires
        spec_is_circle(unresolved, path),
        spec_all_in_range(unresolved),
    ensures
        spec_resolve_all(unresolved) == Err::<Seq<BootstrapMethodView>, ClassFileError>(
            ClassFileError::BootstrapMethodCircularDependency,
        ),
{
    law_circle_fails(unresolved, path);
    let start = Resolution {
        states: Seq::new(unresolved.len(), |k: int| ResolvedState::Unresolved),
        resolved: Seq::new(unresolved.len(), |k: int| placeholder()),
    };
    lemma_all_errors(unresolved, 0, start);
}


/// Whether `after` has the same bootstrap methods in the middle of their
/// resolution as `before`, and no more untouched ones.
pub open spec fn spec_same_stack(before: Resolution, after: Resolution) -> bool {
    &&& after.states.len() == before.states.len()
    &&& forall|a: int|
        0 <= a < before.states.len() ==> ((#[trigger] after.states[a]) == ResolvedState::Resolving
            <==> before.states[a] == ResolvedState::Resolving)
    &&& untouched(after.states) <= untouched(before.states)
}

/// A bootstrap method that is resolved leaves in the middle of their
/// resolution the methods that were there, and no others.
pub proof fn lemma_resolve_leaves_stack(unresolved: Seq<UnresolvedMethodView>, i: int, at: Resolution, fuel: nat)
    requires
        0 <= i < unresolved.len(),
        at.states.len() == unresolved.len(),
        spec_resolve(unresolved, i, at, fuel) is Ok,
    ensures
        spec_same_stack(at, spec_resolve(unresolved, i, at, fuel)->Ok_0),
    decreases fuel, 0int, 0int,
{
    if at.states[i] != ResolvedState::Resolved {
        let begun = Resolution { states: at.states.update(i, ResolvedState::Resolving), resolved: at.resolved };
        lemma_arguments_leave_stack(unresolved, i, 0, begun, Seq::empty(), (fuel - 1) as nat);
        let found = spec_resolve_arguments(
            unresolved,
            unresolved[i].args,
            0,
            begun,
            Seq::empty(),
            (fuel - 1) as nat,
        )->Ok_0;
        let done = spec_resolve(unresolved, i, at, fuel)->Ok_0;
        assert(begun.states[i] == ResolvedState::Resolving);
        assert(found.1.states[i] == ResolvedState::Resolving);
        lemma_untouched_update(at.states, i, ResolvedState::Resolving);
        lemma_untouched_update(found.1.states, i, ResolvedState::Resolved);
        assert forall|a: int| 0 <= a < at.states.len() implies ((#[trigger] done.states[a])
            == ResolvedState::Resolving <==> at.states[a] == ResolvedState::Resolving) by {
            if a != i {
                assert(done.states[a] == found.1.states[a]);
                assert(begun.states[a] == at.states[a]);
            }
        }
    }
}

/// The arguments of a bootstrap method that are resolved leave in the
/// middle of their resolution the methods that were there, and no others.
pub proof fn lemma_arguments_leave_stack(
    unresolved: Seq<UnresolvedMethodView>,
    owner: int,
    k: int,
    at: Resolution,
    found: Seq<BootstrapMethodArgumentView>,
    fuel: nat,
)
    requires
        0 <= owner < unresolved.len(),
        0 <= k,
        at.states.len() == unresolved.len(),
        spec_resolve_arguments(unresolved, unresolved[owner].args, k, at, found, fuel) is Ok,
    ensures
        spec_same_stack(
            at,
            spec_resolve_arguments(unresolved, unresolved[owner].args, k, at, found, fuel)->Ok_0.1,
        ),
    decreases fuel, 1int, unresolved[owner].args.len() - k,
{
    let args = unresolved[owner].args;
    if k < args.len() {
        match args[k] {
            UnresolvedArgumentView::ConstantDynamic(entry) => {
                let j = entry.bootstrap_method_attr_index;
                lemma_resolve_leaves_stack(unresolved, j as int, at, fuel);
                let next = spec_resolve(unresolved, j as int, at, fuel)->Ok_0;
                lemma_arguments_leave_stack(
                    unresolved,
                    owner,
                    k + 1,
                    next,
                    found.push(spec_dynamic_argument(entry, next.resolved[j as int])),
                    fuel,
                );
            },
            plain => {
                lemma_arguments_leave_stack(
                    unresolved,
                    owner,
                    k + 1,
                    at,
                    found.push(spec_plain_argument(plain)),
                    fuel,
                );
            },
        }
    }
}

/// Whether `stack` holds the bootstrap methods that are in the middle of
/// their resolution, from the one that was begun first to the one that was
/// begun last: each of them refers to the next, and no other method is in
/// the middle of its resolution.
pub open spec fn spec_stacked(unresolved: Seq<UnresolvedMethodView>, at: Resolution, stack: Seq<int>) -> bool {
    &&& at.states.len() == unresolved.len()
    &&& forall|a: int|
        0 <= a < unresolved.len() ==> ((#[trigger] at.states[a]) == ResolvedState::Resolving <==> stack.contains(
            a,
        ))
    &&& forall|t: int| 0 <= t < stack.len() - 1 ==> spec_refers(unresolved, #[trigger] stack[t], stack[t + 1])
}

/// Where the resolution of a bootstrap method fails with the error of the
/// circle, bootstrap methods refer to one another round a circle.
pub proof fn lemma_resolve_finds_circle(
    unresolved: Seq<UnresolvedMethodView>,
    i: int,
    at: Resolution,
    fuel: nat,
    stack: Seq<int>,
)
    requires
        0 <= i < unresolved.len(),
        unresolved.len() <= 0xffff,
        spec_stacked(unresolved, at, stack),
        stack.len() > 0 ==> spec_refers(unresolved, stack.last(), i),
        untouched(at.states) <= fuel,
        spec_resolve(unresolved, i, at, fuel) == Err::<Resolution, ClassFileError>(
            ClassFileError::BootstrapMethodCircularDependency,
        ),
    ensures
        exists|path: Seq<int>| spec_is_circle(unresolved, path),
    decreases fuel, 0int, 0int,
{
    if at.states[i] == ResolvedState::Resolving {
        assert(stack.contains(i));
        let t = choose|t: int| 0 <= t < stack.len() && stack[t] == i;
        let path = stack.subrange(t, stack.len() as int).push(i);
        assert forall|s: int| 0 <= s < path.len() - 1 implies spec_refers(unresolved, #[trigger] path[s], path[s + 1]) by {
            if s < path.len() - 2 {
                assert(path[s] == stack[t + s]);
                assert(path[s + 1] == stack[t + s + 1]);
            } else {
                assert(path[s] == stack.last());
            }
        }
        assert(spec_is_circle(unresolved, path));
    } else {
        lemma_untouched_update(at.states, i, ResolvedState::Resolving);
        let begun = Resolution { states: at.states.update(i, ResolvedState::Resolving), resolved: at.resolved };
        let deeper = stack.push(i);
        assert(spec_stacked(unresolved, begun, deeper)) by {
            assert forall|a: int| 0 <= a < unresolved.len() implies ((#[trigger] begun.states[a])
                == ResolvedState::Resolving <==> deeper.contains(a)) by {
                if a == i {
                    assert(deeper[stack.len() as int] == i);
                } else {
                    assert(begun.states[a] == at.states[a]);
                    if stack.contains(a) {
                        let t = choose|t: int| 0 <= t < stack.len() && stack[t] == a;
                        assert(deeper[t] == a);
                    }
                    if deeper.contains(a) {
                        let t = choose|t: int| 0 <= t < deeper.len() && deeper[t] == a;
                        assert(stack[t] == a);
                    }
                }
            }
            assert forall|t: int| 0 <= t < deeper.len() - 1 implies spec_refers(
                unresolved,
                #[trigger] deeper[t],
                deeper[t + 1],
            ) by {
                if t < stack.len() - 1 {
                    assert(deeper[t] == stack[t]);
                    assert(deeper[t + 1] == stack[t + 1]);
                } else {
                    assert(deeper[t] == stack.last());
                }
            }
        }
        lemma_arguments_find_circle(unresolved, i, 0, begun, Seq::empty(), (fuel - 1) as nat, deeper);
    }
}

/// Where the resolution of the arguments of a bootstrap method fails with
/// the error of the circle, bootstrap methods refer to one another round a
/// circle.
pub proof fn lemma_arguments_find_circle(
    unresolved: Seq<UnresolvedMethodView>,
    owner: int,
    k: int,
    at: Resolution,
    found: Seq<BootstrapMethodArgumentView>,
    fuel: nat,
    stack: Seq<int>,
)
    requires
        0 <= owner < unresolved.len(),
        unresolved.len() <= 0xffff,
        0 <= k,
        spec_stacked(unresolved, at, stack),
        stack.len() > 0,
        stack.last() == owner,
        untouched(at.states) <= fuel,
        spec_resolve_arguments(unresolved, unresolved[owner].args, k, at, found, fuel) == Err::<
            (Seq<BootstrapMethodArgumentView>, Resolution),
            ClassFileError,
        >(ClassFileError::BootstrapMethodCircularDependency),
    ensures
        exists|path: Seq<int>| spec_is_circle(unresolved, path),
    decreases fuel, 1int, unresolved[owner].args.len() - k,
{
    let args = unresolved[owner].args;
    if k < args.len() {
        match args[k] {
            UnresolvedArgumentView::ConstantDynamic(entry) => {
                let j = entry.bootstrap_method_attr_index;
                if spec_resolve(unresolved, j as int, at, fuel) is Err {
                    assert(spec_reference(unresolved, owner, k) == Some(j));
                    assert(spec_refers(unresolved, owner, j as int));
                    lemma_resolve_finds_circle(unresolved, j as int, at, fuel, stack);
                } else {
                    let next = spec_resolve(unresolved, j as int, at, fuel)->Ok_0;
                    lemma_resolve_leaves_stack(unresolved, j as int, at, fuel);
                    assert(spec_stacked(unresolved, next, stack));
                    lemma_arguments_find_circle(
                        unresolved,
                        owner,
                        k + 1,
                        next,
                        found.push(spec_dynamic_argument(entry, next.resolved[j as int])),
                        fuel,
                        stack,
                    );
                }
            },
            plain => {
                lemma_arguments_find_circle(
                    unresolved,
                    owner,
                    k + 1,
                    at,
                    found.push(spec_plain_argument(plain)),
                    fuel,
                    stack,
                );
            },
        }
    }
}

/// Where the resolution of all bootstrap methods fails with the error of
/// the circle, bootstrap methods refer to one another round a circle.
pub proof fn lemma_all_find_circle(unresolved: Seq<UnresolvedMethodView>, i: int, at: Resolution)
    requires
        0 <= i,
        unresolved.len() <= 0xffff,
        spec_stacked(unresolved, at, Seq::empty()),
        spec_resolve_from(unresolved, i, at) == Err::<Resolution, ClassFileError>(
            ClassFileError::BootstrapMethodCircularDependency,
        ),
    ensures
        exists|path: Seq<int>| spec_is_circle(unresolved, path),
    decreases unresolved.len() - i,
{
    if i < unresolved.len() {
        lemma_untouched_bound(at.states);
        if spec_resolve(unresolved, i, at, unresolved.len()) is Err {
            lemma_resolve_finds_circle(unresolved, i, at, unresolved.len(), Seq::empty());
        } else {
            let next = spec_resolve(unresolved, i, at, unresolved.len())->Ok_0;
            lemma_resolve_leaves_stack(unresolved, i, at, unresolved.len());
            assert(spec_stacked(unresolved, next, Seq::empty()));
            lemma_all_find_circle(unresolved, i + 1, next);
        }
    }
}

/// The resolution fails with the error of the circle only where bootstrap
/// methods refer to one another round a circle.
pub proof fn law_circular_dependency_comes_of_a_circle(unresolved: Seq<UnresolvedMethodView>)
    requires
        unresolved.len() <= 0xffff,
        spec_resolve_all(unresolved) == Err::<Seq<BootstrapMethodView>, ClassFileError>(
            ClassFileError::BootstrapMethodCircularDependency,
        ),
    ensures
        exists|path: Seq<int>| spec_is_circle(unresolved, path),
{
    let start = Resolution {
        states: Seq::new(unresolved.len(), |k: int| ResolvedState::Unresolved),
        resolved: Seq::new(unresolved.len(), |k: int| placeholder()),
    };
    assert(spec_stacked(unresolved, start, Seq::empty()));
    lemma_all_find_circle(unresolved, 0, start);
}

/// Whether what is resolved has its handle: the states and the entries are
/// as many as the bootstrap methods, and the entry of a resolved bootstrap
/// method has the handle of that method.
pub open spec fn spec_handles_kept(unresolved: Seq<UnresolvedMethodView>, at: Resolution) -> bool {
    &&& at.states.len() == unresolved.len()
    &&& at.resolved.len() == unresolved.len()
    &&& forall|a: int|
        0 <= a < unresolved.len() && #[trigger] at.states[a] == ResolvedState::Resolved ==> at.resolved[a].handle
            == unresolved[a].handle
}

/// Whether every bootstrap method that is resolved in `before` is resolved
/// in `after`.
pub open spec fn spec_stays_resolved(before: Resolution, after: Resolution) -> bool {
    forall|a: int|
        0 <= a < before.states.len() && #[trigger] before.states[a] == ResolvedState::Resolved ==> a
            < after.states.len() && after.states[a] == ResolvedState::Resolved
}

/// Resolving a bootstrap method leaves each resolved method with its
/// handle, and the method resolved.
pub proof fn lemma_resolve_keeps_handles(unresolved: Seq<UnresolvedMethodView>, i: int, at: Resolution, fuel: nat)
    requires
        0 <= i < unresolved.len(),
        spec_handles_kept(unresolved, at),
        spec_resolve(unresolved, i, at, fuel) is Ok,
    ensures
        spec_handles_kept(unresolved, spec_resolve(unresolved, i, at, fuel)->Ok_0),
        spec_stays_resolved(at, spec_resolve(unresolved, i, at, fuel)->Ok_0),
        spec_resolve(unresolved, i, at, fuel)->Ok_0.states[i] == ResolvedState::Resolved,
    decreases fuel, 0int, 0int,
{
    if at.states[i] != ResolvedState::Resolved {
        let begun = Resolution { states: at.states.update(i, ResolvedState::Resolving), resolved: at.resolved };
        assert(spec_handles_kept(unresolved, begun)) by {
            assert forall|a: int|
                0 <= a < unresolved.len() && #[trigger] begun.states[a] == ResolvedState::Resolved implies
                begun.resolved[a].handle == unresolved[a].handle by {
                assert(at.states[a] == ResolvedState::Resolved);
            }
        }
        lemma_arguments_keep_handles(unresolved, i, 0, begun, Seq::empty(), (fuel - 1) as nat);
        let found = spec_resolve_arguments(
            unresolved,
            unresolved[i].args,
            0,
            begun,
            Seq::empty(),
            (fuel - 1) as nat,
        )->Ok_0;
        let done = spec_resolve(unresolved, i, at, fuel)->Ok_0;
        assert forall|a: int|
            0 <= a < unresolved.len() && #[trigger] done.states[a] == ResolvedState::Resolved implies
            done.resolved[a].handle == unresolved[a].handle by {
            if a != i {
                assert(found.1.states[a] == ResolvedState::Resolved);
            }
        }
        assert forall|a: int|
            0 <= a < at.states.len() && #[trigger] at.states[a] == ResolvedState::Resolved implies a
            < done.states.len() && done.states[a] == ResolvedState::Resolved by {
            assert(begun.states[a] == ResolvedState::Resolved);
        }
    }
}

/// Resolving the arguments of a bootstrap method leaves each resolved method
/// with its handle.
pub proof fn lemma_arguments_keep_handles(
    unresolved: Seq<UnresolvedMethodView>,
    owner: int,
    k: int,
    at: Resolution,
    found: Seq<BootstrapMethodArgumentView>,
    fuel: nat,
)
    requires
        0 <= owner < unresolved.len(),
        0 <= k,
        spec_handles_kept(unresolved, at),
        spec_resolve_arguments(unresolved, unresolved[owner].args, k, at, found, fuel) is Ok,
    ensures
        spec_handles_kept(
            unresolved,
            spec_resolve_arguments(unresolved, unresolved[owner].args, k, at, found, fuel)->Ok_0.1,
        ),
        spec_stays_resolved(
            at,
            spec_resolve_arguments(unresolved, unresolved[owner].args, k, at, found, fuel)->Ok_0.1,
        ),
    decreases fuel, 1int, unresolved[owner].args.len() - k,
{
    let args = unresolved[owner].args;
    if k < args.len() {
        match args[k] {
            UnresolvedArgumentView::ConstantDynamic(entry) => {
                let j = entry.bootstrap_method_attr_index;
                lemma_resolve_keeps_handles(unresolved, j as int, at, fuel);
                let next = spec_resolve(unresolved, j as int, at, fuel)->Ok_0;
                lemma_arguments_keep_handles(
                    unresolved,
                    owner,
                    k + 1,
                    next,
                    found.push(spec_dynamic_argument(entry, next.resolved[j as int])),
                    fuel,
                );
                let last = spec_resolve_arguments(unresolved, args, k, at, found, fuel)->Ok_0.1;
                assert forall|a: int|
                    0 <= a < at.states.len() && #[trigger] at.states[a] == ResolvedState::Resolved implies a
                    < last.states.len() && last.states[a] == ResolvedState::Resolved by {
                    assert(next.states[a] == ResolvedState::Resolved);
                }
            },
            plain => {
                lemma_arguments_keep_handles(
                    unresolved,
                    owner,
                    k + 1,
                    at,
                    found.push(spec_plain_argument(plain)),
                    fuel,
                );
            },
        }
    }
}

/// Resolving the bootstrap methods from the one with index `i` on leaves
/// each method resolved and with its handle.
pub proof fn lemma_all_keep_handles(unresolved: Seq<UnresolvedMethodView>, i: int, at: Resolution)
    requires
        0 <= i,
        spec_handles_kept(unresolved, at),
        forall|a: int| 0 <= a < i && a < unresolved.len() ==> #[trigger] at.states[a] == ResolvedState::Resolved,
        spec_resolve_from(unresolved, i, at) is Ok,
    ensures
        spec_handles_kept(unresolved, spec_resolve_from(unresolved, i, at)->Ok_0),
        forall|a: int|
            0 <= a < unresolved.len() ==> #[trigger] spec_resolve_from(unresolved, i, at)->Ok_0.states[a]
                == ResolvedState::Resolved,
    decreases unresolved.len() - i,
{
    if i < unresolved.len() {
        lemma_resolve_keeps_handles(unresolved, i, at, unresolved.len());
        let next = spec_resolve(unresolved, i, at, unresolved.len())->Ok_0;
        assert forall|a: int| 0 <= a < i + 1 && a < unresolved.len() implies #[trigger] next.states[a]
            == ResolvedState::Resolved by {
            if a < i {
                assert(at.states[a] == ResolvedState::Resolved);
            }
        }
        lemma_all_keep_handles(unresolved, i + 1, next);
    }
}

/// The table of resolved bootstrap methods has an entry for each bootstrap
/// method of the attribute, in their order: entry `i` has the handle of
/// bootstrap method `i`.
pub proof fn law_resolved_table_keeps_the_handles(unresolved: Seq<UnresolvedMethodView>)
    requires
        spec_resolve_all(unresolved) is Ok,
    ensures
        spec_resolve_all(unresolved)->Ok_0.len() == unresolved.len(),
        forall|i: int|
            0 <= i < unresolved.len() ==> (#[trigger] spec_resolve_all(unresolved)->Ok_0[i]).handle
                == unresolved[i].handle,
{
    let start = Resolution {
        states: Seq::new(unresolved.len(), |k: int| ResolvedState::Unresolved),
        resolved: Seq::new(unresolved.len(), |k: int| placeholder()),
    };
    lemma_all_keep_handles(unresolved, 0, start);
    let done = spec_resolve_from(unresolved, 0, start)->Ok_0;
    assert forall|i: int| 0 <= i < unresolved.len() implies (#[trigger] spec_resolve_all(unresolved)->Ok_0[i]).handle
        == unresolved[i].handle by {
        assert(done.states[i] == ResolvedState::Resolved);
    }
}

/// Bootstrap methods that do not refer to one another round a circle, and
/// whose dynamic constants all name a bootstrap method that is there, are
/// resolved: the table has an entry for each of them, and entry `i` has the
/// handle of bootstrap method `i`.
pub proof fn law_without_circle_all_are_resolved(unresolved: Seq<UnresolvedMethodView>)
    requires
        unresolved.len() <= 0xffff,
        spec_all_in_range(unresolved),
        forall|path: Seq<int>| !spec_is_circle(unresolved, path),
    ensures
        spec_resolve_all(unresolved) is Ok,
        spec_resolve_all(unresolved)->Ok_0.len() == unresolved.len(),
        forall|i: int|
            0 <= i < unresolved.len() ==> (#[trigger] spec_resolve_all(unresolved)->Ok_0[i]).handle
                == unresolved[i].handle,
{
    let start = Resolution {
        states: Seq::new(unresolved.len(), |k: int| ResolvedState::Unresolved),
        resolved: Seq::new(unresolved.len(), |k: int| placeholder()),
    };
    if spec_resolve_from(unresolved, 0, start) is Err {
        lemma_all_errors(unresolved, 0, start);
        let e = spec_resolve_from(unresolved, 0, start)->Err_0;
        if e == ClassFileError::BootstrapMethodCircularDependency {
            law_circular_dependency_comes_of_a_circle(unresolved);
        }
    }
    law_resolved_table_keeps_the_handles(unresolved);
}
} // verus!
