//! The events of a module: what its `Module` attribute declares, with its
//! main class and its packages.

use crate::access::{ModuleRelationAccess, ModuleRequireAccess};
use crate::buffer::{spec_advance, spec_read_u16};
use crate::class_reader::ClassReader;
use crate::constant_pool::{
    spec_name_at, spec_names_from, spec_optional_utf8_at, ConstantPool, ConstantPoolTag, Pool,
};
use crate::error::{ended, parsed, yielded, ClassFileError, ClassFileResult};
use crate::events::{
    ModuleEvent, ModuleEventView, ModuleProvidesEvent, ModuleProvidesEventView, ModuleRelationEvent,
    ModuleRelationEventView, ModuleRequireEvent, ModuleRequireEventView,
};
use crate::readers::{ClassesReaderIterator, PackagesReaderIterator};
use crate::text::JavaText;
use vstd::prelude::*;

verus! {

/// The dependence that starts at `offset`: the slot of the module, the flags
/// and the slot of the version, which may be zero.
pub open spec fn spec_require(pool: Pool, offset: int) -> ClassFileResult<(ModuleRequireEventView, int)> {
    match spec_name_at(pool, offset, ConstantPoolTag::Module) {
        Err(e) => Err(e),
        Ok(module) => match spec_read_u16(pool.data, offset + 2) {
            Err(e) => Err(e),
            Ok(bits) => match spec_optional_utf8_at(pool, offset + 4) {
                Err(e) => Err(e),
                Ok(version) => Ok(
                    (
                        ModuleRequireEventView { module, access: ModuleRequireAccess { bits }, version },
                        offset + 6,
                    ),
                ),
            },
        },
    }
}

/// The export or opening that starts at `offset`: the slot of the package,
/// the flags, and the counted list of the modules that it is meant for.
pub open spec fn spec_relation(pool: Pool, offset: int) -> ClassFileResult<(ModuleRelationEventView, int)> {
    match spec_name_at(pool, offset, ConstantPoolTag::Package) {
        Err(e) => Err(e),
        Ok(package) => match spec_read_u16(pool.data, offset + 2) {
            Err(e) => Err(e),
            Ok(bits) => match spec_read_u16(pool.data, offset + 4) {
                Err(e) => Err(e),
                Ok(count) => match spec_names_from(
                    pool,
                    offset + 6,
                    count as int,
                    ConstantPoolTag::Module,
                    Seq::empty(),
                ) {
                    Err(e) => Err(e),
                    Ok(found) => Ok(
                        (
                            ModuleRelationEventView {
                                package,
                                access: ModuleRelationAccess { bits },
                                modules: found.0,
                            },
                            found.1,
                        ),
                    ),
                },
            },
        },
    }
}

/// The provision that starts at `offset`: the slot of the service, and the
/// counted list of the classes that provide it.
pub open spec fn spec_provides(pool: Pool, offset: int) -> ClassFileResult<(ModuleProvidesEventView, int)> {
    match spec_name_at(pool, offset, ConstantPoolTag::Class) {
        Err(e) => Err(e),
        Ok(service) => match spec_read_u16(pool.data, offset + 2) {
            Err(e) => Err(e),
            Ok(count) => match spec_names_from(
                pool,
                offset + 4,
                count as int,
                ConstantPoolTag::Class,
                Seq::empty(),
            ) {
                Err(e) => Err(e),
                Ok(found) => Ok((ModuleProvidesEventView { service, providers: found.0 }, found.1)),
            },
        },
    }
}

/// Decodes the dependence that starts at `offset`.
pub fn read_require(reader: &ClassReader, offset: usize) -> (r: ClassFileResult<(ModuleRequireEvent, usize)>)
    ensures
        parsed(r) == spec_require(reader@.pool, offset as int),
{
    let pool = reader.constant_pool();
    let module = pool.name_at(offset, ConstantPoolTag::Module)?;
    let access = ModuleRequireAccess::from_bits_retain(pool.buffer().read_u16(offset + 2)?);
    let version = pool.optional_utf8_at(offset + 4)?;
    Ok((ModuleRequireEvent { module, access, version }, offset + 6))
}

/// Decodes the export or opening that starts at `offset`.
pub fn read_relation(reader: &ClassReader, offset: usize) -> (r: ClassFileResult<
    (ModuleRelationEvent, usize),
>)
    ensures
        parsed(r) == spec_relation(reader@.pool, offset as int),
{
    let pool = reader.constant_pool();
    let package = pool.name_at(offset, ConstantPoolTag::Package)?;
    let access = ModuleRelationAccess::from_bits_retain(pool.buffer().read_u16(offset + 2)?);
    let module_count: u16 = pool.buffer().read_u16(offset + 4)?;
    let (modules, end) = pool.names_from(offset + 6, module_count, ConstantPoolTag::Module)?;
    Ok((ModuleRelationEvent { package, access, modules }, end))
}

/// Decodes the provision that starts at `offset`.
pub fn read_provides(reader: &ClassReader, offset: usize) -> (r: ClassFileResult<
    (ModuleProvidesEvent, usize),
>)
    ensures
        parsed(r) == spec_provides(reader@.pool, offset as int),
{
    let pool = reader.constant_pool();
    let service = pool.name_at(offset, ConstantPoolTag::Class)?;
    let provider_count: u16 = pool.buffer().read_u16(offset + 2)?;
    let (providers, end) = pool.names_from(offset + 4, provider_count, ConstantPoolTag::Class)?;
    Ok((ModuleProvidesEvent { service, providers }, end))
}

/// Walks the modules that a module requires.
#[derive(Debug, Copy, Clone)]
pub struct ModuleRequireReaderIterator<'reader, 'class> {
    pub reader: &'reader ClassReader<'class>,
    /// The number of items of the list.
    pub count: u16,
    /// The number of items that are still to come.
    pub remaining: u16,
    /// Where the next item starts.
    pub offset: usize,
}

impl<'reader, 'class> ModuleRequireReaderIterator<'reader, 'class> {
    /// A reader of the `count` items that start at `offset`.
    pub fn new(reader: &'reader ClassReader<'class>, count: u16, offset: usize) -> (r: Self)
        ensures
            r == (Self { reader, count, remaining: count, offset }),
    {
        Self { reader, count, remaining: count, offset }
    }

    /// The next item, or nothing behind the last one. An item that
    /// fails to decode counts as read, and leaves the reader where it stood.
    pub fn next(&mut self) -> (r: Option<ClassFileResult<ModuleRequireEvent>>)
        ensures
            final(self).reader == old(self).reader,
            final(self).count == old(self).count,
            old(self).remaining == 0 ==> r is None && *final(self) == *old(self),
            old(self).remaining > 0 ==> r is Some && final(self).remaining == old(self).remaining - 1
                && ended(r->Some_0, final(self).offset) == spec_require(old(self).reader@.pool, old(self).offset as int)
                && (r->Some_0 is Err ==> final(self).offset == old(self).offset),
    {
        if self.remaining == 0 {
            return None;
        }
        self.remaining = self.remaining - 1;
        match read_require(self.reader, self.offset) {
            Ok((item, end)) => {
                self.offset = end;
                Some(Ok(item))
            },
            Err(e) => Some(Err(e)),
        }
    }

    /// The number of items of the list.
    pub fn len(&self) -> (n: usize)
        ensures
            n == self.count,
    {
        self.count as usize
    }
}

/// Walks the packages that a module exports, or those that it opens.
#[derive(Debug, Copy, Clone)]
pub struct ModuleRelationReaderIterator<'reader, 'class> {
    pub reader: &'reader ClassReader<'class>,
    /// The number of items of the list.
    pub count: u16,
    /// The number of items that are still to come.
    pub remaining: u16,
    /// Where the next item starts.
    pub offset: usize,
}

impl<'reader, 'class> ModuleRelationReaderIterator<'reader, 'class> {
    /// A reader of the `count` items that start at `offset`.
    pub fn new(reader: &'reader ClassReader<'class>, count: u16, offset: usize) -> (r: Self)
        ensures
            r == (Self { reader, count, remaining: count, offset }),
    {
        Self { reader, count, remaining: count, offset }
    }

    /// The next item, or nothing behind the last one. An item that
    /// fails to decode counts as read, and leaves the reader where it stood.
    pub fn next(&mut self) -> (r: Option<ClassFileResult<ModuleRelationEvent>>)
        ensures
            final(self).reader == old(self).reader,
            final(self).count == old(self).count,
            old(self).remaining == 0 ==> r is None && *final(self) == *old(self),
            old(self).remaining > 0 ==> r is Some && final(self).remaining == old(self).remaining - 1
                && ended(r->Some_0, final(self).offset) == spec_relation(old(self).reader@.pool, old(self).offset as int)
                && (r->Some_0 is Err ==> final(self).offset == old(self).offset),
    {
        if self.remaining == 0 {
            return None;
        }
        self.remaining = self.remaining - 1;
        match read_relation(self.reader, self.offset) {
            Ok((item, end)) => {
                self.offset = end;
                Some(Ok(item))
            },
            Err(e) => Some(Err(e)),
        }
    }

    /// The number of items of the list.
    pub fn len(&self) -> (n: usize)
        ensures
            n == self.count,
    {
        self.count as usize
    }
}

/// Walks the services that a module provides.
#[derive(Debug, Copy, Clone)]
pub struct ModuleProvidesReaderIterator<'reader, 'class> {
    pub reader: &'reader ClassReader<'class>,
    /// The number of items of the list.
    pub count: u16,
    /// The number of items that are still to come.
    pub remaining: u16,
    /// Where the next item starts.
    pub offset: usize,
}

impl<'reader, 'class> ModuleProvidesReaderIterator<'reader, 'class> {
    /// A reader of the `count` items that start at `offset`.
    pub fn new(reader: &'reader ClassReader<'class>, count: u16, offset: usize) -> (r: Self)
        ensures
            r == (Self { reader, count, remaining: count, offset }),
    {
        Self { reader, count, remaining: count, offset }
    }

    /// The next item, or nothing behind the last one. An item that
    /// fails to decode counts as read, and leaves the reader where it stood.
    pub fn next(&mut self) -> (r: Option<ClassFileResult<ModuleProvidesEvent>>)
        ensures
            final(self).reader == old(self).reader,
            final(self).count == old(self).count,
            old(self).remaining == 0 ==> r is None && *final(self) == *old(self),
            old(self).remaining > 0 ==> r is Some && final(self).remaining == old(self).remaining - 1
                && ended(r->Some_0, final(self).offset) == spec_provides(old(self).reader@.pool, old(self).offset as int)
                && (r->Some_0 is Err ==> final(self).offset == old(self).offset),
    {
        if self.remaining == 0 {
            return None;
        }
        self.remaining = self.remaining - 1;
        match read_provides(self.reader, self.offset) {
            Ok((item, end)) => {
                self.offset = end;
                Some(Ok(item))
            },
            Err(e) => Some(Err(e)),
        }
    }

    /// The number of items of the list.
    pub fn len(&self) -> (n: usize)
        ensures
            n == self.count,
    {
        self.count as usize
    }
}

/// The events of a module.
#[derive(Debug, Copy, Clone)]
pub struct ModuleReaderEvents<'reader, 'class> {
    pub reader: &'reader ClassReader<'class>,
    /// Where the next table of the `Module` attribute starts.
    pub offset: usize,
    /// Where the payload of `ModulePackages` starts, or zero.
    pub packages_offset: usize,
    /// Where the payload of `ModuleMainClass` starts, or zero.
    pub main_offset: usize,
    /// The number of the next step.
    pub state: u8,
}

/// The offset behind the `remaining` exports or openings that start at
/// `offset`: each has four bytes, then the number of its modules in two, and
/// two bytes for each module.
pub open spec fn spec_skip_relations(data: Seq<u8>, offset: usize, remaining: int) -> ClassFileResult<usize>
    decreases remaining,
{
    if remaining <= 0 {
        Ok(offset)
    } else {
        match spec_read_u16(data, spec_advance(offset as int, 4) as int) {
            Err(e) => Err(e),
            Ok(count) => spec_skip_relations(data, spec_advance(offset + 4, 2 + 2 * count), remaining - 1),
        }
    }
}

/// What a table yields whose items have `width` bytes each: nothing where
/// the table is empty, else the number of items and the offset of the first.
/// Either way the offset behind the table comes with it.
pub open spec fn spec_table(data: Seq<u8>, offset: usize, width: int) -> ClassFileResult<
    (Option<(u16, usize)>, usize),
> {
    match spec_read_u16(data, offset as int) {
        Err(e) => Err(e),
        Ok(count) => if count == 0 {
            Ok((None, (offset + 2) as usize))
        } else {
            Ok((Some((count, (offset + 2) as usize)), spec_advance(offset + 2, width * count)))
        },
    }
}

/// What the table of exports or of openings at `offset` yields, as
/// `spec_table` does for a table of items of one width.
pub open spec fn spec_relations(data: Seq<u8>, offset: usize) -> ClassFileResult<
    (Option<(u16, usize)>, usize),
> {
    match spec_read_u16(data, offset as int) {
        Err(e) => Err(e),
        Ok(count) => if count == 0 {
            Ok((None, (offset + 2) as usize))
        } else {
            match spec_skip_relations(data, (offset + 2) as usize, count as int) {
                Err(e) => Err(e),
                Ok(end) => Ok((Some((count, (offset + 2) as usize)), end)),
            }
        },
    }
}

/// What a step yields that reads a table: nothing for an empty table, the
/// event that `wrap` makes of the table, or the error of reading it; and
/// where the events stand afterwards. After an error they stand where they
/// stood.
pub open spec fn spec_table_step<'reader, 'class>(
    table: ClassFileResult<(Option<(u16, usize)>, usize)>,
    wrap: spec_fn(u16, usize) -> ModuleEventView<'reader, 'class>,
    offset: usize,
) -> (Option<ClassFileResult<ModuleEventView<'reader, 'class>>>, usize) {
    match table {
        Err(e) => (Some(Err(e)), offset),
        Ok(found) => match found.0 {
            None => (None, found.1),
            Some(items) => (Some(Ok(wrap(items.0, items.1))), found.1),
        },
    }
}

/// What step `state` of the events of a module yields, if anything, and the
/// offset at which the events stand afterwards. The steps are: the main
/// class, the packages, and the five tables of the `Module` attribute in
/// their order: requires, exports, opens, uses, provides. A table without
/// items yields nothing.
pub open spec fn spec_module_step<'reader, 'class>(events: ModuleReaderEvents<'reader, 'class>, state: u8) -> (
    Option<ClassFileResult<ModuleEventView<'reader, 'class>>>,
    usize,
) {
    let reader = events.reader;
    let pool = reader@.pool;
    let offset = events.offset;
    if state == 0 {
        if events.main_offset == 0 {
            (None, offset)
        } else {
            (
                Some(
                    match spec_name_at(pool, events.main_offset as int, ConstantPoolTag::Class) {
                        Err(e) => Err(e),
                        Ok(name) => Ok(ModuleEventView::MainClass(name)),
                    },
                ),
                offset,
            )
        }
    } else if state == 1 {
        if events.packages_offset == 0 {
            (None, offset)
        } else {
            (
                Some(
                    match spec_read_u16(pool.data, events.packages_offset as int) {
                        Err(e) => Err(e),
                        Ok(count) => Ok(
                            ModuleEventView::Packages(
                                PackagesReaderIterator {
                                    reader,
                                    count,
                                    remaining: count,
                                    offset: (events.packages_offset + 2) as usize,
                                },
                            ),
                        ),
                    },
                ),
                offset,
            )
        }
    } else if state == 2 {
        spec_table_step(
            spec_table(pool.data, offset, 6),
            |count: u16, start: usize|
                ModuleEventView::Requires(
                    ModuleRequireReaderIterator { reader, count, remaining: count, offset: start },
                ),
            offset,
        )
    } else if state == 3 {
        spec_table_step(
            spec_relations(pool.data, offset),
            |count: u16, start: usize|
                ModuleEventView::Exports(
                    ModuleRelationReaderIterator { reader, count, remaining: count, offset: start },
                ),
            offset,
        )
    } else if state == 4 {
        spec_table_step(
            spec_relations(pool.data, offset),
            |count: u16, start: usize|
                ModuleEventView::Opens(
                    ModuleRelationReaderIterator { reader, count, remaining: count, offset: start },
                ),
            offset,
        )
    } else if state == 5 {
        spec_table_step(
            spec_table(pool.data, offset, 2),
            |count: u16, start: usize|
                ModuleEventView::Uses(
                    ClassesReaderIterator { reader, count, remaining: count, offset: start },
                ),
            offset,
        )
    } else if state == 6 {
        match spec_read_u16(pool.data, offset as int) {
            Err(e) => (Some(Err(e)), offset),
            Ok(count) => if count == 0 {
                (None, offset)
            } else {
                (
                    Some(
                        Ok(
                            ModuleEventView::Provides(
                                ModuleProvidesReaderIterator {
                                    reader,
                                    count,
                                    remaining: count,
                                    offset: (offset + 2) as usize,
                                },
                            ),
                        ),
                    ),
                    offset,
                )
            },
        }
    } else {
        (None, offset)
    }
}

/// The number of steps of the events of a module.
pub const MODULE_STEPS: u8 = 7;

/// The next event from where the events stand, and where they stand after
/// it.
pub open spec fn spec_module_next<'reader, 'class>(events: ModuleReaderEvents<'reader, 'class>) -> (
    Option<ClassFileResult<ModuleEventView<'reader, 'class>>>,
    ModuleReaderEvents<'reader, 'class>,
)
    decreases MODULE_STEPS - events.state,
{
    if events.state >= MODULE_STEPS {
        (None, events)
    } else {
        let step = spec_module_step(events, events.state);
        let after = ModuleReaderEvents { offset: step.1, state: (events.state + 1) as u8, ..events };
        match step.0 {
            Some(event) => (Some(event), after),
            None => spec_module_next(after),
        }
    }
}

/// All that the events of a module yield from where they stand to their
/// end, in the order in which they are yielded.
pub open spec fn spec_module_drain<'reader, 'class>(events: ModuleReaderEvents<'reader, 'class>) -> Seq<
    ClassFileResult<ModuleEventView<'reader, 'class>>,
>
    decreases MODULE_STEPS - events.state,
{
    if events.state >= MODULE_STEPS {
        Seq::empty()
    } else {
        let step = spec_module_step(events, events.state);
        let after = ModuleReaderEvents { offset: step.1, state: (events.state + 1) as u8, ..events };
        match step.0 {
            Some(event) => seq![event] + spec_module_drain(after),
            None => spec_module_drain(after),
        }
    }
}

/// The next event of a module is the first of all that the events yield,
/// and the events afterwards yield the rest; where there is no next event,
/// the events yield nothing, now or later.
pub proof fn law_module_next_takes_the_first<'reader, 'class>(events: ModuleReaderEvents<'reader, 'class>)
    ensures
        match spec_module_next(events).0 {
            Some(event) => spec_module_drain(events) == seq![event] + spec_module_drain(
                spec_module_next(events).1,
            ),
            None => spec_module_drain(events) == Seq::<ClassFileResult<ModuleEventView<'reader, 'class>>>::empty()
                && spec_module_next(spec_module_next(events).1).0 is None,
        },
    decreases MODULE_STEPS - events.state,
{
    if events.state < MODULE_STEPS {
        let step = spec_module_step(events, events.state);
        if step.0 is None {
            law_module_next_takes_the_first(
                ModuleReaderEvents { offset: step.1, state: (events.state + 1) as u8, ..events },
            );
        }
    }
}

/// The place of an event of a module in the order of the events: the main
/// class, the packages, then requires, exports, opens, uses and provides.
pub open spec fn spec_module_rank<'reader, 'class>(event: ModuleEventView<'reader, 'class>) -> int {
    match event {
        ModuleEventView::MainClass(_) => 0,
        ModuleEventView::Packages(_) => 1,
        ModuleEventView::Requires(_) => 2,
        ModuleEventView::Exports(_) => 3,
        ModuleEventView::Opens(_) => 4,
        ModuleEventView::Uses(_) => 5,
        ModuleEventView::Provides(_) => 6,
    }
}

/// Whether the events in `drained` come in their order, none of them
/// before the place `from` and none of a kind twice.
pub open spec fn spec_module_order<'reader, 'class>(
    drained: Seq<ClassFileResult<ModuleEventView<'reader, 'class>>>,
    from: int,
) -> bool
    decreases drained.len(),
{
    if drained.len() == 0 {
        true
    } else if drained[0] is Ok {
        spec_module_rank(drained[0]->Ok_0) >= from && spec_module_order(
            drained.drop_first(),
            spec_module_rank(drained[0]->Ok_0) + 1,
        )
    } else {
        spec_module_order(drained.drop_first(), from)
    }
}

/// Events that come in their order from a place on do so from any earlier
/// place on.
pub proof fn lemma_module_order_from_earlier<'reader, 'class>(
    drained: Seq<ClassFileResult<ModuleEventView<'reader, 'class>>>,
    from: int,
    earlier: int,
)
    requires
        spec_module_order(drained, from),
        earlier <= from,
    ensures
        spec_module_order(drained, earlier),
    decreases drained.len(),
{
    if drained.len() > 0 && !(drained[0] is Ok) {
        lemma_module_order_from_earlier(drained.drop_first(), from, earlier);
    }
}

/// The events of a module come in their order, and none of a kind twice:
/// the main class, the packages, requires, exports, opens, uses, provides.
pub proof fn law_module_events_come_in_order<'reader, 'class>(events: ModuleReaderEvents<'reader, 'class>)
    ensures
        spec_module_order(spec_module_drain(events), events.state as int),
    decreases MODULE_STEPS - events.state,
{
    if events.state < MODULE_STEPS {
        let step = spec_module_step(events, events.state);
        let after = ModuleReaderEvents { offset: step.1, state: (events.state + 1) as u8, ..events };
        let rest = spec_module_drain(after);
        law_module_events_come_in_order(after);
        match step.0 {
            Some(event) => {
                let all = seq![event] + rest;
                assert(all[0] == event);
                assert(all.drop_first() =~= rest);
                if event is Ok {
                    assert(spec_module_rank(event->Ok_0) == events.state);
                } else {
                    lemma_module_order_from_earlier(rest, events.state + 1, events.state as int);
                }
            },
            None => {
                lemma_module_order_from_earlier(rest, events.state + 1, events.state as int);
            },
        }
    }
}

/// A table of the `Module` attribute is yielded exactly where it has
/// items, and its reader has as many items as the table declares, from the
/// first of them on: so it is with requires, with uses and with provides,
/// whose tables are read by their count, and with exports and opens, whose
/// tables must be walked to their end.
pub proof fn law_module_table_is_yielded_where_it_has_items<'reader, 'class>(
    events: ModuleReaderEvents<'reader, 'class>,
    state: u8,
    count: u16,
)
    requires
        2 <= state < MODULE_STEPS,
        spec_read_u16(events.reader@.pool.data, events.offset as int) == Ok::<u16, ClassFileError>(count),
        state == 3 || state == 4 ==> spec_skip_relations(
            events.reader@.pool.data,
            (events.offset + 2) as usize,
            count as int,
        ) is Ok,
    ensures
        count == 0 <==> spec_module_step(events, state).0 is None,
        count > 0 ==> spec_module_step(events, state).0->Some_0 is Ok && spec_module_rank(
            spec_module_step(events, state).0->Some_0->Ok_0,
        ) == state,
        count > 0 && state == 2 ==> spec_module_step(events, state).0->Some_0->Ok_0->Requires_0 == (
        ModuleRequireReaderIterator {
            reader: events.reader,
            count,
            remaining: count,
            offset: (events.offset + 2) as usize,
        }),
        count > 0 && state == 3 ==> spec_module_step(events, state).0->Some_0->Ok_0->Exports_0 == (
        ModuleRelationReaderIterator {
            reader: events.reader,
            count,
            remaining: count,
            offset: (events.offset + 2) as usize,
        }),
        count > 0 && state == 4 ==> spec_module_step(events, state).0->Some_0->Ok_0->Opens_0 == (
        ModuleRelationReaderIterator {
            reader: events.reader,
            count,
            remaining: count,
            offset: (events.offset + 2) as usize,
        }),
        count > 0 && state == 5 ==> spec_module_step(events, state).0->Some_0->Ok_0->Uses_0 == (
        ClassesReaderIterator {
            reader: events.reader,
            count,
            remaining: count,
            offset: (events.offset + 2) as usize,
        }),
        count > 0 && state == 6 ==> spec_module_step(events, state).0->Some_0->Ok_0->Provides_0 == (
        ModuleProvidesReaderIterator {
            reader: events.reader,
            count,
            remaining: count,
            offset: (events.offset + 2) as usize,
        }),
{
}

impl<'reader, 'class> ModuleReaderEvents<'reader, 'class> {
    /// The main class of the module, if it names one.
    pub fn main_class(&self) -> (r: ClassFileResult<Option<JavaText>>)
        ensures
            self.main_offset == 0 ==> r == Ok::<Option<JavaText>, ClassFileError>(None),
            self.main_offset != 0 ==> crate::error::deep(r) == match spec_name_at(
                self.reader@.pool,
                self.main_offset as int,
                ConstantPoolTag::Class,
            ) {
                Err(e) => Err::<Option<Seq<u8>>, ClassFileError>(e),
                Ok(name) => Ok(Some(name)),
            },
    {
        if self.main_offset == 0 {
            return Ok(None);
        }
        Ok(Some(self.reader.constant_pool().name_at(self.main_offset, ConstantPoolTag::Class)?))
    }

    /// The packages of the module; none where it names no packages.
    pub fn packages(&self) -> (r: ClassFileResult<PackagesReaderIterator<'reader, 'class>>)
        ensures
            self.packages_offset == 0 ==> r == Ok::<PackagesReaderIterator<'reader, 'class>, ClassFileError>(
                PackagesReaderIterator { reader: self.reader, count: 0, remaining: 0, offset: 2 },
            ),
            self.packages_offset != 0 ==> r == match spec_read_u16(
                self.reader@.pool.data,
                self.packages_offset as int,
            ) {
                Err(e) => Err::<PackagesReaderIterator<'reader, 'class>, ClassFileError>(e),
                Ok(count) => Ok(
                    PackagesReaderIterator {
                        reader: self.reader,
                        count,
                        remaining: count,
                        offset: (self.packages_offset + 2) as usize,
                    },
                ),
            },
    {
        if self.packages_offset == 0 {
            return Ok(PackagesReaderIterator::new(self.reader, 0, 2));
        }
        let packages_count: u16 = self.reader.buffer().read_u16(self.packages_offset)?;
        Ok(PackagesReaderIterator::new(self.reader, packages_count, self.packages_offset + 2))
    }

    /// Reads the head of a table of items of `width` bytes at the offset of
    /// the events.
    fn table(&self, width: usize) -> (r: ClassFileResult<(Option<(u16, usize)>, usize)>)
        requires
            width == 2 || width == 6,
        ensures
            r == spec_table(self.reader@.pool.data, self.offset, width as int),
    {
        let buffer = self.reader.buffer();
        let count: u16 = buffer.read_u16(self.offset)?;
        let start: usize = self.offset + 2;
        if count == 0 {
            return Ok((None, start));
        }
        let bytes: usize = if width == 2 {
            2 * (count as usize)
        } else {
            6 * (count as usize)
        };
        assert(bytes == width * count) by (nonlinear_arith)
            requires
                width == 2 && bytes == 2 * count || width == 6 && bytes == 6 * count,
        ;
        Ok((Some((count, start)), buffer.advance(start, bytes)))
    }

    /// Reads the head of a table of exports or openings at the offset of the
    /// events, and finds the end of the table.
    fn relations(&self) -> (r: ClassFileResult<(Option<(u16, usize)>, usize)>)
        ensures
            r == spec_relations(self.reader@.pool.data, self.offset),
    {
        let buffer = self.reader.buffer();
        let count: u16 = buffer.read_u16(self.offset)?;
        let start: usize = self.offset + 2;
        if count == 0 {
            return Ok((None, start));
        }
        let mut at: usize = start;
        let mut i: u16 = 0;
        while i < count
            invariant
                i <= count,
                count != 0,
                start == self.offset + 2,
                buffer@ == self.reader@.pool.data,
                spec_read_u16(buffer@, self.offset as int) == Ok::<u16, ClassFileError>(count),
                spec_skip_relations(buffer@, start, count as int) == spec_skip_relations(
                    buffer@,
                    at,
                    count - i,
                ),
            decreases count - i,
        {
            let module_count: u16 = buffer.read_u16(buffer.advance(at, 4))?;
            at = buffer.advance(buffer.advance(at, 4), 2 + 2 * (module_count as usize));
            i = i + 1;
        }
        Ok((Some((count, start)), at))
    }

    /// What step `state` yields, if anything. The events move behind the
    /// table that the step reads.
    fn step(&mut self, state: u8) -> (r: Option<ClassFileResult<ModuleEvent<'reader, 'class>>>)
        ensures
            yielded(r) == spec_module_step(*old(self), state).0,
            *final(self) == (ModuleReaderEvents {
                offset: spec_module_step(*old(self), state).1,
                ..*old(self)
            }),
    {
        let reader = self.reader;
        match state {
            0 => {
                if self.main_offset == 0 {
                    return None;
                }
                match reader.constant_pool().name_at(self.main_offset, ConstantPoolTag::Class) {
                    Ok(name) => Some(Ok(ModuleEvent::MainClass(name))),
                    Err(e) => Some(Err(e)),
                }
            },
            1 => {
                if self.packages_offset == 0 {
                    return None;
                }
                match self.packages() {
                    Ok(packages) => Some(Ok(ModuleEvent::Packages(packages))),
                    Err(e) => Some(Err(e)),
                }
            },
            2 => match self.table(6) {
                Err(e) => Some(Err(e)),
                Ok((found, end)) => {
                    self.offset = end;
                    match found {
                        None => None,
                        Some((count, start)) => Some(
                            Ok(ModuleEvent::Requires(ModuleRequireReaderIterator::new(reader, count, start))),
                        ),
                    }
                },
            },
            3 => match self.relations() {
                Err(e) => Some(Err(e)),
                Ok((found, end)) => {
                    self.offset = end;
                    match found {
                        None => None,
                        Some((count, start)) => Some(
                            Ok(ModuleEvent::Exports(ModuleRelationReaderIterator::new(reader, count, start))),
                        ),
                    }
                },
            },
            4 => match self.relations() {
                Err(e) => Some(Err(e)),
                Ok((found, end)) => {
                    self.offset = end;
                    match found {
                        None => None,
                        Some((count, start)) => Some(
                            Ok(ModuleEvent::Opens(ModuleRelationReaderIterator::new(reader, count, start))),
                        ),
                    }
                },
            },
            5 => match self.table(2) {
                Err(e) => Some(Err(e)),
                Ok((found, end)) => {
                    self.offset = end;
                    match found {
                        None => None,
                        Some((count, start)) => Some(
                            Ok(ModuleEvent::Uses(ClassesReaderIterator::new(reader, count, start))),
                        ),
                    }
                },
            },
            6 => match reader.buffer().read_u16(self.offset) {
                Err(e) => Some(Err(e)),
                Ok(count) => {
                    if count == 0 {
                        return None;
                    }
                    Some(
                        Ok(
                            ModuleEvent::Provides(
                                ModuleProvidesReaderIterator::new(reader, count, self.offset + 2),
                            ),
                        ),
                    )
                },
            },
            _ => None,
        }
    }

    /// The next event of the module, or nothing behind the last one.
    pub fn next(&mut self) -> (r: Option<ClassFileResult<ModuleEvent<'reader, 'class>>>)
        ensures
            yielded(r) == spec_module_next(*old(self)).0,
            *final(self) == spec_module_next(*old(self)).1,
    {
        loop
            invariant
                spec_module_next(*old(self)) == spec_module_next(*self),
            decreases MODULE_STEPS - self.state,
        {
            let state: u8 = self.state;
            if state >= MODULE_STEPS {
                return None;
            }
            let event = self.step(state);
            self.state = state + 1;
            match event {
                Some(event) => {
                    return Some(event);
                },
                None => {},
            }
        }
    }
}

} // verus!
